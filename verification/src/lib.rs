//! Runtime core of a terminal file manager: chorded key resolution, tracking of
//! background file operations, and the decisions of the main loop.

pub mod key;
pub mod keymap;
pub mod resolver;
pub mod menu;
pub mod tracker;
pub mod request;
pub mod context;
pub mod reload;
pub mod run;
