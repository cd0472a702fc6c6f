//! A wallpaper-rotation daemon core: a bounded, navigable history of shown
//! images, a mode state machine (linear / random / static / fallback), and a
//! line-oriented command protocol, all with verified contracts.

pub mod history;
pub mod state;
pub mod text;
pub mod protocol;
pub mod args;
