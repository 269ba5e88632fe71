//! The navigation core of a full-screen directory browser for the terminal.
//!
//! The browser shows the children of one directory as a list, with a cursor
//! on one row. Keys move the cursor, go into the directory under it, go out
//! to the parent, and show or hide hidden files. This crate holds what
//! decides all of that, and nothing that touches a terminal or a file system:
//!
//! - [`path`]: paths as text, their order, their name and parent;
//! - [`entry`]: a child of a directory;
//! - [`listing`]: which children are listed, and in what order;
//! - [`state`]: the browser's state and what each command does to it;
//! - [`render`]: the lines that show a state;
//! - [`laws`]: what holds of the state in every case, proved.
//!
//! A program drives it in a loop: draw `render::format_screen_lines`, read a
//! key, ask `state::needed_directory` which directory the key's command needs,
//! read that directory, and hand what came of it to `state::handle_keypress`.

pub mod entry;
pub mod laws;
pub mod listing;
pub mod path;
pub mod render;
pub mod state;
