//! The navigation and selection engine of a desktop directory browser.
//!
//! The engine keeps the directory that is shown and the history of the
//! directories that were left, lays directory entries out on a wrapping grid,
//! decides which entries a drag rectangle selects, and decides what a rename
//! or a delete may do. It never touches the filesystem or the screen itself:
//! the host reads and draws, and hands the engine plain values.
//!
//! - [`path`]: absolute, normalised paths and their text.
//! - [`app`]: the current directory, going back and forth, opening and
//!   jumping.
//! - [`listing`]: the entries of a directory, made from what the host read.
//! - [`file_ops`]: what a delete or a rename is allowed to do.
//! - [`selection`]: the drag rectangle and what it highlights.
//! - [`grid`]: columns, rows and positions of the icon grid.
//! - [`path_box`]: the box in which a path is typed.
//! - [`error`]: the failures that are reported.

pub mod app;
pub mod error;
pub mod file_ops;
pub mod grid;
pub mod listing;
pub mod path;
pub mod path_box;
pub mod selection;
