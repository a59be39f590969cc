//! A collapsible outline of a directory tree: the entries of one scan, the
//! rows that are on screen for the current expand flags, and the cursor that
//! moves over them.
//!
//! - `entry`: one file or directory of a scan.
//! - `scan`: from the steps of a walk of the file system to the list of
//!   entries.
//! - `tree`: which entries are on screen, and how a toggle changes that.
//! - `lemmas`: what holds of the visible list and of toggles.
//! - `tui`: a session's scan, rows and cursor, and what each move does to
//!   them.
//! - `events`: keys, and what they ask of a session.
//! - `session`: the course of a session from entering the terminal to
//!   leaving it.
//! - `rows`, `view`: the rows of the interactive screen and the lines of the
//!   classic listing, as styled pieces of text.
//! - `style`: colors and styled text.
//! - `utils`: sizes and permission bits as text.
//! - `app`: what the command line asks for.
//!
//! The library reads no file, draws nothing and waits for no key. Its caller
//! walks the file system and hands over what it found, and does to the
//! terminal what the session tells it to.

pub mod app;
pub mod entry;
pub mod events;
pub mod lemmas;
pub mod rows;
pub mod scan;
pub mod session;
pub mod style;
pub mod tree;
pub mod tui;
pub mod utils;
pub mod view;
