//! Reconstruction and browsing of ModSecurity audit logs.
//!
//! An audit log is a text of blocks, each opened by a boundary line
//! `--<id>-<letter>--`. The blocks of one id make up a chain: one logical event.
//!
//! * [`parser`] extracts a record from each block and reconstructs the chains
//!   of a log; [`segment`] cuts the text into blocks, [`grouping`] gathers the
//!   records of each id, and [`ordering`] puts the chains most recent first.
//! * [`app`] is the state of an interactive session over the chains:
//!   selection, viewport, search and detail view; [`search`] is its query
//!   language and [`input`] says what each key and click does.
//! * [`ipapi`] caches lookups of client addresses by /24 subnet.
//! * [`loading`], [`ui`] and [`colors`] decide what the screens show; drawing
//!   is left to the program around this library.
//! * [`text`], [`pattern`], [`timestamp`] and [`clock`] hold what is taken
//!   from the standard library, `regex` and `chrono`; [`sequences`] holds laws
//!   of sequences.

pub mod app;
pub mod clock;
pub mod colors;
pub mod grouping;
pub mod input;
pub mod ipapi;
pub mod loading;
pub mod ordering;
pub mod parser;
pub mod pattern;
pub mod search;
pub mod segment;
pub mod sequences;
pub mod text;
pub mod timestamp;
pub mod ui;
