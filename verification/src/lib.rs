//! Navigation core of a two-pane terminal file browser.
//!
//! The library holds the pane state machine: per-pane current directory,
//! entry list and selection, plus the controller that interprets key codes
//! as transitions. Directory reading, terminal drawing and key input are
//! I/O and stay outside; the controller asks for a listing through an
//! [`nav::Action`] and is handed the result back.

pub mod nav;
pub mod pane;
pub mod paths;
