//! A character-cell overlay and hierarchical menu library.
//!
//! The library models a fixed-size glyph grid (`Panel`), a tree of named
//! menu nodes with per-node navigation cursors (`MenuTree`), and a stack of
//! open menus that routes input events to the top entry (`MenuStack`).
//! Rendering and input polling belong to the host application; this crate
//! owns the data model and the navigation state machine.

pub mod error;
pub mod font;
pub mod menu;
pub mod panel;
pub mod stack;
