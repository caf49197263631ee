//! Core of a terminal kanban/sticky-note board: the note/column data model
//! with its mutation invariants, the viewport scrolling policy, the embedded
//! multi-line text editor, the note form, and the multi-view navigation state
//! machine. Input decoding, persistence and rendering live outside this crate
//! and talk to it through plain values.

pub mod scroll;
pub mod text;
pub mod time;
pub mod model;
pub mod editor;
pub mod form;
pub mod sort;
pub mod projections;
pub mod nav;
pub mod location;
pub mod cli;
mod ids;
pub mod app;
