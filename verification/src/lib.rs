//! Interactive core of a terminal change selector: a hierarchical tristate
//! model of files, sections and lines, a selection and expansion state
//! machine over the visible item list, coherence rules tying file-mode
//! pseudo-sections to content lines, a viewport scroller, and a pure
//! event-to-state-update reducer.  Terminal rendering and raw input live
//! outside this crate; everything here is plain data and verified logic.

pub mod app;
pub mod commit;
pub mod event;
pub mod file;
pub mod input;
pub mod keys;
pub mod laws;
pub mod line;
pub mod recorder;
pub mod render;
pub mod section;
pub mod types;
pub mod view;
pub mod widgets;
