//! A terminal text editor core: a character-indexed text buffer backed by a
//! rope, an undo/redo history with time-windowed coalescing of edits, a
//! scrolling viewport, and an incremental renderer that repaints only the
//! screen rows whose content changed.

pub mod dirty;
pub mod editor;
pub mod history;
pub mod input;
pub mod render;
pub mod text;
pub mod viewport;
