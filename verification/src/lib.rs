//! A bottom-anchored terminal chat transcript.
//!
//! A transcript is an ordered sequence of messages from two speakers; the
//! newest message is the one being composed and takes character-level
//! edits. The layout engine is a pure projection from a transcript and a
//! viewport size to draw regions: newest message pinned to the bottom,
//! older messages stacked above it, the topmost visible message cropped
//! from above when the viewport runs out of rows.

pub mod layout;
pub mod message;
pub mod wrap;
