//! Core of a vector-drawing application's selector pen tool.
//!
//! The selector turns a stream of pointer and keyboard events into selection,
//! translation, rotation and resizing of strokes on a canvas. All geometry is
//! carried in exact integer document units, so every state transition and
//! every geometric update is stated and proved precisely.

pub mod engine;
pub mod env;
pub mod geom;

pub mod laws;
pub mod options;
pub mod penevent;
pub mod penevents;
pub mod selector;
pub mod shape;
pub mod store;

use vstd::prelude::*;

verus! {

/// A selection offset is applied only when it exceeds a small threshold
/// divided by the camera zoom; see `geom::offset_exceeds_threshold`.
pub const TRANSLATE_OFFSET_THRESHOLD: i64 = 2;

} // verus!
