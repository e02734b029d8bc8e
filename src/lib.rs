//! A drawing board's entity store: live and soft-deleted strokes and text
//! labels kept in slot maps, an undo/redo log over them, and the eraser's
//! hit test.

mod arena;
mod entity;
mod geometry;
pub mod laws;
mod state;

pub use arena::{stroke_slots, text_slots, Arena, SLOT_LIMIT};
pub use entity::{
    append_input_to_working_text, BackgroundColor, Color, ForegroundColor, Stroke, Text,
    TextColor, TextSize,
};
pub use geometry::{check_collision_circles, Point};
pub use state::{buries, erasable, moved, stroke_touches, Action, State};
pub use slotmap::DefaultKey;
