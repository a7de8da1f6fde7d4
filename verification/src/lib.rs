//! Cursor and selection movement for a headless text editor.
//!
//! Given a navigation command, the current multi-cursor selection, and
//! read-only views of the document and its line layout, this crate computes
//! the new selection.

pub mod laws;
pub mod movement;
pub mod selection;
pub mod text;
pub mod view;
pub mod words;

pub use crate::movement::Movement;
pub use crate::movement::region_movement;
pub use crate::movement::scroll_height;
pub use crate::movement::selection_movement;
pub use crate::movement::vertical_motion;
pub use crate::selection::Affinity;
pub use crate::selection::HorizPos;
pub use crate::selection::SelRegion;
pub use crate::selection::Selection;
pub use crate::text::Text;
pub use crate::view::ViewLayout;
pub use crate::words::WordCursor;
