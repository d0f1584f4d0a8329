//! Drag-and-drop reordering of a list of items: the permutation model, hit
//! testing, the slide animation, the layout pass and the drag state machines.
pub mod direction;
pub mod drag;
pub mod geometry;
pub mod order;
pub mod render;
pub mod slide;
pub mod sortable;
pub mod style;

pub use direction::Direction;
pub use drag::{DragContext, DragEvent, DragPosition, DragState, DropUpdate};
pub use geometry::Rect;
pub use order::Order;
pub use slide::Slide;
pub use sortable::SortableState;
pub use style::{Style, StyleTag};
