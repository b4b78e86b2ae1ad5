//! Touch-driven direct manipulation of on-screen elements: geometry of
//! boxes, a tree of elements, aging and clustering of touch samples, and
//! clamped movement of the element a gesture lands on.

pub mod bounding_box;
pub mod form;
pub mod swipe;
