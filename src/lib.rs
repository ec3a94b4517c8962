//! The decisions of a 2D scene editor overlay, apart from the engine and the UI that
//! run them: the ordered selection of entities and its replace/toggle semantics, the
//! bridge between that selection and the engine's per-entity selection flags, which of
//! UI and scene takes the pointer, when camera panning is on, the camera viewport left
//! free by the UI, the camera's approach to a focus target, and the grid's cell count.

pub mod editor;
pub mod focus;
pub mod grid;
pub mod selection;
pub mod viewport;
