//! A retained-mode GUI layout and event-handling core.
//!
//! The crate provides the pieces a widget toolkit needs between the
//! windowing shell and the application: a one-dimensional size-constraint
//! algebra ([`layout::SizeRules`]), solvers that combine child constraints
//! for row, column and grid layouts and later distribute a resolved
//! rectangle back over the children, a small widget set (labels, lists,
//! a draggable handle, a data-driven list view), and the session state
//! consulted during event dispatch (press grabs, redraw and reconfigure
//! requests).
//!
//! Rendering and windowing are deliberately out of scope: widgets emit
//! abstract draw commands and receive plain input events, so a shell can
//! drive the core through values alone.

pub mod display;
pub mod draw;
pub mod event;
pub mod geom;
pub mod layout;
pub mod toolkit;
pub mod widget;
