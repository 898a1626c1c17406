//! Input delivery and the state-adjacent mechanism around it.
//!
//! Everything here behaves identically whatever the window-management policy:
//! pointer, touch and scroll delivery with correct enter/leave and serial
//! discipline, interactive move/resize grabs, drag-and-drop, hit testing,
//! frame callbacks and presentation feedback, and the focus *mechanics*. Where
//! a question is policy - what is visible, in what order - it is asked of the
//! shell.
pub mod drag;
pub mod focus;
pub mod frames;
pub mod grab;
pub mod hit;
pub mod outputs;
pub mod pointer;
pub mod popups;
pub mod scroll;
pub mod touch;
