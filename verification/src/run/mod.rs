//! What the event loop decides: frame pacing, and what each event from a
//! client's connection or from the backend does to the state.
//!
//! The loop itself waits, reads and sends; everything it decides on the way is
//! here. Where the window-management policy has to be asked in the middle of
//! an event, the event is in two parts and the answer is handed to the second.
pub mod buttons;
pub mod clients;
pub mod displays;
pub mod housekeeping;
pub mod keyboard;
pub mod pacer;
