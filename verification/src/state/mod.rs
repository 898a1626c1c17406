//! What the compositor knows.
pub mod actions;
pub mod client_state;
pub mod commit;
pub mod compositor_state;
pub mod drags;
pub mod family;
pub mod fill;
pub mod grabs;
pub mod memory;
pub mod offers;
pub mod panels;
pub mod placement;
pub mod selections;
pub mod serials;
pub mod surfaces;
pub mod teardown;
pub mod types;
pub mod xdg;
pub mod keyboard;
