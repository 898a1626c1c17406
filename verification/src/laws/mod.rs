//! What holds of the library as a whole, across its operations.
pub mod answers;
pub mod bindings;
pub mod buffers;
pub mod commits;
pub mod composing;
pub mod configures;
pub mod damage;
pub mod delivery;
pub mod describing;
pub mod dialogue;
pub mod displays;
pub mod dragging;
pub mod exchange;
pub mod families;
pub mod filling;
pub mod focus;
pub mod frames;
pub mod globals;
pub mod grabs;
pub mod ground;
pub mod hitting;
pub mod ids;
pub mod input;
pub mod layers;
pub mod memory;
pub mod outputs;
pub mod panels;
pub mod pasting;
pub mod places;
pub mod refusals;
pub mod replies;
pub mod requests;
pub mod resizing;
pub mod roles;
pub mod scenes;
pub mod short;
pub mod siblings;
pub mod sources;
pub mod sync;
pub mod teardown;
pub mod tree;
pub mod unknown;
pub mod windows;
