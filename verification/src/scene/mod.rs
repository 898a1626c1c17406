//! Scene building.
//!
//! Turns compositor state into a scene: a flat, back-to-front list of textured
//! quads in an output's logical coordinates. Surface position, subsurface
//! offsets, `wp_viewport` cropping and scaling, and buffer scale all resolve
//! here into a source rectangle paired with a destination rectangle.
//!
//! No client pixels are copied. A texture says where in the client's shm
//! mapping its pixels lie. The cache therefore holds no client pixels either -
//! only enough about the last frame to say what the backend already has, so
//! damage can be expressed against it.
pub mod images;
pub mod paint;
pub mod compose;
pub mod cursor;
pub mod damage;
pub mod theme;
