pub mod geometry;
pub mod color;
pub mod framebuffer;
pub mod transfer;
pub mod weather;
pub mod render;
pub mod scene;
pub mod clock;
