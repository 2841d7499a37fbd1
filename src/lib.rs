//! A software raycaster's integer core: RGBA colors and their packed form,
//! pixel images, the BGRA pixel buffer a frame is rendered into, and the
//! flat material and unlit lighting models.

pub mod color;
pub mod grid;
pub mod image;
pub mod canvas;
pub mod shading;
