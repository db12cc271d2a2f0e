//! A software rasterizer's integer core: texture storage and clamped
//! sampling, the framebuffer that receives pixel writes, the winding test
//! that culls and orients triangles and the ordering of their corners, and
//! the face and vertex bookkeeping of OBJ meshes.

pub mod decimal;
pub mod framebuffer;
pub mod indexing;
pub mod obj;
pub mod texture;
pub mod winding;
