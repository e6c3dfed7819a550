pub mod bits;
pub mod buckets;
pub mod buffers;
pub mod desc;
pub mod ffi;
pub mod frame;
pub mod frame_laws;
pub mod gfx2d;
pub mod gfx3d;
pub mod grass;
pub mod grid;
pub mod handles;
pub mod index;
pub mod math;
pub mod order_laws;
pub mod samplers;
pub mod sky;
pub mod slots;
pub mod startup;
pub mod stream_laws;
pub mod terrain;
pub mod texture_laws;
pub mod textures;
pub mod underwater;
pub mod water;
