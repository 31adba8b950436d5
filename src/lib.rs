//! Alpha flattening for raster image data: composites every RGBA pixel over an
//! opaque white background and drops the alpha channel.

pub mod composite;
pub mod packing;
pub mod alpha_remover;

pub use alpha_remover::{flatten, flatten_rgba16, flatten_rgba8, ColorSpace, ColorType, RasterImage, RemoveAlpha};
pub use composite::{composite_sample, remove_alpha_from_4_channel};
pub use packing::{narrow_samples, pack_u16_be, unpack_u16_be, widen_samples};
