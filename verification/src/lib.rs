//! Bitmap-font atlas generation: a character set and a list of fonts become
//! packed power-of-two texture pages and the descriptors that go with them.

pub mod canvas;
pub mod charset;
pub mod descriptor;
pub mod fixed;
pub mod fonts;
pub mod metrics;
pub mod packer;
pub mod pipeline;
pub mod raster;
pub mod types;
