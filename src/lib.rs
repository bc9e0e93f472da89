//! Image buffers whose channels are held either in an exclusively owned
//! vector or in reference-counted storage, with copy-on-write mutation.

pub mod channel;
pub mod dynamic;
pub mod external;
pub mod image;
pub mod laws;
pub mod pixel;
mod sealed;
pub mod shared_vec;
mod storage;

pub use channel::{ImageChannel, UnsafeImageChannel};
pub use dynamic::{DynamicImage, DynamicImageChannel};
pub use image::Image;
