//! Verified core of a companion service for a 128x64 monochrome OLED display
//! that sits in a USB headset base station.
//!
//! The crate holds the logic of the service: the bit-packed bitmap, the HID
//! report codec, the layer store and the render worker's decisions. Everything
//! that touches a device, a clock or a thread lives outside and hands plain
//! values in.

pub mod bits;
pub mod bitmap;
pub mod report;
pub mod event;
pub mod device;
pub mod layer;
pub mod anim;
pub mod text_layout;
pub mod render;
pub mod platform;
pub mod volume;
pub mod text;
pub mod picture;

pub use crate::bitmap::Bitmap;
pub use crate::bitmap::Raster;
