//! A compact, reversible image-to-text codec: an image is compressed into a
//! short printable hash over an 83-character alphabet, and a blurred
//! approximation of it is rebuilt from that hash at any target resolution.
//!
//! All color and frequency arithmetic is carried out in fixed-point integers
//! at scale 65536, so every step of the pipeline is stated and proved exactly.

pub mod base_83;
pub mod color;
pub mod fixed;
pub mod errors;
pub mod decode;
pub mod encode;
pub mod roundtrip;

pub use base_83::decode83;
pub use base_83::encode83;
pub use errors::EncodeError;
pub use errors::DecodeError;
pub use decode::decode;
pub use encode::encode;
