//! An encrypted TCP tunnel: a plaintext byte stream is cut into fixed-size,
//! sentinel-padded frames, each sealed by a secretstream pusher and opened
//! in order by the matching puller on the other side.

pub mod error;
pub mod frame;
pub mod pipeline;
pub mod secretstream;
pub mod session;
pub mod sodium;
