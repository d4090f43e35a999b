//! Decoding of block-structured packet capture files, and hex dumps of
//! the byte regions that the decoder leaves opaque.

pub mod endian;
pub mod block;
pub mod render;
