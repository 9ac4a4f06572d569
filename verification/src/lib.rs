//! Codec for the frames that a vehicle terminal and a platform server
//! exchange: a byte cursor with big-endian integers and GBK text, a closed
//! traversal of typed values, and the frame model built on both.

pub mod packet;
pub mod serde;
