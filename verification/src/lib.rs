//! Bit-level access to integers and to bit strings.
//!
//! [`Bit`] is a single bit, [`Bits`] an ordered string of bits whose first
//! entry is the most significant one, and [`BitMan`] reads and writes the
//! bits of a value by index.
pub mod access;
pub mod bit;
pub mod bits;
pub mod bytes;
pub mod model;
pub mod word;

pub use crate::access::BitMan;
pub use crate::bit::Bit;
pub use crate::bits::Bits;
pub use crate::word::Word;
