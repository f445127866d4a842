//! Endian-aware, bounds-checked views over byte buffers.

pub mod endian_slice;
pub mod endianity;

pub use endian_slice::{EndianSlice, Error};
pub use endianity::{BigEndian, Endianity, LittleEndian, NativeEndian, RunTimeEndian};
