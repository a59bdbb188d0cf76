//! Recovery of PNG image dimensions whose IHDR fields were damaged while the
//! chunk's stored CRC32 stayed intact.
pub mod be;
pub mod crc;
pub mod ihdr;
pub mod repair;
pub mod search;
