//! Structural analysis of Windows Portable Executable images held in memory.
//!
//! [`analysis::analyze`] checks that a byte buffer is a PE image, tells
//! whether it is a 32-bit or a 64-bit one, and lists its sections, the
//! functions it exports and the functions it imports. Each step is a
//! function of its own with a contract over the bytes of the image.

pub mod analysis;
pub mod bytes;
pub mod directory;
pub mod error;
pub mod export;
pub mod header;
pub mod import;
pub mod section;
pub mod sort;
pub mod text;
