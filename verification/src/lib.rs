//! A reader for ZIP archives that works on byte ranges fetched on demand.
//!
//! The caller hands over the tail of an archive, then the central
//! directory, then the bytes of one member at a time; the library locates
//! and checks the records in each buffer and never asks for the whole file.

pub mod central;
pub mod codec;
pub mod eocd;
pub mod layout;
pub mod local;
pub mod names;
pub mod reader;
pub mod session;

pub use session::{Range, LSZR};
