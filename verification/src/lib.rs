//! Reader for ADAT archive containers.
//!
//! A container is one byte image made of a 16-byte header, a table of
//! contents of fixed-size records, and one zlib-compressed payload per
//! record. Mounting validates the header, reads the table of contents and
//! builds a name index; entries are then inflated on demand, bounded by the
//! size that their record declares.

pub mod cursor;
pub mod entry;
pub mod error;
pub mod header;
pub mod inflate;
pub mod laws;
pub mod package;
pub mod text;
pub mod wire;
