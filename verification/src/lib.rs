//! Reader for the descriptor chain of a UDF/ECMA-167 volume image.
//!
//! The crate decodes the on-disk records of a volume image held as plain
//! bytes: it locates the anchor pointer, walks the volume descriptor
//! sequence, builds the partition map table, translates logical block
//! addresses (including one level of metadata-file indirection), and decodes
//! the root directory's file identifier records into named entries.
//! Obtaining the bytes (opening a file, reading it) is the caller's concern.

pub mod anchor;
pub mod bytes;
pub mod dir;
pub mod errors;
pub mod names;
pub mod partmap;
pub mod records;
pub mod resolve;
pub mod tag;
pub mod vds;
pub mod volume;
