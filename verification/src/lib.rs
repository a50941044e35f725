//! Readers and codecs for a console game's packaged-asset format.
//!
//! A package is a trio of companion files: an index file (counts, page-size
//! tables, streaming-texture records), an object-index file (per-section
//! object metadata), and a streamed-data file (raw pages holding component
//! payloads).  The library resolves which byte range in the streamed-data
//! file belongs to which metadata record, and decodes / re-encodes the
//! streaming model and console texture header formats.

use vstd::prelude::*;

pub mod bytes;
pub mod gcg;
pub mod gct;
pub mod soi;
pub mod soup;
pub mod stream;
pub mod utils;

verus! {

/// Failure kinds shared by the readers and codecs.
///
/// `Format` covers magic mismatches, truncated pages, offsets running past a
/// blob's length, and declared-size / computed-size disagreements.  `Io` is
/// reserved for the file-reading layer around the library; nothing in the
/// library itself produces it.  A lookup miss is not an error: the `find_*`
/// queries return `Option` instead.
#[derive(Clone, Copy, Debug, PartialEq, Eq, Structural)]
pub enum PackError {
    Format,
    Io,
}

} // verus!
