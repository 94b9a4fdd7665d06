use vstd::prelude::*;

verus! {

/// Classification of every way a parse can fail. All failures are fatal to
/// the operation that meets them and propagate to the top-level entry point.
#[derive(Clone, Copy, Debug, PartialEq, Eq, Structural)]
pub enum UdfError {
    /// Fewer bytes are available than the record being read requires.
    ShortRead,
    /// A record's type identifier does not match what the caller expected.
    TagMismatch,
    /// A partition number, a partition-map index or a base-partition
    /// reference does not resolve to a usable table entry.
    UnresolvedReference,
    /// An allocation-descriptor type or partition-map type outside what this
    /// reader implements.
    UnsupportedFormat,
    /// An unrecognized name-compression identifier, or name bytes that do not
    /// decode under the declared compression.
    CharsetError,
}

} // verus!
