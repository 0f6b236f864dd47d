use vstd::prelude::*;

verus! {

/// Every way a load can fail. A load is fail-fast: the first condition hit
/// is returned and no partial mesh is ever produced.
///
/// `IoError` and `DecodeError` are raised by the caller that reads files
/// and decodes images; the parsing and reindexing functions here raise the
/// remaining kinds.
#[derive(Clone, Copy, Debug, PartialEq, Eq, Structural)]
pub enum LoadError {
    /// A file could not be opened or read.
    IoError,
    /// An unrecognized record keyword in the model or material grammar.
    UnknownToken,
    /// A numeric field that does not parse as a number.
    MalformedNumber,
    /// A face record without exactly three vertex references.
    UnsupportedTopology,
    /// A material reference to a name never registered.
    UnknownMaterial,
    /// A face-vertex index outside the parsed attribute arrays.
    ArrayIndexError,
    /// An image file failed to decode.
    DecodeError,
    /// A decoded image with a channel layout the upload path does not know.
    UnsupportedFormat,
}

} // verus!
