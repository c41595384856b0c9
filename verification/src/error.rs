//! The error taxonomy of the gallery pipeline.

use vstd::prelude::*;

verus! {

/// Everything that can go wrong while building a gallery.
///
/// Path-shaped failures carry the offending path; parse failures carry the
/// offending text.  Encoding, directory and codec failures arise only at the
/// filesystem boundary around the library, which constructs these values so
/// that every failure of one run is reported in the same shape.
#[derive(Debug, PartialEq, Eq)]
pub enum GalleryError {
    /// A path had more than one component (or none) where exactly one
    /// path segment was required.
    InvalidPathShape { path: String },
    /// A path could not be decoded as text.
    EncodingError { path: String },
    /// A file name had no stem to derive an image name from.
    StemDecodeError { path: String },
    /// The base directory of a scan could not be opened.
    DirectoryReadError { path: String },
    /// A single directory entry's metadata could not be read.
    EntryReadError { path: String },
    /// The metadata descriptor of a collection is present but malformed.
    MetadataParseError { cause: String },
    /// The image codec could not decode a source image or encode a thumbnail.
    CodecError { path: String },
    /// The templating collaborator failed to produce a page.
    RenderError { cause: String },
}

impl GalleryError {
    /// A short, fixed label naming the kind of failure.
    pub fn kind(&self) -> (r: &'static str)
        ensures
            r@ == self.kind_spec(),
    {
        match self {
            GalleryError::InvalidPathShape { .. } => "invalid path shape",
            GalleryError::EncodingError { .. } => "path encoding error",
            GalleryError::StemDecodeError { .. } => "file stem error",
            GalleryError::DirectoryReadError { .. } => "directory read error",
            GalleryError::EntryReadError { .. } => "entry read error",
            GalleryError::MetadataParseError { .. } => "metadata parse error",
            GalleryError::CodecError { .. } => "image codec error",
            GalleryError::RenderError { .. } => "render error",
        }
    }

    /// What `kind` returns for each variant.
    pub open spec fn kind_spec(&self) -> Seq<char> {
        match self {
            GalleryError::InvalidPathShape { .. } => "invalid path shape"@,
            GalleryError::EncodingError { .. } => "path encoding error"@,
            GalleryError::StemDecodeError { .. } => "file stem error"@,
            GalleryError::DirectoryReadError { .. } => "directory read error"@,
            GalleryError::EntryReadError { .. } => "entry read error"@,
            GalleryError::MetadataParseError { .. } => "metadata parse error"@,
            GalleryError::CodecError { .. } => "image codec error"@,
            GalleryError::RenderError { .. } => "render error"@,
        }
    }
}

} // verus!
