//! The error taxonomy of a single file's conversion. Each variant aborts
//! only that file; the batch carries on.

use vstd::prelude::*;

verus! {

/// Why one file's conversion failed.
#[derive(Clone, Copy, Debug, PartialEq, Eq, Structural)]
pub enum ConvertError {
    /// The source file could not be read.
    Open,
    /// The raster could not be decoded from the source bytes.
    Load,
    /// The embedded metadata could not be parsed from the source bytes.
    ParseMeta,
    /// The destination's directory tree could not be created.
    LeadingDirectories,
    /// The source path has no usable file stem.
    UglyFile,
    /// The destination bytes could not be written.
    Write,
    /// The metadata could not be stamped onto the written destination.
    WriteMeta,
}

impl ConvertError {
    /// The fixed part of the message reported for this failure.
    pub open spec fn spec_message(self) -> Seq<char> {
        match self {
            ConvertError::Open => "cannot open image"@,
            ConvertError::Load => "cannot load image"@,
            ConvertError::ParseMeta => "cannot parse EXIF metadata"@,
            ConvertError::LeadingDirectories => "cannot create target directory"@,
            ConvertError::UglyFile => "does not look like a file"@,
            ConvertError::Write => "cannot write resized image"@,
            ConvertError::WriteMeta => "cannot write EXIF metadata"@,
        }
    }

    /// The fixed part of the message reported for this failure.
    pub fn message(&self) -> (r: &'static str)
        ensures
            r@ == self.spec_message(),
    {
        match self {
            ConvertError::Open => "cannot open image",
            ConvertError::Load => "cannot load image",
            ConvertError::ParseMeta => "cannot parse EXIF metadata",
            ConvertError::LeadingDirectories => "cannot create target directory",
            ConvertError::UglyFile => "does not look like a file",
            ConvertError::Write => "cannot write resized image",
            ConvertError::WriteMeta => "cannot write EXIF metadata",
        }
    }
}

} // verus!
