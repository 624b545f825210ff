//! The two output formats and their names.

use vstd::prelude::*;
use crate::text::str_eq;

verus! {

/// The container the archive is written in.
#[derive(Debug, Clone, Copy, PartialEq, Eq, Structural)]
pub enum CompressionFormat {
    /// A ZIP archive whose entries are DEFLATE-compressed.
    ZipDeflate,
    /// A tar stream split into concatenated Zstandard frames.
    TarZstd,
}

/// A format name other than `zip` or `zstd`.
#[derive(Debug, Clone, Copy, PartialEq, Eq, Structural)]
pub struct CompressionFormatParseError;

/// The media type a download of the archive is announced with.
pub open spec fn mime_type_of(f: CompressionFormat) -> Seq<char> {
    match f {
        CompressionFormat::ZipDeflate => "application/zip"@,
        CompressionFormat::TarZstd => "application/zstd"@,
    }
}

/// The extension the archive file gets, without the leading dot.
pub open spec fn file_ending_of(f: CompressionFormat) -> Seq<char> {
    match f {
        CompressionFormat::ZipDeflate => "zip"@,
        CompressionFormat::TarZstd => "tar.zst"@,
    }
}

/// The short name the format is given on the command line.
pub open spec fn name_of(f: CompressionFormat) -> Seq<char> {
    match f {
        CompressionFormat::ZipDeflate => "zip"@,
        CompressionFormat::TarZstd => "zstd"@,
    }
}

impl CompressionFormat {
    pub fn get_mime_type(&self) -> (r: &'static str)
        ensures
            r@ == mime_type_of(*self),
    {
        match self {
            CompressionFormat::ZipDeflate => "application/zip",
            CompressionFormat::TarZstd => "application/zstd",
        }
    }

    pub fn get_file_ending(&self) -> (r: &'static str)
        ensures
            r@ == file_ending_of(*self),
    {
        match self {
            CompressionFormat::ZipDeflate => "zip",
            CompressionFormat::TarZstd => "tar.zst",
        }
    }

    /// The format's short name, `zip` or `zstd`.
    pub fn name(&self) -> (r: &'static str)
        ensures
            r@ == name_of(*self),
    {
        match self {
            CompressionFormat::ZipDeflate => "zip",
            CompressionFormat::TarZstd => "zstd",
        }
    }

    /// Reads a format from its short name; anything else is refused.
    pub fn parse(s: &str) -> (r: Result<CompressionFormat, CompressionFormatParseError>)
        ensures
            r is Ok <==> (s@ == "zip"@ || s@ == "zstd"@),
            s@ == "zip"@ ==> r == Ok::<CompressionFormat, CompressionFormatParseError>(CompressionFormat::ZipDeflate),
            s@ == "zstd"@ ==> r == Ok::<CompressionFormat, CompressionFormatParseError>(CompressionFormat::TarZstd),
    {
        proof {
            reveal_strlit("zip");
            reveal_strlit("zstd");
            assert("zip"@.len() != "zstd"@.len());
        }
        if str_eq(s, "zip") {
            Ok(CompressionFormat::ZipDeflate)
        } else if str_eq(s, "zstd") {
            Ok(CompressionFormat::TarZstd)
        } else {
            Err(CompressionFormatParseError)
        }
    }
}

impl std::str::FromStr for CompressionFormat {
    type Err = CompressionFormatParseError;

    fn from_str(s: &str) -> Result<CompressionFormat, CompressionFormatParseError> {
        CompressionFormat::parse(s)
    }
}

} // verus!
