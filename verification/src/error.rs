//! Error-handling for methods that can fail.

use vstd::prelude::*;
use vstd::string::StringExecFns;
use crate::primitive::path::{TagPath, native_path_separator, spec_replace_char};

verus! {

/// General error type.
#[derive(Debug, Clone, PartialEq)]
pub enum Error {
    InvalidFourCC,
    NoSuchTagGroup,
    InvalidTagPath,
    InvalidID,
    InvalidEnum,
    InvalidTagFile,
    TagParseFailure,
    CorruptedTag(TagPath),
    TagHeaderGroupTypeMismatch,
    TagHeaderGroupVersionMismatch,
    TagGroupUnimplemented,
    ChecksumMismatch,
    ArrayLimitExceeded,
    IndexLimitExceeded,
    SizeLimitExceeded,
    String32SizeLimitExceeded,
    TagNotFound(TagPath),
    /// A file could not be read: the displayed path and the I/O error's message.
    FailedToReadFile(String, String),
    /// A file could not be written: the displayed path and the I/O error's message.
    FailedToWriteFile(String, String),
    InvalidTagsDirectory,
    MapDataOutOfBounds(String),
    MapParseFailure(String),
    InvalidTagData(String),
    Other(String),
}

/// The message of an error, with tag paths shown with `sep` between their components.
pub open spec fn spec_error_message(e: Error, sep: char) -> Seq<char> {
    match e {
        Error::InvalidTagPath => "invalid tag path"@,
        Error::InvalidID => "invalid ID"@,
        Error::InvalidEnum => "invalid enum value"@,
        Error::InvalidFourCC => "invalid tag group FourCC"@,
        Error::NoSuchTagGroup => "no such tag group"@,
        Error::InvalidTagFile => "tag file is invalid (bad header)"@,
        Error::TagParseFailure => "failed to parse the tag (tag is likely corrupt)"@,
        Error::CorruptedTag(tag) => "tag `"@ + spec_replace_char(tag.spec_internal_path(), '\\', sep)
            + "` is unreadable and/or corrupt"@,
        Error::TagHeaderGroupTypeMismatch => "failed to parse the tag due to it being the wrong group"@,
        Error::TagHeaderGroupVersionMismatch => "failed to parse the tag due to it being the wrong group version"@,
        Error::TagGroupUnimplemented => "tag group is unimplemented"@,
        Error::ChecksumMismatch => "refused to parse the data (CRC32 mismatch)"@,
        Error::SizeLimitExceeded => "usize limit exceeded"@,
        Error::ArrayLimitExceeded => "array limit of 0xFFFFFFFF (4294967295) exceeded"@,
        Error::IndexLimitExceeded => "index limit of 0xFFFF (65535) exceeded"@,
        Error::String32SizeLimitExceeded => "string data is longer than 31 characters"@,
        Error::TagNotFound(tag) => "tag `"@ + spec_replace_char(tag.spec_internal_path(), '\\', sep) + "` not found"@,
        Error::FailedToReadFile(file, err) => "failed to read file `"@ + file@ + "`: "@ + err@,
        Error::FailedToWriteFile(file, err) => "failed to write file `"@ + file@ + "`: "@ + err@,
        Error::InvalidTagsDirectory => "invalid tags directory"@,
        Error::MapDataOutOfBounds(m) => m@,
        Error::MapParseFailure(m) => m@,
        Error::InvalidTagData(m) => m@,
        Error::Other(m) => m@,
    }
}

impl Error {
    /// Get the string representation of the error.
    ///
    /// Tag paths are shown with the platform's path separator.
    pub fn as_str(&self) -> (r: String)
        ensures
            exists|sep: char| (sep == '/' || sep == '\\') && r@ == spec_error_message(*self, sep),
    {
        let sep = native_path_separator();
        let r = match self {
            Error::InvalidTagPath => "invalid tag path".to_owned(),
            Error::InvalidID => "invalid ID".to_owned(),
            Error::InvalidEnum => "invalid enum value".to_owned(),
            Error::InvalidFourCC => "invalid tag group FourCC".to_owned(),
            Error::NoSuchTagGroup => "no such tag group".to_owned(),
            Error::InvalidTagFile => "tag file is invalid (bad header)".to_owned(),
            Error::TagParseFailure => "failed to parse the tag (tag is likely corrupt)".to_owned(),
            Error::CorruptedTag(tag) => {
                let mut m = "tag `".to_owned();
                m.append(tag.path_with_separator(sep).as_str());
                m.append("` is unreadable and/or corrupt");
                m
            },
            Error::TagHeaderGroupTypeMismatch => "failed to parse the tag due to it being the wrong group".to_owned(),
            Error::TagHeaderGroupVersionMismatch => {
                "failed to parse the tag due to it being the wrong group version".to_owned()
            },
            Error::TagGroupUnimplemented => "tag group is unimplemented".to_owned(),
            Error::ChecksumMismatch => "refused to parse the data (CRC32 mismatch)".to_owned(),
            Error::SizeLimitExceeded => "usize limit exceeded".to_owned(),
            Error::ArrayLimitExceeded => "array limit of 0xFFFFFFFF (4294967295) exceeded".to_owned(),
            Error::IndexLimitExceeded => "index limit of 0xFFFF (65535) exceeded".to_owned(),
            Error::String32SizeLimitExceeded => "string data is longer than 31 characters".to_owned(),
            Error::TagNotFound(tag) => {
                let mut m = "tag `".to_owned();
                m.append(tag.path_with_separator(sep).as_str());
                m.append("` not found");
                m
            },
            Error::FailedToReadFile(file, err) => {
                let mut m = "failed to read file `".to_owned();
                m.append(file.as_str());
                m.append("`: ");
                m.append(err.as_str());
                m
            },
            Error::FailedToWriteFile(file, err) => {
                let mut m = "failed to write file `".to_owned();
                m.append(file.as_str());
                m.append("`: ");
                m.append(err.as_str());
                m
            },
            Error::InvalidTagsDirectory => "invalid tags directory".to_owned(),
            Error::MapDataOutOfBounds(m) => m.clone(),
            Error::MapParseFailure(m) => m.clone(),
            Error::InvalidTagData(m) => m.clone(),
            Error::Other(m) => m.clone(),
        };
        assert(r@ == spec_error_message(*self, sep));
        r
    }
}

/// General result type that uses [`Error`].
pub type RinghopperResult<T> = Result<T, Error>;

/// Overflow-checked arithmetic for sizes, failing with [`Error::SizeLimitExceeded`].
pub trait OverflowCheck: Sized {
    fn add_overflow_checked(self, other: Self) -> RinghopperResult<Self>;

    fn mul_overflow_checked(self, other: Self) -> RinghopperResult<Self>;
}

impl OverflowCheck for usize {
    fn add_overflow_checked(self, other: usize) -> (r: RinghopperResult<usize>)
        ensures
            self + other <= usize::MAX ==> r == Ok::<usize, Error>((self + other) as usize),
            self + other > usize::MAX ==> r == Err::<usize, Error>(Error::SizeLimitExceeded),
    {
        match self.checked_add(other) {
            Some(n) => Ok(n),
            None => Err(Error::SizeLimitExceeded),
        }
    }

    fn mul_overflow_checked(self, other: usize) -> (r: RinghopperResult<usize>)
        ensures
            self * other <= usize::MAX ==> r == Ok::<usize, Error>((self * other) as usize),
            self * other > usize::MAX ==> r == Err::<usize, Error>(Error::SizeLimitExceeded),
    {
        match self.checked_mul(other) {
            Some(n) => Ok(n),
            None => Err(Error::SizeLimitExceeded),
        }
    }
}

} // verus!
