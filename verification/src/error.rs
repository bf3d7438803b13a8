//! The failures that the library reports.

use vstd::prelude::*;
use vstd::string::*;

verus! {

/// Why a request was turned down. Variants that speak of a path carry it
/// as the caller wrote it.
#[derive(Debug)]
pub enum TagError {
    /// Nothing exists at the path.
    NotFound(String),
    /// Something exists at the path, and it is no regular file.
    NotAFile(String),
    /// Something exists at the path, and it is no directory.
    NotADirectory(String),
    /// The directory that should hold the tag file is missing or is no
    /// directory.
    MissingDirectory(String),
    /// The file's name holds a path separator or `..`.
    InvalidName,
    /// The file's extension is none of the image extensions.
    UnsupportedFormat,
    /// A tag has more characters than a tag may have.
    TagTooLong,
    /// A tag holds a tab, a carriage return or a line feed.
    TagInvalidCharacters,
    /// A tag holds another control character.
    TagControlCharacters,
    /// The file system refused an operation; the text says which.
    IoError(String),
}

/// A failure with its paths and texts as sequences of characters: what
/// the contracts say of a `TagError`.
pub enum Failure {
    /// Nothing exists at the path.
    NotFound(Seq<char>),
    /// The path names no regular file.
    NotAFile(Seq<char>),
    /// The path names no directory.
    NotADirectory(Seq<char>),
    /// The directory of the tag file is missing or is no directory.
    MissingDirectory(Seq<char>),
    /// The file's name holds a path separator or `..`.
    InvalidName,
    /// The file's extension is none of the image extensions.
    UnsupportedFormat,
    /// A tag is too long.
    TagTooLong,
    /// A tag holds a tab, a carriage return or a line feed.
    TagInvalidCharacters,
    /// A tag holds another control character.
    TagControlCharacters,
    /// The file system refused an operation; the text says which.
    IoError(Seq<char>),
}

impl View for TagError {
    type V = Failure;

    open spec fn view(&self) -> Failure {
        match self {
            TagError::NotFound(path) => Failure::NotFound(path@),
            TagError::NotAFile(path) => Failure::NotAFile(path@),
            TagError::NotADirectory(path) => Failure::NotADirectory(path@),
            TagError::MissingDirectory(path) => Failure::MissingDirectory(path@),
            TagError::InvalidName => Failure::InvalidName,
            TagError::UnsupportedFormat => Failure::UnsupportedFormat,
            TagError::TagTooLong => Failure::TagTooLong,
            TagError::TagInvalidCharacters => Failure::TagInvalidCharacters,
            TagError::TagControlCharacters => Failure::TagControlCharacters,
            TagError::IoError(text) => Failure::IoError(text@),
        }
    }
}

impl TagError {
    /// The text shown for this failure.
    pub open spec fn message_text(self) -> Seq<char> {
        match self {
            TagError::NotFound(path) => path@ + " does not exist"@,
            TagError::NotAFile(path) => path@ + " is not a file"@,
            TagError::NotADirectory(path) => path@ + " is not a directory"@,
            TagError::MissingDirectory(path) => path@ + " is not exist or not a directory"@,
            TagError::InvalidName => "Invalid file name"@,
            TagError::UnsupportedFormat => "File is not a supported image format"@,
            TagError::TagTooLong => "Tag too long (maximum 100 characters)"@,
            TagError::TagInvalidCharacters => "Tag contains invalid characters (tab, newline)"@,
            TagError::TagControlCharacters => "Tag contains control characters"@,
            TagError::IoError(text) => text@,
        }
    }

    /// The text shown for this failure.
    pub fn message(&self) -> (text: String)
        ensures
            text@ == self.message_text(),
    {
        match self {
            TagError::NotFound(path) => path.clone().concat(" does not exist"),
            TagError::NotAFile(path) => path.clone().concat(" is not a file"),
            TagError::NotADirectory(path) => path.clone().concat(" is not a directory"),
            TagError::MissingDirectory(path) => path.clone().concat(
                " is not exist or not a directory",
            ),
            TagError::InvalidName => "Invalid file name".to_owned(),
            TagError::UnsupportedFormat => "File is not a supported image format".to_owned(),
            TagError::TagTooLong => "Tag too long (maximum 100 characters)".to_owned(),
            TagError::TagInvalidCharacters => "Tag contains invalid characters (tab, newline)".to_owned(),
            TagError::TagControlCharacters => "Tag contains control characters".to_owned(),
            TagError::IoError(text) => text.clone(),
        }
    }
}

} // verus!
