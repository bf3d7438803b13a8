//! The size of an image file on disk and in pixels.

use vstd::prelude::*;
use vstd::string::*;
use crate::error::{Failure, TagError};
use crate::path::{io_error_text, path_exists, path_is_file};

verus! {

/// `imagesize::ImageError`: why the dimensions of an image could not be
/// read.
#[verifier::external_type_specification]
#[verifier::external_body]
pub struct ExImageError(imagesize::ImageError);

/// `Path::metadata` of std, for the length it reports: the size of the
/// file in bytes, or the file system's error. Nothing is claimed of
/// either.
#[verifier::external_body]
fn file_len(path: &str) -> Result<u64, std::io::Error> {
    match std::path::Path::new(path).metadata() {
        Ok(metadata) => Ok(metadata.len()),
        Err(error) => Err(error),
    }
}

/// `imagesize::size`: the width and the height that the header of the
/// image file states, or why it could not be read. The answer depends on
/// what the file holds, so nothing is claimed of it.
#[verifier::external_body]
fn image_size(path: &str) -> Result<(usize, usize), imagesize::ImageError> {
    match imagesize::size(path) {
        Ok(size) => Ok((size.width, size.height)),
        Err(error) => Err(error),
    }
}

/// `to_string` of std on an `imagesize::ImageError`: the error's text.
/// Nothing is claimed of it.
#[verifier::external_body]
fn image_error_text(error: &imagesize::ImageError) -> String {
    error.to_string()
}

/// The size of an image file.
#[derive(Debug, Clone, Copy)]
pub struct FileInfo {
    /// The length of the file in bytes.
    pub size: u64,
    /// The width of the image in pixels.
    pub width: u32,
    /// The height of the image in pixels.
    pub height: u32,
}

/// What the file system and the image's header said of a path.
#[derive(Debug)]
pub struct ImageFacts {
    /// Whether anything exists at the path.
    pub exists: bool,
    /// Whether a regular file stands there.
    pub is_file: bool,
    /// The length of the file in bytes, or the text of the error. Where the
    /// length was not asked for, an error without text.
    pub size: Result<u64, String>,
    /// The width and the height in pixels, or the text of the error. Where
    /// the image's header was not read, an error without text.
    pub dimensions: Result<(usize, usize), String>,
}

/// The size of the image file, or why there is none. Width and height
/// keep their lower 32 bits.
pub open spec fn info_verdict(file_path: Seq<char>, facts: ImageFacts) -> Result<
    FileInfo,
    Failure,
> {
    if !facts.exists {
        Err(Failure::NotFound(file_path))
    } else if !facts.is_file {
        Err(Failure::NotAFile(file_path))
    } else {
        match (facts.size, facts.dimensions) {
            (Err(text), _) => Err(Failure::IoError("Failed to get file metadata: "@ + text@)),
            (Ok(_), Err(text)) => Err(
                Failure::IoError("Failed to get image dimensions: "@ + text@),
            ),
            (Ok(size), Ok(dimensions)) => Ok(
                FileInfo { size, width: dimensions.0 as u32, height: dimensions.1 as u32 },
            ),
        }
    }
}

/// The view of a file's size or of a failure.
pub open spec fn info_view(r: Result<FileInfo, TagError>) -> Result<FileInfo, Failure> {
    match r {
        Ok(info) => Ok(info),
        Err(e) => Err(e@),
    }
}

/// Decides on the size of an image file from what was read of it.
pub fn file_info(file_path: &str, facts: ImageFacts) -> (info: Result<FileInfo, TagError>)
    ensures
        info_view(info) == info_verdict(file_path@, facts),
{
    if !facts.exists {
        return Err(TagError::NotFound(file_path.to_owned()));
    }
    if !facts.is_file {
        return Err(TagError::NotAFile(file_path.to_owned()));
    }
    let size = match facts.size {
        Err(text) => {
            let mut message = "Failed to get file metadata: ".to_owned();
            message.append(text.as_str());
            return Err(TagError::IoError(message));
        },
        Ok(size) => size,
    };
    match facts.dimensions {
        Err(text) => {
            let mut message = "Failed to get image dimensions: ".to_owned();
            message.append(text.as_str());
            Err(TagError::IoError(message))
        },
        Ok(dimensions) => {
            let width = #[verifier::truncate]
            (dimensions.0 as u32);
            let height = #[verifier::truncate]
            (dimensions.1 as u32);
            Ok(FileInfo { size, width, height })
        },
    }
}

/// Whether an answer is the one that stands for a question that was not
/// asked: an error without text.
pub open spec fn not_asked<T>(answer: Result<T, String>) -> bool {
    answer is Err && answer->Err_0@ == Seq::<char>::empty()
}

/// Asks the file system what stands at a path. The length is asked for
/// only where a regular file stands there, and the image's header is read
/// only where the length was told, so that nothing but a regular file is
/// ever opened.
fn image_facts(file_path: &str) -> (facts: ImageFacts)
    ensures
        !(facts.exists && facts.is_file) ==> not_asked(facts.size),
        !(facts.exists && facts.is_file && facts.size is Ok) ==> not_asked(facts.dimensions),
{
    let exists = path_exists(file_path);
    let is_file = path_is_file(file_path);
    if !(exists && is_file) {
        return ImageFacts {
            exists,
            is_file,
            size: Err(String::new()),
            dimensions: Err(String::new()),
        };
    }
    match file_len(file_path) {
        Err(error) => ImageFacts {
            exists,
            is_file,
            size: Err(io_error_text(&error)),
            dimensions: Err(String::new()),
        },
        Ok(size) => {
            let dimensions = match image_size(file_path) {
                Ok(dimensions) => Ok(dimensions),
                Err(error) => Err(image_error_text(&error)),
            };
            ImageFacts { exists, is_file, size: Ok(size), dimensions }
        },
    }
}

/// The size of an image file on disk and in pixels. The answer is
/// `info_verdict` of what the file system and the image's header said.
pub fn get_file_info(file_path: String) -> (info: Result<FileInfo, TagError>)
    ensures
        exists|facts: ImageFacts| info_view(info) == info_verdict(file_path@, facts),
{
    let facts = image_facts(file_path.as_str());
    let ghost seen = facts;
    let info = file_info(file_path.as_str(), facts);
    proof {
        assert(info_view(info) == info_verdict(file_path@, seen));
    }
    info
}

} // verus!
