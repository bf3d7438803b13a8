//! Paths before they become keys of the tag store.
//!
//! A path is looked up in the file system first, so that a missing file is
//! reported as missing, and made canonical next, so that two spellings of
//! one place give one key. What the file system answers is gathered into
//! plain values; the rules that turn those answers into a key or a failure
//! are functions of the values alone.

use vstd::prelude::*;
use vstd::string::*;
use std::path::PathBuf;
use crate::error::{Failure, TagError};
use crate::image::{has_image_suffix, is_image};
use crate::text::{
    begins_with, chars_of, contains_char, contains_run, ends_with, has_char, has_run,
};

verus! {

/// The name of a directory's tag file.
pub const TAG_FILE_NAME: &'static str = "IMAGE_TAG";

/// The name of the scratch file that a new tag file is written to.
pub const TAG_TEMP_FILE_NAME: &'static str = "IMAGE_TAG_TEMP";

/// `std::path::PathBuf`: an owned path, opaque to the verifier.
#[verifier::external_type_specification]
#[verifier::external_body]
pub struct ExPathBuf(std::path::PathBuf);

/// `std::io::Error`: the failure of an operation of the file system.
#[verifier::external_type_specification]
#[verifier::external_body]
pub struct ExIoError(std::io::Error);

/// What `str::to_lowercase` of std returns for a string.
pub uninterp spec fn lowercase_of(s: Seq<char>) -> Seq<char>;

/// `Path::exists` of std: whether the path points at something on disk.
/// The answer is the file system's, so nothing is claimed of it.
#[verifier::external_body]
pub(crate) fn path_exists(path: &str) -> bool {
    std::path::Path::new(path).exists()
}

/// `Path::is_file` of std: whether the path points at a regular file.
/// The answer is the file system's, so nothing is claimed of it.
#[verifier::external_body]
pub(crate) fn path_is_file(path: &str) -> bool {
    std::path::Path::new(path).is_file()
}

/// `Path::is_dir` of std: whether the path points at a directory. The
/// answer is the file system's, so nothing is claimed of it.
#[verifier::external_body]
fn path_is_dir(path: &str) -> bool {
    std::path::Path::new(path).is_dir()
}

/// `Path::canonicalize` of std: the absolute form of the path with every
/// link and relative segment resolved, or the file system's error. Nothing
/// is claimed of either.
#[verifier::external_body]
fn canonicalize(path: &str) -> Result<PathBuf, std::io::Error> {
    std::path::Path::new(path).canonicalize()
}

/// `to_string` of std on a `std::io::Error`: the error's text. Nothing is
/// claimed of it.
#[verifier::external_body]
pub(crate) fn io_error_text(error: &std::io::Error) -> String {
    error.to_string()
}

/// `Path::to_str` of std: the path as a string, or `None` where it is no
/// valid Unicode. Nothing is claimed of the answer.
#[verifier::external_body]
fn path_text(path: &PathBuf) -> Option<String> {
    match path.to_str() {
        Some(text) => Some(text.to_string()),
        None => None,
    }
}

/// `Path::parent` of std: the path without its last component, or `None`
/// where it ends in a root. Nothing is claimed of the answer.
#[verifier::external_body]
fn parent_of(path: &PathBuf) -> Option<PathBuf> {
    match path.parent() {
        Some(parent) => Some(parent.to_path_buf()),
        None => None,
    }
}

/// `Path::file_name` of std: the last component of the path, or `None`
/// where it ends in `..`. Nothing is claimed of the answer.
#[verifier::external_body]
fn file_name_of(path: &PathBuf) -> Option<PathBuf> {
    match path.file_name() {
        Some(name) => Some(PathBuf::from(name)),
        None => None,
    }
}

/// `Path::join` of std: `dir` extended with `name`. A name made of
/// letters, digits and `_` alone is a single relative component on every
/// platform, so it is put behind `dir` and the joined path ends with it.
/// The joined path begins with `dir` as it is written, and a separator may
/// stand between the two, unless `dir` begins with the verbatim prefix of
/// Windows: such a path std writes anew when it joins, and nothing is
/// claimed of how the result begins.
#[verifier::external_body]
fn join_path(dir: &str, name: &str) -> (joined: String)
    requires
        is_plain_name(name@),
    ensures
        stands_below(dir@, name@, joined@),
{
    std::path::Path::new(dir).join(name).to_string_lossy().into_owned()
}

/// `str::to_lowercase` of std: the string in lower case.
#[verifier::external_body]
fn to_lowercase(s: &str) -> (lowered: String)
    ensures
        lowered@ == lowercase_of(s@),
{
    s.to_lowercase()
}

/// A path in canonical form, taken apart. `None` at the outer level says
/// that the path has no such part, `None` at the inner level that the part
/// is no valid Unicode.
#[derive(Debug)]
pub struct CanonicalFile {
    /// The directory that holds the file.
    pub parent: Option<Option<String>>,
    /// The file's name within its directory.
    pub file_name: Option<Option<String>>,
    /// The whole path.
    pub path: Option<String>,
}

/// What the file system said of a path that should name an image file.
#[derive(Debug)]
pub struct FileFacts {
    /// Whether anything exists at the path.
    pub exists: bool,
    /// Whether a regular file stands there.
    pub is_file: bool,
    /// The canonical form of the path, or the text of the error that
    /// making it gave.
    pub canonical: Result<CanonicalFile, String>,
}

/// What the file system said of a path that should name a directory.
#[derive(Debug)]
pub struct DirectoryFacts {
    /// Whether anything exists at the path.
    pub exists: bool,
    /// Whether a directory stands there.
    pub is_dir: bool,
    /// The canonical form of the path, `None` where it is no valid
    /// Unicode, or the text of the error that making it gave.
    pub canonical: Result<Option<String>, String>,
}

/// Whether a file's name is free of `..` and of both path separators.
pub open spec fn is_safe_name(name: Seq<char>) -> bool {
    !has_run(name, ".."@) && !has_char(name, '/') && !has_char(name, '\\')
}

/// The key of a directory, or why the path gives none.
pub open spec fn directory_verdict(dir_path: Seq<char>, facts: DirectoryFacts) -> Result<
    Seq<char>,
    Failure,
> {
    if !facts.exists {
        Err(Failure::NotFound(dir_path))
    } else if !facts.is_dir {
        Err(Failure::NotADirectory(dir_path))
    } else {
        match facts.canonical {
            Err(text) => Err(
                Failure::IoError(
                    "Failed to canonicalize directory path "@ + dir_path + ": "@ + text@,
                ),
            ),
            Ok(None) => Err(Failure::IoError("Failed to convert directory path to string"@)),
            Ok(Some(key)) => Ok(key@),
        }
    }
}

/// What the parts of a canonical path give: the key of the directory and
/// the file's name, or why there is none. The name is checked before the
/// extension, and the extension is looked for in the lower-case form of
/// the whole path.
pub open spec fn canonical_verdict(file: CanonicalFile) -> Result<
    (Seq<char>, Seq<char>),
    Failure,
> {
    match (file.parent, file.file_name, file.path) {
        (None, _, _) => Err(Failure::IoError("Failed to get parent directory"@)),
        (Some(None), _, _) => Err(
            Failure::IoError("Failed to convert directory path to string"@),
        ),
        (Some(Some(_)), None, _) => Err(Failure::IoError("Failed to get file name"@)),
        (Some(Some(_)), Some(None), _) => Err(
            Failure::IoError("Failed to convert file name to string"@),
        ),
        (Some(Some(dir)), Some(Some(name)), path) => if !is_safe_name(name@) {
            Err(Failure::InvalidName)
        } else {
            match path {
                None => Err(Failure::IoError("Failed to convert path to string"@)),
                Some(whole) => if has_image_suffix(lowercase_of(whole@)) {
                    Ok((dir@, name@))
                } else {
                    Err(Failure::UnsupportedFormat)
                },
            }
        },
    }
}

/// The key of an image file's directory and the file's name, or why the
/// path gives none.
pub open spec fn image_verdict(img_path: Seq<char>, facts: FileFacts) -> Result<
    (Seq<char>, Seq<char>),
    Failure,
> {
    if !facts.exists {
        Err(Failure::NotFound(img_path))
    } else if !facts.is_file {
        Err(Failure::NotAFile(img_path))
    } else {
        match facts.canonical {
            Err(text) => Err(
                Failure::IoError("Failed to canonicalize path "@ + img_path + ": "@ + text@),
            ),
            Ok(file) => canonical_verdict(file),
        }
    }
}

/// The view of a key or a failure.
pub open spec fn key_view(r: Result<String, TagError>) -> Result<Seq<char>, Failure> {
    match r {
        Ok(key) => Ok(key@),
        Err(e) => Err(e@),
    }
}

/// The view of a directory key with a file name, or of a failure.
pub open spec fn location_view(r: Result<(String, String), TagError>) -> Result<
    (Seq<char>, Seq<char>),
    Failure,
> {
    match r {
        Ok(pair) => Ok((pair.0@, pair.1@)),
        Err(e) => Err(e@),
    }
}

/// Whether a file's name is free of `..` and of both path separators.
pub fn file_name_is_safe(name: &str) -> (safe: bool)
    ensures
        safe == is_safe_name(name@),
{
    let chars = chars_of(name);
    !contains_run(&chars, &chars_of("..")) && !contains_char(&chars, '/') && !contains_char(
        &chars,
        '\\',
    )
}

/// The text of the failure to make `path` canonical: `lead`, the path, a
/// colon and the error's text.
fn canonicalize_failure(lead: &str, path: &str, text: &str) -> (e: TagError)
    ensures
        e@ == Failure::IoError(lead@ + path@ + ": "@ + text@),
{
    let mut message = lead.to_owned();
    message.append(path);
    message.append(": ");
    message.append(text);
    TagError::IoError(message)
}

/// Decides on a directory path from what the file system said of it.
pub fn directory_key(dir_path: &str, facts: DirectoryFacts) -> (key: Result<String, TagError>)
    ensures
        key_view(key) == directory_verdict(dir_path@, facts),
{
    if !facts.exists {
        return Err(TagError::NotFound(dir_path.to_owned()));
    }
    if !facts.is_dir {
        return Err(TagError::NotADirectory(dir_path.to_owned()));
    }
    match facts.canonical {
        Err(text) => Err(
            canonicalize_failure(
                "Failed to canonicalize directory path ",
                dir_path,
                text.as_str(),
            ),
        ),
        Ok(None) => Err(TagError::IoError("Failed to convert directory path to string".to_owned())),
        Ok(Some(key)) => Ok(key),
    }
}

/// Decides on the parts of a canonical path.
pub fn locate_canonical(file: CanonicalFile) -> (location: Result<(String, String), TagError>)
    ensures
        location_view(location) == canonical_verdict(file),
{
    let dir = match file.parent {
        None => {
            return Err(TagError::IoError("Failed to get parent directory".to_owned()));
        },
        Some(None) => {
            return Err(
                TagError::IoError("Failed to convert directory path to string".to_owned()),
            );
        },
        Some(Some(dir)) => dir,
    };
    let name = match file.file_name {
        None => {
            return Err(TagError::IoError("Failed to get file name".to_owned()));
        },
        Some(None) => {
            return Err(TagError::IoError("Failed to convert file name to string".to_owned()));
        },
        Some(Some(name)) => name,
    };
    if !file_name_is_safe(name.as_str()) {
        return Err(TagError::InvalidName);
    }
    let whole = match file.path {
        None => {
            return Err(TagError::IoError("Failed to convert path to string".to_owned()));
        },
        Some(whole) => whole,
    };
    let lowered = to_lowercase(whole.as_str());
    if !is_image(lowered.as_str()) {
        return Err(TagError::UnsupportedFormat);
    }
    Ok((dir, name))
}

/// Decides on an image path from what the file system said of it.
pub fn locate_image(img_path: &str, facts: FileFacts) -> (location: Result<
    (String, String),
    TagError,
>)
    ensures
        location_view(location) == image_verdict(img_path@, facts),
{
    if !facts.exists {
        return Err(TagError::NotFound(img_path.to_owned()));
    }
    if !facts.is_file {
        return Err(TagError::NotAFile(img_path.to_owned()));
    }
    match facts.canonical {
        Err(text) => Err(
            canonicalize_failure("Failed to canonicalize path ", img_path, text.as_str()),
        ),
        Ok(file) => locate_canonical(file),
    }
}

/// A path that does not exist is reported as not found, whatever else the
/// file system said of it.
pub proof fn lemma_missing_file_is_not_found(img_path: Seq<char>, facts: FileFacts)
    requires
        !facts.exists,
    ensures
        image_verdict(img_path, facts) == Err::<(Seq<char>, Seq<char>), Failure>(
            Failure::NotFound(img_path),
        ),
{
}

/// A location that is handed out names a file by a safe name, in a path
/// whose lower-case form ends in an image extension.
pub proof fn lemma_location_is_checked(img_path: Seq<char>, facts: FileFacts)
    requires
        image_verdict(img_path, facts) is Ok,
    ensures
        facts.exists && facts.is_file,
        is_safe_name(image_verdict(img_path, facts)->Ok_0.1),
        facts.canonical is Ok && facts.canonical->Ok_0.path is Some,
        has_image_suffix(lowercase_of(facts.canonical->Ok_0.path->Some_0@)),
{
}

/// Asks the file system for the canonical form of a path and takes it
/// apart.
fn canonical_file(path: &str) -> Result<CanonicalFile, String> {
    match canonicalize(path) {
        Err(error) => Err(io_error_text(&error)),
        Ok(canonical) => {
            let parent = match parent_of(&canonical) {
                Some(dir) => Some(path_text(&dir)),
                None => None,
            };
            let file_name = match file_name_of(&canonical) {
                Some(name) => Some(path_text(&name)),
                None => None,
            };
            Ok(CanonicalFile { parent, file_name, path: path_text(&canonical) })
        },
    }
}

/// Asks the file system what stands at a path that should name an image
/// file.
pub(crate) fn file_facts(img_path: &str) -> FileFacts {
    FileFacts {
        exists: path_exists(img_path),
        is_file: path_is_file(img_path),
        canonical: canonical_file(img_path),
    }
}

/// Asks the file system what stands at a path that should name a
/// directory.
pub(crate) fn directory_facts(dir_path: &str) -> DirectoryFacts {
    let canonical = match canonicalize(dir_path) {
        Err(error) => Err(io_error_text(&error)),
        Ok(canonical) => Ok(path_text(&canonical)),
    };
    DirectoryFacts { exists: path_exists(dir_path), is_dir: path_is_dir(dir_path), canonical }
}

/// Checks a directory path against the file system and gives its key, the
/// canonical path. The answer is `directory_verdict` of what the file
/// system said.
pub fn validate_directory_path(dir_path: &str) -> (key: Result<String, TagError>)
    ensures
        exists|facts: DirectoryFacts| key_view(key) == directory_verdict(dir_path@, facts),
{
    let facts = directory_facts(dir_path);
    let ghost seen = facts;
    let key = directory_key(dir_path, facts);
    proof {
        assert(key_view(key) == directory_verdict(dir_path@, seen));
    }
    key
}

/// Checks an image path against the file system and gives the key of its
/// directory and its name there. The answer is `image_verdict` of what the
/// file system said.
pub fn validate_and_parse_image_path(img_path: &str) -> (location: Result<
    (String, String),
    TagError,
>)
    ensures
        exists|facts: FileFacts| location_view(location) == image_verdict(img_path@, facts),
{
    let facts = file_facts(img_path);
    let ghost seen = facts;
    let location = locate_image(img_path, facts);
    proof {
        assert(location_view(location) == image_verdict(img_path@, seen));
    }
    location
}

/// The paths of the tag file and of its scratch file, from what the file
/// system said of the directory.
pub fn tag_file_names(dir_path: String, is_dir: bool, tag_file: String, temp_file: String) -> (names:
    Result<(String, String), TagError>)
    ensures
        is_dir ==> names == Ok::<(String, String), TagError>((tag_file, temp_file)),
        !is_dir ==> (names matches Err(e) && e@ == Failure::MissingDirectory(dir_path@)),
{
    if is_dir {
        Ok((tag_file, temp_file))
    } else {
        Err(TagError::MissingDirectory(dir_path))
    }
}

/// The paths of a directory's tag file and of its scratch file. Fails
/// where the file system knows no directory by that path, and only there.
/// The two paths are the directory's path extended with the names of the
/// two files, so both files stand in that directory.
pub fn get_tag_file_names(dir_path: String) -> (names: Result<(String, String), TagError>)
    ensures
        names_fit(dir_path@, names),
{
    proof {
        lemma_tag_file_names_are_plain();
    }
    let is_dir = path_is_dir(dir_path.as_str());
    let tag_file = join_path(dir_path.as_str(), TAG_FILE_NAME);
    let temp_file = join_path(dir_path.as_str(), TAG_TEMP_FILE_NAME);
    tag_file_names(dir_path, is_dir, tag_file, temp_file)
}

/// Whether a path begins with `\\?\`, the prefix of the paths that Windows
/// takes as they are written. std writes such a path anew when it joins a
/// name to it.
pub open spec fn is_verbatim(dir: Seq<char>) -> bool {
    begins_with(dir, "\\\\?\\"@)
}

/// Whether `path` is `dir` extended with `name`: it ends with the name,
/// and it begins with the directory's path and holds the name behind it,
/// with or without a separator between the two. Of a verbatim directory
/// only the end is said.
pub open spec fn stands_below(dir: Seq<char>, name: Seq<char>, path: Seq<char>) -> bool {
    &&& ends_with(path, name)
    &&& !is_verbatim(dir) ==> begins_with(path, dir) && path.len() >= dir.len() + name.len()
}

/// Whether the answer of `get_tag_file_names` fits the directory: the two
/// paths are the directory's path extended with the names of the tag file
/// and of its scratch file, or the failure names the directory.
pub open spec fn names_fit(dir: Seq<char>, names: Result<(String, String), TagError>) -> bool {
    match names {
        Ok(pair) => stands_below(dir, TAG_FILE_NAME@, pair.0@) && stands_below(
            dir,
            TAG_TEMP_FILE_NAME@,
            pair.1@,
        ),
        Err(e) => e@ == Failure::MissingDirectory(dir),
    }
}

/// The tag file and its scratch file are two files: their paths differ.
pub proof fn lemma_tag_files_differ(dir: Seq<char>, tag_file: Seq<char>, temp_file: Seq<char>)
    requires
        stands_below(dir, TAG_FILE_NAME@, tag_file),
        stands_below(dir, TAG_TEMP_FILE_NAME@, temp_file),
    ensures
        tag_file != temp_file,
{
    reveal_strlit("IMAGE_TAG");
    reveal_strlit("IMAGE_TAG_TEMP");
    assert(tag_file.skip(tag_file.len() - 9)[8] == 'G');
    assert(temp_file.skip(temp_file.len() - 14)[13] == 'P');
}

/// Whether a character is an ASCII letter, a digit or `_`.
pub open spec fn is_plain_char(c: char) -> bool {
    ||| 'A' <= c <= 'Z'
    ||| 'a' <= c <= 'z'
    ||| '0' <= c <= '9'
    ||| c == '_'
}

/// Whether a name is made of ASCII letters, digits and `_` alone. Such a
/// name holds no separator, no drive letter's colon and no dot, so no
/// platform reads it as anything but one relative component of a path.
pub open spec fn is_plain_name(name: Seq<char>) -> bool {
    forall|i: int| 0 <= i < name.len() ==> is_plain_char(#[trigger] name[i])
}

/// The names of the tag file and of its scratch file are plain names.
pub proof fn lemma_tag_file_names_are_plain()
    ensures
        is_plain_name(TAG_FILE_NAME@),
        is_plain_name(TAG_TEMP_FILE_NAME@),
{
    reveal_strlit("IMAGE_TAG");
    reveal_strlit("IMAGE_TAG_TEMP");
}

} // verus!
