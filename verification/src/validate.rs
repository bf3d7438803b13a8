//! Which strings may be stored as a tag.
//!
//! The tag file keeps one record per line, with a tab between the file name
//! and the tags. A tag must therefore hold neither of them, nor any other
//! control character.

use vstd::prelude::*;
use crate::error::TagError;
use crate::text::{chars_of, contains_char, has_char, views};

verus! {

/// The most characters that a tag may have.
pub const MAX_TAG_CHARS: usize = 100;

/// The control characters of Unicode: U+0000 to U+001F and U+007F to U+009F.
pub open spec fn is_control(c: char) -> bool {
    (c as u32) <= 0x1F || 0x7F <= (c as u32) <= 0x9F
}

/// Whether `tag` holds a control character.
pub open spec fn has_control(tag: Seq<char>) -> bool {
    exists|i: int| 0 <= i < tag.len() && is_control(#[trigger] tag[i])
}

/// What `validate_tag` answers for a tag. The empty tag stands for "no
/// tags" and always passes; otherwise the first rule that the tag breaks
/// decides, in the order length, line structure, control characters.
pub open spec fn tag_verdict(tag: Seq<char>) -> Result<(), TagError> {
    if tag.len() == 0 {
        Ok(())
    } else if tag.len() > MAX_TAG_CHARS {
        Err(TagError::TagTooLong)
    } else if has_char(tag, '\t') || has_char(tag, '\n') || has_char(tag, '\r') {
        Err(TagError::TagInvalidCharacters)
    } else if has_control(tag) {
        Err(TagError::TagControlCharacters)
    } else {
        Ok(())
    }
}

/// Whether `c` is a control character.
pub fn is_control_char(c: char) -> (answer: bool)
    ensures
        answer == is_control(c),
{
    let code: u32 = c as u32;
    code <= 0x1F || (0x7F <= code && code <= 0x9F)
}

/// Checks one tag. Length is counted in characters.
pub fn validate_tag(tag: &str) -> (verdict: Result<(), TagError>)
    ensures
        verdict == tag_verdict(tag@),
{
    let chars = chars_of(tag);
    if chars.len() == 0 {
        return Ok(());
    }
    if chars.len() > MAX_TAG_CHARS {
        return Err(TagError::TagTooLong);
    }
    if contains_char(&chars, '\t') || contains_char(&chars, '\n') || contains_char(&chars, '\r') {
        return Err(TagError::TagInvalidCharacters);
    }
    let mut i: usize = 0;
    while i < chars.len()
        invariant
            i <= chars.len(),
            chars@ == tag@,
            0 < tag@.len() <= MAX_TAG_CHARS,
            !has_char(tag@, '\t') && !has_char(tag@, '\n') && !has_char(tag@, '\r'),
            forall|k: int| 0 <= k < i ==> !is_control(#[trigger] chars@[k]),
        decreases chars.len() - i,
    {
        if is_control_char(chars[i]) {
            return Err(TagError::TagControlCharacters);
        }
        i = i + 1;
    }
    Ok(())
}

/// Checks every tag of a list. The first tag that fails decides the
/// answer; a list without such a tag passes.
pub fn validate_tags(tags: &Vec<String>) -> (verdict: Result<(), TagError>)
    ensures
        match verdict {
            Ok(()) => forall|i: int| 0 <= i < tags.len() ==> tag_verdict(#[trigger] tags[i]@) is Ok,
            Err(e) => exists|i: int|
                0 <= i < tags.len() && tag_verdict(#[trigger] tags[i]@) == Err::<(), TagError>(e)
                    && forall|j: int| 0 <= j < i ==> tag_verdict(#[trigger] tags[j]@) is Ok,
        },
{
    let mut i: usize = 0;
    while i < tags.len()
        invariant
            i <= tags.len(),
            forall|j: int| 0 <= j < i ==> tag_verdict(#[trigger] tags[j]@) is Ok,
        decreases tags.len() - i,
    {
        match validate_tag(tags[i].as_str()) {
            Ok(()) => {},
            Err(e) => {
                return Err(e);
            },
        }
        i = i + 1;
    }
    Ok(())
}

} // verus!
