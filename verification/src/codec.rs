//! The line format of the tag file.
//!
//! One record per line: the file's name, a tab, the tags with commas
//! between them, a line feed. Nothing is escaped, so a record reads back as
//! it was written only where the name holds no tab and no tag holds a comma.

use vstd::prelude::*;
use vstd::string::*;
use crate::text::{
    chars_of, find_char, first_index, has_char, join, join_strings, lemma_first_index,
    lemma_split_join, lemma_views_push, push_char, split, split_chars, string_from, views,
};

verus! {

/// What a line says: the file's name and its tags. The name is what stands
/// before the first tab, the tags are the rest of the line cut at its
/// commas. A line without a tab is a name with the one tag `""`.
pub open spec fn decode(line: Seq<char>) -> (Seq<char>, Seq<Seq<char>>) {
    let i = first_index(line, '\t');
    if 0 <= i < line.len() {
        (line.take(i), split(line.skip(i + 1), ','))
    } else {
        (line, seq![Seq::<char>::empty()])
    }
}

/// A record without the line feed that ends it.
pub open spec fn record_body(file_name: Seq<char>, tags: Seq<Seq<char>>) -> Seq<char> {
    file_name + seq!['\t'] + join(tags, ',')
}

/// A record as it stands in the tag file.
pub open spec fn encode(file_name: Seq<char>, tags: Seq<Seq<char>>) -> Seq<char> {
    record_body(file_name, tags) + seq!['\n']
}

/// A line without the carriage return that may end it.
pub open spec fn strip_cr(line: Seq<char>) -> Seq<char> {
    if line.len() > 0 && line.last() == '\r' {
        line.drop_last()
    } else {
        line
    }
}

/// The lines of a text. A line ends at a line feed, or at a carriage return
/// followed by one; neither belongs to the line. What follows the last line
/// feed is a line of its own unless it is empty.
pub open spec fn lines_of(text: Seq<char>) -> Seq<Seq<char>>
    decreases text.len(),
{
    if text.len() == 0 {
        Seq::empty()
    } else {
        let i = first_index(text, '\n');
        if 0 <= i < text.len() {
            seq![strip_cr(text.take(i))] + lines_of(text.skip(i + 1))
        } else {
            seq![text]
        }
    }
}

/// Decoding the body of an encoded record gives back the name and the
/// tags, for a name without a tab and at least one tag, none of them with a
/// comma.
pub proof fn lemma_decode_encode(file_name: Seq<char>, tags: Seq<Seq<char>>)
    requires
        !has_char(file_name, '\t'),
        tags.len() > 0,
        forall|i: int| 0 <= i < tags.len() ==> !has_char(#[trigger] tags[i], ','),
    ensures
        encode(file_name, tags).drop_last() == record_body(file_name, tags),
        decode(record_body(file_name, tags)) == (file_name, tags),
{
    let body = record_body(file_name, tags);
    assert(encode(file_name, tags).drop_last() =~= body);
    lemma_first_index(body, '\t');
    assert(body[file_name.len() as int] == '\t');
    if first_index(body, '\t') < file_name.len() {
        let k = first_index(body, '\t');
        assert(body[k] == file_name[k]);
        assert(has_char(file_name, '\t'));
    }
    assert(body.take(file_name.len() as int) =~= file_name);
    assert(body.skip(file_name.len() as int + 1) =~= join(tags, ','));
    lemma_split_join(tags, ',');
}

/// Reads one line of the tag file.
pub fn parse_tag_line(line: &str) -> (record: (String, Vec<String>))
    ensures
        (record.0@, views(record.1@)) == decode(line@),
{
    let chars = chars_of(line);
    let tab = find_char(&chars, 0, '\t');
    proof {
        assert(chars@.skip(0) =~= chars@);
    }
    let file_name = string_from(&chars, 0, tab);
    if tab < chars.len() {
        let tags = split_chars(&chars, tab + 1, ',');
        proof {
            assert(chars@.subrange(0, tab as int) =~= chars@.take(tab as int));
        }
        (file_name, tags)
    } else {
        let mut tags: Vec<String> = Vec::new();
        tags.push(String::new());
        proof {
            assert(chars@.subrange(0, tab as int) =~= chars@);
            assert(views(tags@) =~= seq![Seq::<char>::empty()]);
        }
        (file_name, tags)
    }
}

/// Writes one record of the tag file.
pub fn encode_tag_line(file_name: &str, tags: &Vec<String>) -> (line: String)
    ensures
        line@ == encode(file_name@, views(tags@)),
{
    let mut line = file_name.to_owned();
    push_char(&mut line, '\t');
    let joined = join_strings(tags, ',');
    line.append(joined.as_str());
    push_char(&mut line, '\n');
    proof {
        assert(line@ =~= encode(file_name@, views(tags@)));
    }
    line
}

/// The lines of a text, as `lines_of` cuts them.
pub fn split_lines(text: &str) -> (lines: Vec<String>)
    ensures
        views(lines@) == lines_of(text@),
{
    let chars = chars_of(text);
    let mut lines: Vec<String> = Vec::new();
    let mut start: usize = 0;
    proof {
        assert(chars@.skip(0) =~= chars@);
    }
    while start < chars.len()
        invariant
            start <= chars.len(),
            chars@ == text@,
            views(lines@) + lines_of(chars@.skip(start as int)) == lines_of(text@),
        decreases chars.len() - start,
    {
        let feed = find_char(&chars, start, '\n');
        let ghost tail = chars@.skip(start as int);
        if feed < chars.len() {
            let end = if feed > start && chars[feed - 1] == '\r' {
                feed - 1
            } else {
                feed
            };
            let line = string_from(&chars, start, end);
            proof {
                let raw = tail.take(feed - start);
                assert(raw =~= chars@.subrange(start as int, feed as int));
                assert(strip_cr(raw) =~= chars@.subrange(start as int, end as int));
                assert(tail.skip(feed - start + 1) =~= chars@.skip(feed + 1));
                lemma_views_push(lines@, line);
                assert(views(lines@).push(line@) + lines_of(chars@.skip(feed + 1)) =~= views(
                    lines@,
                ) + lines_of(tail));
            }
            lines.push(line);
            start = feed + 1;
        } else {
            let line = string_from(&chars, start, feed);
            proof {
                assert(tail =~= chars@.subrange(start as int, feed as int));
                assert(chars@.skip(feed as int).len() == 0);
                lemma_views_push(lines@, line);
                assert(views(lines@).push(line@) + lines_of(chars@.skip(feed as int)) =~= views(
                    lines@,
                ) + lines_of(tail));
            }
            lines.push(line);
            start = feed;
        }
    }
    proof {
        assert(chars@.skip(start as int).len() == 0);
        assert(views(lines@) + Seq::<Seq<char>>::empty() =~= views(lines@));
    }
    lines
}

} // verus!
