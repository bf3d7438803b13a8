//! The tags of the files of one directory, and the text of its tag file.

use vstd::prelude::*;
use vstd::string::*;
use crate::codec::{
    decode, encode, encode_tag_line, lemma_decode_encode, lines_of, parse_tag_line, record_body,
    split_lines, strip_cr,
};
use crate::string_map::{
    distinct_keys, lemma_map_of_keys, lemma_position, lemma_put, map_of, position, put, StringMap,
};
use crate::text::{
    clone_strings, first_index, has_char, join, lemma_first_index, lemma_first_index_concat,
    lemma_join_chars, views,
};

verus! {

/// A file's name and its tags.
pub type Record = (Seq<char>, Seq<Seq<char>>);

/// The entries of a map of tag lists, each list by the views of its tags.
pub open spec fn records_of(entries: Seq<(Seq<char>, Vec<String>)>) -> Seq<Record> {
    entries.map_values(|e: (Seq<char>, Vec<String>)| (e.0, views(e.1@)))
}

/// The text of a tag file: the records one after the other, each as the
/// codec writes it.
pub open spec fn serialize(records: Seq<Record>) -> Seq<char>
    decreases records.len(),
{
    if records.len() == 0 {
        Seq::empty()
    } else {
        serialize(records.drop_last()) + encode(records.last().0, records.last().1)
    }
}

/// The records that the lines of a tag file give, read from the first line
/// to the last. A name that comes again keeps its place and takes the tags
/// of the later line.
pub open spec fn loaded(lines: Seq<Seq<char>>) -> Seq<Record>
    decreases lines.len(),
{
    if lines.len() == 0 {
        Seq::empty()
    } else {
        let record = decode(lines.last());
        put(loaded(lines.drop_last()), record.0, record.1)
    }
}

/// The records of a tag file with the given text.
pub open spec fn parsed(text: Seq<char>) -> Seq<Record> {
    loaded(lines_of(text))
}

/// Keys stand at the same places in the entries and in their records.
pub proof fn lemma_records_position(entries: Seq<(Seq<char>, Vec<String>)>, key: Seq<char>)
    ensures
        position(records_of(entries), key) == position(entries, key),
        distinct_keys(entries) <==> distinct_keys(records_of(entries)),
    decreases entries.len(),
{
    let records = records_of(entries);
    if entries.len() > 0 {
        lemma_records_position(entries.drop_first(), key);
        assert(records.drop_first() =~= records_of(entries.drop_first()));
        assert(records[0].0 == entries[0].0);
    }
    if distinct_keys(entries) {
        assert forall|i: int, j: int| 0 <= i < j < records.len() implies (#[trigger] records[i]).0
            != (#[trigger] records[j]).0 by {
            assert(entries[i].0 != entries[j].0);
        }
    }
    if distinct_keys(records) {
        assert forall|i: int, j: int| 0 <= i < j < entries.len() implies (#[trigger] entries[i]).0
            != (#[trigger] entries[j]).0 by {
            assert(records[i].0 != records[j].0);
        }
    }
}

/// Putting a tag list into the entries puts its views into the records.
pub proof fn lemma_records_put(
    entries: Seq<(Seq<char>, Vec<String>)>,
    key: Seq<char>,
    tags: Vec<String>,
)
    ensures
        records_of(put(entries, key, tags)) == put(records_of(entries), key, views(tags@)),
{
    lemma_records_position(entries, key);
    lemma_position(entries, key);
    assert(records_of(put(entries, key, tags)) =~= put(records_of(entries), key, views(tags@)));
}

/// The map of the records is the map of the entries, each tag list by its
/// views.
pub proof fn lemma_records_map(entries: Seq<(Seq<char>, Vec<String>)>)
    ensures
        map_of(records_of(entries)) == map_of(entries).map_values(|t: Vec<String>| views(t@)),
    decreases entries.len(),
{
    let f = |t: Vec<String>| views(t@);
    if entries.len() > 0 {
        lemma_records_map(entries.drop_last());
        assert(records_of(entries).drop_last() =~= records_of(entries.drop_last()));
        assert(map_of(records_of(entries)) =~= map_of(entries).map_values(f));
    } else {
        assert(map_of(records_of(entries)) =~= map_of(entries).map_values(f));
    }
}

/// No name stands twice among the records read from a tag file, and a
/// name's tags are those of the last line that names it: the map of the
/// records is the map of the decoded lines, in which a later line counts
/// over an earlier one.
pub proof fn lemma_loaded(lines: Seq<Seq<char>>)
    ensures
        distinct_keys(loaded(lines)),
        map_of(loaded(lines)) == map_of(lines.map_values(|l: Seq<char>| decode(l))),
    decreases lines.len(),
{
    let decoded = lines.map_values(|l: Seq<char>| decode(l));
    if lines.len() > 0 {
        let front = lines.drop_last();
        lemma_loaded(front);
        let record = decode(lines.last());
        lemma_put(loaded(front), record.0, record.1);
        assert(decoded.drop_last() =~= front.map_values(|l: Seq<char>| decode(l)));
        assert(decoded.last() == record);
    }
}

/// Whether a record reads back from the tag file as it was written: the
/// name holds neither a tab nor a line feed, there is a tag, and no tag
/// holds a comma, a line feed or a carriage return.
pub open spec fn reads_back(record: Record) -> bool {
    &&& !has_char(record.0, '\t')
    &&& !has_char(record.0, '\n')
    &&& record.1.len() > 0
    &&& forall|i: int|
        0 <= i < record.1.len() ==> {
            &&& !has_char(#[trigger] record.1[i], ',')
            &&& !has_char(record.1[i], '\n')
            &&& !has_char(record.1[i], '\r')
        }
}

/// The body of a record that reads back holds no line feed and does not
/// end in a carriage return, so it is one line of the tag file.
proof fn lemma_body_is_a_line(record: Record)
    requires
        reads_back(record),
    ensures
        !has_char(record_body(record.0, record.1), '\n'),
        strip_cr(record_body(record.0, record.1)) == record_body(record.0, record.1),
{
    let body = record_body(record.0, record.1);
    let joined = join(record.1, ',');
    assert(body == record.0 + seq!['\t'] + joined);
    if has_char(body, '\n') {
        let at = choose|k: int| 0 <= k < body.len() && body[k] == '\n';
        if at < record.0.len() {
            assert(record.0[at] == '\n');
        } else {
            assert(joined[at - record.0.len() - 1] == '\n');
            lemma_join_chars(record.1, ',', '\n');
        }
    }
    if body.last() == '\r' {
        assert(joined.len() > 0);
        assert(joined[joined.len() - 1] == '\r');
        lemma_join_chars(record.1, ',', '\r');
    }
}

/// A line put behind a text that is empty or ends in a line feed is a new
/// last line of the text.
proof fn lemma_lines_append(text: Seq<char>, line: Seq<char>)
    requires
        text.len() == 0 || text.last() == '\n',
        !has_char(line, '\n'),
    ensures
        lines_of(text + line + seq!['\n']) == lines_of(text) + seq![strip_cr(line)],
    decreases text.len(),
{
    let longer = text + line + seq!['\n'];
    if text.len() == 0 {
        assert(longer =~= line + seq!['\n']);
        lemma_first_index_concat(line, seq!['\n'], '\n');
        assert(first_index(seq!['\n'], '\n') == 0);
        assert(longer.take(line.len() as int) =~= line);
        assert(longer.skip(line.len() as int + 1) =~= Seq::<char>::empty());
        assert(first_index(longer, '\n') == line.len());
        assert(lines_of(Seq::<char>::empty()) =~= Seq::<Seq<char>>::empty());
        assert(lines_of(longer) =~= seq![strip_cr(line)]);
        assert(lines_of(text) + seq![strip_cr(line)] =~= seq![strip_cr(line)]);
    } else {
        lemma_first_index(text, '\n');
        assert(has_char(text, '\n')) by {
            assert(text[text.len() - 1] == '\n');
        }
        let at = first_index(text, '\n');
        assert(longer =~= text + (line + seq!['\n']));
        lemma_first_index_concat(text, line + seq!['\n'], '\n');
        let rest = text.skip(at + 1);
        assert(longer.take(at) =~= text.take(at));
        assert(longer.skip(at + 1) =~= rest + line + seq!['\n']);
        if rest.len() > 0 {
            assert(rest.last() == text.last());
        }
        lemma_lines_append(rest, line);
        assert(lines_of(longer) =~= lines_of(text) + seq![strip_cr(line)]);
    }
}

/// The lines of the text of records that read back are the bodies of the
/// records.
proof fn lemma_serialized_lines(records: Seq<Record>)
    requires
        forall|i: int| 0 <= i < records.len() ==> reads_back(#[trigger] records[i]),
    ensures
        lines_of(serialize(records)) == records.map_values(
            |r: Record| record_body(r.0, r.1),
        ),
        serialize(records).len() == 0 || serialize(records).last() == '\n',
    decreases records.len(),
{
    let bodies = records.map_values(|r: Record| record_body(r.0, r.1));
    if records.len() == 0 {
        assert(lines_of(serialize(records)) =~= bodies);
    } else {
        let front = records.drop_last();
        let last = records.last();
        assert forall|i: int| 0 <= i < front.len() implies reads_back(#[trigger] front[i]) by {
            assert(front[i] == records[i]);
        }
        lemma_serialized_lines(front);
        assert(reads_back(records[records.len() - 1]));
        lemma_body_is_a_line(last);
        let body = record_body(last.0, last.1);
        lemma_lines_append(serialize(front), body);
        assert(serialize(records) =~= serialize(front) + body + seq!['\n']);
        assert(lines_of(serialize(records)) =~= bodies);
    }
}

/// Reading the bodies of records that read back, no two of them with one
/// name, gives the records.
proof fn lemma_loaded_bodies(records: Seq<Record>)
    requires
        distinct_keys(records),
        forall|i: int| 0 <= i < records.len() ==> reads_back(#[trigger] records[i]),
    ensures
        loaded(records.map_values(|r: Record| record_body(r.0, r.1))) == records,
    decreases records.len(),
{
    let bodies = records.map_values(|r: Record| record_body(r.0, r.1));
    if records.len() == 0 {
        assert(loaded(bodies) =~= records);
    } else {
        let front = records.drop_last();
        let last = records.last();
        assert forall|i: int| 0 <= i < front.len() implies reads_back(#[trigger] front[i]) by {
            assert(front[i] == records[i]);
        }
        assert forall|i: int, j: int| 0 <= i < j < front.len() implies (#[trigger] front[i]).0 != (
        #[trigger] front[j]).0 by {
            assert(front[i] == records[i] && front[j] == records[j]);
        }
        lemma_loaded_bodies(front);
        assert(bodies.drop_last() =~= front.map_values(|r: Record| record_body(r.0, r.1)));
        assert(reads_back(records[records.len() - 1]));
        lemma_decode_encode(last.0, last.1);
        assert(decode(bodies.last()) == last);
        lemma_position(front, last.0);
        if position(front, last.0) < front.len() {
            let at = position(front, last.0);
            assert(front[at] == records[at]);
            assert(records[at].0 != records[records.len() - 1].0);
        }
        assert(put(front, last.0, last.1) =~= records);
    }
}

/// What was written is what is read: the text of records that read back,
/// no two of them with one name, stands for those records, in their order.
pub proof fn lemma_parse_serialize(records: Seq<Record>)
    requires
        distinct_keys(records),
        forall|i: int| 0 <= i < records.len() ==> reads_back(#[trigger] records[i]),
    ensures
        parsed(serialize(records)) == records,
{
    lemma_serialized_lines(records);
    lemma_loaded_bodies(records);
}

/// The tags of the files of one directory: a map from a file's name to its
/// list of tags, in the order in which the names first came.
#[derive(Debug)]
pub struct DirectoryTagMap {
    files: StringMap<Vec<String>>,
}

impl View for DirectoryTagMap {
    type V = Map<Seq<char>, Seq<Seq<char>>>;

    open spec fn view(&self) -> Map<Seq<char>, Seq<Seq<char>>> {
        map_of(self.records())
    }
}

impl DirectoryTagMap {
    /// The records in their order.
    pub closed spec fn records(&self) -> Seq<Record> {
        records_of(self.files.entries())
    }

    /// The map without files.
    pub fn new() -> (m: Self)
        ensures
            m.records() == Seq::<Record>::empty(),
    {
        let m = DirectoryTagMap { files: StringMap::new() };
        proof {
            assert(m.records() =~= Seq::<Record>::empty());
        }
        m
    }

    /// The number of files that have a record. No name stands in two
    /// records.
    pub fn len(&self) -> (n: usize)
        ensures
            n == self.records().len(),
            distinct_keys(self.records()),
    {
        let n = self.files.len();
        proof {
            lemma_records_position(self.files.entries(), Seq::empty());
        }
        n
    }

    /// The name in the record at `at`.
    pub fn file_name_at(&self, at: usize) -> (name: &String)
        requires
            at < self.records().len(),
        ensures
            name@ == self.records()[at as int].0,
    {
        self.files.key_at(at)
    }

    /// The tags in the record at `at`.
    pub fn tags_at(&self, at: usize) -> (tags: &Vec<String>)
        requires
            at < self.records().len(),
        ensures
            views(tags@) == self.records()[at as int].1,
    {
        self.files.value_at(at)
    }

    /// A copy of the tags of a file, or `None` for a file without a record.
    pub fn get(&self, file_name: &str) -> (tags: Option<Vec<String>>)
        ensures
            match tags {
                Some(t) => self@.contains_key(file_name@) && views(t@) == self@[file_name@],
                None => !self@.contains_key(file_name@),
            },
    {
        let key = file_name.to_owned();
        proof {
            lemma_records_map(self.files.entries());
        }
        match self.files.get(&key) {
            Some(tags) => Some(clone_strings(tags)),
            None => None,
        }
    }

    /// Gives a file its tags. A file that has a record keeps its place and
    /// loses its former tags; a new file comes last.
    pub fn set(&mut self, file_name: String, tags: Vec<String>)
        ensures
            final(self).records() == put(old(self).records(), file_name@, views(tags@)),
            final(self)@ == old(self)@.insert(file_name@, views(tags@)),
    {
        let ghost before = self.files.entries();
        self.files.insert(file_name, tags);
        proof {
            lemma_records_put(before, file_name@, tags);
            lemma_records_position(before, file_name@);
            lemma_put(records_of(before), file_name@, views(tags@));
        }
    }

    /// A copy of the map.
    pub fn copy(&self) -> (c: Self)
        ensures
            c.records() == self.records(),
    {
        let mut c = DirectoryTagMap::new();
        let n = self.len();
        let mut i: usize = 0;
        while i < n
            invariant
                i <= n,
                n == self.records().len(),
                distinct_keys(self.records()),
                c.records() == self.records().take(i as int),
            decreases n - i,
        {
            let name = self.file_name_at(i).clone();
            let tags = clone_strings(self.tags_at(i));
            proof {
                let sofar = self.records().take(i as int);
                let next = self.records()[i as int];
                lemma_position(sofar, next.0);
                if position(sofar, next.0) < sofar.len() {
                    let at = position(sofar, next.0);
                    assert(sofar[at] == self.records()[at]);
                    assert(self.records()[at].0 != self.records()[i as int].0);
                }
                assert(put(sofar, next.0, next.1) =~= self.records().take(i + 1));
            }
            c.set(name, tags);
            i = i + 1;
        }
        proof {
            assert(self.records().take(n as int) =~= self.records());
        }
        c
    }

    /// The text of the tag file for this map: one line for each record, in
    /// the records' order.
    pub fn to_text(&self) -> (text: String)
        ensures
            text@ == serialize(self.records()),
    {
        let mut text = String::new();
        let n = self.len();
        let mut i: usize = 0;
        while i < n
            invariant
                i <= n,
                n == self.records().len(),
                text@ == serialize(self.records().take(i as int)),
            decreases n - i,
        {
            let line = encode_tag_line(self.file_name_at(i).as_str(), self.tags_at(i));
            proof {
                assert(self.records().take(i + 1).drop_last() =~= self.records().take(i as int));
                assert(self.records().take(i + 1).last() == self.records()[i as int]);
            }
            text.append(line.as_str());
            i = i + 1;
        }
        proof {
            assert(self.records().take(n as int) =~= self.records());
        }
        text
    }

    /// The map that a tag file with the given text stands for. Every line
    /// is read as a record, an empty one too.
    pub fn from_text(text: &str) -> (m: Self)
        ensures
            m.records() == parsed(text@),
            m@ == map_of(lines_of(text@).map_values(|l: Seq<char>| decode(l))),
    {
        let lines = split_lines(text);
        let mut m = DirectoryTagMap::new();
        let mut i: usize = 0;
        while i < lines.len()
            invariant
                i <= lines.len(),
                views(lines@) == lines_of(text@),
                m.records() == loaded(views(lines@).take(i as int)),
            decreases lines.len() - i,
        {
            let record = parse_tag_line(lines[i].as_str());
            proof {
                assert(views(lines@).take(i + 1).drop_last() =~= views(lines@).take(i as int));
                assert(views(lines@).take(i + 1).last() == lines[i as int]@);
            }
            m.set(record.0, record.1);
            i = i + 1;
        }
        proof {
            assert(views(lines@).take(lines.len() as int) =~= views(lines@));
            lemma_loaded(lines_of(text@));
        }
        m
    }
}

} // verus!
