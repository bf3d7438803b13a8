//! The tag store: the tags of every directory that was read or written
//! since the process began.
//!
//! A directory enters the store once, with what its tag file held at that
//! moment or with the first tags written to it, and never leaves. Later
//! changes of the file on disk are not seen.

use vstd::prelude::*;
use crate::string_map::{distinct_keys, lemma_put, map_of, put, StringMap};
use crate::tag_map::{parsed, serialize, DirectoryTagMap, Record};
use crate::text::views;

verus! {

/// The records of a directory in a cache, none for a directory that the
/// cache does not hold.
pub open spec fn records_in(cache: Map<Seq<char>, Seq<Record>>, dir: Seq<char>) -> Seq<Record> {
    if cache.contains_key(dir) {
        cache[dir]
    } else {
        Seq::empty()
    }
}

/// The cache after a file of a directory got its tags.
pub open spec fn stored(
    cache: Map<Seq<char>, Seq<Record>>,
    dir: Seq<char>,
    file_name: Seq<char>,
    tags: Seq<Seq<char>>,
) -> Map<Seq<char>, Seq<Record>> {
    cache.insert(dir, put(records_in(cache, dir), file_name, tags))
}

/// The records of a tag file with the given text, none where there is no
/// such file.
pub open spec fn file_records(text: Option<Seq<char>>) -> Seq<Record> {
    match text {
        Some(t) => parsed(t),
        None => Seq::empty(),
    }
}

/// The cache after a directory was asked for: as before where it holds
/// the directory, else with the records of the directory's tag file.
pub open spec fn loaded_into(
    cache: Map<Seq<char>, Seq<Record>>,
    dir: Seq<char>,
    text: Option<Seq<char>>,
) -> Map<Seq<char>, Seq<Record>> {
    if cache.contains_key(dir) {
        cache
    } else {
        cache.insert(dir, file_records(text))
    }
}

/// A directory is read once: asking for it again changes nothing and
/// gives the same records, whatever the tag file holds by then.
pub proof fn lemma_load_once(
    cache: Map<Seq<char>, Seq<Record>>,
    dir: Seq<char>,
    first: Option<Seq<char>>,
    second: Option<Seq<char>>,
)
    ensures
        loaded_into(loaded_into(cache, dir, first), dir, second) == loaded_into(cache, dir, first),
        !cache.contains_key(dir) ==> loaded_into(loaded_into(cache, dir, first), dir, second)[dir]
            == file_records(first),
{
}

/// Nothing leaves the cache: a directory that it holds is still held after
/// a directory was asked for and after tags were written.
pub proof fn lemma_cache_grows(
    cache: Map<Seq<char>, Seq<Record>>,
    held: Seq<char>,
    dir: Seq<char>,
    text: Option<Seq<char>>,
    file_name: Seq<char>,
    tags: Seq<Seq<char>>,
)
    requires
        cache.contains_key(held),
    ensures
        loaded_into(cache, dir, text).contains_key(held),
        stored(cache, dir, file_name, tags).contains_key(held),
{
}

/// Tags written to two files of one directory are both there afterwards,
/// and the tag file's text holds the line of each.
pub proof fn lemma_two_files(
    cache: Map<Seq<char>, Seq<Record>>,
    dir: Seq<char>,
    first: Seq<char>,
    first_tags: Seq<Seq<char>>,
    second: Seq<char>,
    second_tags: Seq<Seq<char>>,
)
    requires
        first != second,
        distinct_keys(records_in(cache, dir)),
    ensures
        ({
            let after = stored(stored(cache, dir, first, first_tags), dir, second, second_tags);
            &&& after.contains_key(dir)
            &&& map_of(after[dir]).contains_key(first)
            &&& map_of(after[dir])[first] == first_tags
            &&& map_of(after[dir]).contains_key(second)
            &&& map_of(after[dir])[second] == second_tags
        }),
{
    let before = records_in(cache, dir);
    lemma_put(before, first, first_tags);
    lemma_put(put(before, first, first_tags), second, second_tags);
}

/// The tags of every directory that was asked for or written to.
#[derive(Debug)]
pub struct TagStore {
    dirs: StringMap<DirectoryTagMap>,
}

impl View for TagStore {
    type V = Map<Seq<char>, Seq<Record>>;

    closed spec fn view(&self) -> Map<Seq<char>, Seq<Record>> {
        self.dirs@.map_values(|m: DirectoryTagMap| m.records())
    }
}

impl TagStore {
    /// The store that holds no directory.
    pub fn new() -> (store: Self)
        ensures
            store@ == Map::<Seq<char>, Seq<Record>>::empty(),
    {
        let store = TagStore { dirs: StringMap::new() };
        proof {
            assert(store@ =~= Map::<Seq<char>, Seq<Record>>::empty());
        }
        store
    }

    /// Whether the store holds the directory.
    pub fn is_cached(&self, dir_key: &str) -> (held: bool)
        ensures
            held == self@.contains_key(dir_key@),
    {
        let key = dir_key.to_owned();
        self.dirs.contains_key(&key)
    }

    /// A copy of the tags of a directory, or `None` for a directory that
    /// the store does not hold.
    pub fn get(&self, dir_key: &str) -> (tags: Option<DirectoryTagMap>)
        ensures
            match tags {
                Some(m) => self@.contains_key(dir_key@) && m.records() == self@[dir_key@],
                None => !self@.contains_key(dir_key@),
            },
    {
        let key = dir_key.to_owned();
        match self.dirs.get(&key) {
            Some(m) => Some(m.copy()),
            None => None,
        }
    }

    /// Answers a request for the tags of a directory. A directory that the
    /// store holds is answered from the store and `text` is not looked at.
    /// Any other directory enters the store with the records of `text`,
    /// the text of its tag file, or without records where there is no tag
    /// file.
    pub fn load(&mut self, dir_key: String, text: Option<&str>) -> (tags: DirectoryTagMap)
        ensures
            final(self)@ == loaded_into(
                old(self)@,
                dir_key@,
                match text {
                    Some(t) => Some(t@),
                    None => None,
                },
            ),
            tags.records() == final(self)@[dir_key@],
    {
        match self.dirs.get(&dir_key) {
            Some(m) => {
                return m.copy();
            },
            None => {},
        }
        let fresh = match text {
            Some(t) => DirectoryTagMap::from_text(t),
            None => DirectoryTagMap::new(),
        };
        let tags = fresh.copy();
        let ghost before = self@;
        self.dirs.insert(dir_key, fresh);
        proof {
            assert(self@ =~= before.insert(dir_key@, fresh.records()));
        }
        tags
    }

    /// Gives a file of a directory its tags and returns the text of the
    /// directory's tag file as it has to be from now on: every record of
    /// the directory, the new one included. A directory that the store did
    /// not hold enters it with this one record.
    pub fn set_tags(&mut self, dir_key: String, file_name: String, tags: Vec<String>) -> (text:
        String)
        ensures
            final(self)@ == stored(old(self)@, dir_key@, file_name@, views(tags@)),
            text@ == serialize(final(self)@[dir_key@]),
    {
        let mut files = match self.dirs.get(&dir_key) {
            Some(m) => m.copy(),
            None => DirectoryTagMap::new(),
        };
        files.set(file_name, tags);
        let text = files.to_text();
        let ghost before = self@;
        self.dirs.insert(dir_key, files);
        proof {
            assert(self@ =~= before.insert(dir_key@, files.records()));
        }
        text
    }
}

} // verus!
