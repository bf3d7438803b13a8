//! The last drop: a running number and the image paths that the drop
//! brought. A view that opens after a drop asks for this record instead of
//! waiting for a notice that may have passed already.

use vstd::prelude::*;
use crate::image::{extract_image_files, resolved, DroppedPath};
use crate::text::{clone_strings, views};

verus! {

/// What the contracts say of the last drop.
pub struct DropRecord {
    /// How many drops there were.
    pub id: int,
    /// The image paths of the last one.
    pub paths: Seq<Seq<char>>,
}

/// The record before any drop.
pub open spec fn no_drop() -> DropRecord {
    DropRecord { id: 0, paths: Seq::empty() }
}

/// The record after one more drop.
pub open spec fn dropped(before: DropRecord, paths: Seq<Seq<char>>) -> DropRecord {
    DropRecord { id: before.id + 1, paths }
}

/// The record after a run of drops, the first one first.
pub open spec fn after_drops(drops: Seq<Seq<Seq<char>>>) -> DropRecord
    decreases drops.len(),
{
    if drops.len() == 0 {
        no_drop()
    } else {
        dropped(after_drops(drops.drop_last()), drops.last())
    }
}

/// The number counts the drops: it starts at 0 and each drop adds 1. The
/// paths are those of the last drop.
pub proof fn lemma_id_counts_drops(drops: Seq<Seq<Seq<char>>>)
    ensures
        after_drops(drops).id == drops.len(),
        drops.len() > 0 ==> after_drops(drops).paths == drops.last(),
        drops.len() == 0 ==> after_drops(drops).paths == Seq::<Seq<char>>::empty(),
    decreases drops.len(),
{
    if drops.len() > 0 {
        lemma_id_counts_drops(drops.drop_last());
    }
}

/// The last drop.
#[derive(Debug)]
pub struct ImagePaths {
    /// How many drops there were.
    pub id: i32,
    /// The image paths of the last one.
    pub paths: Vec<String>,
}

impl View for ImagePaths {
    type V = DropRecord;

    open spec fn view(&self) -> DropRecord {
        DropRecord { id: self.id as int, paths: views(self.paths@) }
    }
}

impl ImagePaths {
    /// The record before any drop.
    pub fn new() -> (record: Self)
        ensures
            record@ == no_drop(),
    {
        let record = ImagePaths { id: 0, paths: Vec::new() };
        proof {
            assert(views(record.paths@) =~= Seq::<Seq<char>>::empty());
        }
        record
    }

    /// A copy of the record.
    pub fn get_prev_image_paths(&self) -> (record: Self)
        ensures
            record@ == self@,
            record.paths@ == self.paths@,
    {
        ImagePaths { id: self.id, paths: clone_strings(&self.paths) }
    }

    /// Records a drop of the given image paths and returns a copy of the
    /// new record. The number is an `i32`, so the drop that would take it
    /// past `i32::MAX` cannot be recorded.
    pub fn record_drop(&mut self, resolved_paths: Vec<String>) -> (record: Self)
        requires
            old(self).id < i32::MAX,
        ensures
            final(self)@ == dropped(old(self)@, views(resolved_paths@)),
            final(self).paths@ == resolved_paths@,
            record@ == final(self)@,
            record.paths@ == resolved_paths@,
    {
        self.id = self.id + 1;
        self.paths = resolved_paths;
        self.get_prev_image_paths()
    }

    /// Takes a drop: resolves the dropped paths to image files and records
    /// them as the last drop.
    pub fn handle_drop(&mut self, dropped_paths: Vec<DroppedPath>) -> (record: Self)
        requires
            old(self).id < i32::MAX,
        ensures
            final(self)@ == dropped(old(self)@, resolved(dropped_paths@)),
            record@ == final(self)@,
    {
        let found = extract_image_files(dropped_paths);
        self.record_drop(found)
    }
}

} // verus!
