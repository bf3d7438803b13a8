//! The two requests on the tag store, up to the point where a file has to
//! be read or written.
//!
//! Reading a directory's tags and writing a file's tags both need the file
//! system in the middle. Each request is therefore cut in steps: a step
//! checks, changes the store and says what is to be done on disk; the
//! caller does that and, for a read, hands the text back.

use vstd::prelude::*;
use crate::error::{Failure, TagError};
use crate::path::{
    directory_key, directory_facts, directory_verdict, file_facts, get_tag_file_names,
    image_verdict, locate_image, names_fit, path_exists, stands_below, DirectoryFacts, FileFacts,
    TAG_FILE_NAME, TAG_TEMP_FILE_NAME,
};
use crate::store::{loaded_into, stored, TagStore};
use crate::tag_map::{serialize, DirectoryTagMap};
use crate::text::views;
use crate::validate::{tag_verdict, validate_tags};

verus! {

/// What is to be written after tags were stored: `content` goes to
/// `temp_file`, which is then renamed to `tag_file`.
#[derive(Debug)]
pub struct SavePlan {
    /// The path of the scratch file.
    pub temp_file: String,
    /// The path of the tag file.
    pub tag_file: String,
    /// The whole text of the tag file.
    pub content: String,
}

/// How a request for a directory's tags goes on.
#[derive(Debug)]
pub enum LoadStep {
    /// The tags are at hand.
    Ready(DirectoryTagMap),
    /// The store does not hold the directory and its tag file exists: the
    /// file is to be read and its text handed to `finish_load`.
    ReadFile { dir_key: String, tag_file: String },
}

/// Whether a list of tags passes: no tag of it fails.
pub open spec fn tags_pass(tags: Seq<Seq<char>>) -> bool {
    forall|i: int| 0 <= i < tags.len() ==> tag_verdict(#[trigger] tags[i]) is Ok
}

/// What `save_tags` may answer for tags that pass, given what the file
/// system said of the image path. A plan names the tag file and the
/// scratch file of the image's directory and holds the whole text of the
/// tag file.
pub open spec fn save_outcome(
    before: TagStore,
    after: TagStore,
    img_path: Seq<char>,
    tags: Seq<Seq<char>>,
    facts: FileFacts,
    answer: Result<SavePlan, TagError>,
) -> bool {
    match image_verdict(img_path, facts) {
        Err(failure) => after@ == before@ && answer is Err && answer->Err_0@ == failure,
        Ok((dir, name)) => match answer {
            Err(e) => after@ == before@ && e@ == Failure::MissingDirectory(dir),
            Ok(plan) => {
                &&& after@ == stored(before@, dir, name, tags)
                &&& plan.content@ == serialize(after@[dir])
                &&& stands_below(dir, TAG_FILE_NAME@, plan.tag_file@)
                &&& stands_below(dir, TAG_TEMP_FILE_NAME@, plan.temp_file@)
            },
        },
    }
}

/// How a request for a directory that the store may not hold goes on,
/// given the paths of the directory's tag files and whether the tag file
/// exists. Without the paths the request fails. A directory whose tag
/// file exists is to be read, and the store waits for the text. A
/// directory without a tag file is answered from the store, which it
/// enters without records unless it is held already.
pub open spec fn step_outcome(
    before: TagStore,
    after: TagStore,
    dir: Seq<char>,
    names: Result<(String, String), TagError>,
    tag_file_exists: bool,
    answer: Result<LoadStep, TagError>,
) -> bool {
    match names {
        Err(e) => after@ == before@ && answer is Err && answer->Err_0 == e,
        Ok(pair) => if tag_file_exists {
            &&& after@ == before@
            &&& answer matches Ok(LoadStep::ReadFile { dir_key, tag_file })
            &&& dir_key@ == dir
            &&& tag_file == pair.0
        } else {
            &&& after@ == loaded_into(before@, dir, None)
            &&& answer matches Ok(LoadStep::Ready(tags))
            &&& tags.records() == after@[dir]
        },
    }
}

/// What `load_tags_in_dir` answers, given what the file system said of the
/// directory path, of the directory's tag files and of the tag file's
/// existence. A directory that the store holds is answered from the store
/// and the last two are not asked.
pub open spec fn load_outcome(
    before: TagStore,
    after: TagStore,
    dir_path: Seq<char>,
    facts: DirectoryFacts,
    names: Result<(String, String), TagError>,
    tag_file_exists: bool,
    answer: Result<LoadStep, TagError>,
) -> bool {
    match directory_verdict(dir_path, facts) {
        Err(failure) => after@ == before@ && answer is Err && answer->Err_0@ == failure,
        Ok(dir) => if before@.contains_key(dir) {
            &&& after@ == before@
            &&& answer matches Ok(LoadStep::Ready(tags))
            &&& tags.records() == before@[dir]
        } else {
            &&& names_fit(dir, names)
            &&& step_outcome(before, after, dir, names, tag_file_exists, answer)
        },
    }
}

/// Tags for a file that does not exist are turned down as not found, and
/// the store stays as it was.
pub proof fn lemma_missing_file_is_not_stored(
    before: TagStore,
    after: TagStore,
    img_path: Seq<char>,
    tags: Seq<Seq<char>>,
    facts: FileFacts,
    answer: Result<SavePlan, TagError>,
)
    requires
        !facts.exists,
        save_outcome(before, after, img_path, tags, facts, answer),
    ensures
        answer is Err,
        answer->Err_0@ == Failure::NotFound(img_path),
        after@ == before@,
{
}

/// Stores the tags of a file and plans the write, once the image path was
/// resolved to a directory and a name and the directory was asked for the
/// paths of its tag files. Without those paths nothing is stored.
pub fn store_and_plan(
    store: &mut TagStore,
    dir_key: String,
    file_name: String,
    tags: Vec<String>,
    names: Result<(String, String), TagError>,
) -> (answer: Result<SavePlan, TagError>)
    ensures
        match names {
            Err(e) => final(store)@ == old(store)@ && answer is Err && answer->Err_0 == e,
            Ok(pair) => final(store)@ == stored(old(store)@, dir_key@, file_name@, views(tags@))
                && answer is Ok && answer->Ok_0.content@ == serialize(final(store)@[dir_key@])
                && answer->Ok_0.tag_file == pair.0 && answer->Ok_0.temp_file == pair.1,
        },
{
    match names {
        Err(e) => Err(e),
        Ok(pair) => {
            let content = store.set_tags(dir_key, file_name, tags);
            Ok(SavePlan { temp_file: pair.1, tag_file: pair.0, content })
        },
    }
}

/// Gives an image file its tags in the store and says what to write.
///
/// The tags are checked first and the first one that fails is the answer.
/// The path is checked next, against the file system. Only then is the
/// store changed, so that a request that fails leaves it as it was. The
/// tag file itself is not touched: the plan says what it has to hold.
pub fn save_tags(store: &mut TagStore, img_path: &str, tags: Vec<String>) -> (answer: Result<
    SavePlan,
    TagError,
>)
    ensures
        answer is Err ==> final(store)@ == old(store)@,
        !tags_pass(views(tags@)) ==> answer is Err && exists|i: int|
            0 <= i < tags.len() && tag_verdict(#[trigger] tags[i]@) == Err::<(), TagError>(
                answer->Err_0,
            ) && forall|j: int| 0 <= j < i ==> tag_verdict(#[trigger] tags[j]@) is Ok,
        tags_pass(views(tags@)) ==> exists|facts: FileFacts|
            save_outcome(*old(store), *final(store), img_path@, views(tags@), facts, answer),
{
    match validate_tags(&tags) {
        Err(e) => {
            proof {
                let i = choose|i: int|
                    0 <= i < tags.len() && tag_verdict(#[trigger] tags[i]@) == Err::<(), TagError>(
                        e,
                    ) && forall|j: int| 0 <= j < i ==> tag_verdict(#[trigger] tags[j]@) is Ok;
                assert(views(tags@)[i] == tags[i]@);
            }
            return Err(e);
        },
        Ok(()) => {},
    }
    proof {
        assert forall|i: int| 0 <= i < views(tags@).len() implies tag_verdict(
            #[trigger] views(tags@)[i],
        ) is Ok by {
            assert(views(tags@)[i] == tags[i]@);
        }
    }
    let facts = file_facts(img_path);
    let ghost seen = facts;
    let (dir_key, file_name) = match locate_image(img_path, facts) {
        Err(e) => {
            proof {
                assert(save_outcome(
                    *old(store),
                    *store,
                    img_path@,
                    views(tags@),
                    seen,
                    Err::<SavePlan, TagError>(e),
                ));
            }
            return Err(e);
        },
        Ok(location) => location,
    };
    let names = get_tag_file_names(dir_key.clone());
    let answer = store_and_plan(store, dir_key, file_name, tags, names);
    proof {
        assert(save_outcome(*old(store), *store, img_path@, views(tags@), seen, answer));
    }
    answer
}

/// Goes on with a request for the tags of a directory, once the directory
/// was asked for the paths of its tag files and the file system was asked
/// whether the tag file exists.
pub fn next_load_step(
    store: &mut TagStore,
    dir_key: String,
    names: Result<(String, String), TagError>,
    tag_file_exists: bool,
) -> (answer: Result<LoadStep, TagError>)
    ensures
        step_outcome(*old(store), *final(store), dir_key@, names, tag_file_exists, answer),
        answer matches Ok(LoadStep::ReadFile { dir_key: key, tag_file }) ==> key == dir_key,
{
    match names {
        Err(e) => Err(e),
        Ok(pair) => {
            if tag_file_exists {
                Ok(LoadStep::ReadFile { dir_key, tag_file: pair.0 })
            } else {
                Ok(LoadStep::Ready(store.load(dir_key, None)))
            }
        },
    }
}

/// Begins a request for the tags of a directory. The path is checked
/// against the file system. A directory that the store holds is answered
/// from the store. One that it does not hold and that has no tag file
/// enters the store without records. For any other the tag file is to be
/// read: the store stays as it is until `finish_load` gets the text.
pub fn load_tags_in_dir(store: &mut TagStore, dir_path: &str) -> (answer: Result<
    LoadStep,
    TagError,
>)
    ensures
        exists|facts: DirectoryFacts, names: Result<(String, String), TagError>, tag_file_exists: bool|
            load_outcome(
                *old(store),
                *final(store),
                dir_path@,
                facts,
                names,
                tag_file_exists,
                answer,
            ),
{
    let facts = directory_facts(dir_path);
    let ghost seen = facts;
    let dir_key = match directory_key(dir_path, facts) {
        Err(e) => {
            let answer = Err(e);
            proof {
                assert(load_outcome(
                    *old(store),
                    *store,
                    dir_path@,
                    seen,
                    arbitrary(),
                    false,
                    answer,
                ));
            }
            return answer;
        },
        Ok(key) => key,
    };
    match store.get(dir_key.as_str()) {
        Some(tags) => {
            let answer = Ok(LoadStep::Ready(tags));
            proof {
                assert(load_outcome(
                    *old(store),
                    *store,
                    dir_path@,
                    seen,
                    arbitrary(),
                    false,
                    answer,
                ));
            }
            return answer;
        },
        None => {},
    }
    let names = get_tag_file_names(dir_key.clone());
    let tag_file_exists = match &names {
        Ok(pair) => path_exists(pair.0.as_str()),
        Err(_) => false,
    };
    let ghost told = names;
    let answer = next_load_step(store, dir_key, names, tag_file_exists);
    proof {
        assert(load_outcome(
            *old(store),
            *store,
            dir_path@,
            seen,
            told,
            tag_file_exists,
            answer,
        ));
    }
    answer
}

/// Ends a request for the tags of a directory with the text of its tag
/// file. Where the store came to hold the directory in the meantime, the
/// text is not looked at and the store's records are the answer.
pub fn finish_load(store: &mut TagStore, dir_key: String, text: &str) -> (tags: DirectoryTagMap)
    ensures
        final(store)@ == loaded_into(old(store)@, dir_key@, Some(text@)),
        tags.records() == final(store)@[dir_key@],
{
    store.load(dir_key, Some(text))
}

} // verus!
