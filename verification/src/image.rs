//! Which paths name an image, and which image files a drop brings.

use vstd::prelude::*;
use crate::text::{chars_of, ends_with, ends_with_chars, lemma_views_push, views};

verus! {

/// Whether a path ends in one of the image extensions. The comparison
/// takes the path as it is written: an extension in capitals is none.
pub open spec fn has_image_suffix(path: Seq<char>) -> bool {
    ||| ends_with(path, "png"@)
    ||| ends_with(path, "jpeg"@)
    ||| ends_with(path, "jpg"@)
    ||| ends_with(path, "gif"@)
    ||| ends_with(path, "webp"@)
}

/// Whether the characters of a path end in one of the image extensions.
pub fn is_image_chars(path: &Vec<char>) -> (answer: bool)
    ensures
        answer == has_image_suffix(path@),
{
    ends_with_chars(path, &chars_of("png")) || ends_with_chars(path, &chars_of("jpeg"))
        || ends_with_chars(path, &chars_of("jpg")) || ends_with_chars(path, &chars_of("gif"))
        || ends_with_chars(path, &chars_of("webp"))
}

/// Whether a path names an image file, going by its extension alone.
pub fn is_image(path: &str) -> (answer: bool)
    ensures
        answer == has_image_suffix(path@),
{
    is_image_chars(&chars_of(path))
}

/// A path that ends in an image extension written in capitals is no image.
pub proof fn lemma_capitals_are_no_image(path: Seq<char>)
    requires
        ends_with(path, "PNG"@) || ends_with(path, "JPEG"@) || ends_with(path, "JPG"@)
            || ends_with(path, "GIF"@) || ends_with(path, "WEBP"@),
    ensures
        !has_image_suffix(path),
{
    reveal_strlit("PNG");
    reveal_strlit("JPEG");
    reveal_strlit("JPG");
    reveal_strlit("GIF");
    reveal_strlit("WEBP");
    reveal_strlit("png");
    reveal_strlit("jpeg");
    reveal_strlit("jpg");
    reveal_strlit("gif");
    reveal_strlit("webp");
    let n = path.len() as int;
    assert(n >= 3);
    let last = path[n - 1];
    assert(last == 'G' || last == 'F' || last == 'P') by {
        if ends_with(path, "PNG"@) {
            assert(path.skip(n - 3)[2] == 'G');
        } else if ends_with(path, "JPEG"@) {
            assert(path.skip(n - 4)[3] == 'G');
        } else if ends_with(path, "JPG"@) {
            assert(path.skip(n - 3)[2] == 'G');
        } else if ends_with(path, "GIF"@) {
            assert(path.skip(n - 3)[2] == 'F');
        } else {
            assert(path.skip(n - 4)[3] == 'P');
        }
    }
    if ends_with(path, "png"@) {
        assert(path.skip(n - 3)[2] == 'g');
    }
    if ends_with(path, "jpeg"@) {
        assert(path.skip(n - 4)[3] == 'g');
    }
    if ends_with(path, "jpg"@) {
        assert(path.skip(n - 3)[2] == 'g');
    }
    if ends_with(path, "gif"@) {
        assert(path.skip(n - 3)[2] == 'f');
    }
    if ends_with(path, "webp"@) {
        assert(path.skip(n - 4)[3] == 'p');
    }
}

/// One entry of a directory, as the file system listed it.
#[derive(Debug)]
pub struct ListedEntry {
    /// The entry's path, the directory's path included.
    pub path: String,
    /// Whether the entry is a regular file.
    pub is_file: bool,
}

/// One dropped path, with what the file system said when it was asked for
/// the entries of a directory of that name.
#[derive(Debug)]
pub struct DroppedPath {
    /// The path as it was dropped.
    pub path: String,
    /// The directory's entries in the order of the listing, or `None`
    /// where no directory could be listed there.
    pub listing: Option<Vec<ListedEntry>>,
}

/// The image files among the entries of a directory, in listing order.
pub open spec fn listed_images(entries: Seq<ListedEntry>) -> Seq<Seq<char>>
    decreases entries.len(),
{
    if entries.len() == 0 {
        Seq::empty()
    } else {
        let e = entries.last();
        let rest = listed_images(entries.drop_last());
        if e.is_file && has_image_suffix(e.path@) {
            rest.push(e.path@)
        } else {
            rest
        }
    }
}

/// What one dropped path brings: itself where it names an image, else
/// the image files right below it where it could be listed, else nothing.
pub open spec fn contribution(dropped: DroppedPath) -> Seq<Seq<char>> {
    if has_image_suffix(dropped.path@) {
        seq![dropped.path@]
    } else {
        match dropped.listing {
            Some(entries) => listed_images(entries@),
            None => Seq::empty(),
        }
    }
}

/// What a drop brings: the contributions of its paths, one after the
/// other. Nothing is sorted and nothing is removed.
pub open spec fn resolved(inputs: Seq<DroppedPath>) -> Seq<Seq<char>>
    decreases inputs.len(),
{
    if inputs.len() == 0 {
        Seq::empty()
    } else {
        resolved(inputs.drop_last()) + contribution(inputs.last())
    }
}

/// A drop of image paths alone resolves to those paths, in their order.
pub proof fn lemma_images_resolve_to_themselves(inputs: Seq<DroppedPath>)
    requires
        forall|i: int| 0 <= i < inputs.len() ==> has_image_suffix(#[trigger] inputs[i].path@),
    ensures
        resolved(inputs) == inputs.map_values(|d: DroppedPath| d.path@),
    decreases inputs.len(),
{
    let paths = inputs.map_values(|d: DroppedPath| d.path@);
    if inputs.len() > 0 {
        let front = inputs.drop_last();
        assert forall|i: int| 0 <= i < front.len() implies has_image_suffix(
            #[trigger] front[i].path@,
        ) by {
            assert(front[i] == inputs[i]);
        }
        lemma_images_resolve_to_themselves(front);
        assert(has_image_suffix(inputs[inputs.len() - 1].path@));
        assert(resolved(inputs) =~= paths);
    } else {
        assert(resolved(inputs) =~= paths);
    }
}

/// Whether the resolver looks at the directory entries of a path: it does
/// so for every path that names no image.
pub fn needs_listing(path: &str) -> (answer: bool)
    ensures
        answer == !has_image_suffix(path@),
{
    !is_image(path)
}

/// Appends the image files among `entries` to `found`.
fn push_listed_images(found: &mut Vec<String>, entries: &Vec<ListedEntry>)
    ensures
        views(final(found)@) == views(old(found)@) + listed_images(entries@),
{
    let mut i: usize = 0;
    proof {
        assert(entries@.take(0).len() == 0);
        assert(views(found@) + Seq::<Seq<char>>::empty() =~= views(found@));
    }
    while i < entries.len()
        invariant
            i <= entries.len(),
            views(found@) == views(old(found)@) + listed_images(entries@.take(i as int)),
        decreases entries.len() - i,
    {
        proof {
            assert(entries@.take(i + 1).drop_last() =~= entries@.take(i as int));
            assert(entries@.take(i + 1).last() == entries@[i as int]);
        }
        if entries[i].is_file && is_image(entries[i].path.as_str()) {
            let path = entries[i].path.clone();
            proof {
                lemma_views_push(found@, path);
                assert(views(found@).push(path@) =~= views(old(found)@) + listed_images(
                    entries@.take(i + 1),
                ));
            }
            found.push(path);
        }
        i = i + 1;
    }
    proof {
        assert(entries@.take(entries.len() as int) =~= entries@);
    }
}

/// The image files that a drop brings. A path that names an image is
/// taken as it stands, whether or not such a file exists. Of any other
/// path the listing counts: the regular files right below it that name an
/// image, in listing order; a path that could not be listed brings nothing.
pub fn extract_image_files(paths: Vec<DroppedPath>) -> (found: Vec<String>)
    ensures
        views(found@) == resolved(paths@),
{
    let mut found: Vec<String> = Vec::new();
    let mut i: usize = 0;
    proof {
        assert(views(found@) =~= resolved(paths@.take(0)));
    }
    while i < paths.len()
        invariant
            i <= paths.len(),
            views(found@) == resolved(paths@.take(i as int)),
        decreases paths.len() - i,
    {
        proof {
            assert(paths@.take(i + 1).drop_last() =~= paths@.take(i as int));
            assert(paths@.take(i + 1).last() == paths@[i as int]);
        }
        if is_image(paths[i].path.as_str()) {
            let path = paths[i].path.clone();
            proof {
                lemma_views_push(found@, path);
                assert(views(found@).push(path@) =~= views(found@) + seq![path@]);
            }
            found.push(path);
        } else {
            match &paths[i].listing {
                Some(entries) => {
                    push_listed_images(&mut found, entries);
                },
                None => {
                    proof {
                        assert(views(found@) + Seq::<Seq<char>>::empty() =~= views(found@));
                    }
                },
            }
        }
        i = i + 1;
    }
    proof {
        assert(paths@.take(paths.len() as int) =~= paths@);
    }
    found
}

} // verus!
