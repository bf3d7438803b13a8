//! Strings as sequences of characters: searching, splitting and joining.
//!
//! Every contract in the crate speaks of a string through its view, a
//! `Seq<char>`. The executable helpers here turn a `&str` into a `Vec<char>`
//! once and work on that vector, so that each step is a verified loop.

use vstd::prelude::*;
use vstd::string::*;

verus! {

/// The views of a sequence of strings.
pub open spec fn views(v: Seq<String>) -> Seq<Seq<char>> {
    v.map_values(|s: String| s@)
}

/// The position of the first `c` in `s`, or `s.len()` where `s` holds none.
pub open spec fn first_index(s: Seq<char>, c: char) -> int
    decreases s.len(),
{
    if s.len() == 0 {
        0
    } else if s[0] == c {
        0
    } else {
        1 + first_index(s.drop_first(), c)
    }
}

/// Whether `c` occurs in `s`.
pub open spec fn has_char(s: Seq<char>, c: char) -> bool {
    exists|i: int| 0 <= i < s.len() && s[i] == c
}

/// The pieces of `s` between the occurrences of `sep`. A string without
/// `sep` is one piece, the empty string included.
pub open spec fn split(s: Seq<char>, sep: char) -> Seq<Seq<char>>
    decreases s.len(),
{
    let i = first_index(s, sep);
    if 0 <= i < s.len() {
        seq![s.take(i)] + split(s.skip(i + 1), sep)
    } else {
        seq![s]
    }
}

/// The pieces put together with `sep` between neighbours.
pub open spec fn join(parts: Seq<Seq<char>>, sep: char) -> Seq<char>
    decreases parts.len(),
{
    if parts.len() == 0 {
        Seq::empty()
    } else if parts.len() == 1 {
        parts[0]
    } else {
        parts[0] + seq![sep] + join(parts.drop_first(), sep)
    }
}

/// Whether `s` ends with `suffix`.
pub open spec fn ends_with(s: Seq<char>, suffix: Seq<char>) -> bool {
    suffix.len() <= s.len() && s.skip(s.len() - suffix.len()) == suffix
}

/// Whether `s` begins with `prefix`.
pub open spec fn begins_with(s: Seq<char>, prefix: Seq<char>) -> bool {
    prefix.len() <= s.len() && s.subrange(0, prefix.len() as int) == prefix
}

/// Whether `needle` occurs in `s` as a run of neighbouring characters.
pub open spec fn has_run(s: Seq<char>, needle: Seq<char>) -> bool {
    exists|i: int|
        0 <= i && i + needle.len() <= s.len() && #[trigger] s.subrange(i, i + needle.len())
            == needle
}

/// `first_index` stays in range, points at `c` where it points into `s`,
/// and no `c` stands before it.
pub proof fn lemma_first_index(s: Seq<char>, c: char)
    ensures
        0 <= first_index(s, c) <= s.len(),
        first_index(s, c) < s.len() ==> s[first_index(s, c)] == c,
        forall|k: int| 0 <= k < first_index(s, c) ==> s[k] != c,
        first_index(s, c) < s.len() <==> has_char(s, c),
    decreases s.len(),
{
    if s.len() > 0 && s[0] != c {
        let rest = s.drop_first();
        lemma_first_index(rest, c);
        assert forall|k: int| 0 <= k < first_index(s, c) implies s[k] != c by {
            if k > 0 {
                assert(s[k] == rest[k - 1]);
            }
        }
        if has_char(s, c) {
            let i = choose|i: int| 0 <= i < s.len() && s[i] == c;
            assert(rest[i - 1] == c);
        }
        if first_index(s, c) < s.len() {
            assert(s[first_index(s, c)] == rest[first_index(rest, c)]);
        }
    } else if s.len() > 0 {
        assert(s[0] == c);
    }
}

/// The first `c` of two strings put together stands in the first one
/// where that holds a `c`, and in the second one else.
pub proof fn lemma_first_index_concat(a: Seq<char>, b: Seq<char>, c: char)
    ensures
        has_char(a, c) ==> first_index(a + b, c) == first_index(a, c),
        !has_char(a, c) ==> first_index(a + b, c) == a.len() + first_index(b, c),
    decreases a.len(),
{
    lemma_first_index(a, c);
    if a.len() == 0 {
        assert(a + b =~= b);
    } else {
        assert((a + b)[0] == a[0]);
        if a[0] != c {
            lemma_first_index_concat(a.drop_first(), b, c);
            lemma_first_index(a.drop_first(), c);
            assert((a + b).drop_first() =~= a.drop_first() + b);
        }
    }
}

/// A character of joined pieces is the separator or stands in a piece.
pub proof fn lemma_join_chars(parts: Seq<Seq<char>>, sep: char, c: char)
    requires
        has_char(join(parts, sep), c),
    ensures
        c == sep || exists|i: int| 0 <= i < parts.len() && has_char(#[trigger] parts[i], c),
    decreases parts.len(),
{
    let joined = join(parts, sep);
    let at = choose|k: int| 0 <= k < joined.len() && joined[k] == c;
    if parts.len() == 1 {
        assert(has_char(parts[0], c));
    } else if parts.len() > 1 {
        let head = parts[0];
        let rest = parts.drop_first();
        assert(joined == head + seq![sep] + join(rest, sep));
        if at < head.len() {
            assert(head[at] == c);
            assert(has_char(parts[0], c));
        } else if at > head.len() {
            assert(join(rest, sep)[at - head.len() - 1] == c);
            lemma_join_chars(rest, sep, c);
            if c != sep {
                let i = choose|i: int| 0 <= i < rest.len() && has_char(#[trigger] rest[i], c);
                assert(rest[i] == parts[i + 1]);
                assert(has_char(parts[i + 1], c));
            }
        }
    }
}

/// A string without the separator is a single piece.
pub proof fn lemma_split_without_sep(s: Seq<char>, sep: char)
    requires
        !has_char(s, sep),
    ensures
        split(s, sep) == seq![s],
{
    lemma_first_index(s, sep);
}

/// Where no piece holds the separator, the first separator of the joined
/// text stands right behind the first piece.
proof fn lemma_first_index_of_join(parts: Seq<Seq<char>>, sep: char)
    requires
        parts.len() > 0,
        forall|i: int| 0 <= i < parts.len() ==> !has_char(#[trigger] parts[i], sep),
    ensures
        parts.len() == 1 ==> !has_char(join(parts, sep), sep),
        parts.len() > 1 ==> first_index(join(parts, sep), sep) == parts[0].len(),
{
    if parts.len() > 1 {
        let joined = join(parts, sep);
        let head = parts[0];
        assert(joined == head + seq![sep] + join(parts.drop_first(), sep));
        lemma_first_index(joined, sep);
        assert(joined[head.len() as int] == sep);
        if first_index(joined, sep) < head.len() {
            let k = first_index(joined, sep);
            assert(joined[k] == head[k]);
            assert(has_char(head, sep));
        }
    } else {
        assert(join(parts, sep) == parts[0]);
    }
}

/// Splitting what `join` made gives the pieces back, as long as there is a
/// piece and no piece holds the separator.
pub proof fn lemma_split_join(parts: Seq<Seq<char>>, sep: char)
    requires
        parts.len() > 0,
        forall|i: int| 0 <= i < parts.len() ==> !has_char(#[trigger] parts[i], sep),
    ensures
        split(join(parts, sep), sep) == parts,
    decreases parts.len(),
{
    let joined = join(parts, sep);
    lemma_first_index_of_join(parts, sep);
    if parts.len() == 1 {
        lemma_split_without_sep(joined, sep);
        assert(seq![parts[0]] =~= parts);
    } else {
        let rest = parts.drop_first();
        let head = parts[0];
        assert forall|i: int| 0 <= i < rest.len() implies !has_char(#[trigger] rest[i], sep) by {
            assert(rest[i] == parts[i + 1]);
        }
        lemma_split_join(rest, sep);
        assert(joined == head + seq![sep] + join(rest, sep));
        assert(joined.take(head.len() as int) =~= head);
        assert(joined.skip(head.len() as int + 1) =~= join(rest, sep));
        assert(seq![head] + rest =~= parts);
    }
}

/// Joining one more piece puts a separator and the piece behind what was
/// joined so far.
pub proof fn lemma_join_push(parts: Seq<Seq<char>>, piece: Seq<char>, sep: char)
    requires
        parts.len() > 0,
    ensures
        join(parts.push(piece), sep) == join(parts, sep) + seq![sep] + piece,
    decreases parts.len(),
{
    let longer = parts.push(piece);
    if parts.len() == 1 {
        assert(longer.drop_first() =~= seq![piece]);
        assert(join(longer.drop_first(), sep) == piece);
    } else {
        let rest = parts.drop_first();
        lemma_join_push(rest, piece, sep);
        assert(longer.drop_first() =~= rest.push(piece));
        assert(join(longer, sep) =~= join(parts, sep) + seq![sep] + piece);
    }
}

/// The views of a sequence with one more string.
pub proof fn lemma_views_push(v: Seq<String>, s: String)
    ensures
        views(v.push(s)) == views(v).push(s@),
{
    assert(views(v.push(s)) =~= views(v).push(s@));
}

/// The characters of `s`, in order.
pub fn chars_of(s: &str) -> (out: Vec<char>)
    ensures
        out@ == s@,
{
    let mut out: Vec<char> = Vec::new();
    for c in it: s.chars()
        invariant
            out@ == it.seq().take(it.index() as int),
            it.seq() == s@,
    {
        out.push(c);
        proof {
            assert(out@ =~= it.seq().take(it.index() + 1));
        }
    }
    proof {
        assert(out@ =~= s@);
    }
    out
}

/// `String::push` of std: appends one character to the end of the string.
#[verifier::external_body]
pub(crate) fn push_char(s: &mut String, c: char)
    ensures
        final(s)@ == old(s)@.push(c),
{
    s.push(c);
}

/// The string made of `chars[from..to]`.
pub(crate) fn string_from(chars: &Vec<char>, from: usize, to: usize) -> (out: String)
    requires
        from <= to <= chars.len(),
    ensures
        out@ == chars@.subrange(from as int, to as int),
{
    let mut out = String::new();
    let mut i: usize = from;
    while i < to
        invariant
            from <= i <= to <= chars.len(),
            out@ == chars@.subrange(from as int, i as int),
        decreases to - i,
    {
        push_char(&mut out, chars[i]);
        proof {
            assert(out@ =~= chars@.subrange(from as int, i + 1));
        }
        i = i + 1;
    }
    out
}

/// The position of the first `c` at or after `from`, or the length of
/// `chars` where none follows.
pub(crate) fn find_char(chars: &Vec<char>, from: usize, c: char) -> (idx: usize)
    requires
        from <= chars.len(),
    ensures
        from <= idx <= chars.len(),
        idx == from + first_index(chars@.skip(from as int), c),
{
    let mut i: usize = from;
    while i < chars.len() && chars[i] != c
        invariant
            from <= i <= chars.len(),
            first_index(chars@.skip(from as int), c) == (i - from) + first_index(
                chars@.skip(i as int),
                c,
            ),
        decreases chars.len() - i,
    {
        proof {
            assert(chars@.skip(i as int).drop_first() =~= chars@.skip(i + 1));
        }
        i = i + 1;
    }
    proof {
        if i < chars.len() {
            assert(chars@.skip(i as int)[0] == c);
        } else {
            assert(chars@.skip(i as int).len() == 0);
        }
    }
    i
}

/// Whether `chars` holds `c`.
pub fn contains_char(chars: &Vec<char>, c: char) -> (found: bool)
    ensures
        found == has_char(chars@, c),
{
    let idx = find_char(chars, 0, c);
    proof {
        assert(chars@.skip(0) =~= chars@);
        lemma_first_index(chars@, c);
    }
    idx < chars.len()
}

/// The pieces of `chars[from..]` between the occurrences of `sep`.
pub(crate) fn split_chars(chars: &Vec<char>, from: usize, sep: char) -> (out: Vec<String>)
    requires
        from <= chars.len(),
    ensures
        views(out@) == split(chars@.skip(from as int), sep),
{
    let mut out: Vec<String> = Vec::new();
    let mut start: usize = from;
    let mut done = false;
    while !done
        invariant
            from <= start <= chars.len(),
            !done ==> views(out@) + split(chars@.skip(start as int), sep) == split(
                chars@.skip(from as int),
                sep,
            ),
            done ==> views(out@) == split(chars@.skip(from as int), sep),
        decreases chars.len() - start + (if done { 0int } else { 1int }),
    {
        let idx = find_char(chars, start, sep);
        let piece = string_from(chars, start, idx);
        proof {
            let tail = chars@.skip(start as int);
            lemma_views_push(out@, piece);
            assert(tail.take(idx - start) =~= chars@.subrange(start as int, idx as int));
            if idx < chars.len() {
                assert(tail.skip(idx - start + 1) =~= chars@.skip(idx + 1));
                assert(views(out@).push(piece@) + split(chars@.skip(idx + 1), sep) =~= views(out@)
                    + split(tail, sep));
            } else {
                assert(tail =~= chars@.subrange(start as int, idx as int));
                assert(views(out@).push(piece@) =~= views(out@) + split(tail, sep));
            }
        }
        out.push(piece);
        if idx < chars.len() {
            start = idx + 1;
        } else {
            done = true;
        }
    }
    out
}

/// The strings put together with `sep` between neighbours.
pub fn join_strings(parts: &Vec<String>, sep: char) -> (out: String)
    ensures
        out@ == join(views(parts@), sep),
{
    let mut out = String::new();
    let mut i: usize = 0;
    while i < parts.len()
        invariant
            i <= parts.len(),
            out@ == join(views(parts@).take(i as int), sep),
        decreases parts.len() - i,
    {
        proof {
            let sofar = views(parts@).take(i as int);
            assert(views(parts@).take(i + 1) =~= sofar.push(parts[i as int]@));
            if i > 0 {
                lemma_join_push(sofar, parts[i as int]@, sep);
            } else {
                assert(out@ + parts[i as int]@ =~= parts[i as int]@);
            }
        }
        if i > 0 {
            push_char(&mut out, sep);
        }
        out.append(parts[i].as_str());
        proof {
            assert(out@ =~= join(views(parts@).take(i + 1), sep));
        }
        i = i + 1;
    }
    proof {
        assert(views(parts@).take(parts.len() as int) =~= views(parts@));
    }
    out
}

/// Whether `chars` ends with `suffix`.
pub fn ends_with_chars(chars: &Vec<char>, suffix: &Vec<char>) -> (found: bool)
    ensures
        found == ends_with(chars@, suffix@),
{
    if suffix.len() > chars.len() {
        return false;
    }
    let offset = chars.len() - suffix.len();
    let mut i: usize = 0;
    while i < suffix.len()
        invariant
            offset + suffix.len() == chars.len(),
            i <= suffix.len(),
            forall|k: int| 0 <= k < i ==> chars@[offset + k] == suffix@[k],
        decreases suffix.len() - i,
    {
        if chars[offset + i] != suffix[i] {
            proof {
                assert(chars@.skip(offset as int)[i as int] != suffix@[i as int]);
            }
            return false;
        }
        i = i + 1;
    }
    proof {
        assert(chars@.skip(offset as int) =~= suffix@);
    }
    true
}

/// Whether `needle` occurs in `chars` as a run of neighbouring characters.
pub fn contains_run(chars: &Vec<char>, needle: &Vec<char>) -> (found: bool)
    ensures
        found == has_run(chars@, needle@),
{
    if needle.len() > chars.len() {
        proof {
            assert(!has_run(chars@, needle@));
        }
        return false;
    }
    let last = chars.len() - needle.len();
    let mut at: usize = 0;
    while at <= last
        invariant
            last + needle.len() == chars.len(),
            at <= last + 1,
            forall|i: int|
                0 <= i < at ==> #[trigger] chars@.subrange(i, i + needle.len()) != needle@,
        decreases last + 1 - at,
    {
        let mut k: usize = 0;
        while k < needle.len() && chars[at + k] == needle[k]
            invariant
                last + needle.len() == chars.len(),
                at <= last,
                k <= needle.len(),
                forall|j: int| 0 <= j < k ==> chars@[at + j] == needle@[j],
            decreases needle.len() - k,
        {
            k = k + 1;
        }
        if k == needle.len() {
            proof {
                assert(chars@.subrange(at as int, at + needle.len()) =~= needle@);
            }
            return true;
        }
        proof {
            assert(chars@.subrange(at as int, at + needle.len())[k as int] != needle@[k as int]);
        }
        at = at + 1;
    }
    proof {
        assert forall|i: int| 0 <= i && i + needle.len() <= chars.len() implies #[trigger] chars@.subrange(
            i,
            i + needle.len(),
        ) != needle@ by {
            assert(i < at);
        }
    }
    false
}

/// A copy of a vector of strings.
pub fn clone_strings(v: &Vec<String>) -> (out: Vec<String>)
    ensures
        out@ == v@,
{
    let mut out: Vec<String> = Vec::new();
    let mut i: usize = 0;
    while i < v.len()
        invariant
            i <= v.len(),
            out@ == v@.take(i as int),
        decreases v.len() - i,
    {
        out.push(v[i].clone());
        proof {
            assert(out@ =~= v@.take(i + 1));
        }
        i = i + 1;
    }
    proof {
        assert(v@.take(v.len() as int) =~= v@);
    }
    out
}

} // verus!
