//! A map keyed by strings that keeps its entries in the order in which
//! their keys first came.

use vstd::prelude::*;

verus! {

/// The position of the first entry with the key, or the length of
/// `entries` where no entry has it.
pub open spec fn position<V>(entries: Seq<(Seq<char>, V)>, key: Seq<char>) -> int
    decreases entries.len(),
{
    if entries.len() == 0 {
        0
    } else if entries[0].0 == key {
        0
    } else {
        1 + position(entries.drop_first(), key)
    }
}

/// No key stands in two entries.
pub open spec fn distinct_keys<V>(entries: Seq<(Seq<char>, V)>) -> bool {
    forall|i: int, j: int|
        0 <= i < j < entries.len() ==> (#[trigger] entries[i]).0 != (#[trigger] entries[j]).0
}

/// The entries with `value` under `key`: in the place of the entry that
/// had the key, or at the end where none had it.
pub open spec fn put<V>(entries: Seq<(Seq<char>, V)>, key: Seq<char>, value: V) -> Seq<
    (Seq<char>, V),
> {
    let at = position(entries, key);
    if 0 <= at < entries.len() {
        entries.update(at, (key, value))
    } else {
        entries.push((key, value))
    }
}

/// The map that the entries stand for. Of two entries with one key the
/// later one counts.
pub open spec fn map_of<V>(entries: Seq<(Seq<char>, V)>) -> Map<Seq<char>, V>
    decreases entries.len(),
{
    if entries.len() == 0 {
        Map::empty()
    } else {
        map_of(entries.drop_last()).insert(entries.last().0, entries.last().1)
    }
}

/// `position` stays in range, points at the key where it points at an
/// entry, and no entry before it has the key.
pub proof fn lemma_position<V>(entries: Seq<(Seq<char>, V)>, key: Seq<char>)
    ensures
        0 <= position(entries, key) <= entries.len(),
        position(entries, key) < entries.len() ==> entries[position(entries, key)].0 == key,
        forall|k: int| 0 <= k < position(entries, key) ==> (#[trigger] entries[k]).0 != key,
    decreases entries.len(),
{
    if entries.len() > 0 && entries[0].0 != key {
        let rest = entries.drop_first();
        lemma_position(rest, key);
        assert forall|k: int| 0 <= k < position(entries, key) implies (#[trigger] entries[k]).0
            != key by {
            if k > 0 {
                assert(entries[k] == rest[k - 1]);
            }
        }
        if position(entries, key) < entries.len() {
            assert(entries[position(entries, key)] == rest[position(rest, key)]);
        }
    }
}

/// The keys of the map are the keys of the entries.
pub proof fn lemma_map_of_keys<V>(entries: Seq<(Seq<char>, V)>, key: Seq<char>)
    ensures
        map_of(entries).contains_key(key) <==> position(entries, key) < entries.len(),
    decreases entries.len(),
{
    lemma_position(entries, key);
    if entries.len() > 0 {
        let front = entries.drop_last();
        lemma_map_of_keys(front, key);
        lemma_position(front, key);
        if position(front, key) < front.len() {
            assert(entries[position(front, key)] == front[position(front, key)]);
        }
        if position(entries, key) < front.len() {
            assert(front[position(entries, key)] == entries[position(entries, key)]);
        }
    }
}

/// Where no key stands twice, the map holds each entry's value under the
/// entry's key.
pub proof fn lemma_map_of_entry<V>(entries: Seq<(Seq<char>, V)>, at: int)
    requires
        distinct_keys(entries),
        0 <= at < entries.len(),
    ensures
        map_of(entries).contains_key(entries[at].0),
        map_of(entries)[entries[at].0] == entries[at].1,
    decreases entries.len(),
{
    let front = entries.drop_last();
    if at < entries.len() - 1 {
        assert(front[at] == entries[at]);
        assert(entries[at].0 != entries[entries.len() - 1].0);
        assert forall|i: int, j: int| 0 <= i < j < front.len() implies (#[trigger] front[i]).0 != (
        #[trigger] front[j]).0 by {
            assert(front[i] == entries[i] && front[j] == entries[j]);
        }
        lemma_map_of_entry(front, at);
    }
}

/// Where no key stands twice, `put` keeps it so, and the map of the new
/// entries is the map of the old ones with the value under the key.
pub proof fn lemma_put<V>(entries: Seq<(Seq<char>, V)>, key: Seq<char>, value: V)
    requires
        distinct_keys(entries),
    ensures
        distinct_keys(put(entries, key, value)),
        map_of(put(entries, key, value)) == map_of(entries).insert(key, value),
        put(entries, key, value).len() == if position(entries, key) < entries.len() {
            entries.len()
        } else {
            entries.len() + 1
        },
    decreases entries.len(),
{
    let at = position(entries, key);
    let after = put(entries, key, value);
    lemma_position(entries, key);
    if at < entries.len() {
        assert forall|i: int, j: int| 0 <= i < j < after.len() implies (#[trigger] after[i]).0 != (
        #[trigger] after[j]).0 by {
            assert(entries[i].0 != entries[j].0);
        }
        let front = entries.drop_last();
        let last = entries.last();
        if at == entries.len() - 1 {
            assert(after.drop_last() =~= front);
            assert(map_of(after) =~= map_of(entries).insert(key, value));
        } else {
            assert(front[at] == entries[at]);
            assert(last.0 != key) by {
                assert(entries[at].0 != entries[entries.len() - 1].0);
            }
            assert forall|i: int, j: int| 0 <= i < j < front.len() implies (#[trigger] front[i]).0
                != (#[trigger] front[j]).0 by {
                assert(front[i] == entries[i] && front[j] == entries[j]);
            }
            lemma_position(front, key);
            assert(position(front, key) == at) by {
                if position(front, key) < at {
                    assert(entries[position(front, key)] == front[position(front, key)]);
                } else if position(front, key) > at {
                    assert(front[at].0 != key);
                }
            }
            lemma_put(front, key, value);
            assert(after.drop_last() =~= put(front, key, value));
            assert(after.last() == last);
            assert(map_of(after) =~= map_of(entries).insert(key, value));
        }
    } else {
        assert forall|i: int, j: int| 0 <= i < j < after.len() implies (#[trigger] after[i]).0 != (
        #[trigger] after[j]).0 by {
            if j < entries.len() {
                assert(entries[i].0 != entries[j].0);
            } else {
                assert(entries[i].0 != key);
            }
        }
        assert(after.drop_last() =~= entries);
    }
}

/// A map from strings to values of `V`. No key stands twice; an entry
/// keeps its place when its value is replaced.
#[derive(Debug)]
pub struct StringMap<V> {
    items: Vec<(String, V)>,
}

impl<V> View for StringMap<V> {
    type V = Map<Seq<char>, V>;

    open spec fn view(&self) -> Map<Seq<char>, V> {
        map_of(self.entries())
    }
}

impl<V> StringMap<V> {
    /// The entries in their order, each key by its view.
    pub closed spec fn entries(&self) -> Seq<(Seq<char>, V)> {
        self.items@.map_values(|item: (String, V)| (item.0@, item.1))
    }

    #[verifier::type_invariant]
    spec fn well_formed(self) -> bool {
        distinct_keys(self.entries())
    }

    /// The map without entries.
    pub fn new() -> (m: Self)
        ensures
            m.entries() == Seq::<(Seq<char>, V)>::empty(),
    {
        let m = StringMap { items: Vec::new() };
        proof {
            assert(m.entries() =~= Seq::<(Seq<char>, V)>::empty());
        }
        m
    }

    /// The number of entries. No key stands in two of them.
    pub fn len(&self) -> (n: usize)
        ensures
            n == self.entries().len(),
            distinct_keys(self.entries()),
    {
        proof {
            use_type_invariant(self);
        }
        self.items.len()
    }

    /// The key of the entry at `at`.
    pub fn key_at(&self, at: usize) -> (key: &String)
        requires
            at < self.entries().len(),
        ensures
            key@ == self.entries()[at as int].0,
    {
        &self.items[at].0
    }

    /// The value of the entry at `at`.
    pub fn value_at(&self, at: usize) -> (value: &V)
        requires
            at < self.entries().len(),
        ensures
            *value == self.entries()[at as int].1,
    {
        &self.items[at].1
    }

    /// The place of the entry with the key, or `len()` where there is none.
    pub fn find(&self, key: &String) -> (at: usize)
        ensures
            at == position(self.entries(), key@),
            at <= self.entries().len(),
    {
        let mut i: usize = 0;
        let ghost entries = self.entries();
        proof {
            assert(entries.skip(0) =~= entries);
        }
        while i < self.items.len() && !(self.items[i].0 == *key)
            invariant
                i <= self.items.len(),
                entries == self.entries(),
                position(entries, key@) == i + position(entries.skip(i as int), key@),
            decreases self.items.len() - i,
        {
            proof {
                assert(entries.skip(i as int)[0] == entries[i as int]);
                assert(entries.skip(i as int).drop_first() =~= entries.skip(i + 1));
            }
            i = i + 1;
        }
        proof {
            if i < self.items.len() {
                assert(entries.skip(i as int)[0] == entries[i as int]);
            } else {
                assert(entries.skip(i as int).len() == 0);
            }
        }
        i
    }

    /// Whether the map has an entry with the key.
    pub fn contains_key(&self, key: &String) -> (found: bool)
        ensures
            found == self@.contains_key(key@),
    {
        proof {
            lemma_map_of_keys(self.entries(), key@);
        }
        self.find(key) < self.items.len()
    }

    /// The value under the key.
    pub fn get(&self, key: &String) -> (value: Option<&V>)
        ensures
            match value {
                Some(v) => self@.contains_key(key@) && *v == self@[key@],
                None => !self@.contains_key(key@),
            },
    {
        let at = self.find(key);
        proof {
            use_type_invariant(self);
            lemma_map_of_keys(self.entries(), key@);
            lemma_position(self.entries(), key@);
            if at < self.entries().len() {
                lemma_map_of_entry(self.entries(), at as int);
            }
        }
        if at < self.items.len() {
            Some(&self.items[at].1)
        } else {
            None
        }
    }

    /// Puts `value` under `key`. An entry with that key keeps its place and
    /// gets the value; without one, a new entry comes last.
    pub fn insert(&mut self, key: String, value: V)
        ensures
            final(self).entries() == put(old(self).entries(), key@, value),
            final(self)@ == old(self)@.insert(key@, value),
            distinct_keys(old(self).entries()),
            distinct_keys(final(self).entries()),
    {
        proof {
            use_type_invariant(&*self);
            lemma_put(self.entries(), key@, value);
        }
        let at = self.find(&key);
        let ghost before = self.entries();
        let mut items: Vec<(String, V)> = Vec::new();
        std::mem::swap(&mut items, &mut self.items);
        if at < items.len() {
            items.set(at, (key, value));
        } else {
            items.push((key, value));
        }
        proof {
            assert(items@.map_values(|item: (String, V)| (item.0@, item.1)) =~= put(
                before,
                key@,
                value,
            ));
        }
        self.items = items;
    }
}

} // verus!
