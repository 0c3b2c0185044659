//! A map from texts to values that keeps its entries in the lexicographic order of
//! their keys, so that it is always walked in the same order.

use vstd::prelude::*;

verus! {

/// `a` comes before `b` in the lexicographic order of characters.
pub open spec fn text_less(a: Seq<char>, b: Seq<char>) -> bool
    decreases a.len(),
{
    if a.len() == 0 {
        b.len() > 0
    } else if b.len() == 0 {
        false
    } else if a[0] != b[0] {
        (a[0] as int) < (b[0] as int)
    } else {
        text_less(a.drop_first(), b.drop_first())
    }
}

/// No text comes before itself.
pub proof fn lemma_text_less_irreflexive(a: Seq<char>)
    ensures
        !text_less(a, a),
    decreases a.len(),
{
    if a.len() > 0 {
        lemma_text_less_irreflexive(a.drop_first());
    }
}

/// Of two different texts, one comes before the other.
pub proof fn lemma_text_less_total(a: Seq<char>, b: Seq<char>)
    ensures
        a == b || text_less(a, b) || text_less(b, a),
    decreases a.len(),
{
    if a.len() > 0 && b.len() > 0 && a[0] == b[0] {
        lemma_text_less_total(a.drop_first(), b.drop_first());
        if a.drop_first() == b.drop_first() {
            assert(a =~= seq![a[0]] + a.drop_first());
            assert(b =~= seq![b[0]] + b.drop_first());
        }
    } else if a.len() == 0 && b.len() == 0 {
        assert(a =~= b);
    }
}

/// The order is transitive.
pub proof fn lemma_text_less_transitive(a: Seq<char>, b: Seq<char>, c: Seq<char>)
    requires
        text_less(a, b),
        text_less(b, c),
    ensures
        text_less(a, c),
    decreases a.len(),
{
    if a.len() > 0 && b.len() > 0 && c.len() > 0 && a[0] == b[0] && b[0] == c[0] {
        lemma_text_less_transitive(a.drop_first(), b.drop_first(), c.drop_first());
    }
}

/// `a` comes before `b`.
pub fn str_less(a: &str, b: &str) -> (r: bool)
    ensures
        r == text_less(a@, b@),
{
    let a_length = a.unicode_len();
    let b_length = b.unicode_len();
    let mut i: usize = 0;
    assert(a@.skip(0) =~= a@);
    assert(b@.skip(0) =~= b@);
    while i < a_length && i < b_length
        invariant
            a_length == a@.len(),
            b_length == b@.len(),
            i <= a_length,
            i <= b_length,
            text_less(a@, b@) == text_less(a@.skip(i as int), b@.skip(i as int)),
        decreases a_length - i,
    {
        let x = a.get_char(i);
        let y = b.get_char(i);
        assert(a@.skip(i as int)[0] == x);
        assert(b@.skip(i as int)[0] == y);
        if x != y {
            return (x as u32) < (y as u32);
        }
        assert(a@.skip(i as int).drop_first() =~= a@.skip(i + 1));
        assert(b@.skip(i as int).drop_first() =~= b@.skip(i + 1));
        i = i + 1;
    }
    i < b_length
}

/// The keys of the entries come in strictly increasing order.
pub open spec fn sorted_keys<V>(entries: Seq<(String, V)>) -> bool {
    forall|i: int, j: int| 0 <= i < j < entries.len() ==> text_less(#[trigger] entries[i].0@, #[trigger] entries[j].0@)
}

/// The map that a sequence of entries with distinct keys describes.
pub open spec fn entries_map<V>(entries: Seq<(String, V)>) -> Map<Seq<char>, V>
    decreases entries.len(),
{
    if entries.len() == 0 {
        Map::empty()
    } else {
        entries_map(entries.drop_last()).insert(entries.last().0@, entries.last().1)
    }
}

/// A text that comes before another is a different text.
pub proof fn lemma_text_less_distinct(a: Seq<char>, b: Seq<char>)
    requires
        text_less(a, b),
    ensures
        a != b,
{
    lemma_text_less_irreflexive(a);
}

/// The map of sorted entries holds exactly their keys, each with its value.
pub proof fn lemma_entries_map<V>(entries: Seq<(String, V)>)
    requires
        sorted_keys(entries),
    ensures
        forall|k: Seq<char>| entries_map(entries).contains_key(k)
            <==> exists|i: int| 0 <= i < entries.len() && (#[trigger] entries[i]).0@ == k,
        forall|i: int| 0 <= i < entries.len() ==> entries_map(entries)[(#[trigger] entries[i]).0@] == entries[i].1,
    decreases entries.len(),
{
    if entries.len() > 0 {
        let rest = entries.drop_last();
        let last = entries.last();
        assert(sorted_keys(rest)) by {
            assert forall|i: int, j: int| 0 <= i < j < rest.len() implies text_less(#[trigger] rest[i].0@, #[trigger] rest[j].0@) by {
                assert(rest[i] == entries[i] && rest[j] == entries[j]);
            }
        }
        lemma_entries_map(rest);
        assert forall|k: Seq<char>| entries_map(entries).contains_key(k)
            <==> exists|i: int| 0 <= i < entries.len() && (#[trigger] entries[i]).0@ == k by {
            if entries_map(entries).contains_key(k) {
                if k == last.0@ {
                    assert(entries[entries.len() - 1].0@ == k);
                } else {
                    assert(entries_map(rest).contains_key(k));
                    let i = choose|i: int| 0 <= i < rest.len() && (#[trigger] rest[i]).0@ == k;
                    assert(entries[i] == rest[i]);
                }
            }
            if exists|i: int| 0 <= i < entries.len() && (#[trigger] entries[i]).0@ == k {
                let i = choose|i: int| 0 <= i < entries.len() && (#[trigger] entries[i]).0@ == k;
                if i < entries.len() - 1 {
                    assert(rest[i] == entries[i]);
                    assert(entries_map(rest).contains_key(k));
                }
            }
        }
        assert forall|i: int| 0 <= i < entries.len() implies entries_map(entries)[(#[trigger] entries[i]).0@] == entries[i].1 by {
            if i < entries.len() - 1 {
                assert(rest[i] == entries[i]);
                assert(text_less(entries[i].0@, entries[entries.len() - 1].0@));
                lemma_text_less_distinct(entries[i].0@, last.0@);
            }
        }
    }
}

/// A map from texts to values, walked in the lexicographic order of its keys.
#[derive(Debug)]
pub struct OrderedMap<V> {
    entries: Vec<(String, V)>,
}

impl<V> OrderedMap<V> {
    #[verifier::type_invariant]
    pub closed spec fn well_formed(self) -> bool {
        sorted_keys(self.entries@)
    }

    /// The entries in the order of their keys.
    pub closed spec fn ordered_entries(self) -> Seq<(String, V)> {
        self.entries@
    }

    /// The map as a mathematical map.
    pub open spec fn as_map(self) -> Map<Seq<char>, V> {
        entries_map(self.ordered_entries())
    }

    /// An empty map.
    pub fn new() -> (r: OrderedMap<V>)
        ensures
            r.ordered_entries().len() == 0,
            r.as_map() == Map::<Seq<char>, V>::empty(),
    {
        OrderedMap { entries: Vec::new() }
    }

    /// The entries, in the order of their keys.
    pub fn entries(&self) -> (r: &Vec<(String, V)>)
        ensures
            r@ == self.ordered_entries(),
            sorted_keys(r@),
    {
        proof {
            use_type_invariant(self);
        }
        &self.entries
    }

    /// The number of entries.
    pub fn len(&self) -> (r: usize)
        ensures
            r == self.ordered_entries().len(),
    {
        self.entries.len()
    }

    /// The value of `key`.
    pub fn get(&self, key: &str) -> (r: Option<&V>)
        ensures
            r is Some <==> self.as_map().contains_key(key@),
            r matches Some(v) ==> *v == self.as_map()[key@],
    {
        proof {
            use_type_invariant(self);
            lemma_entries_map(self.entries@);
        }
        let p = self.position(key);
        if p < self.entries.len() && !str_less(key, self.entries[p].0.as_str()) {
            proof {
                lemma_text_less_total(self.entries@[p as int].0@, key@);
            }
            return Some(&self.entries[p].1);
        }
        proof {
            assert forall|i: int| 0 <= i < self.entries@.len() implies (#[trigger] self.entries@[i]).0@ != key@ by {
                if i < p {
                    lemma_text_less_distinct(self.entries@[i].0@, key@);
                } else {
                    if i > p {
                        lemma_text_less_transitive(key@, self.entries@[p as int].0@, self.entries@[i].0@);
                        lemma_text_less_distinct(key@, self.entries@[i].0@);
                    } else {
                        lemma_text_less_distinct(key@, self.entries@[i].0@);
                    }
                }
            }
        }
        None
    }

    /// Sets the value of `key`.
    pub fn insert(&mut self, key: &str, value: V)
        ensures
            final(self).as_map() == old(self).as_map().insert(key@, value),
    {
        proof {
            use_type_invariant(&*self);
            lemma_entries_map(self.entries@);
        }
        let ghost old_entries = self.entries@;
        let p = self.position(key);
        if p < self.entries.len() && !str_less(key, self.entries[p].0.as_str()) {
            proof {
                lemma_text_less_total(self.entries@[p as int].0@, key@);
            }
            let mut entries: Vec<(String, V)> = Vec::new();
            std::mem::swap(&mut entries, &mut self.entries);
            let entry = (key.to_owned(), value);
            let ghost new_entry = entry;
            entries.set(p, entry);
            proof {
                assert(sorted_keys(entries@)) by {
                    assert forall|i: int, j: int| 0 <= i < j < entries@.len() implies text_less(#[trigger] entries@[i].0@, #[trigger] entries@[j].0@) by {
                        assert(entries@[i].0@ == old_entries[i].0@);
                        assert(entries@[j].0@ == old_entries[j].0@);
                    }
                }
                lemma_entries_map(entries@);
                lemma_map_after_update(old_entries, p as int, new_entry);
            }
            self.entries = entries;
        } else {
            let mut entries: Vec<(String, V)> = Vec::new();
            std::mem::swap(&mut entries, &mut self.entries);
            let entry = (key.to_owned(), value);
            let ghost new_entry = entry;
            entries.insert(p, entry);
            proof {
                assert(sorted_keys(entries@)) by {
                    assert forall|i: int, j: int| 0 <= i < j < entries@.len() implies text_less(#[trigger] entries@[i].0@, #[trigger] entries@[j].0@) by {
                        if j < p {
                            assert(entries@[i] == old_entries[i] && entries@[j] == old_entries[j]);
                        } else if j == p {
                            assert(entries@[i] == old_entries[i]);
                        } else if i == p {
                            assert(entries@[j] == old_entries[j - 1]);
                            if j - 1 > p {
                                lemma_text_less_total(old_entries[p as int].0@, key@);
                                lemma_text_less_transitive(key@, old_entries[p as int].0@, old_entries[j - 1].0@);
                            } else {
                                lemma_text_less_total(old_entries[p as int].0@, key@);
                            }
                        } else if i < p {
                            assert(entries@[i] == old_entries[i] && entries@[j] == old_entries[j - 1]);
                        } else {
                            assert(entries@[i] == old_entries[i - 1] && entries@[j] == old_entries[j - 1]);
                        }
                    }
                }
                lemma_entries_map(entries@);
                assert forall|i: int| 0 <= i < old_entries.len() implies (#[trigger] old_entries[i]).0@ != key@ by {
                    if i < p {
                        lemma_text_less_distinct(old_entries[i].0@, key@);
                    } else {
                        lemma_text_less_total(old_entries[p as int].0@, key@);
                        if i > p {
                            lemma_text_less_transitive(key@, old_entries[p as int].0@, old_entries[i].0@);
                        }
                        lemma_text_less_distinct(key@, old_entries[i].0@);
                    }
                }
                lemma_map_after_insert(old_entries, p as int, new_entry);
            }
            self.entries = entries;
        }
    }

    /// The position of the first entry whose key does not come before `key`.
    fn position(&self, key: &str) -> (r: usize)
        ensures
            r <= self.entries@.len(),
            forall|i: int| 0 <= i < r ==> text_less(#[trigger] self.entries@[i].0@, key@),
            r < self.entries@.len() ==> !text_less(self.entries@[r as int].0@, key@),
    {
        let mut i: usize = 0;
        while i < self.entries.len()
            invariant
                i <= self.entries@.len(),
                forall|j: int| 0 <= j < i ==> text_less(#[trigger] self.entries@[j].0@, key@),
            decreases self.entries@.len() - i,
        {
            if !str_less(self.entries[i].0.as_str(), key) {
                return i;
            }
            i = i + 1;
        }
        i
    }
}

/// Setting the value of an entry sets it in the map.
proof fn lemma_map_after_update<V>(entries: Seq<(String, V)>, p: int, entry: (String, V))
    requires
        sorted_keys(entries),
        sorted_keys(entries.update(p, entry)),
        0 <= p < entries.len(),
        entries[p].0@ == entry.0@,
    ensures
        entries_map(entries.update(p, entry)) == entries_map(entries).insert(entry.0@, entry.1),
{
    let updated = entries.update(p, entry);
    lemma_entries_map(entries);
    lemma_entries_map(updated);
    let expected = entries_map(entries).insert(entry.0@, entry.1);
    assert forall|k: Seq<char>| #[trigger] entries_map(updated).contains_key(k) <==> expected.contains_key(k) by {
        if expected.contains_key(k) && k != entry.0@ {
            let i = choose|i: int| 0 <= i < entries.len() && (#[trigger] entries[i]).0@ == k;
            assert(updated[i] == entries[i]);
        }
        if entries_map(updated).contains_key(k) {
            let i = choose|i: int| 0 <= i < updated.len() && (#[trigger] updated[i]).0@ == k;
            if i != p {
                assert(updated[i] == entries[i]);
            }
        }
        if k == entry.0@ {
            assert(updated[p].0@ == k);
        }
    }
    assert forall|k: Seq<char>| entries_map(updated).contains_key(k) implies #[trigger] entries_map(updated)[k] == expected[k] by {
        let i = choose|i: int| 0 <= i < updated.len() && (#[trigger] updated[i]).0@ == k;
        if i != p {
            assert(updated[i] == entries[i]);
            lemma_text_less_total(entries[i].0@, entries[p].0@);
            if i < p {
                lemma_text_less_distinct(entries[i].0@, entries[p].0@);
            } else {
                lemma_text_less_distinct(entries[p].0@, entries[i].0@);
            }
        }
    }
    assert(entries_map(updated) =~= expected);
}

/// Inserting an entry with a new key sets that key in the map.
proof fn lemma_map_after_insert<V>(entries: Seq<(String, V)>, p: int, entry: (String, V))
    requires
        sorted_keys(entries),
        sorted_keys(entries.insert(p, entry)),
        0 <= p <= entries.len(),
        forall|i: int| 0 <= i < entries.len() ==> (#[trigger] entries[i]).0@ != entry.0@,
    ensures
        entries_map(entries.insert(p, entry)) == entries_map(entries).insert(entry.0@, entry.1),
{
    let inserted = entries.insert(p, entry);
    lemma_entries_map(entries);
    lemma_entries_map(inserted);
    let expected = entries_map(entries).insert(entry.0@, entry.1);
    assert forall|k: Seq<char>| #[trigger] entries_map(inserted).contains_key(k) <==> expected.contains_key(k) by {
        if expected.contains_key(k) && k != entry.0@ {
            let i = choose|i: int| 0 <= i < entries.len() && (#[trigger] entries[i]).0@ == k;
            if i < p {
                assert(inserted[i] == entries[i]);
            } else {
                assert(inserted[i + 1] == entries[i]);
            }
        }
        if entries_map(inserted).contains_key(k) {
            let i = choose|i: int| 0 <= i < inserted.len() && (#[trigger] inserted[i]).0@ == k;
            if i < p {
                assert(inserted[i] == entries[i]);
            } else if i > p {
                assert(inserted[i] == entries[i - 1]);
            }
        }
        if k == entry.0@ {
            assert(inserted[p].0@ == k);
        }
    }
    assert forall|k: Seq<char>| entries_map(inserted).contains_key(k) implies #[trigger] entries_map(inserted)[k] == expected[k] by {
        let i = choose|i: int| 0 <= i < inserted.len() && (#[trigger] inserted[i]).0@ == k;
        if i < p {
            assert(inserted[i] == entries[i]);
        } else if i > p {
            assert(inserted[i] == entries[i - 1]);
        }
    }
    assert(entries_map(inserted) =~= expected);
}

} // verus!
