//! A map from strings to values that keeps its entries ordered by key, as
//! `BTreeMap<String, V>` does.
use crate::text::{chars_of, str_eq};
use vstd::prelude::*;

verus! {

/// Lexicographic order of strings by code point, the order of `str`'s `Ord`.
pub open spec fn lex_lt(a: Seq<char>, b: Seq<char>) -> bool
    decreases a.len(),
{
    if a.len() == 0 {
        b.len() > 0
    } else if b.len() == 0 {
        false
    } else if a[0] != b[0] {
        a[0] < b[0]
    } else {
        lex_lt(a.drop_first(), b.drop_first())
    }
}

pub proof fn lemma_lex_irreflexive(a: Seq<char>)
    ensures
        !lex_lt(a, a),
    decreases a.len(),
{
    if a.len() > 0 {
        lemma_lex_irreflexive(a.drop_first());
    }
}

pub proof fn lemma_lex_asymmetric(a: Seq<char>, b: Seq<char>)
    requires
        lex_lt(a, b),
    ensures
        !lex_lt(b, a),
    decreases a.len(),
{
    if a.len() > 0 && b.len() > 0 && a[0] == b[0] {
        lemma_lex_asymmetric(a.drop_first(), b.drop_first());
    }
}

pub proof fn lemma_lex_transitive(a: Seq<char>, b: Seq<char>, c: Seq<char>)
    requires
        lex_lt(a, b),
        lex_lt(b, c),
    ensures
        lex_lt(a, c),
    decreases a.len(),
{
    if a.len() > 0 && b.len() > 0 && c.len() > 0 && a[0] == b[0] && b[0] == c[0] {
        lemma_lex_transitive(a.drop_first(), b.drop_first(), c.drop_first());
    }
}

pub proof fn lemma_lex_total(a: Seq<char>, b: Seq<char>)
    requires
        a != b,
    ensures
        lex_lt(a, b) || lex_lt(b, a),
    decreases a.len(),
{
    if a.len() > 0 && b.len() > 0 && a[0] == b[0] {
        if a.drop_first() == b.drop_first() {
            assert(a =~= seq![a[0]] + a.drop_first());
            assert(b =~= seq![b[0]] + b.drop_first());
        }
        lemma_lex_total(a.drop_first(), b.drop_first());
    } else if a.len() == 0 && b.len() == 0 {
        assert(a =~= b);
    }
}

/// `a < b` for strings, by code point.
pub fn str_lt(a: &str, b: &str) -> (r: bool)
    ensures
        r == lex_lt(a@, b@),
{
    let va = chars_of(a);
    let vb = chars_of(b);
    let mut i: usize = 0;
    assert(va@.skip(0) =~= va@);
    assert(vb@.skip(0) =~= vb@);
    while i < va.len() && i < vb.len() && va[i] == vb[i]
        invariant
            i <= va.len(),
            i <= vb.len(),
            va@ == a@,
            vb@ == b@,
            lex_lt(a@, b@) == lex_lt(va@.skip(i as int), vb@.skip(i as int)),
        decreases va.len() - i,
    {
        assert(va@.skip(i as int).drop_first() =~= va@.skip(i + 1));
        assert(vb@.skip(i as int).drop_first() =~= vb@.skip(i + 1));
        i = i + 1;
    }
    if i == va.len() {
        i < vb.len()
    } else if i == vb.len() {
        false
    } else {
        va[i] < vb[i]
    }
}

/// The keys of `entries` strictly increase.
pub open spec fn sorted_keys<V>(entries: Seq<(String, V)>) -> bool {
    forall|i: int, j: int|
        0 <= i < j < entries.len() ==> lex_lt(#[trigger] entries[i].0@, #[trigger] entries[j].0@)
}

pub open spec fn has_key<V>(entries: Seq<(String, V)>, k: Seq<char>) -> bool {
    exists|i: int| 0 <= i < entries.len() && #[trigger] entries[i].0@ == k
}

pub open spec fn key_index<V>(entries: Seq<(String, V)>, k: Seq<char>) -> int {
    choose|i: int| 0 <= i < entries.len() && #[trigger] entries[i].0@ == k
}

/// The map that a list of entries with distinct keys stands for.
pub open spec fn entries_map<V: View>(entries: Seq<(String, V)>) -> Map<Seq<char>, V::V> {
    Map::new(|k: Seq<char>| has_key(entries, k), |k: Seq<char>| entries[key_index(entries, k)].1@)
}

pub proof fn lemma_sorted_unique<V>(entries: Seq<(String, V)>, i: int, j: int)
    requires
        sorted_keys(entries),
        0 <= i < entries.len(),
        0 <= j < entries.len(),
        entries[i].0@ == entries[j].0@,
    ensures
        i == j,
{
    if i < j {
        lemma_lex_irreflexive(entries[i].0@);
    } else if j < i {
        lemma_lex_irreflexive(entries[i].0@);
    }
}

/// An ordered map from strings to values; `BTreeMap<String, V>`.
pub struct SortedMap<V> {
    entries: Vec<(String, V)>,
}

impl<V> SortedMap<V> {
    #[verifier::type_invariant]
    closed spec fn inv(&self) -> bool {
        sorted_keys(self.entries@)
    }
}

impl<V: View> View for SortedMap<V> {
    type V = Map<Seq<char>, V::V>;

    closed spec fn view(&self) -> Map<Seq<char>, V::V> {
        entries_map(self.entries@)
    }
}

impl<V: View> SortedMap<V> {
    /// The entries in increasing key order.
    pub closed spec fn entry_seq(&self) -> Seq<(String, V)> {
        self.entries@
    }


    pub fn new() -> (m: Self)
        ensures
            m@ == Map::<Seq<char>, V::V>::empty(),
            m.entry_seq().len() == 0,
    {
        let m = SortedMap { entries: Vec::new() };
        assert(m@ =~= Map::<Seq<char>, V::V>::empty());
        m
    }

    /// The entries in increasing key order.
    pub fn entries(&self) -> (r: &Vec<(String, V)>)
        ensures
            r@ == self.entry_seq(),
            sorted_keys(r@),
            entries_map(r@) == self@,
            self@.dom().finite(),
            self@.len() == r@.len(),
    {
        proof {
            use_type_invariant(self);
            lemma_entries_map_facts(self.entries@);
        }
        &self.entries
    }

    pub fn len(&self) -> (n: usize)
        ensures
            n == self@.len(),
    {
        proof {
            use_type_invariant(self);
            lemma_entries_map_facts(self.entries@);
        }
        self.entries.len()
    }

    /// The first position whose key is not below `key`.
    fn position(&self, key: &str) -> (p: usize)
        ensures
            p <= self.entries@.len(),
            forall|i: int| 0 <= i < p ==> lex_lt(#[trigger] self.entries@[i].0@, key@),
            p < self.entries@.len() ==> !lex_lt(self.entries@[p as int].0@, key@),
    {
        let mut p: usize = 0;
        while p < self.entries.len() && str_lt(self.entries[p].0.as_str(), key)
            invariant
                p <= self.entries@.len(),
                forall|i: int| 0 <= i < p ==> lex_lt(#[trigger] self.entries@[i].0@, key@),
            decreases self.entries.len() - p,
        {
            p = p + 1;
        }
        p
    }

    /// The value stored under `key`; `BTreeMap::get`.
    pub fn get(&self, key: &str) -> (r: Option<&V>)
        ensures
            r is Some <==> self@.contains_key(key@),
            r matches Some(v) ==> v@ == self@[key@],
    {
        proof {
            use_type_invariant(self);
            lemma_entries_map_facts(self.entries@);
        }
        let p = self.position(key);
        if p < self.entries.len() && str_eq(self.entries[p].0.as_str(), key) {
            Some(&self.entries[p].1)
        } else {
            proof {
                if has_key(self.entries@, key@) {
                    let i = key_index(self.entries@, key@);
                    if i < p {
                        lemma_lex_irreflexive(key@);
                    } else if i > p {
                        assert(lex_lt(self.entries@[p as int].0@, self.entries@[i].0@));
                        lemma_lex_total(self.entries@[p as int].0@, key@);
                    }
                }
            }
            None
        }
    }

    pub fn contains_key(&self, key: &str) -> (r: bool)
        ensures
            r == self@.contains_key(key@),
    {
        self.get(key).is_some()
    }

    /// Stores `value` under `key`, replacing what was there; `BTreeMap::insert`.
    pub fn insert(&mut self, key: String, value: V)
        ensures
            final(self)@ == old(self)@.insert(key@, value@),
    {
        proof {
            use_type_invariant(&*self);
        }
        let ghost old_entries = self.entries@;
        let p = self.position(key.as_str());
        let mut entries: Vec<(String, V)> = Vec::new();
        std::mem::swap(&mut entries, &mut self.entries);
        if p < entries.len() && str_eq(entries[p].0.as_str(), key.as_str()) {
            entries.set(p, (key, value));
            proof {
                let ne = entries@;
                assert(sorted_keys(ne)) by {
                    assert forall|i: int, j: int| 0 <= i < j < ne.len() implies lex_lt(
                        #[trigger] ne[i].0@,
                        #[trigger] ne[j].0@,
                    ) by {
                        assert(old_entries[i].0@ == ne[i].0@);
                        assert(old_entries[j].0@ == ne[j].0@);
                    }
                }
                lemma_set_entry_map(old_entries, ne, p as int);
            }
        } else {
            entries.insert(p, (key, value));
            proof {
                let ne = entries@;
                let k = ne[p as int].0@;
                if p < old_entries.len() {
                    lemma_lex_total(old_entries[p as int].0@, k);
                }
                assert(sorted_keys(ne)) by {
                    assert forall|i: int, j: int| 0 <= i < j < ne.len() implies lex_lt(
                        #[trigger] ne[i].0@,
                        #[trigger] ne[j].0@,
                    ) by {
                        if j < p {
                            assert(ne[i] == old_entries[i] && ne[j] == old_entries[j]);
                        } else if j == p {
                            assert(ne[i] == old_entries[i]);
                        } else if i == p {
                            assert(ne[j] == old_entries[j - 1]);
                            if j - 1 > p {
                                assert(lex_lt(old_entries[p as int].0@, old_entries[j - 1].0@));
                                lemma_lex_transitive(
                                    k,
                                    old_entries[p as int].0@,
                                    old_entries[j - 1].0@,
                                );
                            }
                        } else if i < p {
                            assert(ne[i] == old_entries[i] && ne[j] == old_entries[j - 1]);
                            assert(lex_lt(old_entries[i].0@, k));
                            if j - 1 == p {
                            } else {
                                assert(lex_lt(old_entries[p as int].0@, old_entries[j - 1].0@));
                                lemma_lex_transitive(
                                    k,
                                    old_entries[p as int].0@,
                                    old_entries[j - 1].0@,
                                );
                            }
                            lemma_lex_transitive(old_entries[i].0@, k, old_entries[j - 1].0@);
                        } else {
                            assert(ne[i] == old_entries[i - 1] && ne[j] == old_entries[j - 1]);
                        }
                    }
                }
                lemma_insert_entry_map(old_entries, ne, p as int);
            }
        }
        self.entries = entries;
    }

    /// Removes the entry for `key`, if any; `BTreeMap::remove`.
    pub fn remove(&mut self, key: &str)
        ensures
            final(self)@ == old(self)@.remove(key@),
    {
        proof {
            use_type_invariant(&*self);
        }
        let ghost old_entries = self.entries@;
        proof {
            lemma_entries_map_facts(old_entries);
        }
        let p = self.position(key);
        let mut entries: Vec<(String, V)> = Vec::new();
        std::mem::swap(&mut entries, &mut self.entries);
        if p < entries.len() && str_eq(entries[p].0.as_str(), key) {
            entries.remove(p);
            proof {
                let ne = entries@;
                assert(sorted_keys(ne)) by {
                    assert forall|i: int, j: int| 0 <= i < j < ne.len() implies lex_lt(
                        #[trigger] ne[i].0@,
                        #[trigger] ne[j].0@,
                    ) by {
                        if j < p {
                            assert(ne[i] == old_entries[i] && ne[j] == old_entries[j]);
                        } else if i < p {
                            assert(ne[i] == old_entries[i] && ne[j] == old_entries[j + 1]);
                        } else {
                            assert(ne[i] == old_entries[i + 1] && ne[j] == old_entries[j + 1]);
                        }
                    }
                }
                lemma_remove_entry_map(old_entries, ne, p as int);
            }
        } else {
            proof {
                if has_key(old_entries, key@) {
                    let i = key_index(old_entries, key@);
                    if i < p {
                        lemma_lex_irreflexive(key@);
                    } else if i > p {
                        assert(lex_lt(old_entries[p as int].0@, old_entries[i].0@));
                        lemma_lex_total(old_entries[p as int].0@, key@);
                    }
                }
                assert(entries_map(old_entries).remove(key@) =~= entries_map(old_entries));
            }
        }
        self.entries = entries;
    }

    /// Removes every entry; `BTreeMap::clear`.
    pub fn clear(&mut self)
        ensures
            final(self)@ == Map::<Seq<char>, V::V>::empty(),
            final(self).entry_seq().len() == 0,
    {
        self.entries = Vec::new();
        assert(self@ =~= Map::<Seq<char>, V::V>::empty());
    }
}

pub proof fn lemma_entries_map_facts<V: View>(entries: Seq<(String, V)>)
    requires
        sorted_keys(entries),
    ensures
        entries_map(entries).dom().finite(),
        entries_map(entries).len() == entries.len(),
        forall|i: int|
            0 <= i < entries.len() ==> entries_map(entries).contains_key(#[trigger] entries[i].0@)
                && entries_map(entries)[entries[i].0@] == entries[i].1@,
    decreases entries.len(),
{
    let m = entries_map(entries);
    assert forall|i: int| 0 <= i < entries.len() implies m.contains_key(
        #[trigger] entries[i].0@,
    ) && m[entries[i].0@] == entries[i].1@ by {
        assert(has_key(entries, entries[i].0@));
        let j = key_index(entries, entries[i].0@);
        lemma_sorted_unique(entries, i, j);
    }
    if entries.len() == 0 {
        assert(m.dom() =~= Set::<Seq<char>>::empty());
    } else {
        let rest = entries.drop_last();
        assert(sorted_keys(rest));
        lemma_entries_map_facts(rest);
        let lk = entries.last().0@;
        assert(m.dom() =~= entries_map(rest).dom().insert(lk)) by {
            assert forall|k: Seq<char>| m.dom().contains(k) implies entries_map(
                rest,
            ).dom().insert(lk).contains(k) by {
                let i = key_index(entries, k);
                if i < entries.len() - 1 {
                    assert(rest[i].0@ == k);
                }
            }
            assert forall|k: Seq<char>| entries_map(rest).dom().insert(lk).contains(k) implies m.dom().contains(k) by {
                if k != lk {
                    let i = key_index(rest, k);
                    assert(entries[i].0@ == k);
                } else {
                    assert(entries[entries.len() - 1].0@ == k);
                }
            }
        }
        assert(!entries_map(rest).dom().contains(lk)) by {
            if has_key(rest, lk) {
                let i = key_index(rest, lk);
                lemma_sorted_unique(entries, i, entries.len() - 1);
            }
        }
    }
}

proof fn lemma_set_entry_map<V: View>(old_entries: Seq<(String, V)>, ne: Seq<(String, V)>, p: int)
    requires
        sorted_keys(old_entries),
        sorted_keys(ne),
        0 <= p < old_entries.len(),
        ne.len() == old_entries.len(),
        ne[p].0@ == old_entries[p].0@,
        forall|i: int| 0 <= i < ne.len() && i != p ==> ne[i] == old_entries[i],
    ensures
        entries_map(ne) == entries_map(old_entries).insert(ne[p].0@, ne[p].1@),
{
    lemma_entries_map_facts(old_entries);
    lemma_entries_map_facts(ne);
    let k = ne[p].0@;
    let target = entries_map(old_entries).insert(k, ne[p].1@);
    assert forall|key: Seq<char>| #![auto] entries_map(ne).dom().contains(key) <==> target.dom().contains(key) by {
        if has_key(ne, key) {
            let i = key_index(ne, key);
            if i != p {
                assert(old_entries[i].0@ == key);
            }
        }
        if has_key(old_entries, key) {
            let i = key_index(old_entries, key);
            if i != p {
                assert(ne[i].0@ == key);
            }
        }
    }
    assert forall|key: Seq<char>| #![auto] entries_map(ne).dom().contains(key) implies entries_map(ne)[key] == target[key] by {
        let i = key_index(ne, key);
        if key == k {
            lemma_sorted_unique(ne, i, p);
        } else {
            assert(old_entries[i] == ne[i]);
        }
    }
    assert(entries_map(ne) =~= target);
}

proof fn lemma_insert_entry_map<V: View>(
    old_entries: Seq<(String, V)>,
    ne: Seq<(String, V)>,
    p: int,
)
    requires
        sorted_keys(old_entries),
        sorted_keys(ne),
        0 <= p <= old_entries.len(),
        ne == old_entries.insert(p, ne[p]),
    ensures
        entries_map(ne) == entries_map(old_entries).insert(ne[p].0@, ne[p].1@),
{
    lemma_entries_map_facts(old_entries);
    lemma_entries_map_facts(ne);
    let k = ne[p].0@;
    let target = entries_map(old_entries).insert(k, ne[p].1@);
    assert forall|key: Seq<char>| #![auto] entries_map(ne).dom().contains(key) <==> target.dom().contains(key) by {
        if has_key(ne, key) {
            let i = key_index(ne, key);
            if i < p {
                assert(old_entries[i].0@ == key);
            } else if i > p {
                assert(old_entries[i - 1].0@ == key);
            }
        }
        if has_key(old_entries, key) {
            let i = key_index(old_entries, key);
            if i < p {
                assert(ne[i].0@ == key);
            } else {
                assert(ne[i + 1].0@ == key);
            }
        }
    }
    assert forall|key: Seq<char>| #![auto] entries_map(ne).dom().contains(key) implies entries_map(ne)[key] == target[key] by {
        let i = key_index(ne, key);
        if key == k {
            lemma_sorted_unique(ne, i, p);
        } else if i < p {
            assert(old_entries[i] == ne[i]);
        } else {
            assert(old_entries[i - 1] == ne[i]);
        }
    }
    assert(entries_map(ne) =~= target);
}

proof fn lemma_remove_entry_map<V: View>(
    old_entries: Seq<(String, V)>,
    ne: Seq<(String, V)>,
    p: int,
)
    requires
        sorted_keys(old_entries),
        sorted_keys(ne),
        0 <= p < old_entries.len(),
        ne == old_entries.remove(p),
    ensures
        entries_map(ne) == entries_map(old_entries).remove(old_entries[p].0@),
{
    lemma_entries_map_facts(old_entries);
    lemma_entries_map_facts(ne);
    let k = old_entries[p].0@;
    let target = entries_map(old_entries).remove(k);
    assert forall|key: Seq<char>| #![auto] entries_map(ne).dom().contains(key) <==> target.dom().contains(key) by {
        if has_key(ne, key) {
            let i = key_index(ne, key);
            if i < p {
                assert(old_entries[i].0@ == key);
                if key == k {
                    lemma_sorted_unique(old_entries, i, p);
                }
            } else {
                assert(old_entries[i + 1].0@ == key);
                if key == k {
                    lemma_sorted_unique(old_entries, i + 1, p);
                }
            }
        }
        if has_key(old_entries, key) && key != k {
            let i = key_index(old_entries, key);
            if i < p {
                assert(ne[i].0@ == key);
            } else if i > p {
                assert(ne[i - 1].0@ == key);
            }
        }
    }
    assert forall|key: Seq<char>| #![auto] entries_map(ne).dom().contains(key) implies entries_map(ne)[key] == target[key] by {
        let i = key_index(ne, key);
        assert(target.dom().contains(key));
        if i < p {
            assert(old_entries[i] == ne[i]);
            assert(old_entries[i].0@ == key);
        } else {
            assert(old_entries[i + 1] == ne[i]);
            assert(old_entries[i + 1].0@ == key);
        }
    }
    assert(entries_map(ne) =~= target);
}

} // verus!
