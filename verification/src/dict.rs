//! The reference dictionaries: species, move and item records, keyed by
//! canonical name. A dictionary is an ordered list of key/record pairs with
//! unique keys; lookups by key return the first (only) entry, and the
//! entry order is the dictionary's enumeration order.

use vstd::prelude::*;

verus! {

/// A dictionary record for one species: internal numeric id, typing, and
/// which artwork variants exist for it.
pub struct Mon {
    pub id: u32,
    pub type1: String,
    pub type2: String,
    pub has_shiny: bool,
    pub has_female: bool,
}

/// Spec-level image of a species record.
pub ghost struct MonV {
    pub id: u32,
    pub type1: Seq<char>,
    pub type2: Seq<char>,
    pub has_shiny: bool,
    pub has_female: bool,
}

impl View for Mon {
    type V = MonV;

    open spec fn view(&self) -> MonV {
        MonV {
            id: self.id,
            type1: self.type1@,
            type2: self.type2@,
            has_shiny: self.has_shiny,
            has_female: self.has_female,
        }
    }
}

impl Clone for Mon {
    fn clone(&self) -> (r: Self)
        ensures
            r@ == self@,
    {
        Mon {
            id: self.id,
            type1: self.type1.clone(),
            type2: self.type2.clone(),
            has_shiny: self.has_shiny,
            has_female: self.has_female,
        }
    }
}

/// A dictionary record for one move: canonical name, numeric id, and its
/// primary type.
pub struct Move {
    pub name: String,
    pub id: u32,
    pub type1: String,
}

/// Spec-level image of a move record.
pub ghost struct MoveV {
    pub name: Seq<char>,
    pub id: u32,
    pub type1: Seq<char>,
}

impl View for Move {
    type V = MoveV;

    open spec fn view(&self) -> MoveV {
        MoveV { name: self.name@, id: self.id, type1: self.type1@ }
    }
}

impl Clone for Move {
    fn clone(&self) -> (r: Self)
        ensures
            r@ == self@,
    {
        Move { name: self.name.clone(), id: self.id, type1: self.type1.clone() }
    }
}

/// A dictionary record for one item. Of the source's arbitrary object only
/// the numeric sprite index is read; its absence is a valid state.
#[derive(Clone, Copy, PartialEq, Eq, Structural)]
pub struct ItemRecord {
    pub sprite_num: Option<u32>,
}

impl View for ItemRecord {
    type V = ItemRecord;

    open spec fn view(&self) -> ItemRecord {
        *self
    }
}

/// The first index at or after `i` whose key equals `k`.
pub open spec fn first_idx(keys: Seq<Seq<char>>, k: Seq<char>, i: int) -> Option<int>
    recommends
        0 <= i <= keys.len(),
    decreases keys.len() - i,
{
    if i >= keys.len() {
        None
    } else if keys[i] == k {
        Some(i)
    } else {
        first_idx(keys, k, i + 1)
    }
}

/// What `first_idx` finds: the first hit, or nothing when no key matches.
pub proof fn lemma_first_idx(keys: Seq<Seq<char>>, k: Seq<char>, i: int)
    requires
        0 <= i <= keys.len(),
    ensures
        match first_idx(keys, k, i) {
            Some(j) => i <= j < keys.len() && keys[j] == k && forall|m: int|
                i <= m < j ==> keys[m] != k,
            None => forall|m: int| i <= m < keys.len() ==> keys[m] != k,
        },
    decreases keys.len() - i,
{
    if i < keys.len() && keys[i] != k {
        lemma_first_idx(keys, k, i + 1);
    }
}

/// A read-only reference dictionary: key/record pairs in enumeration order,
/// keys unique.
pub struct Dict<T> {
    pub entries: Vec<(String, T)>,
}

impl<T> Dict<T> {
    /// The keys, in enumeration order.
    pub open spec fn keys(&self) -> Seq<Seq<char>> {
        self.entries@.map_values(|e: (String, T)| e.0@)
    }

    /// The records, in enumeration order.
    pub open spec fn vals(&self) -> Seq<T> {
        self.entries@.map_values(|e: (String, T)| e.1)
    }

    pub open spec fn spec_len(&self) -> nat {
        self.entries@.len()
    }

    /// The dictionary's invariant: keys are unique.
    pub open spec fn wf(&self) -> bool {
        forall|i: int, j: int|
            0 <= i < j < self.keys().len() ==> self.keys()[i] != self.keys()[j]
    }

    pub open spec fn has_key(&self, k: Seq<char>) -> bool {
        exists|i: int| 0 <= i < self.keys().len() && self.keys()[i] == k
    }

    pub fn new() -> (r: Self)
        ensures
            r.keys() =~= Seq::<Seq<char>>::empty(),
            r.vals() =~= Seq::<T>::empty(),
            r.wf(),
    {
        Dict { entries: Vec::new() }
    }

    pub fn len(&self) -> (r: usize)
        ensures
            r == self.spec_len(),
    {
        self.entries.len()
    }

    pub fn key_at(&self, i: usize) -> (r: &String)
        requires
            i < self.spec_len(),
        ensures
            r@ == self.keys()[i as int],
    {
        &self.entries[i].0
    }

    pub fn val_at(&self, i: usize) -> (r: &T)
        requires
            i < self.spec_len(),
        ensures
            *r == self.vals()[i as int],
    {
        &self.entries[i].1
    }

    /// The first index holding the key, if the key is present.
    pub fn find(&self, key: &str) -> (r: Option<usize>)
        ensures
            match r {
                Some(i) => Some(i as int) == first_idx(self.keys(), key@, 0) && i
                    < self.spec_len(),
                None => first_idx(self.keys(), key@, 0) is None && !self.has_key(key@),
            },
    {
        let n = self.entries.len();
        let mut i: usize = 0;
        while i < n
            invariant
                n == self.spec_len(),
                i <= n,
                first_idx(self.keys(), key@, 0) == first_idx(self.keys(), key@, i as int),
            decreases n - i,
        {
            if crate::text::str_eq(self.entries[i].0.as_str(), key) {
                return Some(i);
            }
            i += 1;
        }
        proof {
            lemma_first_idx(self.keys(), key@, 0);
        }
        None
    }

    /// Adds a key/record pair unless the key is already present; returns
    /// whether the pair was added. The invariant of unique keys is kept.
    pub fn insert(&mut self, key: String, val: T) -> (added: bool)
        ensures
            added == !old(self).has_key(key@),
            added ==> final(self).keys() =~= old(self).keys().push(key@) && final(self).vals()
                =~= old(self).vals().push(val),
            !added ==> final(self).keys() == old(self).keys() && final(self).vals() == old(
                self,
            ).vals(),
            old(self).wf() ==> final(self).wf(),
    {
        match self.find(key.as_str()) {
            Some(_) => {
                proof {
                    lemma_first_idx(self.keys(), key@, 0);
                }
                false
            },
            None => {
                self.entries.push((key, val));
                true
            },
        }
    }
}

/// The elements of `s` whose flag is set, in order.
pub open spec fn filter_by<A>(s: Seq<A>, keep: Seq<bool>) -> Seq<A>
    recommends
        s.len() == keep.len(),
    decreases s.len(),
{
    if s.len() == 0 {
        s
    } else {
        filter_by(s.drop_last(), keep.drop_last()) + (if keep.last() {
            seq![s.last()]
        } else {
            Seq::empty()
        })
    }
}

/// Every element of the filtered sequence is an element of the original.
pub proof fn lemma_filter_by_contains<A>(s: Seq<A>, keep: Seq<bool>)
    requires
        s.len() == keep.len(),
    ensures
        forall|i: int|
            0 <= i < filter_by(s, keep).len() ==> s.contains(#[trigger] filter_by(s, keep)[i]),
    decreases s.len(),
{
    if s.len() > 0 {
        lemma_filter_by_contains(s.drop_last(), keep.drop_last());
        assert forall|i: int| 0 <= i < filter_by(s, keep).len() implies s.contains(
            #[trigger] filter_by(s, keep)[i],
        ) by {
            let pre = filter_by(s.drop_last(), keep.drop_last());
            if i < pre.len() {
                assert(s.drop_last().contains(pre[i]));
                let w = choose|w: int| 0 <= w < s.drop_last().len() && s.drop_last()[w] == pre[i];
                assert(s[w] == pre[i]);
            } else {
                assert(filter_by(s, keep)[i] == s.last());
            }
        }
    }
}

/// Filtering keeps distinct elements distinct.
pub proof fn lemma_filter_by_unique<A>(s: Seq<A>, keep: Seq<bool>)
    requires
        s.len() == keep.len(),
        forall|i: int, j: int| 0 <= i < j < s.len() ==> s[i] != s[j],
    ensures
        forall|i: int, j: int|
            0 <= i < j < filter_by(s, keep).len() ==> filter_by(s, keep)[i] != filter_by(
                s,
                keep,
            )[j],
    decreases s.len(),
{
    if s.len() > 0 {
        lemma_filter_by_unique(s.drop_last(), keep.drop_last());
        lemma_filter_by_contains(s.drop_last(), keep.drop_last());
        let pre = filter_by(s.drop_last(), keep.drop_last());
        if keep.last() {
            assert forall|i: int| 0 <= i < pre.len() implies pre[i] != s.last() by {
                assert(s.drop_last().contains(pre[i]));
                let w = choose|w: int|
                    0 <= w < s.drop_last().len() && s.drop_last()[w] == pre[i];
                assert(s[w] == pre[i]);
            }
        }
    }
}

impl<T> Dict<T> {
    /// Keeps exactly the entries whose flag is set, in order. The invariant
    /// of unique keys is kept.
    pub fn retain_by_flags(&mut self, flags: &Vec<bool>)
        requires
            flags@.len() == old(self).spec_len(),
        ensures
            final(self).keys() =~= filter_by(old(self).keys(), flags@),
            final(self).vals() =~= filter_by(old(self).vals(), flags@),
            old(self).wf() ==> final(self).wf(),
    {
        proof {
            if self.wf() {
                lemma_filter_by_unique(self.keys(), flags@);
            }
        }
        let n = self.entries.len();
        let mut out: Vec<(String, T)> = Vec::new();
        let ghost src0 = self.entries@;
        let mut i: usize = 0;
        loop
            invariant_except_break
                self.entries@ =~= src0.skip(i as int),
                i <= n,
                n == src0.len() == flags@.len(),
                out@ =~= filter_by(src0.take(i as int), flags@.take(i as int)),
            ensures
                out@ =~= filter_by(src0, flags@),
            decreases n - i,
        {
            if i >= n {
                proof {
                    assert(src0.take(i as int) =~= src0);
                    assert(flags@.take(i as int) =~= flags@);
                }
                break ;
            }
            let e = self.entries.remove(0);
            let ghost pre_out = out@;
            if flags[i] {
                out.push(e);
            }
            i += 1;
            proof {
                assert(src0.take(i as int).drop_last() =~= src0.take(i - 1));
                assert(flags@.take(i as int).drop_last() =~= flags@.take(i - 1));
                assert(src0.take(i as int).last() == src0[i - 1]);
                assert(flags@.take(i as int).last() == flags@[i - 1]);
                assert(out@ =~= filter_by(src0.take(i as int), flags@.take(i as int)));
                assert(self.entries@ =~= src0.skip(i as int));
            }
        }
        self.entries = out;
        proof {
            lemma_filter_map_commute(src0, flags@, |e: (String, T)| e.0@);
            lemma_filter_map_commute(src0, flags@, |e: (String, T)| e.1);
        }
    }
}

/// Filtering commutes with mapping over the entries.
proof fn lemma_filter_map_commute<A, B>(s: Seq<A>, keep: Seq<bool>, f: spec_fn(A) -> B)
    requires
        s.len() == keep.len(),
    ensures
        filter_by(s, keep).map_values(f) =~= filter_by(s.map_values(f), keep),
    decreases s.len(),
{
    if s.len() > 0 {
        lemma_filter_map_commute(s.drop_last(), keep.drop_last(), f);
        assert(s.map_values(f).drop_last() =~= s.drop_last().map_values(f));
        assert(s.map_values(f).last() == f(s.last()));
        if keep.last() {
            assert(filter_by(s, keep).map_values(f) =~= filter_by(
                s.drop_last(),
                keep.drop_last(),
            ).map_values(f) + seq![f(s.last())]);
        } else {
            assert(filter_by(s, keep).map_values(f) =~= filter_by(
                s.drop_last(),
                keep.drop_last(),
            ).map_values(f));
        }
    }
}

} // verus!
