//! `StrMap`: a map from strings to values that keeps its entries in
//! insertion order. It stands where a `HashMap<String, V>` would: no key
//! occurs twice, and a lookup finds the value last inserted for a key.
use vstd::prelude::*;
use crate::text::same_text;
use crate::numeric::{float_bits_eq, float_eq};

verus! {

/// A string-keyed map. Its view is the mathematical map from the keys'
/// characters to the values' views.
#[derive(Debug)]
pub struct StrMap<V> {
    entries: Vec<(String, V)>,
}

/// The map that the entry list `s` describes.
pub open spec fn map_of<V: View>(s: Seq<(String, V)>) -> Map<Seq<char>, V::V>
    decreases s.len(),
{
    if s.len() == 0 {
        Map::empty()
    } else {
        map_of(s.drop_last()).insert(s.last().0@, s.last().1@)
    }
}

/// No key occurs twice in the entry list `s`.
pub open spec fn keys_unique<V>(s: Seq<(String, V)>) -> bool {
    forall|i: int, j: int| 0 <= i < s.len() && 0 <= j < s.len() && i != j ==> s[i].0@ != s[j].0@
}

pub proof fn lemma_map_of_domain<V: View>(s: Seq<(String, V)>)
    ensures
        forall|k: Seq<char>| #[trigger] map_of(s).contains_key(k) <==> exists|i: int| 0 <= i < s.len() && s[i].0@ == k,
        map_of(s).dom().finite(),
    decreases s.len(),
{
    if s.len() > 0 {
        lemma_map_of_domain(s.drop_last());
        assert forall|k: Seq<char>| #[trigger] map_of(s).contains_key(k) <==> exists|i: int| 0 <= i < s.len() && s[i].0@ == k by {
            if map_of(s).contains_key(k) && k != s.last().0@ {
                let i = choose|i: int| 0 <= i < s.drop_last().len() && s.drop_last()[i].0@ == k;
                assert(s[i].0@ == k);
            }
            if exists|i: int| 0 <= i < s.len() && s[i].0@ == k {
                let i = choose|i: int| 0 <= i < s.len() && s[i].0@ == k;
                if i < s.len() - 1 {
                    assert(s.drop_last()[i].0@ == k);
                }
            }
        }
    }
}

pub proof fn lemma_map_of_value<V: View>(s: Seq<(String, V)>, i: int)
    requires
        keys_unique(s),
        0 <= i < s.len(),
    ensures
        map_of(s).contains_key(s[i].0@),
        map_of(s)[s[i].0@] == s[i].1@,
    decreases s.len(),
{
    lemma_map_of_domain(s);
    if i < s.len() - 1 {
        lemma_map_of_value(s.drop_last(), i);
        assert(s.drop_last()[i] == s[i]);
        assert(s[i].0@ != s.last().0@);
    }
}

pub proof fn lemma_map_of_len<V: View>(s: Seq<(String, V)>)
    requires
        keys_unique(s),
    ensures
        map_of(s).len() == s.len(),
    decreases s.len(),
{
    if s.len() > 0 {
        let t = s.drop_last();
        assert(keys_unique(t)) by {
            assert forall|i: int, j: int| 0 <= i < t.len() && 0 <= j < t.len() && i != j implies t[i].0@ != t[j].0@ by {
                assert(t[i] == s[i] && t[j] == s[j]);
            }
        }
        lemma_map_of_len(t);
        lemma_map_of_domain(t);
        assert(!map_of(t).contains_key(s.last().0@)) by {
            if map_of(t).contains_key(s.last().0@) {
                let i = choose|i: int| 0 <= i < t.len() && t[i].0@ == s.last().0@;
                assert(s[i].0@ == s[s.len() - 1].0@);
            }
        }
    }
}

impl<V: View> View for StrMap<V> {
    type V = Map<Seq<char>, V::V>;

    closed spec fn view(&self) -> Map<Seq<char>, V::V> {
        map_of(self.entries@)
    }
}

impl<V> StrMap<V> {
    /// Keys never repeat.
    #[verifier::type_invariant]
    spec fn keys_never_repeat(&self) -> bool {
        keys_unique(self.entries@)
    }
}

impl<V: View> StrMap<V> {

    /// The keys, in insertion order.
    pub closed spec fn key_seq(&self) -> Seq<Seq<char>> {
        self.entries@.map_values(|e: (String, V)| e.0@)
    }

    /// The entries, in insertion order, by their views.
    pub closed spec fn entry_seq(&self) -> Seq<(Seq<char>, V::V)> {
        self.entries@.map_values(|e: (String, V)| (e.0@, e.1@))
    }

    proof fn lemma_wf(&self)
        requires
            keys_unique(self.entries@),
        ensures
            self@.len() == self.entry_seq().len(),
            self@.dom().finite(),
            forall|k: Seq<char>| #[trigger] self@.contains_key(k) <==> exists|i: int| 0 <= i < self.entry_seq().len() && self.entry_seq()[i].0 == k,
            forall|i: int| 0 <= i < self.entry_seq().len() ==> #[trigger] self@.contains_key(self.entry_seq()[i].0) && self@[self.entry_seq()[i].0] == self.entry_seq()[i].1,
            forall|i: int, j: int| 0 <= i < self.entry_seq().len() && 0 <= j < self.entry_seq().len() && i != j ==> self.entry_seq()[i].0 != self.entry_seq()[j].0,
    {
        lemma_map_of_len(self.entries@);
        lemma_map_of_domain(self.entries@);
        assert forall|i: int| 0 <= i < self.entry_seq().len() implies #[trigger] self@.contains_key(self.entry_seq()[i].0) && self@[self.entry_seq()[i].0] == self.entry_seq()[i].1 by {
            lemma_map_of_value(self.entries@, i);
            assert(self.entry_seq()[i] == (self.entries@[i].0@, self.entries@[i].1@));
        }
        assert forall|k: Seq<char>| #[trigger] self@.contains_key(k) <==> exists|i: int| 0 <= i < self.entry_seq().len() && self.entry_seq()[i].0 == k by {
            if self@.contains_key(k) {
                let i = choose|i: int| 0 <= i < self.entries@.len() && self.entries@[i].0@ == k;
                assert(self.entry_seq()[i].0 == k);
            }
            if exists|i: int| 0 <= i < self.entry_seq().len() && self.entry_seq()[i].0 == k {
                let i = choose|i: int| 0 <= i < self.entry_seq().len() && self.entry_seq()[i].0 == k;
                assert(self.entries@[i].0@ == k);
            }
        }
    }

    /// An empty map.
    pub fn new() -> (r: Self)
        ensures
            r@ == Map::<Seq<char>, V::V>::empty(),
            r.entry_seq() == Seq::<(Seq<char>, V::V)>::empty(),
    {
        let r = StrMap { entries: Vec::new() };
        assert(r.entry_seq() =~= Seq::<(Seq<char>, V::V)>::empty());
        r
    }

    /// The number of keys.
    pub fn len(&self) -> (r: usize)
        ensures
            r == self@.len(),
            r == self.entry_seq().len(),
    {
        proof {
            use_type_invariant(self);
            lemma_map_of_len(self.entries@);
        }
        self.entries.len()
    }

    /// True if there are no keys.
    pub fn is_empty(&self) -> (r: bool)
        ensures
            r == (self@.len() == 0),
    {
        proof {
            use_type_invariant(self);
            lemma_map_of_len(self.entries@);
        }
        self.entries.len() == 0
    }

    fn find(&self, key: &str) -> (r: Option<usize>)
        ensures
            match r {
                Some(i) => i < self.entries@.len() && self.entries@[i as int].0@ == key@,
                None => forall|i: int| 0 <= i < self.entries@.len() ==> self.entries@[i].0@ != key@,
            },
    {
        let mut i: usize = 0;
        while i < self.entries.len()
            invariant
                i <= self.entries@.len(),
                forall|j: int| 0 <= j < i ==> self.entries@[j].0@ != key@,
            decreases self.entries@.len() - i,
        {
            if same_text(self.entries[i].0.as_str(), key) {
                return Some(i);
            }
            i += 1;
        }
        None
    }

    /// True if `key` is present.
    pub fn contains_key(&self, key: &str) -> (r: bool)
        ensures
            r == self@.contains_key(key@),
    {
        proof { lemma_map_of_domain(self.entries@); }
        match self.find(key) {
            Some(_) => true,
            None => false,
        }
    }

    /// The value stored for `key`.
    pub fn get(&self, key: &str) -> (r: Option<&V>)
        ensures
            match r {
                Some(v) => self@.contains_key(key@) && v@ == self@[key@],
                None => !self@.contains_key(key@),
            },
    {
        proof {
            use_type_invariant(self);
            lemma_map_of_domain(self.entries@);
        }
        match self.find(key) {
            Some(i) => {
                proof { lemma_map_of_value(self.entries@, i as int); }
                Some(&self.entries[i].1)
            },
            None => None,
        }
    }

    /// Stores `value` for `key`, replacing the value already there.
    /// A new key goes after all others; an existing key keeps its place.
    pub fn insert(&mut self, key: String, value: V)
        ensures
            final(self)@ == old(self)@.insert(key@, value@),
            old(self)@.contains_key(key@) ==> final(self).key_seq() == old(self).key_seq(),
            !old(self)@.contains_key(key@) ==> final(self).key_seq() == old(self).key_seq().push(key@),
    {
        proof {
            use_type_invariant(&*self);
            lemma_map_of_domain(self.entries@);
        }
        let ghost old_entries = self.entries@;
        match self.find(key.as_str()) {
            Some(i) => {
                let ghost s = old_entries.update(i as int, (key, value));
                proof {
                    assert forall|a: int, b: int| 0 <= a < s.len() && 0 <= b < s.len() && a != b implies s[a].0@ != s[b].0@ by {
                        assert(old_entries[i as int].0@ == s[i as int].0@);
                        if a != i && b != i {
                            assert(s[a] == old_entries[a] && s[b] == old_entries[b]);
                        } else if a == i {
                            assert(s[b] == old_entries[b]);
                        } else {
                            assert(s[a] == old_entries[a]);
                        }
                    }
                    assert(keys_unique(s));
                }
                let mut entries: Vec<(String, V)> = Vec::new();
                std::mem::swap(&mut entries, &mut self.entries);
                entries.set(i, (key, value));
                self.entries = entries;
                proof {
                    assert(self.entries@ == s);
                    lemma_map_of_domain(s);
                    assert forall|k: Seq<char>| #[trigger] map_of(s).contains_key(k) == old(self)@.insert(key@, value@).contains_key(k) by {
                        if map_of(s).contains_key(k) {
                            let j = choose|j: int| 0 <= j < s.len() && s[j].0@ == k;
                            if j != i { assert(old_entries[j] == s[j]); }
                        }
                        if old(self)@.contains_key(k) {
                            let j = choose|j: int| 0 <= j < old_entries.len() && old_entries[j].0@ == k;
                            if j != i { assert(old_entries[j] == s[j]); } else { assert(s[i as int].0@ == k); }
                        }
                        if k == key@ { assert(s[i as int].0@ == k); }
                    }
                    assert forall|k: Seq<char>| #[trigger] map_of(s).contains_key(k) implies map_of(s)[k] == old(self)@.insert(key@, value@)[k] by {
                        let j = choose|j: int| 0 <= j < s.len() && s[j].0@ == k;
                        lemma_map_of_value(s, j);
                        if j != i {
                            assert(old_entries[j] == s[j]);
                            lemma_map_of_value(old_entries, j);
                        }
                    }
                    assert(map_of(s) =~= old(self)@.insert(key@, value@));
                    assert(self.key_seq() =~= old(self).key_seq());
                }
            },
            None => {
                let ghost s = old_entries.push((key, value));
                proof {
                    assert(s.drop_last() =~= old_entries);
                    assert forall|a: int, b: int| 0 <= a < s.len() && 0 <= b < s.len() && a != b implies s[a].0@ != s[b].0@ by {
                        if a < old_entries.len() && b < old_entries.len() {
                            assert(s[a] == old_entries[a] && s[b] == old_entries[b]);
                        } else if a < old_entries.len() {
                            assert(s[a] == old_entries[a]);
                        } else {
                            assert(s[b] == old_entries[b]);
                        }
                    }
                    assert(keys_unique(s));
                }
                let mut entries: Vec<(String, V)> = Vec::new();
                std::mem::swap(&mut entries, &mut self.entries);
                entries.push((key, value));
                self.entries = entries;
                proof {
                    assert(self.entries@ == s);
                    assert(self.key_seq() =~= old(self).key_seq().push(key@));
                }
            },
        }
    }

    /// The key of entry `i` (insertion order).
    pub fn key_at(&self, i: usize) -> (r: &String)
        requires
            i < self.entry_seq().len(),
        ensures
            r@ == self.entry_seq()[i as int].0,
    {
        &self.entries[i].0
    }

    /// The value of entry `i` (insertion order).
    pub fn value_at(&self, i: usize) -> (r: &V)
        requires
            i < self.entry_seq().len(),
        ensures
            r@ == self.entry_seq()[i as int].1,
    {
        &self.entries[i].1
    }

    /// The number of entries (same as `len`, without the well-formedness
    /// requirement).
    pub fn entry_count(&self) -> (r: usize)
        ensures
            r == self.entry_seq().len(),
    {
        self.entries.len()
    }
}


/// Values a `StrMap` can hold: they can be copied and compared by view.
pub trait MapValue: View + Sized {
    fn copy_value(&self) -> (r: Self)
        ensures
            r@ == self@;

    fn same_value(&self, other: &Self) -> (r: bool)
        ensures
            r == (self@ == other@);
}

impl MapValue for String {
    fn copy_value(&self) -> (r: Self) {
        self.clone()
    }

    fn same_value(&self, other: &Self) -> (r: bool) {
        same_text(self.as_str(), other.as_str())
    }
}

impl MapValue for i32 {
    fn copy_value(&self) -> (r: Self) { *self }
    fn same_value(&self, other: &Self) -> (r: bool) { *self == *other }
}

impl MapValue for i64 {
    fn copy_value(&self) -> (r: Self) { *self }
    fn same_value(&self, other: &Self) -> (r: bool) { *self == *other }
}

impl MapValue for i128 {
    fn copy_value(&self) -> (r: Self) { *self }
    fn same_value(&self, other: &Self) -> (r: bool) { *self == *other }
}

impl MapValue for u64 {
    fn copy_value(&self) -> (r: Self) { *self }
    fn same_value(&self, other: &Self) -> (r: bool) { *self == *other }
}

impl MapValue for bool {
    fn copy_value(&self) -> (r: Self) { *self }
    fn same_value(&self, other: &Self) -> (r: bool) { *self == *other }
}

pub proof fn lemma_map_of_views<V: View>(s: Seq<(String, V)>, t: Seq<(String, V)>)
    requires
        s.len() == t.len(),
        forall|i: int| 0 <= i < s.len() ==> s[i].0@ == t[i].0@ && s[i].1@ == t[i].1@,
    ensures
        map_of(s) == map_of(t),
    decreases s.len(),
{
    if s.len() > 0 {
        lemma_map_of_views(s.drop_last(), t.drop_last());
    }
}

impl<V: MapValue> StrMap<V> {
    /// A copy of this map with the same entries in the same order.
    pub fn duplicate(&self) -> (r: Self)
        ensures
            r@ == self@,
            r.key_seq() == self.key_seq(),
    {
        proof { use_type_invariant(self); }
        let mut entries: Vec<(String, V)> = Vec::new();
        let mut i: usize = 0;
        while i < self.entries.len()
            invariant
                i <= self.entries@.len(),
                keys_unique(self.entries@),
                entries@.len() == i,
                forall|j: int| 0 <= j < i ==> entries@[j].0@ == self.entries@[j].0@
                    && entries@[j].1@ == self.entries@[j].1@,
            decreases self.entries@.len() - i,
        {
            let k = self.entries[i].0.clone();
            let v = self.entries[i].1.copy_value();
            entries.push((k, v));
            i += 1;
        }
        proof {
            lemma_map_of_views(entries@, self.entries@);
            assert(keys_unique(entries@));
        }
        let r = StrMap { entries };
        assert(r.key_seq() =~= self.key_seq());
        r
    }

    /// True when both maps hold the same keys with the same values.
    pub fn same_as(&self, other: &Self) -> (r: bool)
        ensures
            r == (self@ == other@),
    {
        proof {
            use_type_invariant(self);
            use_type_invariant(other);
            self.lemma_wf();
            other.lemma_wf();
        }
        if self.entries.len() != other.entries.len() {
            return false;
        }
        let mut i: usize = 0;
        while i < self.entries.len()
            invariant
                i <= self.entries@.len(),
                keys_unique(self.entries@),
                keys_unique(other.entries@),
                self@.len() == other@.len(),
                self@.dom().finite(),
                other@.dom().finite(),
                forall|k: Seq<char>| #[trigger] self@.contains_key(k) <==> exists|j: int| 0 <= j < self.entry_seq().len() && self.entry_seq()[j].0 == k,
                forall|j: int| 0 <= j < self.entry_seq().len() ==> #[trigger] self@.contains_key(self.entry_seq()[j].0) && self@[self.entry_seq()[j].0] == self.entry_seq()[j].1,
                self.entry_seq().len() == self.entries@.len(),
                forall|j: int| 0 <= j < i ==> other@.contains_key(#[trigger] self.entry_seq()[j].0)
                    && other@[self.entry_seq()[j].0] == self.entry_seq()[j].1,
            decreases self.entries@.len() - i,
        {
            assert(self.entry_seq()[i as int] == (self.entries@[i as int].0@, self.entries@[i as int].1@));
            match other.get(self.entries[i].0.as_str()) {
                Some(v) => {
                    if !self.entries[i].1.same_value(v) {
                        return false;
                    }
                },
                None => {
                    return false;
                },
            }
            i += 1;
        }
        proof {
            assert forall|k: Seq<char>| self@.contains_key(k) implies other@.contains_key(k) && other@[k] == self@[k] by {
                let j = choose|j: int| 0 <= j < self.entry_seq().len() && self.entry_seq()[j].0 == k;
                assert(other@.contains_key(self.entry_seq()[j].0));
            }
            vstd::set_lib::lemma_subset_equality(self@.dom(), other@.dom());
            assert(self@ =~= other@);
        }
        true
    }
}


impl StrMap<u64> {
    /// True when both maps of doubles (by bit pattern) hold the same keys
    /// with values equal as numbers.
    pub fn same_floats(&self, other: &Self) -> (r: bool)
        ensures
            r == (self@.dom() == other@.dom()
                && forall|k: Seq<char>| #[trigger] self@.contains_key(k) ==> float_bits_eq(self@[k], other@[k])),
    {
        proof {
            use_type_invariant(self);
            use_type_invariant(other);
            self.lemma_wf();
            other.lemma_wf();
        }
        if self.entries.len() != other.entries.len() {
            return false;
        }
        let mut i: usize = 0;
        while i < self.entries.len()
            invariant
                i <= self.entries@.len(),
                keys_unique(self.entries@),
                keys_unique(other.entries@),
                self@.len() == other@.len(),
                self@.dom().finite(),
                other@.dom().finite(),
                forall|k: Seq<char>| #[trigger] self@.contains_key(k) <==> exists|j: int| 0 <= j < self.entry_seq().len() && self.entry_seq()[j].0 == k,
                forall|j: int| 0 <= j < self.entry_seq().len() ==> #[trigger] self@.contains_key(self.entry_seq()[j].0) && self@[self.entry_seq()[j].0] == self.entry_seq()[j].1,
                self.entry_seq().len() == self.entries@.len(),
                forall|j: int| 0 <= j < i ==> other@.contains_key(#[trigger] self.entry_seq()[j].0)
                    && float_bits_eq(self.entry_seq()[j].1, other@[self.entry_seq()[j].0]),
            decreases self.entries@.len() - i,
        {
            assert(self.entry_seq()[i as int] == (self.entries@[i as int].0@, self.entries@[i as int].1@));
            match other.get(self.entries[i].0.as_str()) {
                Some(v) => {
                    if !float_eq(self.entries[i].1, *v) {
                        proof {
                            let k = self.entry_seq()[i as int].0;
                            assert(0 <= i < self.entry_seq().len());
                            assert(self@.contains_key(self.entry_seq()[i as int].0));
                            assert(self@[k] == self.entry_seq()[i as int].1);
                            assert(self.entry_seq()[i as int].1 == self.entries@[i as int].1);
                            assert(k == self.entries@[i as int].0@);
                            assert(other@[k] == *v);
                            assert(!float_bits_eq(self@[k], other@[k]));
                        }
                        return false;
                    }
                },
                None => {
                    return false;
                },
            }
            i += 1;
        }
        proof {
            assert forall|k: Seq<char>| self@.contains_key(k) implies other@.contains_key(k) && float_bits_eq(self@[k], other@[k]) by {
                let j = choose|j: int| 0 <= j < self.entry_seq().len() && self.entry_seq()[j].0 == k;
                assert(other@.contains_key(self.entry_seq()[j].0));
            }
            vstd::set_lib::lemma_subset_equality(self@.dom(), other@.dom());
        }
        true
    }
}

impl<V: MapValue> Clone for StrMap<V> {
    fn clone(&self) -> (r: Self)
        ensures
            r@ == self@,
    {
        self.duplicate()
    }
}


impl<V: MapValue> PartialEq for StrMap<V> {
    fn eq(&self, other: &Self) -> (r: bool) {
        self.same_as(other)
    }
}

impl<V: MapValue> vstd::std_specs::cmp::PartialEqSpecImpl for StrMap<V> {
    open spec fn obeys_eq_spec() -> bool {
        true
    }

    open spec fn eq_spec(&self, other: &Self) -> bool {
        self@ == other@
    }
}

}
