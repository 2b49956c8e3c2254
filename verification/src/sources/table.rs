//! Lookups shared by the sources that hold their values as raw text.
use vstd::prelude::*;
use crate::sources::env::{env_value, parse_env_value};
use crate::strmap::StrMap;
use crate::value::{FigValue, ValueView, is_float_kind, kind_of};

verus! {

/// The raw text under `key`, as `FigValue::String`.
pub fn text_at(values: &StrMap<String>, key: &str) -> (r: Option<FigValue>)
    ensures
        match r {
            Some(v) => values@.contains_key(key@) && v@ == ValueView::Str(values@[key@]),
            None => !values@.contains_key(key@),
        },
{
    match values.get(key) {
        Some(v) => Some(FigValue::String(v.clone())),
        None => None,
    }
}

/// The raw text under `key`, read as the type of `hint` the way the
/// environment is read (floating-point text is not read here).
pub fn typed_at(values: &StrMap<String>, key: &str, hint: &FigValue) -> (r: Option<FigValue>)
    ensures
        !values@.contains_key(key@) ==> r is None,
        values@.contains_key(key@) && !is_float_kind(kind_of(hint@)) ==>
            match env_value(values@[key@], kind_of(hint@)) {
                Some(v) => r is Some && r->0@ == v,
                None => r is None,
            },
        r is Some ==> kind_of(r->0@) == kind_of(hint@),
{
    match values.get(key) {
        Some(raw) => parse_env_value(raw.as_str(), hint),
        None => None,
    }
}

/// `values` with each pair of `pairs` inserted in order: a later pair
/// replaces an earlier one with the same key.
pub open spec fn inserted_all(values: Map<Seq<char>, Seq<char>>, pairs: Seq<(Seq<char>, Seq<char>)>) -> Map<Seq<char>, Seq<char>>
    decreases pairs.len(),
{
    if pairs.len() == 0 {
        values
    } else {
        inserted_all(values, pairs.drop_last()).insert(pairs.last().0, pairs.last().1)
    }
}

/// The pairs, by their views.
pub open spec fn pair_views(pairs: Seq<(String, String)>) -> Seq<(Seq<char>, Seq<char>)> {
    pairs.map_values(|p: (String, String)| (p.0@, p.1@))
}

/// A map holding `pairs`, a later pair replacing an earlier one with the
/// same key.
pub fn map_of_pairs(pairs: Vec<(String, String)>) -> (r: StrMap<String>)
    ensures
        r@ == inserted_all(Map::empty(), pair_views(pairs@)),
{
    let mut m: StrMap<String> = StrMap::new();
    let mut i: usize = 0;
    let ghost all = pairs@;
    let mut rest = pairs;
    while i < rest.len()
        invariant
            rest@ == all,
            i <= all.len(),
            m@ == inserted_all(Map::empty(), pair_views(all.take(i as int))),
        decreases all.len() - i,
    {
        assert(pair_views(all.take(i + 1)).drop_last() =~= pair_views(all.take(i as int)));
        let (k, v) = (rest[i].0.clone(), rest[i].1.clone());
        m.insert(k, v);
        i += 1;
    }
    assert(all.take(all.len() as int) =~= all);
    m
}

}
