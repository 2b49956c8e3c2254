//! Laws of the validators and of the readings of typed values: what each
//! one accepts or yields, over all inputs.
use vstd::prelude::*;
use crate::attributes::{FieldMutagenesis, TypeName, list_mutagenesis, map_mutagenesis, scalar_mutagenesis, type_outcome};
use crate::duration::Duration;
use crate::error::FigtreeResult;
use crate::numeric::{decimal, is_digit, lemma_decimal_reads_back, signed_decimal};
use crate::fig::Fig;
use crate::sources::document::{DocNode, items_read, node_value};
use crate::sources::env::{TextScalar, env_value, pairs_read};
use crate::text::{is_infix, occurs_at, is_ws, split_by, split_once, trim_back, trim_front, trimmed};
use crate::tree::recorded_errors;
use crate::validators::{assure_bool_false, assure_bool_true, assure_duration_positive, assure_int128_positive, assure_int64_positive, assure_int_negative, assure_int_positive, assure_list_not_empty, assure_map_not_empty, assure_string_not_empty, byte_len, list_len, map_len, list_min_length_verdict, list_length_verdict, list_not_length_verdict, map_length_verdict, map_not_length_verdict, string_not_contains_verdict, duration_greater_than_verdict, duration_less_than_verdict, duration_max_verdict, duration_min_verdict, int128_greater_than_verdict, int128_in_range_verdict, int128_less_than_verdict, int64_greater_than_verdict, int64_in_range_verdict, int64_less_than_verdict, int_greater_than_verdict, int_in_range_verdict, int_less_than_verdict, list_contains_verdict, list_not_contains_verdict, map_has_key_verdict, map_value_matches_verdict, string_contains_verdict, string_has_prefix_verdict, string_has_suffix_verdict, string_length_greater_than_verdict, string_length_verdict, string_no_prefix_verdict, string_no_suffix_verdict, string_not_length_verdict};
use crate::value::{FigValue, Kind, ValueView};

verus! {

// ── validators ───────────────────────────────────────────────────────────────

/// `assure_int_greater_than(n)` accepts exactly the Int values strictly above `n` (the bound itself is refused), and refuses every other type.
/// A refusal is a ValidationFailed.
pub proof fn int_greater_than_accepts_above(n: i32, v: ValueView, r: FigtreeResult<()>)
    requires
        int_greater_than_verdict(n, v, r),
    ensures
        r is Ok <==> (v matches ValueView::Int(x) && x > n),
        r is Err ==> r->Err_0 is ValidationFailed,
{
}

/// `assure_int_less_than(n)` accepts exactly the Int values strictly below `n` (the bound itself is refused), and refuses every other type.
/// A refusal is a ValidationFailed.
pub proof fn int_less_than_accepts_below(n: i32, v: ValueView, r: FigtreeResult<()>)
    requires
        int_less_than_verdict(n, v, r),
    ensures
        r is Ok <==> (v matches ValueView::Int(x) && x < n),
        r is Err ==> r->Err_0 is ValidationFailed,
{
}

/// `assure_int_in_range(min, max)` accepts exactly the Int values from `min` to `max`, both included, and refuses every other type.
/// A refusal is a ValidationFailed.
pub proof fn int_in_range_accepts_inside(min: i32, max: i32, v: ValueView, r: FigtreeResult<()>)
    requires
        int_in_range_verdict(min, max, v, r),
    ensures
        r is Ok <==> (v matches ValueView::Int(x) && min <= x && x <= max),
        r is Err ==> r->Err_0 is ValidationFailed,
{
}

/// `assure_int64_greater_than(n)` accepts exactly the Int64 values strictly above `n` (the bound itself is refused), and refuses every other type.
/// A refusal is a ValidationFailed.
pub proof fn int64_greater_than_accepts_above(n: i64, v: ValueView, r: FigtreeResult<()>)
    requires
        int64_greater_than_verdict(n, v, r),
    ensures
        r is Ok <==> (v matches ValueView::Int64(x) && x > n),
        r is Err ==> r->Err_0 is ValidationFailed,
{
}

/// `assure_int64_less_than(n)` accepts exactly the Int64 values strictly below `n` (the bound itself is refused), and refuses every other type.
/// A refusal is a ValidationFailed.
pub proof fn int64_less_than_accepts_below(n: i64, v: ValueView, r: FigtreeResult<()>)
    requires
        int64_less_than_verdict(n, v, r),
    ensures
        r is Ok <==> (v matches ValueView::Int64(x) && x < n),
        r is Err ==> r->Err_0 is ValidationFailed,
{
}

/// `assure_int64_in_range(min, max)` accepts exactly the Int64 values from `min` to `max`, both included, and refuses every other type.
/// A refusal is a ValidationFailed.
pub proof fn int64_in_range_accepts_inside(min: i64, max: i64, v: ValueView, r: FigtreeResult<()>)
    requires
        int64_in_range_verdict(min, max, v, r),
    ensures
        r is Ok <==> (v matches ValueView::Int64(x) && min <= x && x <= max),
        r is Err ==> r->Err_0 is ValidationFailed,
{
}

/// `assure_int128_greater_than(n)` accepts exactly the Int128 values strictly above `n` (the bound itself is refused), and refuses every other type.
/// A refusal is a ValidationFailed.
pub proof fn int128_greater_than_accepts_above(n: i128, v: ValueView, r: FigtreeResult<()>)
    requires
        int128_greater_than_verdict(n, v, r),
    ensures
        r is Ok <==> (v matches ValueView::Int128(x) && x > n),
        r is Err ==> r->Err_0 is ValidationFailed,
{
}

/// `assure_int128_less_than(n)` accepts exactly the Int128 values strictly below `n` (the bound itself is refused), and refuses every other type.
/// A refusal is a ValidationFailed.
pub proof fn int128_less_than_accepts_below(n: i128, v: ValueView, r: FigtreeResult<()>)
    requires
        int128_less_than_verdict(n, v, r),
    ensures
        r is Ok <==> (v matches ValueView::Int128(x) && x < n),
        r is Err ==> r->Err_0 is ValidationFailed,
{
}

/// `assure_int128_in_range(min, max)` accepts exactly the Int128 values from `min` to `max`, both included, and refuses every other type.
/// A refusal is a ValidationFailed.
pub proof fn int128_in_range_accepts_inside(min: i128, max: i128, v: ValueView, r: FigtreeResult<()>)
    requires
        int128_in_range_verdict(min, max, v, r),
    ensures
        r is Ok <==> (v matches ValueView::Int128(x) && min <= x && x <= max),
        r is Err ==> r->Err_0 is ValidationFailed,
{
}

/// `assure_string_length(n)` accepts exactly the strings of `n` UTF-8 bytes.
/// A refusal is a ValidationFailed.
pub proof fn string_length_accepts_exact(n: usize, v: ValueView, r: FigtreeResult<()>)
    requires
        string_length_verdict(n, v, r),
    ensures
        r is Ok <==> (v matches ValueView::Str(s) && byte_len(s) == n),
        r is Err ==> r->Err_0 is ValidationFailed,
{
}

/// `assure_string_not_length(n)` accepts exactly the strings not of `n` UTF-8 bytes.
/// A refusal is a ValidationFailed.
pub proof fn string_not_length_refuses_exact(n: usize, v: ValueView, r: FigtreeResult<()>)
    requires
        string_not_length_verdict(n, v, r),
    ensures
        r is Ok <==> (v matches ValueView::Str(s) && byte_len(s) != n),
        r is Err ==> r->Err_0 is ValidationFailed,
{
}

/// `assure_string_length_greater_than(n)` accepts exactly the strings of more than `n` UTF-8 bytes (exactly `n` is refused).
/// A refusal is a ValidationFailed.
pub proof fn string_length_greater_than_accepts_longer(n: usize, v: ValueView, r: FigtreeResult<()>)
    requires
        string_length_greater_than_verdict(n, v, r),
    ensures
        r is Ok <==> (v matches ValueView::Str(s) && byte_len(s) > n),
        r is Err ==> r->Err_0 is ValidationFailed,
{
}

/// `assure_string_contains(p)` accepts exactly the strings in which `p` occurs.
/// A refusal is a ValidationFailed.
pub proof fn string_contains_accepts_infix(p: Seq<char>, v: ValueView, r: FigtreeResult<()>)
    requires
        string_contains_verdict(p, v, r),
    ensures
        r is Ok <==> (v matches ValueView::Str(s) && exists|i: int| 0 <= i <= s.len() - p.len() && #[trigger] s.subrange(i, i + p.len()) == p),
        r is Err ==> r->Err_0 is ValidationFailed,
{
    if let ValueView::Str(s) = v {
        if is_infix(p, s) {
            let i = choose|i: int| occurs_at(p, s, i);
            assert(s.subrange(i, i + p.len()) == p);
        }
        if exists|i: int| 0 <= i <= s.len() - p.len() && #[trigger] s.subrange(i, i + p.len()) == p {
            let i = choose|i: int| 0 <= i <= s.len() - p.len() && #[trigger] s.subrange(i, i + p.len()) == p;
            assert(occurs_at(p, s, i));
        }
    }
}

/// `assure_string_has_prefix(p)` accepts exactly the strings that start with `p`.
/// A refusal is a ValidationFailed.
pub proof fn string_has_prefix_accepts_prefixed(p: Seq<char>, v: ValueView, r: FigtreeResult<()>)
    requires
        string_has_prefix_verdict(p, v, r),
    ensures
        r is Ok <==> (v matches ValueView::Str(s) && p.len() <= s.len() && s.take(p.len() as int) == p),
        r is Err ==> r->Err_0 is ValidationFailed,
{
}

/// `assure_string_no_prefix(p)` accepts exactly the strings that do not start with `p`.
/// A refusal is a ValidationFailed.
pub proof fn string_no_prefix_refuses_prefixed(p: Seq<char>, v: ValueView, r: FigtreeResult<()>)
    requires
        string_no_prefix_verdict(p, v, r),
    ensures
        r is Ok <==> (v matches ValueView::Str(s) && !(p.len() <= s.len() && s.take(p.len() as int) == p)),
        r is Err ==> r->Err_0 is ValidationFailed,
{
}

/// `assure_string_has_suffix(p)` accepts exactly the strings that end with `p`.
/// A refusal is a ValidationFailed.
pub proof fn string_has_suffix_accepts_suffixed(p: Seq<char>, v: ValueView, r: FigtreeResult<()>)
    requires
        string_has_suffix_verdict(p, v, r),
    ensures
        r is Ok <==> (v matches ValueView::Str(s) && p.len() <= s.len() && s.skip(s.len() - p.len()) == p),
        r is Err ==> r->Err_0 is ValidationFailed,
{
}

/// `assure_string_no_suffix(p)` accepts exactly the strings that do not end with `p`.
/// A refusal is a ValidationFailed.
pub proof fn string_no_suffix_refuses_suffixed(p: Seq<char>, v: ValueView, r: FigtreeResult<()>)
    requires
        string_no_suffix_verdict(p, v, r),
    ensures
        r is Ok <==> (v matches ValueView::Str(s) && !(p.len() <= s.len() && s.skip(s.len() - p.len()) == p)),
        r is Err ==> r->Err_0 is ValidationFailed,
{
}

/// `assure_list_contains(item)` accepts exactly the string lists that hold `item`.
/// A refusal is a ValidationFailed.
pub proof fn list_contains_accepts_member(item: Seq<char>, v: ValueView, r: FigtreeResult<()>)
    requires
        list_contains_verdict(item, v, r),
    ensures
        r is Ok <==> (v matches ValueView::ListString(s) && exists|i: int| 0 <= i < s.len() && #[trigger] s[i] == item),
        r is Err ==> r->Err_0 is ValidationFailed,
{
}

/// `assure_list_not_contains(item)` accepts exactly the string lists that do not hold `item`.
/// A refusal is a ValidationFailed.
pub proof fn list_not_contains_refuses_member(item: Seq<char>, v: ValueView, r: FigtreeResult<()>)
    requires
        list_not_contains_verdict(item, v, r),
    ensures
        r is Ok <==> (v matches ValueView::ListString(s) && forall|i: int| 0 <= i < s.len() ==> #[trigger] s[i] != item),
        r is Err ==> r->Err_0 is ValidationFailed,
{
}

/// `assure_map_has_key(k)` accepts exactly the string maps holding the key `k`.
/// A refusal is a ValidationFailed.
pub proof fn map_has_key_accepts_present(k: Seq<char>, v: ValueView, r: FigtreeResult<()>)
    requires
        map_has_key_verdict(k, v, r),
    ensures
        r is Ok <==> (v matches ValueView::MapString(m) && m.dom().contains(k)),
        r is Err ==> r->Err_0 is ValidationFailed,
{
}

/// `assure_map_value_matches(k, e)` accepts exactly the string maps whose value under `k` is `e`.
/// A refusal is a ValidationFailed.
pub proof fn map_value_matches_accepts_equal(k: Seq<char>, e: Seq<char>, v: ValueView, r: FigtreeResult<()>)
    requires
        map_value_matches_verdict(k, e, v, r),
    ensures
        r is Ok <==> (v matches ValueView::MapString(m) && m.dom().contains(k) && m[k] == e),
        r is Err ==> r->Err_0 is ValidationFailed,
{
}

/// `assure_duration_greater_than(d)` accepts exactly the durations longer than `d` (equal is refused).
/// A refusal is a ValidationFailed.
pub proof fn duration_greater_than_accepts_longer(d: Duration, v: FigValue, r: FigtreeResult<()>)
    requires
        duration_greater_than_verdict(d, v, r),
    ensures
        r is Ok <==> (v matches FigValue::Duration(x) && x.total_nanos() > d.total_nanos()),
        r is Err ==> r->Err_0 is ValidationFailed,
{
}

/// `assure_duration_less_than(d)` accepts exactly the durations shorter than `d` (equal is refused).
/// A refusal is a ValidationFailed.
pub proof fn duration_less_than_accepts_shorter(d: Duration, v: FigValue, r: FigtreeResult<()>)
    requires
        duration_less_than_verdict(d, v, r),
    ensures
        r is Ok <==> (v matches FigValue::Duration(x) && x.total_nanos() < d.total_nanos()),
        r is Err ==> r->Err_0 is ValidationFailed,
{
}

/// `assure_duration_min(min)` accepts exactly the durations of at least `min`.
/// A refusal is a ValidationFailed.
pub proof fn duration_min_accepts_at_least(min: Duration, v: FigValue, r: FigtreeResult<()>)
    requires
        duration_min_verdict(min, v, r),
    ensures
        r is Ok <==> (v matches FigValue::Duration(x) && x.total_nanos() >= min.total_nanos()),
        r is Err ==> r->Err_0 is ValidationFailed,
{
}

/// `assure_duration_max(max)` accepts exactly the durations of at most `max`.
/// A refusal is a ValidationFailed.
pub proof fn duration_max_accepts_at_most(max: Duration, v: FigValue, r: FigtreeResult<()>)
    requires
        duration_max_verdict(max, v, r),
    ensures
        r is Ok <==> (v matches FigValue::Duration(x) && x.total_nanos() <= max.total_nanos()),
        r is Err ==> r->Err_0 is ValidationFailed,
{
}

/// `assure_string_not_empty` accepts exactly the strings with at least one character.
/// A refusal is a ValidationFailed.
pub proof fn string_not_empty_accepts_nonempty(v: FigValue, r: FigtreeResult<()>)
    requires
        call_ensures(assure_string_not_empty, (&v,), r),
    ensures
        r is Ok <==> (v@ matches ValueView::Str(x) && x.len() > 0),
        r is Err ==> r->Err_0 is ValidationFailed,
{
}

/// `assure_bool_true` accepts exactly the boolean `true`.
/// A refusal is a ValidationFailed.
pub proof fn bool_true_accepts_true(v: FigValue, r: FigtreeResult<()>)
    requires
        call_ensures(assure_bool_true, (&v,), r),
    ensures
        r is Ok <==> (v@ == ValueView::Bool(true)),
        r is Err ==> r->Err_0 is ValidationFailed,
{
}

/// `assure_bool_false` accepts exactly the boolean `false`.
/// A refusal is a ValidationFailed.
pub proof fn bool_false_accepts_false(v: FigValue, r: FigtreeResult<()>)
    requires
        call_ensures(assure_bool_false, (&v,), r),
    ensures
        r is Ok <==> (v@ == ValueView::Bool(false)),
        r is Err ==> r->Err_0 is ValidationFailed,
{
}

/// `assure_int_positive` accepts exactly the Int values above zero (zero is refused).
/// A refusal is a ValidationFailed.
pub proof fn int_positive_accepts_above_zero(v: FigValue, r: FigtreeResult<()>)
    requires
        call_ensures(assure_int_positive, (&v,), r),
    ensures
        r is Ok <==> (v@ matches ValueView::Int(x) && x > 0),
        r is Err ==> r->Err_0 is ValidationFailed,
{
}

/// `assure_int_negative` accepts exactly the Int values below zero (zero is refused).
/// A refusal is a ValidationFailed.
pub proof fn int_negative_accepts_below_zero(v: FigValue, r: FigtreeResult<()>)
    requires
        call_ensures(assure_int_negative, (&v,), r),
    ensures
        r is Ok <==> (v@ matches ValueView::Int(x) && x < 0),
        r is Err ==> r->Err_0 is ValidationFailed,
{
}

/// `assure_int64_positive` accepts exactly the Int64 values above zero.
/// A refusal is a ValidationFailed.
pub proof fn int64_positive_accepts_above_zero(v: FigValue, r: FigtreeResult<()>)
    requires
        call_ensures(assure_int64_positive, (&v,), r),
    ensures
        r is Ok <==> (v@ matches ValueView::Int64(x) && x > 0),
        r is Err ==> r->Err_0 is ValidationFailed,
{
}

/// `assure_int128_positive` accepts exactly the Int128 values above zero.
/// A refusal is a ValidationFailed.
pub proof fn int128_positive_accepts_above_zero(v: FigValue, r: FigtreeResult<()>)
    requires
        call_ensures(assure_int128_positive, (&v,), r),
    ensures
        r is Ok <==> (v@ matches ValueView::Int128(x) && x > 0),
        r is Err ==> r->Err_0 is ValidationFailed,
{
}

/// `assure_duration_positive` accepts exactly the durations longer than zero.
/// A refusal is a ValidationFailed.
pub proof fn duration_positive_accepts_nonzero(v: FigValue, r: FigtreeResult<()>)
    requires
        call_ensures(assure_duration_positive, (&v,), r),
    ensures
        r is Ok <==> (v@ matches ValueView::Duration(x) && x > 0),
        r is Err ==> r->Err_0 is ValidationFailed,
{
}

/// `assure_list_not_empty` accepts exactly the lists, of any element type, with an element.
/// A refusal is a ValidationFailed.
pub proof fn list_not_empty_accepts_nonempty(v: FigValue, r: FigtreeResult<()>)
    requires
        call_ensures(assure_list_not_empty, (&v,), r),
    ensures
        r is Ok <==> (list_len(v@) matches Some(n) && n > 0),
        r is Err ==> r->Err_0 is ValidationFailed,
{
}

/// `assure_map_not_empty` accepts exactly the maps, of any value type, with an entry.
/// A refusal is a ValidationFailed.
pub proof fn map_not_empty_accepts_nonempty(v: FigValue, r: FigtreeResult<()>)
    requires
        call_ensures(assure_map_not_empty, (&v,), r),
    ensures
        r is Ok <==> (map_len(v@) matches Some(n) && n > 0),
        r is Err ==> r->Err_0 is ValidationFailed,
{
}

/// `assure_list_min_length(min)` accepts exactly the lists of at least `min` elements.
/// A refusal is a ValidationFailed.
pub proof fn list_min_length_accepts_long_enough(min: usize, v: ValueView, r: FigtreeResult<()>)
    requires
        list_min_length_verdict(min, v, r),
    ensures
        r is Ok <==> (list_len(v) matches Some(n) && n >= min),
        r is Err ==> r->Err_0 is ValidationFailed,
{
}

/// `assure_list_length(n)` accepts exactly the lists of `n` elements.
/// A refusal is a ValidationFailed.
pub proof fn list_length_accepts_exact(n: usize, v: ValueView, r: FigtreeResult<()>)
    requires
        list_length_verdict(n, v, r),
    ensures
        r is Ok <==> (list_len(v) matches Some(k) && k == n),
        r is Err ==> r->Err_0 is ValidationFailed,
{
}

/// `assure_list_not_length(n)` accepts exactly the lists not of `n` elements.
/// A refusal is a ValidationFailed.
pub proof fn list_not_length_refuses_exact(n: usize, v: ValueView, r: FigtreeResult<()>)
    requires
        list_not_length_verdict(n, v, r),
    ensures
        r is Ok <==> (list_len(v) matches Some(k) && k != n),
        r is Err ==> r->Err_0 is ValidationFailed,
{
}

/// `assure_map_length(n)` accepts exactly the maps of `n` entries.
/// A refusal is a ValidationFailed.
pub proof fn map_length_accepts_exact(n: usize, v: ValueView, r: FigtreeResult<()>)
    requires
        map_length_verdict(n, v, r),
    ensures
        r is Ok <==> (map_len(v) matches Some(k) && k == n),
        r is Err ==> r->Err_0 is ValidationFailed,
{
}

/// `assure_map_not_length(n)` accepts exactly the maps not of `n` entries.
/// A refusal is a ValidationFailed.
pub proof fn map_not_length_refuses_exact(n: usize, v: ValueView, r: FigtreeResult<()>)
    requires
        map_not_length_verdict(n, v, r),
    ensures
        r is Ok <==> (map_len(v) matches Some(k) && k != n),
        r is Err ==> r->Err_0 is ValidationFailed,
{
}

/// `assure_string_not_contains(p)` accepts exactly the strings in which `p` does not occur.
/// A refusal is a ValidationFailed.
pub proof fn string_not_contains_refuses_infix(p: Seq<char>, v: ValueView, r: FigtreeResult<()>)
    requires
        string_not_contains_verdict(p, v, r),
    ensures
        r is Ok <==> (v matches ValueView::Str(s) && !is_infix(p, s)),
        r is Err ==> r->Err_0 is ValidationFailed,
{
}

// ── reading `KEY=VALUE` maps ─────────────────────────────────────────────────

/// A text with no whitespace at either end.
pub open spec fn tight(k: Seq<char>) -> bool {
    k.len() == 0 || (!is_ws(k[0]) && !is_ws(k.last()))
}

proof fn lemma_trim_front_tight(s: Seq<char>)
    ensures
        trim_front(s).len() > 0 ==> !is_ws(trim_front(s)[0]),
    decreases s.len(),
{
    if s.len() > 0 && is_ws(s[0]) {
        lemma_trim_front_tight(s.drop_first());
    }
}

proof fn lemma_trim_back_prefix(s: Seq<char>)
    ensures
        trim_back(s).len() <= s.len(),
        trim_back(s) == s.take(trim_back(s).len() as int),
        trim_back(s).len() > 0 ==> !is_ws(trim_back(s).last()),
    decreases s.len(),
{
    if s.len() > 0 && is_ws(s.last()) {
        lemma_trim_back_prefix(s.drop_last());
        assert(s.drop_last().take(trim_back(s).len() as int) =~= s.take(trim_back(s).len() as int));
    } else {
        assert(s.take(s.len() as int) =~= s);
    }
}

/// Trimming leaves no whitespace at either end.
pub proof fn trimmed_is_tight(s: Seq<char>)
    ensures
        tight(trimmed(s)),
{
    let t = trim_front(s);
    lemma_trim_front_tight(s);
    lemma_trim_back_prefix(t);
    if trimmed(s).len() > 0 {
        assert(trimmed(s)[0] == t[0]);
    }
}

/// The text before the first `=` of a piece, if it has one.
pub open spec fn key_before_eq(p: Seq<char>) -> Option<Seq<char>> {
    match split_once(p, '=') {
        Some((k, _)) => Some(k),
        None => None,
    }
}

/// Reading `KEY=VALUE` pieces into a map: every key of the map is the text
/// before the first `=` of one of the pieces with its surrounding
/// whitespace trimmed, so no key begins or ends with whitespace; and the
/// trimmed key of every piece is in the map.
pub proof fn map_keys_are_trimmed<T: TextScalar>(ps: Seq<Seq<char>>)
    requires
        pairs_read::<T>(ps) is Some,
    ensures
        forall|k: Seq<char>| #[trigger] pairs_read::<T>(ps)->0.dom().contains(k) ==> {
            &&& tight(k)
            &&& exists|i: int| 0 <= i < ps.len() && (#[trigger] key_before_eq(ps[i])) is Some
                && k == trimmed(key_before_eq(ps[i])->0)
        },
        forall|i: int| 0 <= i < ps.len() ==> (#[trigger] key_before_eq(ps[i])) is Some
            && pairs_read::<T>(ps)->0.dom().contains(trimmed(key_before_eq(ps[i])->0)),
    decreases ps.len(),
{
    if ps.len() > 0 {
        let rest = ps.drop_last();
        map_keys_are_trimmed::<T>(rest);
        let m = pairs_read::<T>(ps)->0;
        let last = ps.last();
        let k0 = key_before_eq(last)->0;
        trimmed_is_tight(k0);
        assert forall|k: Seq<char>| #[trigger] m.dom().contains(k) implies {
            &&& tight(k)
            &&& exists|i: int| 0 <= i < ps.len() && (#[trigger] key_before_eq(ps[i])) is Some
                && k == trimmed(key_before_eq(ps[i])->0)
        } by {
            if k == trimmed(k0) {
                assert(key_before_eq(ps[ps.len() - 1]) is Some);
            } else {
                assert(pairs_read::<T>(rest)->0.dom().contains(k));
                let i = choose|i: int| 0 <= i < rest.len() && (#[trigger] key_before_eq(rest[i])) is Some
                    && k == trimmed(key_before_eq(rest[i])->0);
                assert(rest[i] == ps[i]);
            }
        }
        assert forall|i: int| 0 <= i < ps.len() implies (#[trigger] key_before_eq(ps[i])) is Some
            && m.dom().contains(trimmed(key_before_eq(ps[i])->0)) by {
            if i < ps.len() - 1 {
                assert(rest[i] == ps[i]);
                assert(key_before_eq(rest[i]) is Some);
            }
        }
    }
}

/// A map read from environment text (or a flag, dotenv or INI value) has
/// only keys with no whitespace at either end, whatever its value type.
pub proof fn env_map_keys_are_trimmed(raw: Seq<char>, k: Kind, v: ValueView)
    requires
        env_value(raw, k) == Some(v),
    ensures
        v matches ValueView::MapString(m) ==> forall|x: Seq<char>| #[trigger] m.dom().contains(x) ==> tight(x),
        v matches ValueView::MapInt(m) ==> forall|x: Seq<char>| #[trigger] m.dom().contains(x) ==> tight(x),
        v matches ValueView::MapInt64(m) ==> forall|x: Seq<char>| #[trigger] m.dom().contains(x) ==> tight(x),
        v matches ValueView::MapInt128(m) ==> forall|x: Seq<char>| #[trigger] m.dom().contains(x) ==> tight(x),
        v matches ValueView::MapBool(m) ==> forall|x: Seq<char>| #[trigger] m.dom().contains(x) ==> tight(x),
{
    let ps = split_by(raw, ',');
    match k {
        Kind::MapString => { map_keys_are_trimmed::<String>(ps); },
        Kind::MapInt => { map_keys_are_trimmed::<i32>(ps); },
        Kind::MapInt64 => { map_keys_are_trimmed::<i64>(ps); },
        Kind::MapInt128 => { map_keys_are_trimmed::<i128>(ps); },
        Kind::MapBool => { map_keys_are_trimmed::<bool>(ps); },
        _ => {},
    }
}

// ── reading integers from text ───────────────────────────────────────────────

/// A text with no whitespace at either end is its own trimming.
proof fn lemma_tight_is_trimmed(s: Seq<char>)
    requires
        s.len() > 0,
        !is_ws(s[0]),
        !is_ws(s.last()),
    ensures
        trimmed(s) == s,
{
    assert(trim_front(s) == s);
    assert(trim_back(s) == s);
}

/// The decimal text of an integer has no whitespace at either end.
proof fn lemma_decimal_is_trimmed(n: int)
    ensures
        trimmed(decimal(n)) == decimal(n),
        signed_decimal(decimal(n)) == Some(n),
{
    lemma_decimal_reads_back(n);
    let s = decimal(n);
    if s[0] == '+' || s[0] == '-' {
        let d = s.drop_first();
        assert(is_digit(d[d.len() - 1]));
        assert(s.last() == d.last());
    } else {
        assert(is_digit(s[0]));
        assert(is_digit(s[s.len() - 1]));
    }
    lemma_tight_is_trimmed(s);
}

/// Reading the decimal text of an integer gives the integer back, at
/// every width that holds it: an Int64 or Int128 reads its own decimal
/// text, and an Int reads it exactly when it fits in 32 bits.
pub proof fn env_integers_read_back(n: int)
    ensures
        i64::MIN <= n <= i64::MAX ==> env_value(decimal(n), Kind::Int64) == Some(ValueView::Int64(n as i64)),
        i128::MIN <= n <= i128::MAX ==> env_value(decimal(n), Kind::Int128) == Some(ValueView::Int128(n as i128)),
        i32::MIN <= n <= i32::MAX ==> env_value(decimal(n), Kind::Int) == Some(ValueView::Int(n as i32)),
        !(i32::MIN <= n <= i32::MAX) ==> env_value(decimal(n), Kind::Int) is None,
{
    lemma_decimal_is_trimmed(n);
}

/// The integer widths read the same text alike: what reads as an Int
/// reads as the same Int64 and Int128, and what reads as an Int64 reads as
/// the same Int128, and as an Int exactly when it fits in 32 bits.
pub proof fn env_integer_widths_agree(raw: Seq<char>)
    ensures
        env_value(raw, Kind::Int) matches Some(ValueView::Int(x)) ==>
            env_value(raw, Kind::Int64) == Some(ValueView::Int64(x as i64))
            && env_value(raw, Kind::Int128) == Some(ValueView::Int128(x as i128)),
        env_value(raw, Kind::Int64) matches Some(ValueView::Int64(x)) ==>
            env_value(raw, Kind::Int128) == Some(ValueView::Int128(x as i128))
            && (env_value(raw, Kind::Int) is Some <==> i32::MIN <= x <= i32::MAX),
{
}

// ── reading document values ──────────────────────────────────────────────────

/// A document value read as a 64-bit integer is its integer, whatever its
/// size; one with no integer reads as nothing. As a 128-bit integer it is
/// the same integer, widened.
pub proof fn doc_integers_read_whole(n: DocNode)
    ensures
        node_value(n, Kind::Int64) == match n.int { Some(v) => Some(ValueView::Int64(v)), None => None::<ValueView> },
        node_value(n, Kind::Int128) == match n.int { Some(v) => Some(ValueView::Int128(v as i128)), None => None::<ValueView> },
{
}

/// A document value read as a 32-bit integer is its integer when that
/// fits in 32 bits, and nothing otherwise.
pub proof fn doc_int_reads_when_it_fits(n: DocNode)
    ensures
        node_value(n, Kind::Int) == match n.int {
            Some(v) => if i32::MIN <= v <= i32::MAX { Some(ValueView::Int(v as i32)) } else { None::<ValueView> },
            None => None::<ValueView>,
        },
{
}

/// A document value read as a boolean is its flag; read as a float it is
/// its float (by bit pattern).
pub proof fn doc_flags_and_floats_read_as_given(n: DocNode)
    ensures
        node_value(n, Kind::Bool) == match n.boolean { Some(b) => Some(ValueView::Bool(b)), None => None::<ValueView> },
        node_value(n, Kind::Float64) == match n.float { Some(f) => Some(ValueView::Float64(f)), None => None::<ValueView> },
        node_value(n, Kind::Float128) == match n.float { Some(f) => Some(ValueView::Float128(f)), None => None::<ValueView> },
{
}

/// A document string (untagged) read as a String is that string.
pub proof fn doc_strings_read_as_given(n: DocNode)
    requires
        n.string is Some,
        !n.tagged,
    ensures
        node_value(n, Kind::String) == Some(ValueView::Str(n.string->0@)),
{
}

proof fn lemma_items_all_ints(s: Seq<DocNode>)
    requires
        forall|i: int| 0 <= i < s.len() ==> (#[trigger] s[i]).int is Some,
    ensures
        items_read::<i64>(s) == Some(Seq::new(s.len(), |i: int| s[i].int->0)),
    decreases s.len(),
{
    if s.len() > 0 {
        let d = s.drop_last();
        assert forall|i: int| 0 <= i < d.len() implies (#[trigger] d[i]).int is Some by {
            assert(d[i] == s[i]);
        }
        lemma_items_all_ints(d);
        assert(Seq::new(s.len(), |i: int| s[i].int->0)
            =~= Seq::new(d.len(), |i: int| d[i].int->0).push(s.last().int->0));
    }
}

/// A document sequence whose items all hold integers reads as the list of
/// those integers, in order, whatever their size.
pub proof fn doc_int64_list_reads_items(n: DocNode)
    requires
        n.items is Some,
        forall|i: int| 0 <= i < n.items->0@.len() ==> (#[trigger] n.items->0@[i]).int is Some,
    ensures
        node_value(n, Kind::ListInt64)
            == Some(ValueView::ListInt64(Seq::new(n.items->0@.len(), |i: int| n.items->0@[i].int->0))),
{
    lemma_items_all_ints(n.items->0@);
}

// ── field types ──────────────────────────────────────────────────────────────

/// The element type of a list or map mutagenesis.
pub open spec fn element_of(m: FieldMutagenesis) -> Option<FieldMutagenesis> {
    match m {
        FieldMutagenesis::ListString => Some(FieldMutagenesis::String),
        FieldMutagenesis::ListInt => Some(FieldMutagenesis::Int),
        FieldMutagenesis::ListInt64 => Some(FieldMutagenesis::Int64),
        FieldMutagenesis::ListInt128 => Some(FieldMutagenesis::Int128),
        FieldMutagenesis::ListFloat64 => Some(FieldMutagenesis::Float64),
        FieldMutagenesis::ListBool => Some(FieldMutagenesis::Bool),
        FieldMutagenesis::MapString => Some(FieldMutagenesis::String),
        FieldMutagenesis::MapBool => Some(FieldMutagenesis::Bool),
        _ => None,
    }
}

/// Whether a mutagenesis is a list one.
pub open spec fn is_list_mutagenesis(m: FieldMutagenesis) -> bool {
    ||| m == FieldMutagenesis::ListString || m == FieldMutagenesis::ListInt || m == FieldMutagenesis::ListInt64
    ||| m == FieldMutagenesis::ListInt128 || m == FieldMutagenesis::ListFloat64 || m == FieldMutagenesis::ListBool
}

/// A `Vec<t>` field is a list whose elements have the type a plain `t`
/// field has; every plain type but a duration has its list form. A
/// `HashMap<String, t>` field is a map whose values have the type a plain
/// `t` field has, for `t` a String or a bool.
pub proof fn collection_fields_keep_element_type(t: Seq<char>)
    ensures
        list_mutagenesis(t) matches Some(l) ==> is_list_mutagenesis(l) && element_of(l) == scalar_mutagenesis(t),
        list_mutagenesis(t) is Some <==> (scalar_mutagenesis(t) is Some && scalar_mutagenesis(t) != Some(FieldMutagenesis::Duration)),
        map_mutagenesis(t) matches Some(m) ==> !is_list_mutagenesis(m) && element_of(m) == scalar_mutagenesis(t),
        map_mutagenesis(t) is Some <==> (scalar_mutagenesis(t) == Some(FieldMutagenesis::String) || scalar_mutagenesis(t) == Some(FieldMutagenesis::Bool)),
{
    reveal_strlit("bool");
    reveal_strlit("String");
    reveal_strlit("i32");
    reveal_strlit("i64");
    reveal_strlit("i128");
    reveal_strlit("f64");
    if t == "bool"@ {
        assert(t.len() == 4);
        assert(t != "String"@);
        assert(t != "i32"@);
        assert(t != "i64"@);
        assert(t[0] == 'b' && "i128"@[0] == 'i');
        assert(t != "i128"@);
        assert(t != "f64"@);
    }
    reveal_strlit("String");
    reveal_strlit("i32");
    reveal_strlit("i64");
    reveal_strlit("i128");
    reveal_strlit("f64");
    reveal_strlit("bool");
    reveal_strlit("Duration");
    reveal_strlit("StdDuration");
}

/// The type a derive gives a `Vec<e>` field is the list of what it gives
/// a plain `e` field.
pub proof fn vec_field_is_list_of_element(e: String)
    ensures
        type_outcome(TypeName::Vec(e)) matches Ok(l) ==> is_list_mutagenesis(l)
            && Some(l) == (match type_outcome(TypeName::Plain(e)) { Ok(m) => element_list(m), Err(_) => None::<FieldMutagenesis> }),
{
    reveal_strlit("String");
    reveal_strlit("i32");
    reveal_strlit("i64");
    reveal_strlit("i128");
    reveal_strlit("f64");
    reveal_strlit("bool");
    reveal_strlit("Duration");
    reveal_strlit("StdDuration");
}

/// The list form of a plain mutagenesis.
pub open spec fn element_list(m: FieldMutagenesis) -> Option<FieldMutagenesis> {
    match m {
        FieldMutagenesis::String => Some(FieldMutagenesis::ListString),
        FieldMutagenesis::Int => Some(FieldMutagenesis::ListInt),
        FieldMutagenesis::Int64 => Some(FieldMutagenesis::ListInt64),
        FieldMutagenesis::Int128 => Some(FieldMutagenesis::ListInt128),
        FieldMutagenesis::Float64 => Some(FieldMutagenesis::ListFloat64),
        FieldMutagenesis::Bool => Some(FieldMutagenesis::ListBool),
        _ => None,
    }
}

// ── diagnostics ──────────────────────────────────────────────────────────────

/// The errors recorded against the Figs (what `problems` reports) are one
/// per Fig holding an error, in the Figs' order: the errors of the Figs
/// that have one.
pub proof fn recorded_errors_one_per_fig(figs: Seq<Fig>)
    ensures
        recorded_errors(figs).len() == figs.filter(|f: Fig| f.error is Some).len(),
        forall|i: int| 0 <= i < recorded_errors(figs).len() ==>
            #[trigger] recorded_errors(figs)[i] == figs.filter(|f: Fig| f.error is Some)[i].error->0,
    decreases figs.len(),
{
    reveal(Seq::filter);
    if figs.len() > 0 {
        recorded_errors_one_per_fig(figs.drop_last());
    }
}

}
