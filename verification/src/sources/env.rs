//! Turning the raw text of string-origin sources (environment variables,
//! flags, INI and dotenv values) into typed values.
use vstd::prelude::*;
use crate::duration::Duration;
use crate::numeric::{decimal_in, parse_i128, parse_u64, unsigned_in};
use crate::strmap::{MapValue, StrMap};
use crate::text::{
    chars_of, eq_folded, find_char, is_suffix, lemma_split_once, matches_folded, split_bounds,
    split_by, split_once, string_of_range, trim_bounds, trimmed,
};
use crate::value::{is_float_kind, kind_of, seq_view, FigValue, FloatCodec, Kind, ValueView};

verus! {

// ── scalars ──────────────────────────────────────────────────────────────────

/// The boolean a word spells: `true`, `1`, `yes`, `on` and `false`, `0`,
/// `no`, `off`, in any letter case.
pub open spec fn bool_word(s: Seq<char>) -> Option<bool> {
    if eq_folded(s, "true"@) || eq_folded(s, "1"@) || eq_folded(s, "yes"@) || eq_folded(s, "on"@) {
        Some(true)
    } else if eq_folded(s, "false"@) || eq_folded(s, "0"@) || eq_folded(s, "no"@) || eq_folded(s, "off"@) {
        Some(false)
    } else {
        None
    }
}

fn parse_bool_word(cs: &Vec<char>, from: usize, to: usize) -> (r: Option<bool>)
    requires
        from <= to <= cs.len(),
    ensures
        r == bool_word(cs@.subrange(from as int, to as int)),
{
    if matches_folded(cs, from, to, "true") || matches_folded(cs, from, to, "1")
        || matches_folded(cs, from, to, "yes") || matches_folded(cs, from, to, "on") {
        Some(true)
    } else if matches_folded(cs, from, to, "false") || matches_folded(cs, from, to, "0")
        || matches_folded(cs, from, to, "no") || matches_folded(cs, from, to, "off") {
        Some(false)
    } else {
        None
    }
}

/// A value type that can be read from one piece of text.
pub trait TextScalar: MapValue {
    /// What the piece `s` denotes, when the reading is specified here.
    spec fn from_text(s: Seq<char>) -> Option<Self::V>;

    /// True when `parse_piece` is pinned down by `from_text`.
    spec fn exact() -> bool;

    fn parse_piece(cs: &Vec<char>, from: usize, to: usize, floats: Option<&dyn FloatCodec>) -> (r: Option<Self>)
        requires
            from <= to <= cs.len(),
        ensures
            Self::exact() ==> match Self::from_text(cs@.subrange(from as int, to as int)) {
                Some(v) => r is Some && r->0@ == v,
                None => r is None,
            },
            !Self::exact() && floats is None ==> r is None;
}

impl TextScalar for String {
    open spec fn from_text(s: Seq<char>) -> Option<Seq<char>> {
        Some(s)
    }

    open spec fn exact() -> bool {
        true
    }

    fn parse_piece(cs: &Vec<char>, from: usize, to: usize, floats: Option<&dyn FloatCodec>) -> (r: Option<Self>) {
        Some(string_of_range(cs, from, to))
    }
}

impl TextScalar for i32 {
    open spec fn from_text(s: Seq<char>) -> Option<i32> {
        match decimal_in(s, i32::MIN as int, i32::MAX as int) {
            Some(v) => Some(v as i32),
            None => None,
        }
    }

    open spec fn exact() -> bool {
        true
    }

    fn parse_piece(cs: &Vec<char>, from: usize, to: usize, floats: Option<&dyn FloatCodec>) -> (r: Option<Self>) {
        match parse_i128(cs, from, to) {
            Some(v) => if i32::MIN as i128 <= v && v <= i32::MAX as i128 { Some(v as i32) } else { None },
            None => None,
        }
    }
}

impl TextScalar for i64 {
    open spec fn from_text(s: Seq<char>) -> Option<i64> {
        match decimal_in(s, i64::MIN as int, i64::MAX as int) {
            Some(v) => Some(v as i64),
            None => None,
        }
    }

    open spec fn exact() -> bool {
        true
    }

    fn parse_piece(cs: &Vec<char>, from: usize, to: usize, floats: Option<&dyn FloatCodec>) -> (r: Option<Self>) {
        match parse_i128(cs, from, to) {
            Some(v) => if i64::MIN as i128 <= v && v <= i64::MAX as i128 { Some(v as i64) } else { None },
            None => None,
        }
    }
}

impl TextScalar for i128 {
    open spec fn from_text(s: Seq<char>) -> Option<i128> {
        match decimal_in(s, i128::MIN as int, i128::MAX as int) {
            Some(v) => Some(v as i128),
            None => None,
        }
    }

    open spec fn exact() -> bool {
        true
    }

    fn parse_piece(cs: &Vec<char>, from: usize, to: usize, floats: Option<&dyn FloatCodec>) -> (r: Option<Self>) {
        parse_i128(cs, from, to)
    }
}

impl TextScalar for bool {
    open spec fn from_text(s: Seq<char>) -> Option<bool> {
        bool_word(s)
    }

    open spec fn exact() -> bool {
        true
    }

    fn parse_piece(cs: &Vec<char>, from: usize, to: usize, floats: Option<&dyn FloatCodec>) -> (r: Option<Self>) {
        parse_bool_word(cs, from, to)
    }
}

/// Float payloads are bit patterns; their text is read by the codec.
impl TextScalar for u64 {
    open spec fn from_text(s: Seq<char>) -> Option<u64> {
        None
    }

    open spec fn exact() -> bool {
        false
    }

    fn parse_piece(cs: &Vec<char>, from: usize, to: usize, floats: Option<&dyn FloatCodec>) -> (r: Option<Self>) {
        match floats {
            Some(codec) => {
                let text = string_of_range(cs, from, to);
                codec.parse_float(text.as_str())
            },
            None => None,
        }
    }
}

// ── lists and maps ───────────────────────────────────────────────────────────

/// The trimmed comma-separated pieces of `raw`.
pub open spec fn csv_pieces(raw: Seq<char>) -> Seq<Seq<char>> {
    split_by(raw, ',').map_values(|p: Seq<char>| trimmed(p))
}

/// Every piece read as a `T`, or `None` if one piece does not read.
pub open spec fn all_read<T: TextScalar>(ps: Seq<Seq<char>>) -> Option<Seq<T::V>>
    decreases ps.len(),
{
    if ps.len() == 0 {
        Some(Seq::empty())
    } else {
        match (all_read::<T>(ps.drop_last()), T::from_text(ps.last())) {
            (Some(a), Some(b)) => Some(a.push(b)),
            _ => None,
        }
    }
}

/// `KEY=VALUE` pairs read into a map, values read as `T`; `None` if a
/// pair has no `=` or a value does not read. Later pairs overwrite
/// earlier ones with the same key.
pub open spec fn pairs_read<T: TextScalar>(ps: Seq<Seq<char>>) -> Option<Map<Seq<char>, T::V>>
    decreases ps.len(),
{
    if ps.len() == 0 {
        Some(Map::empty())
    } else {
        match pairs_read::<T>(ps.drop_last()) {
            Some(m) => match split_once(ps.last(), '=') {
                Some((k, v)) => match T::from_text(trimmed(v)) {
                    Some(x) => Some(m.insert(trimmed(k), x)),
                    None => None,
                },
                None => None,
            },
            None => None,
        }
    }
}

pub proof fn lemma_all_read_none<T: TextScalar>(ps: Seq<Seq<char>>, j: int)
    requires
        0 <= j <= ps.len(),
        all_read::<T>(ps.take(j)) is None,
    ensures
        all_read::<T>(ps) is None,
    decreases ps.len() - j,
{
    if j < ps.len() {
        assert(ps.take(j + 1).drop_last() =~= ps.take(j));
        lemma_all_read_none::<T>(ps, j + 1);
    } else {
        assert(ps.take(j) =~= ps);
    }
}

pub proof fn lemma_pairs_read_none<T: TextScalar>(ps: Seq<Seq<char>>, j: int)
    requires
        0 <= j <= ps.len(),
        pairs_read::<T>(ps.take(j)) is None,
    ensures
        pairs_read::<T>(ps) is None,
    decreases ps.len() - j,
{
    if j < ps.len() {
        assert(ps.take(j + 1).drop_last() =~= ps.take(j));
        lemma_pairs_read_none::<T>(ps, j + 1);
    } else {
        assert(ps.take(j) =~= ps);
    }
}

/// Splits `raw` on commas into trimmed strings (`split_csv`).
pub fn split_csv(raw: &str) -> (r: Vec<String>)
    ensures
        seq_view(r@) == csv_pieces(raw@),
{
    let cs = chars_of(raw);
    let bounds = split_bounds(&cs, 0, cs.len(), ',');
    assert(cs@.subrange(0, cs@.len() as int) =~= cs@);
    let mut r: Vec<String> = Vec::new();
    let mut i: usize = 0;
    while i < bounds.len()
        invariant
            cs@ == raw@,
            cs@.subrange(0, cs@.len() as int) == cs@,
            i <= bounds@.len(),
            bounds@.len() == split_by(cs@, ',').len(),
            forall|k: int| 0 <= k < bounds@.len() ==> {
                &&& 0 <= (#[trigger] bounds@[k]).0 <= bounds@[k].1 <= cs@.len()
                &&& cs@.subrange(bounds@[k].0 as int, bounds@[k].1 as int) == split_by(cs@, ',')[k]
            },
            r@.len() == i,
            forall|k: int| 0 <= k < i ==> (#[trigger] r@[k])@ == trimmed(split_by(cs@, ',')[k]),
        decreases bounds@.len() - i,
    {
        let (a, b) = bounds[i];
        let (x, y) = trim_bounds(&cs, a, b);
        r.push(string_of_range(&cs, x, y));
        i += 1;
    }
    assert(seq_view(r@) =~= csv_pieces(raw@));
    r
}

fn read_list<T: TextScalar>(cs: &Vec<char>, floats: Option<&dyn FloatCodec>) -> (r: Option<Vec<T>>)
    ensures
        T::exact() ==> match all_read::<T>(csv_pieces(cs@)) {
            Some(v) => r is Some && seq_view(r->0@) == v,
            None => r is None,
        },
        !T::exact() && floats is None ==> r is None,
{
    let bounds = split_bounds(cs, 0, cs.len(), ',');
    assert(cs@.subrange(0, cs@.len() as int) =~= cs@);
    let ghost ps = csv_pieces(cs@);
    let mut r: Vec<T> = Vec::new();
    let mut i: usize = 0;
    while i < bounds.len()
        invariant
            cs@.subrange(0, cs@.len() as int) == cs@,
            ps == csv_pieces(cs@),
            i <= bounds@.len(),
            bounds@.len() == split_by(cs@, ',').len(),
            forall|k: int| 0 <= k < bounds@.len() ==> {
                &&& 0 <= (#[trigger] bounds@[k]).0 <= bounds@[k].1 <= cs@.len()
                &&& cs@.subrange(bounds@[k].0 as int, bounds@[k].1 as int) == split_by(cs@, ',')[k]
            },
            T::exact() ==> all_read::<T>(ps.take(i as int)) == Some(seq_view(r@)),
            !T::exact() && floats is None ==> i == 0,
        decreases bounds@.len() - i,
    {
        let (a, b) = bounds[i];
        let (x, y) = trim_bounds(cs, a, b);
        assert(ps.take(i + 1).drop_last() =~= ps.take(i as int));
        assert(ps.take(i + 1).last() == cs@.subrange(x as int, y as int));
        match T::parse_piece(cs, x, y, floats) {
            Some(v) => {
                let ghost before = seq_view(r@);
                r.push(v);
                assert(seq_view(r@) =~= before.push(v@));
            },
            None => {
                proof {
                    if T::exact() {
                        lemma_all_read_none::<T>(ps, i + 1);
                    }
                }
                return None;
            },
        }
        i += 1;
    }
    assert(ps.take(bounds@.len() as int) =~= ps);
    assert(!T::exact() && floats is None ==> bounds@.len() == 0);
    assert(split_by(cs@, ',').len() >= 1);
    Some(r)
}

#[verifier::rlimit(40)]
fn read_map<T: TextScalar>(cs: &Vec<char>, floats: Option<&dyn FloatCodec>) -> (r: Option<StrMap<T>>)
    ensures
        T::exact() ==> match pairs_read::<T>(split_by(cs@, ',')) {
            Some(m) => r is Some && r->0@ == m,
            None => r is None,
        },
        !T::exact() && floats is None ==> r is None,
{
    let bounds = split_bounds(cs, 0, cs.len(), ',');
    assert(cs@.subrange(0, cs@.len() as int) =~= cs@);
    let ghost ps = split_by(cs@, ',');
    let mut r: StrMap<T> = StrMap::new();
    let mut i: usize = 0;
    while i < bounds.len()
        invariant
            cs@.subrange(0, cs@.len() as int) == cs@,
            ps == split_by(cs@, ','),
            i <= bounds@.len(),
            bounds@.len() == ps.len(),
            forall|k: int| 0 <= k < bounds@.len() ==> {
                &&& 0 <= (#[trigger] bounds@[k]).0 <= bounds@[k].1 <= cs@.len()
                &&& cs@.subrange(bounds@[k].0 as int, bounds@[k].1 as int) == ps[k]
            },
            T::exact() ==> pairs_read::<T>(ps.take(i as int)) == Some(r@),
            !T::exact() && floats is None ==> i == 0,
        decreases bounds@.len() - i,
    {
        let (a, b) = bounds[i];
        assert(ps.take(i + 1).drop_last() =~= ps.take(i as int));
        assert(ps.take(i + 1).last() == cs@.subrange(a as int, b as int));
        let eq = find_char(cs, a, b, '=');
        proof { lemma_split_once(cs@, a as int, b as int, '=', eq); }
        match eq {
            Some(e) => {
                let (ka, kb) = trim_bounds(cs, a, e);
                let (va, vb) = trim_bounds(cs, e + 1, b);
                match T::parse_piece(cs, va, vb, floats) {
                    Some(v) => {
                        let key = string_of_range(cs, ka, kb);
                        r.insert(key, v);
                    },
                    None => {
                        proof {
                            if T::exact() {
                                lemma_pairs_read_none::<T>(ps, i + 1);
                            }
                        }
                        return None;
                    },
                }
            },
            None => {
                proof {
                    if T::exact() {
                        lemma_pairs_read_none::<T>(ps, i + 1);
                    }
                }
                return None;
            },
        }
        i += 1;
    }
    assert(ps.take(bounds@.len() as int) =~= ps);
    assert(split_by(cs@, ',').len() >= 1);
    Some(r)
}

// ── durations ────────────────────────────────────────────────────────────────

/// `s` with every trailing repetition of the non-empty `suffix` removed
/// (`str::trim_end_matches`).
pub open spec fn strip_suffixes(s: Seq<char>, suffix: Seq<char>) -> Seq<char>
    decreases s.len(),
{
    if suffix.len() > 0 && is_suffix(suffix, s) {
        strip_suffixes(s.take(s.len() - suffix.len()), suffix)
    } else {
        s
    }
}

/// A count of units read from `s` after its unit suffix is removed.
pub open spec fn unit_count(s: Seq<char>, suffix: Seq<char>) -> Option<int> {
    unsigned_in(strip_suffixes(s, suffix), u64::MAX as int)
}

/// The span a duration text denotes, in nanoseconds: a bare number of
/// seconds, or a number followed by `ms`, `s`, `m`, `h` or `d`. `None`
/// when the text is none of these or the seconds overflow `u64`.
pub open spec fn duration_nanos(s: Seq<char>) -> Option<int> {
    if unsigned_in(s, u64::MAX as int) is Some {
        Some(unsigned_in(s, u64::MAX as int)->0 * 1_000_000_000)
    } else if is_suffix("ms"@, s) {
        match unit_count(s, "ms"@) { Some(n) => Some(n * 1_000_000), None => None }
    } else if is_suffix("s"@, s) {
        match unit_count(s, "s"@) { Some(n) => Some(n * 1_000_000_000), None => None }
    } else if is_suffix("m"@, s) {
        match unit_count(s, "m"@) {
            Some(n) => if n * 60 <= u64::MAX { Some(n * 60 * 1_000_000_000) } else { None },
            None => None,
        }
    } else if is_suffix("h"@, s) {
        match unit_count(s, "h"@) {
            Some(n) => if n * 3600 <= u64::MAX { Some(n * 3600 * 1_000_000_000) } else { None },
            None => None,
        }
    } else if is_suffix("d"@, s) {
        match unit_count(s, "d"@) {
            Some(n) => if n * 86400 <= u64::MAX { Some(n * 86400 * 1_000_000_000) } else { None },
            None => None,
        }
    } else {
        None
    }
}

fn ends_with_at(cs: &Vec<char>, from: usize, to: usize, suffix: &str) -> (r: bool)
    requires
        from <= to <= cs.len(),
    ensures
        r == is_suffix(suffix@, cs@.subrange(from as int, to as int)),
{
    let sc = chars_of(suffix);
    if sc.len() > to - from {
        return false;
    }
    let start = to - sc.len();
    let mut k: usize = 0;
    while k < sc.len()
        invariant
            sc@ == suffix@,
            from <= start <= to <= cs.len(),
            start + sc@.len() == to,
            k <= sc@.len(),
            forall|j: int| 0 <= j < k ==> cs@[start + j] == sc@[j],
        decreases sc@.len() - k,
    {
        if cs[start + k] != sc[k] {
            assert(cs@.subrange(from as int, to as int).skip((to - from) - sc@.len())[k as int] == cs@[start + k]);
            return false;
        }
        k += 1;
    }
    assert(cs@.subrange(from as int, to as int).skip((to - from) - sc@.len()) =~= suffix@);
    true
}

fn strip_suffixes_exec(cs: &Vec<char>, from: usize, to: usize, suffix: &str) -> (r: usize)
    requires
        from <= to <= cs.len(),
    ensures
        from <= r <= to,
        cs@.subrange(from as int, r as int) == strip_suffixes(cs@.subrange(from as int, to as int), suffix@),
{
    let n = chars_of(suffix).len();
    if n == 0 {
        return to;
    }
    let mut end = to;
    while ends_with_at(cs, from, end, suffix)
        invariant
            from <= end <= to <= cs.len(),
            n == suffix@.len(),
            n > 0,
            strip_suffixes(cs@.subrange(from as int, to as int), suffix@)
                == strip_suffixes(cs@.subrange(from as int, end as int), suffix@),
        decreases end,
    {
        assert(cs@.subrange(from as int, end as int).take((end - from) - n) =~= cs@.subrange(from as int, end - n));
        end = end - n;
    }
    end
}

fn unit_count_exec(cs: &Vec<char>, from: usize, to: usize, suffix: &str) -> (r: Option<u64>)
    requires
        from <= to <= cs.len(),
    ensures
        match unit_count(cs@.subrange(from as int, to as int), suffix@) {
            Some(v) => r == Some(v as u64),
            None => r is None,
        },
{
    let end = strip_suffixes_exec(cs, from, to, suffix);
    parse_u64(cs, from, end)
}

/// Reads a duration text (`parse_duration`).
pub fn parse_duration_text(cs: &Vec<char>, from: usize, to: usize) -> (r: Option<Duration>)
    requires
        from <= to <= cs.len(),
    ensures
        match duration_nanos(cs@.subrange(from as int, to as int)) {
            Some(n) => r is Some && r->0.total_nanos() == n,
            None => r is None,
        },
{
    if let Some(secs) = parse_u64(cs, from, to) {
        return Some(Duration::from_secs(secs));
    }
    if ends_with_at(cs, from, to, "ms") {
        return match unit_count_exec(cs, from, to, "ms") {
            Some(n) => Some(Duration::from_millis(n)),
            None => None,
        };
    }
    if ends_with_at(cs, from, to, "s") {
        return match unit_count_exec(cs, from, to, "s") {
            Some(n) => Some(Duration::from_secs(n)),
            None => None,
        };
    }
    if ends_with_at(cs, from, to, "m") {
        return match unit_count_exec(cs, from, to, "m") {
            Some(n) => match n.checked_mul(60) {
                Some(s) => Some(Duration::from_secs(s)),
                None => None,
            },
            None => None,
        };
    }
    if ends_with_at(cs, from, to, "h") {
        return match unit_count_exec(cs, from, to, "h") {
            Some(n) => match n.checked_mul(3600) {
                Some(s) => Some(Duration::from_secs(s)),
                None => None,
            },
            None => None,
        };
    }
    if ends_with_at(cs, from, to, "d") {
        return match unit_count_exec(cs, from, to, "d") {
            Some(n) => match n.checked_mul(86400) {
                Some(s) => Some(Duration::from_secs(s)),
                None => None,
            },
            None => None,
        };
    }
    None
}

// ── the whole value ──────────────────────────────────────────────────────────

/// Converts an optional map view into an optional value view.
pub open spec fn some_map<V>(m: Option<Map<Seq<char>, V>>, f: spec_fn(Map<Seq<char>, V>) -> ValueView) -> Option<ValueView> {
    match m { Some(x) => Some(f(x)), None => None }
}

pub open spec fn some_list<V>(l: Option<Seq<V>>, f: spec_fn(Seq<V>) -> ValueView) -> Option<ValueView> {
    match l { Some(x) => Some(f(x)), None => None }
}

/// What the raw text of a string-origin source denotes for a key whose
/// value has type `k` (floating-point types excepted: their text is read
/// by a `FloatCodec`).
pub open spec fn env_value(raw: Seq<char>, k: Kind) -> Option<ValueView> {
    let t = trimmed(raw);
    match k {
        Kind::String => Some(ValueView::Str(raw)),
        Kind::Int => match <i32 as TextScalar>::from_text(t) { Some(v) => Some(ValueView::Int(v)), None => None },
        Kind::Int64 => match <i64 as TextScalar>::from_text(t) { Some(v) => Some(ValueView::Int64(v)), None => None },
        Kind::Int128 => match <i128 as TextScalar>::from_text(t) { Some(v) => Some(ValueView::Int128(v)), None => None },
        Kind::Bool => match bool_word(t) { Some(b) => Some(ValueView::Bool(b)), None => None },
        Kind::Duration => match duration_nanos(t) {
            Some(n) => Some(ValueView::Duration(n)),
            None => None,
        },
        Kind::ListString => Some(ValueView::ListString(csv_pieces(raw))),
        Kind::ListInt => some_list(all_read::<i32>(csv_pieces(raw)), |s: Seq<i32>| ValueView::ListInt(s)),
        Kind::ListInt64 => some_list(all_read::<i64>(csv_pieces(raw)), |s: Seq<i64>| ValueView::ListInt64(s)),
        Kind::ListInt128 => some_list(all_read::<i128>(csv_pieces(raw)), |s: Seq<i128>| ValueView::ListInt128(s)),
        Kind::ListBool => some_list(all_read::<bool>(csv_pieces(raw)), |s: Seq<bool>| ValueView::ListBool(s)),
        Kind::MapString => some_map(pairs_read::<String>(split_by(raw, ',')), |m: Map<Seq<char>, Seq<char>>| ValueView::MapString(m)),
        Kind::MapInt => some_map(pairs_read::<i32>(split_by(raw, ',')), |m: Map<Seq<char>, i32>| ValueView::MapInt(m)),
        Kind::MapInt64 => some_map(pairs_read::<i64>(split_by(raw, ',')), |m: Map<Seq<char>, i64>| ValueView::MapInt64(m)),
        Kind::MapInt128 => some_map(pairs_read::<i128>(split_by(raw, ',')), |m: Map<Seq<char>, i128>| ValueView::MapInt128(m)),
        Kind::MapBool => some_map(pairs_read::<bool>(split_by(raw, ',')), |m: Map<Seq<char>, bool>| ValueView::MapBool(m)),
        _ => None,
    }
}

/// Parses a raw string into a value of the same type as `hint`, reading
/// floating-point text with `floats`. Used for every string-origin source.
pub fn parse_env_value_with(raw: &str, hint: &FigValue, floats: Option<&dyn FloatCodec>) -> (r: Option<FigValue>)
    ensures
        !is_float_kind(kind_of(hint@)) ==> match env_value(raw@, kind_of(hint@)) {
            Some(v) => r is Some && r->0@ == v,
            None => r is None,
        },
        is_float_kind(kind_of(hint@)) && floats is None ==> r is None,
        r is Some ==> kind_of(r->0@) == kind_of(hint@),
{
    let cs = chars_of(raw);
    let (a, b) = trim_bounds(&cs, 0, cs.len());
    assert(cs@.subrange(0, cs@.len() as int) =~= cs@);
    match hint.kind() {
        Kind::String => Some(FigValue::String(crate::text::string_of(&cs))),
        Kind::Int => match <i32 as TextScalar>::parse_piece(&cs, a, b, floats) {
            Some(v) => Some(FigValue::Int(v)),
            None => None,
        },
        Kind::Int64 => match <i64 as TextScalar>::parse_piece(&cs, a, b, floats) {
            Some(v) => Some(FigValue::Int64(v)),
            None => None,
        },
        Kind::Int128 => match <i128 as TextScalar>::parse_piece(&cs, a, b, floats) {
            Some(v) => Some(FigValue::Int128(v)),
            None => None,
        },
        Kind::Float64 => match <u64 as TextScalar>::parse_piece(&cs, a, b, floats) {
            Some(v) => Some(FigValue::Float64(v)),
            None => None,
        },
        Kind::Float128 => match <u64 as TextScalar>::parse_piece(&cs, a, b, floats) {
            Some(v) => Some(FigValue::Float128(v)),
            None => None,
        },
        Kind::Bool => match parse_bool_word(&cs, a, b) {
            Some(v) => Some(FigValue::Bool(v)),
            None => None,
        },
        Kind::Duration => match parse_duration_text(&cs, a, b) {
            Some(d) => Some(FigValue::Duration(d)),
            None => None,
        },
        Kind::ListString => {
            let v = split_csv(raw);
            Some(FigValue::ListString(v))
        },
        Kind::ListInt => match read_list::<i32>(&cs, floats) { Some(v) => Some(FigValue::ListInt(v)), None => None },
        Kind::ListInt64 => match read_list::<i64>(&cs, floats) { Some(v) => Some(FigValue::ListInt64(v)), None => None },
        Kind::ListInt128 => match read_list::<i128>(&cs, floats) { Some(v) => Some(FigValue::ListInt128(v)), None => None },
        Kind::ListFloat64 => match read_list::<u64>(&cs, floats) { Some(v) => Some(FigValue::ListFloat64(v)), None => None },
        Kind::ListFloat128 => match read_list::<u64>(&cs, floats) { Some(v) => Some(FigValue::ListFloat128(v)), None => None },
        Kind::ListBool => match read_list::<bool>(&cs, floats) { Some(v) => Some(FigValue::ListBool(v)), None => None },
        Kind::MapString => match read_map::<String>(&cs, floats) { Some(m) => Some(FigValue::MapString(m)), None => None },
        Kind::MapInt => match read_map::<i32>(&cs, floats) { Some(m) => Some(FigValue::MapInt(m)), None => None },
        Kind::MapInt64 => match read_map::<i64>(&cs, floats) { Some(m) => Some(FigValue::MapInt64(m)), None => None },
        Kind::MapInt128 => match read_map::<i128>(&cs, floats) { Some(m) => Some(FigValue::MapInt128(m)), None => None },
        Kind::MapFloat64 => match read_map::<u64>(&cs, floats) { Some(m) => Some(FigValue::MapFloat64(m)), None => None },
        Kind::MapFloat128 => match read_map::<u64>(&cs, floats) { Some(m) => Some(FigValue::MapFloat128(m)), None => None },
        Kind::MapBool => match read_map::<bool>(&cs, floats) { Some(m) => Some(FigValue::MapBool(m)), None => None },
    }
}

/// Parses a raw string into a value of the same type as `hint`. With no
/// float codec at hand, floating-point text is not read.
pub fn parse_env_value(raw: &str, hint: &FigValue) -> (r: Option<FigValue>)
    ensures
        !is_float_kind(kind_of(hint@)) ==> match env_value(raw@, kind_of(hint@)) {
            Some(v) => r is Some && r->0@ == v,
            None => r is None,
        },
        is_float_kind(kind_of(hint@)) ==> r is None,
        r is Some ==> kind_of(r->0@) == kind_of(hint@),
{
    parse_env_value_with(raw, hint, None)
}

}
