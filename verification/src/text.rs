//! Character-level text helpers shared by the parsers, validators and
//! message builders. Every helper works on the `char` view of a string.
use vstd::prelude::*;

verus! {

// ── building strings ─────────────────────────────────────────────────────────

/// Appends one character to a `String` (std's `String::push`).
#[verifier::external_body]
pub(crate) fn push_char(s: &mut String, c: char)
    ensures
        final(s)@ == old(s)@.push(c),
{
    s.push(c);
}

/// Appends a string slice to a `String`.
pub fn push_str(s: &mut String, t: &str)
    ensures
        final(s)@ == old(s)@ + t@,
{
    let cs = chars_of(t);
    let ghost start = s@;
    let mut i: usize = 0;
    while i < cs.len()
        invariant
            i <= cs.len(),
            cs@ == t@,
            s@ == start + t@.take(i as int),
        decreases cs.len() - i,
    {
        push_char(s, cs[i]);
        i += 1;
        assert(t@.take(i as int) =~= t@.take(i - 1).push(cs@[i - 1]));
    }
    assert(t@.take(cs.len() as int) =~= t@);
}

/// The characters of `s`, in order.
pub fn chars_of(s: &str) -> (r: Vec<char>)
    ensures
        r@ == s@,
{
    let mut r: Vec<char> = Vec::new();
    for c in it: s.chars()
        invariant
            r@ == it.seq().take(it.index() as int),
    {
        r.push(c);
    }
    r
}

/// A `String` holding the characters `cs[from..to]`.
pub fn string_of_range(cs: &Vec<char>, from: usize, to: usize) -> (r: String)
    requires
        from <= to <= cs.len(),
    ensures
        r@ == cs@.subrange(from as int, to as int),
{
    let mut r = String::new();
    let mut i = from;
    while i < to
        invariant
            from <= i <= to <= cs.len(),
            r@ == cs@.subrange(from as int, i as int),
        decreases to - i,
    {
        push_char(&mut r, cs[i]);
        i += 1;
        assert(r@ =~= cs@.subrange(from as int, i as int));
    }
    r
}

/// A `String` holding all of `cs`.
pub fn string_of(cs: &Vec<char>) -> (r: String)
    ensures
        r@ == cs@,
{
    let r = string_of_range(cs, 0, cs.len());
    assert(cs@.subrange(0, cs@.len() as int) =~= cs@);
    r
}

/// A `String` equal to the slice `s`.
pub fn owned(s: &str) -> (r: String)
    ensures
        r@ == s@,
{
    let cs = chars_of(s);
    string_of(&cs)
}

// ── whitespace and trimming ──────────────────────────────────────────────────

/// Unicode `White_Space`, the set that `char::is_whitespace` tests.
pub open spec fn is_ws(c: char) -> bool {
    ||| c == '\t' || c == '\n' || c == '\u{0B}' || c == '\u{0C}' || c == '\r'
    ||| c == ' ' || c == '\u{85}' || c == '\u{A0}' || c == '\u{1680}'
    ||| ('\u{2000}' <= c && c <= '\u{200A}')
    ||| c == '\u{2028}' || c == '\u{2029}' || c == '\u{202F}' || c == '\u{205F}'
    ||| c == '\u{3000}'
}

pub fn char_is_ws(c: char) -> (r: bool)
    ensures
        r == is_ws(c),
{
    c == '\t' || c == '\n' || c == '\u{0B}' || c == '\u{0C}' || c == '\r'
    || c == ' ' || c == '\u{85}' || c == '\u{A0}' || c == '\u{1680}'
    || ('\u{2000}' <= c && c <= '\u{200A}')
    || c == '\u{2028}' || c == '\u{2029}' || c == '\u{202F}' || c == '\u{205F}'
    || c == '\u{3000}'
}

/// `s` without its leading whitespace.
pub open spec fn trim_front(s: Seq<char>) -> Seq<char>
    decreases s.len(),
{
    if s.len() > 0 && is_ws(s[0]) {
        trim_front(s.drop_first())
    } else {
        s
    }
}

/// `s` without its trailing whitespace.
pub open spec fn trim_back(s: Seq<char>) -> Seq<char>
    decreases s.len(),
{
    if s.len() > 0 && is_ws(s.last()) {
        trim_back(s.drop_last())
    } else {
        s
    }
}

/// `s` without leading and trailing whitespace (`str::trim`).
pub open spec fn trimmed(s: Seq<char>) -> Seq<char> {
    trim_back(trim_front(s))
}

/// Bounds `(a, b)` such that `cs[a..b]` is `cs` trimmed.
pub fn trim_bounds(cs: &Vec<char>, from: usize, to: usize) -> (r: (usize, usize))
    requires
        from <= to <= cs.len(),
    ensures
        from <= r.0 <= r.1 <= to,
        cs@.subrange(r.0 as int, r.1 as int) == trimmed(cs@.subrange(from as int, to as int)),
{
    let ghost s = cs@.subrange(from as int, to as int);
    let mut a = from;
    while a < to && char_is_ws(cs[a])
        invariant
            from <= a <= to <= cs.len(),
            s == cs@.subrange(from as int, to as int),
            trim_front(s) == trim_front(cs@.subrange(a as int, to as int)),
        decreases to - a,
    {
        assert(cs@.subrange(a as int, to as int).drop_first() =~= cs@.subrange(a + 1, to as int));
        a += 1;
    }
    assert(trim_front(cs@.subrange(a as int, to as int)) == cs@.subrange(a as int, to as int));
    let mut b = to;
    while b > a && char_is_ws(cs[b - 1])
        invariant
            from <= a <= b <= to <= cs.len(),
            s == cs@.subrange(from as int, to as int),
            trim_front(s) == cs@.subrange(a as int, to as int),
            trimmed(s) == trim_back(cs@.subrange(a as int, b as int)),
        decreases b - a,
    {
        assert(cs@.subrange(a as int, b as int).drop_last() =~= cs@.subrange(a as int, b - 1));
        b -= 1;
    }
    (a, b)
}

/// `s.trim()` as a `String`.
pub fn trim_string(s: &str) -> (r: String)
    ensures
        r@ == trimmed(s@),
{
    let cs = chars_of(s);
    let (a, b) = trim_bounds(&cs, 0, cs.len());
    assert(cs@.subrange(0, cs@.len() as int) =~= cs@);
    string_of_range(&cs, a, b)
}

// ── splitting ────────────────────────────────────────────────────────────────

/// The state after scanning `s` for `sep`: the finished pieces and the
/// piece still being collected.
pub open spec fn split_scan(s: Seq<char>, sep: char) -> (Seq<Seq<char>>, Seq<char>)
    decreases s.len(),
{
    if s.len() == 0 {
        (Seq::empty(), Seq::empty())
    } else {
        let (done, cur) = split_scan(s.drop_last(), sep);
        if s.last() == sep {
            (done.push(cur), Seq::empty())
        } else {
            (done, cur.push(s.last()))
        }
    }
}

/// The pieces of `s` between occurrences of `sep` (`str::split`).
pub open spec fn split_by(s: Seq<char>, sep: char) -> Seq<Seq<char>> {
    let (done, cur) = split_scan(s, sep);
    done.push(cur)
}

/// Splits `cs[from..to]` on `sep`; each piece is returned as index bounds.
pub fn split_bounds(cs: &Vec<char>, from: usize, to: usize, sep: char) -> (r: Vec<(usize, usize)>)
    requires
        from <= to <= cs.len(),
    ensures
        r@.len() == split_by(cs@.subrange(from as int, to as int), sep).len(),
        forall|k: int| 0 <= k < r@.len() ==> {
            &&& from <= (#[trigger] r@[k]).0 <= r@[k].1 <= to
            &&& cs@.subrange(r@[k].0 as int, r@[k].1 as int)
                == split_by(cs@.subrange(from as int, to as int), sep)[k]
        },
{
    let mut r: Vec<(usize, usize)> = Vec::new();
    let mut start = from;
    let mut i = from;
    while i < to
        invariant
            from <= start <= i <= to <= cs.len(),
            split_scan(cs@.subrange(from as int, i as int), sep).0.len() == r@.len(),
            split_scan(cs@.subrange(from as int, i as int), sep).1 == cs@.subrange(start as int, i as int),
            forall|k: int| 0 <= k < r@.len() ==> {
                &&& from <= (#[trigger] r@[k]).0 <= r@[k].1 <= start
                &&& cs@.subrange(r@[k].0 as int, r@[k].1 as int)
                    == split_scan(cs@.subrange(from as int, i as int), sep).0[k]
            },
        decreases to - i,
    {
        let ghost prev = cs@.subrange(from as int, i as int);
        assert(cs@.subrange(from as int, i + 1).drop_last() =~= prev);
        assert(cs@.subrange(from as int, i + 1).last() == cs@[i as int]);
        if cs[i] == sep {
            r.push((start, i));
            start = i + 1;
            assert(cs@.subrange(start as int, i + 1) =~= Seq::<char>::empty());
        } else {
            assert(cs@.subrange(start as int, i + 1) =~= cs@.subrange(start as int, i as int).push(cs@[i as int]));
        }
        i += 1;
    }
    r.push((start, to));
    r
}

/// The first split of `s` at `sep`, if `sep` occurs (`splitn(2, sep)`).
pub open spec fn split_once(s: Seq<char>, sep: char) -> Option<(Seq<char>, Seq<char>)> {
    if exists|i: int| 0 <= i < s.len() && s[i] == sep {
        let i = choose|i: int| 0 <= i < s.len() && s[i] == sep
            && forall|j: int| 0 <= j < i ==> s[j] != sep;
        Some((s.take(i), s.skip(i + 1)))
    } else {
        None
    }
}

/// Finds the first `sep` in `cs[from..to]`.
pub fn find_char(cs: &Vec<char>, from: usize, to: usize, sep: char) -> (r: Option<usize>)
    requires
        from <= to <= cs.len(),
    ensures
        match r {
            Some(i) => from <= i < to && cs@[i as int] == sep
                && forall|j: int| from <= j < i ==> cs@[j] != sep,
            None => forall|j: int| from <= j < to ==> cs@[j] != sep,
        },
{
    let mut i = from;
    while i < to
        invariant
            from <= i <= to <= cs.len(),
            forall|j: int| from <= j < i ==> cs@[j] != sep,
        decreases to - i,
    {
        if cs[i] == sep {
            return Some(i);
        }
        i += 1;
    }
    None
}

/// Relates `find_char` to `split_once`.
pub proof fn lemma_split_once(cs: Seq<char>, from: int, to: int, sep: char, r: Option<usize>)
    requires
        0 <= from <= to <= cs.len(),
        match r {
            Some(i) => from <= i < to && cs[i as int] == sep
                && forall|j: int| from <= j < i ==> cs[j] != sep,
            None => forall|j: int| from <= j < to ==> cs[j] != sep,
        },
    ensures
        match r {
            Some(i) => split_once(cs.subrange(from, to), sep) == Some((
                cs.subrange(from, i as int),
                cs.subrange(i + 1, to),
            )),
            None => split_once(cs.subrange(from, to), sep) is None,
        },
{
    let s = cs.subrange(from, to);
    match r {
        Some(i) => {
            let k = i - from;
            assert(s[k] == sep);
            let w = choose|w: int| 0 <= w < s.len() && s[w] == sep
                && forall|j: int| 0 <= j < w ==> s[j] != sep;
            assert(0 <= k < s.len() && s[k] == sep && forall|j: int| 0 <= j < k ==> s[j] != sep);
            if w < k {
                assert(s[w] == cs[from + w]);
            } else if w > k {
                assert(s[k] != sep);
            }
            assert(s.take(k) =~= cs.subrange(from, i as int));
            assert(s.skip(k + 1) =~= cs.subrange(i + 1, to));
        },
        None => {
            assert forall|i: int| 0 <= i < s.len() implies s[i] != sep by {
                assert(s[i] == cs[from + i]);
            }
        },
    }
}

// ── comparing ────────────────────────────────────────────────────────────────

pub open spec fn lower_ascii(c: char) -> char {
    if 'A' <= c && c <= 'Z' {
        ((c as u32) + 32) as char
    } else {
        c
    }
}

/// `s` equals the lower-case ASCII word `w` once ASCII letters are folded
/// to lower case. For the words this crate compares against, this is the
/// same as comparing `s.to_lowercase()` with `w`: no character outside
/// ASCII lower-cases to a letter of those words.
pub open spec fn eq_folded(s: Seq<char>, w: Seq<char>) -> bool {
    s.len() == w.len() && forall|i: int| 0 <= i < s.len() ==> lower_ascii(s[i]) == w[i]
}

pub fn fold_char(c: char) -> (r: char)
    ensures
        r == lower_ascii(c),
{
    if 'A' <= c && c <= 'Z' {
        let u: u8 = (c as u8) + 32;
        u as char
    } else {
        c
    }
}

pub fn matches_folded(cs: &Vec<char>, from: usize, to: usize, w: &str) -> (r: bool)
    requires
        from <= to <= cs.len(),
    ensures
        r == eq_folded(cs@.subrange(from as int, to as int), w@),
{
    let wc = chars_of(w);
    if to - from != wc.len() {
        return false;
    }
    let mut i: usize = 0;
    while i < wc.len()
        invariant
            wc@ == w@,
            to - from == wc.len(),
            from <= to <= cs.len(),
            i <= wc.len(),
            forall|j: int| 0 <= j < i ==> lower_ascii(cs@[from + j]) == w@[j],
        decreases wc.len() - i,
    {
        if fold_char(cs[from + i]) != wc[i] {
            return false;
        }
        i += 1;
    }
    true
}

/// Equality of two strings by their characters.
pub fn same_text(a: &str, b: &str) -> (r: bool)
    ensures
        r == (a@ == b@),
{
    let x = chars_of(a);
    let y = chars_of(b);
    if x.len() != y.len() {
        return false;
    }
    let mut i: usize = 0;
    while i < x.len()
        invariant
            x@ == a@,
            y@ == b@,
            x.len() == y.len(),
            i <= x.len(),
            forall|j: int| 0 <= j < i ==> x@[j] == y@[j],
        decreases x.len() - i,
    {
        if x[i] != y[i] {
            return false;
        }
        i += 1;
    }
    assert(x@ =~= y@);
    true
}

pub open spec fn is_prefix(p: Seq<char>, s: Seq<char>) -> bool {
    p.len() <= s.len() && s.take(p.len() as int) == p
}

pub open spec fn is_suffix(p: Seq<char>, s: Seq<char>) -> bool {
    p.len() <= s.len() && s.skip(s.len() - p.len()) == p
}

pub open spec fn occurs_at(p: Seq<char>, s: Seq<char>, i: int) -> bool {
    0 <= i && i + p.len() <= s.len() && s.subrange(i, i + p.len()) == p
}

pub open spec fn is_infix(p: Seq<char>, s: Seq<char>) -> bool {
    exists|i: int| occurs_at(p, s, i)
}

fn occurs_at_exec(p: &Vec<char>, s: &Vec<char>, i: usize) -> (r: bool)
    requires
        i + p.len() <= s.len(),
    ensures
        r == occurs_at(p@, s@, i as int),
{
    let mut k: usize = 0;
    while k < p.len()
        invariant
            i + p.len() <= s.len(),
            k <= p.len(),
            forall|j: int| 0 <= j < k ==> s@[i + j] == p@[j],
        decreases p.len() - k,
    {
        if s[i + k] != p[k] {
            assert(s@.subrange(i as int, i + p.len())[k as int] != p@[k as int]);
            return false;
        }
        k += 1;
    }
    assert(s@.subrange(i as int, i + p.len()) =~= p@);
    true
}

/// `str::starts_with`.
pub fn has_prefix(s: &str, p: &str) -> (r: bool)
    ensures
        r == is_prefix(p@, s@),
{
    let sc = chars_of(s);
    let pc = chars_of(p);
    if pc.len() > sc.len() {
        return false;
    }
    let r = occurs_at_exec(&pc, &sc, 0);
    assert(sc@.subrange(0, pc@.len() as int) =~= sc@.take(pc@.len() as int));
    r
}

/// `str::ends_with`.
pub fn has_suffix(s: &str, p: &str) -> (r: bool)
    ensures
        r == is_suffix(p@, s@),
{
    let sc = chars_of(s);
    let pc = chars_of(p);
    if pc.len() > sc.len() {
        return false;
    }
    let r = occurs_at_exec(&pc, &sc, sc.len() - pc.len());
    assert(sc@.subrange(sc@.len() - pc@.len(), sc@.len() as int) =~= sc@.skip(sc@.len() - pc@.len()));
    r
}

/// `str::contains` with a string pattern.
pub fn has_infix(s: &str, p: &str) -> (r: bool)
    ensures
        r == is_infix(p@, s@),
{
    let sc = chars_of(s);
    let pc = chars_of(p);
    if pc.len() > sc.len() {
        assert forall|i: int| !occurs_at(p@, s@, i) by {}
        return false;
    }
    let n = sc.len() - pc.len();
    let mut i: usize = 0;
    while i < n
        invariant
            sc@ == s@,
            pc@ == p@,
            n == sc.len() - pc.len(),
            i <= n,
            forall|j: int| 0 <= j < i ==> !occurs_at(p@, s@, j),
        decreases n - i,
    {
        if occurs_at_exec(&pc, &sc, i) {
            return true;
        }
        i += 1;
    }
    if occurs_at_exec(&pc, &sc, n) {
        return true;
    }
    assert forall|j: int| !occurs_at(p@, s@, j) by {
        if 0 <= j && j + p@.len() <= s@.len() {
            assert(j <= n);
        }
    }
    false
}

}
