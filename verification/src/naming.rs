//! Names derived from configuration field names.
use vstd::prelude::*;
use crate::text::{chars_of, push_char, split_bounds, split_by, split_scan};

verus! {

/// The characters `char::to_uppercase` yields for `c`.
pub uninterp spec fn uppercase_of(c: char) -> Seq<char>;

/// Appends the upper-case form of `c` (`char::to_uppercase`). ASCII
/// lower-case letters map to their capitals and other ASCII characters
/// to themselves, as the Unicode case tables that std follows give them.
#[verifier::external_body]
fn push_uppercase(s: &mut String, c: char)
    ensures
        final(s)@ == old(s)@ + uppercase_of(c),
        'a' <= c <= 'z' ==> final(s)@ == old(s)@.push(((c as u32) - 32) as char),
        (c as u32) < 128 && !('a' <= c <= 'z') ==> final(s)@ == old(s)@.push(c),
{
    for u in c.to_uppercase() {
        s.push(u);
    }
}

/// A word with its first character upper-cased.
pub open spec fn capitalized(w: Seq<char>) -> Seq<char> {
    if w.len() == 0 {
        Seq::empty()
    } else {
        uppercase_of(w[0]) + w.drop_first()
    }
}

/// The capitalized words, joined without separators.
pub open spec fn joined_capitalized(ws: Seq<Seq<char>>) -> Seq<char>
    decreases ws.len(),
{
    if ws.len() == 0 {
        Seq::empty()
    } else {
        joined_capitalized(ws.drop_last()) + capitalized(ws.last())
    }
}

/// `snake_case` → `PascalCase`: split on `_`, upper-case the first
/// character of each word, and join the words.
pub open spec fn pascal_case(s: Seq<char>) -> Seq<char> {
    joined_capitalized(split_by(s, '_'))
}

/// The ASCII capital of `c`: lower-case letters become capitals, every
/// other character stays.
pub open spec fn ascii_upper(c: char) -> char {
    if 'a' <= c <= 'z' { ((c as u32) - 32) as char } else { c }
}

/// Every character of `s` is ASCII.
pub open spec fn is_ascii(s: Seq<char>) -> bool {
    forall|i: int| 0 <= i < s.len() ==> (#[trigger] s[i] as u32) < 128
}

/// A word with its first character made an ASCII capital.
pub open spec fn ascii_capitalized(w: Seq<char>) -> Seq<char> {
    if w.len() == 0 {
        Seq::empty()
    } else {
        seq![ascii_upper(w[0])] + w.drop_first()
    }
}

/// The ASCII-capitalized words, joined without separators.
pub open spec fn ascii_joined(ws: Seq<Seq<char>>) -> Seq<char>
    decreases ws.len(),
{
    if ws.len() == 0 {
        Seq::empty()
    } else {
        ascii_joined(ws.drop_last()) + ascii_capitalized(ws.last())
    }
}

/// `snake_case` → `PascalCase` for ASCII text.
pub open spec fn ascii_pascal(s: Seq<char>) -> Seq<char> {
    ascii_joined(split_by(s, '_'))
}

/// Converts a field name to the name of its mutation variant
/// (`max_retry_count` → `MaxRetryCount`).
pub fn to_pascal_case(s: &str) -> (r: String)
    ensures
        r@ == pascal_case(s@),
        is_ascii(s@) ==> r@ == ascii_pascal(s@),
{
    let cs = chars_of(s);
    let words = split_bounds(&cs, 0, cs.len(), '_');
    assert(cs@.subrange(0, cs@.len() as int) =~= cs@);
    let ghost ws = split_by(cs@, '_');
    let mut r = String::new();
    let mut i: usize = 0;
    while i < words.len()
        invariant
            cs@ == s@,
            ws == split_by(cs@, '_'),
            i <= words@.len(),
            words@.len() == ws.len(),
            forall|k: int| 0 <= k < words@.len() ==> {
                &&& 0 <= (#[trigger] words@[k]).0 <= words@[k].1 <= cs@.len()
                &&& cs@.subrange(words@[k].0 as int, words@[k].1 as int) == ws[k]
            },
            r@ == joined_capitalized(ws.take(i as int)),
            is_ascii(cs@) ==> r@ == ascii_joined(ws.take(i as int)),
        decreases words@.len() - i,
    {
        let (a, b) = words[i];
        let ghost w = cs@.subrange(a as int, b as int);
        let ghost before = r@;
        assert(ws.take(i + 1).drop_last() =~= ws.take(i as int));
        if a < b {
            let ghost mid = r@;
            push_uppercase(&mut r, cs[a]);
            proof {
                if is_ascii(cs@) {
                    assert((cs@[a as int] as u32) < 128);
                    assert(uppercase_of(cs@[a as int]) =~= seq![ascii_upper(cs@[a as int])]) by {
                        assert(r@ == mid + uppercase_of(cs@[a as int]));
                        assert(r@ == mid.push(ascii_upper(cs@[a as int])));
                        assert(r@.subrange(mid.len() as int, r@.len() as int) =~= uppercase_of(cs@[a as int]));
                        assert(r@.subrange(mid.len() as int, r@.len() as int) =~= seq![ascii_upper(cs@[a as int])]);
                    }
                }
            }
            let mut j = a + 1;
            while j < b
                invariant
                    a < j <= b <= cs.len(),
                    w == cs@.subrange(a as int, b as int),
                    r@ == before + uppercase_of(cs@[a as int]) + cs@.subrange(a + 1, j as int),
                decreases b - j,
            {
                push_char(&mut r, cs[j]);
                j += 1;
                assert(cs@.subrange(a + 1, j as int) =~= cs@.subrange(a + 1, j - 1).push(cs@[j - 1]));
            }
            assert(w.drop_first() =~= cs@.subrange(a + 1, b as int));
            assert(r@ =~= before + capitalized(w));
            proof {
                if is_ascii(cs@) {
                    assert(w[0] == cs@[a as int]);
                    assert(capitalized(w) =~= ascii_capitalized(w));
                }
            }
        } else {
            assert(w.len() == 0);
            assert(r@ =~= before + capitalized(w));
        }
        i += 1;
    }
    assert(ws.take(words@.len() as int) =~= ws);
    r
}

/// Without a separator, scanning keeps the whole text as the current piece.
proof fn lemma_scan_no_sep(s: Seq<char>, sep: char)
    requires
        forall|i: int| 0 <= i < s.len() ==> s[i] != sep,
    ensures
        split_scan(s, sep) == (Seq::<Seq<char>>::empty(), s),
    decreases s.len(),
{
    if s.len() > 0 {
        lemma_scan_no_sep(s.drop_last(), sep);
        assert(s.drop_last().push(s.last()) =~= s);
    }
}

/// No piece the scan makes holds the separator.
proof fn lemma_scan_pieces(s: Seq<char>, sep: char)
    ensures
        forall|k: int, i: int| 0 <= k < split_scan(s, sep).0.len() && 0 <= i < split_scan(s, sep).0[k].len()
            ==> split_scan(s, sep).0[k][i] != sep,
        forall|i: int| 0 <= i < split_scan(s, sep).1.len() ==> split_scan(s, sep).1[i] != sep,
    decreases s.len(),
{
    if s.len() > 0 {
        lemma_scan_pieces(s.drop_last(), sep);
        let (done, cur) = split_scan(s.drop_last(), sep);
        if s.last() == sep {
            assert forall|k: int, i: int| 0 <= k < done.push(cur).len() && 0 <= i < done.push(cur)[k].len()
                implies done.push(cur)[k][i] != sep by {
                if k < done.len() {
                    assert(done.push(cur)[k] == done[k]);
                } else {
                    assert(done.push(cur)[k] == cur);
                }
            }
        } else {
            assert forall|i: int| 0 <= i < cur.push(s.last()).len() implies cur.push(s.last())[i] != sep by {
                if i < cur.len() {
                    assert(cur.push(s.last())[i] == cur[i]);
                }
            }
        }
    }
}

/// No word of `split_by(s, sep)` holds the separator.
proof fn lemma_split_pieces(s: Seq<char>, sep: char)
    ensures
        forall|k: int, i: int| 0 <= k < split_by(s, sep).len() && 0 <= i < split_by(s, sep)[k].len()
            ==> split_by(s, sep)[k][i] != sep,
{
    lemma_scan_pieces(s, sep);
    let (done, cur) = split_scan(s, sep);
    assert forall|k: int, i: int| 0 <= k < split_by(s, sep).len() && 0 <= i < split_by(s, sep)[k].len()
        implies split_by(s, sep)[k][i] != sep by {
        if k < done.len() {
            assert(split_by(s, sep)[k] == done[k]);
        } else {
            assert(split_by(s, sep)[k] == cur);
        }
    }
}

/// Joining capitalized words without `_` gives text without `_`.
proof fn lemma_joined_no_underscore(ws: Seq<Seq<char>>)
    requires
        forall|k: int, i: int| 0 <= k < ws.len() && 0 <= i < ws[k].len() ==> ws[k][i] != '_',
    ensures
        forall|i: int| 0 <= i < ascii_joined(ws).len() ==> ascii_joined(ws)[i] != '_',
    decreases ws.len(),
{
    if ws.len() > 0 {
        lemma_joined_no_underscore(ws.drop_last());
        let w = ws.last();
        let a = ascii_joined(ws.drop_last());
        let c = ascii_capitalized(w);
        assert forall|i: int| 0 <= i < c.len() implies c[i] != '_' by {
            assert(w[0] != '_');
            if i > 0 {
                assert(c[i] == w[i]);
            }
        }
        assert forall|i: int| 0 <= i < ascii_joined(ws).len() implies ascii_joined(ws)[i] != '_' by {
            if i < a.len() {
                assert(ascii_joined(ws)[i] == a[i]);
            } else {
                assert(ascii_joined(ws)[i] == c[i - a.len()]);
            }
        }
    }
}

/// The joined text starts with an ASCII capital (or a character that has
/// none).
proof fn lemma_joined_first(ws: Seq<Seq<char>>)
    ensures
        ascii_joined(ws).len() > 0 ==> ascii_upper(ascii_joined(ws)[0]) == ascii_joined(ws)[0],
    decreases ws.len(),
{
    if ws.len() > 0 {
        lemma_joined_first(ws.drop_last());
        let a = ascii_joined(ws.drop_last());
        if a.len() > 0 {
            assert(ascii_joined(ws)[0] == a[0]);
        } else {
            let w = ws.last();
            if w.len() > 0 {
                assert(ascii_joined(ws)[0] == ascii_upper(w[0]));
            }
        }
    }
}

/// PascalCase is idempotent: converting converted text gives it back.
pub proof fn pascal_case_idempotent(s: Seq<char>)
    ensures
        ascii_pascal(ascii_pascal(s)) == ascii_pascal(s),
{
    let t = ascii_pascal(s);
    lemma_split_pieces(s, '_');
    lemma_joined_no_underscore(split_by(s, '_'));
    lemma_scan_no_sep(t, '_');
    lemma_joined_first(split_by(s, '_'));
    assert(forall|i: int| 0 <= i < t.len() ==> t[i] != '_');
    let ws = split_by(t, '_');
    assert(ws =~= seq![t]);
    assert(ws.drop_last() =~= Seq::<Seq<char>>::empty());
    assert(ascii_joined(ws) == ascii_joined(ws.drop_last()) + ascii_capitalized(ws.last()));
    assert(ascii_joined(ws) =~= ascii_capitalized(t));
    if t.len() > 0 {
        assert(seq![ascii_upper(t[0])] + t.drop_first() =~= t);
    } else {
        assert(ascii_capitalized(t) =~= t);
    }
}

}
