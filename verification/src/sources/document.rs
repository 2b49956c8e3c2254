//! Typed-origin sources: configuration documents (YAML, JSON, TOML,
//! property lists, RON) whose values keep the types the file gives them.
use vstd::prelude::*;
use crate::fig::FigSource;
use crate::priority::Source;
use crate::sources::env::{env_value, parse_env_value};
use crate::strmap::{MapValue, StrMap};
use crate::numeric::{decimal, push_decimal};
use crate::text::{chars_of, find_char, owned, push_str, same_text, split_once, string_of_range};
use crate::value::{FigValue, Kind, ValueView, kind_of, seq_view};

verus! {

// ── the document model ────────────────────────────────────────────────────────

/// One value of a configuration document, as the document's format reads
/// it. Each field holds what the format's own accessor gives for the
/// value, or nothing when it gives nothing:
///   - `string`: a string value, as it is;
///   - `number`: a number (or a date) as the format prints it, where the
///     format prints it;
///   - `integer`: whether the value is an integer whose text is that of
///     `int` (and `0` where `int` cannot hold it);
///   - `null`: whether the value is a null;
///   - `tagged`: whether the value carries a tag of the format's own (a
///     tagged value has no scalar text);
///   - `int`: its value as a signed 64-bit integer;
///   - `float`: its value as a float, by bit pattern;
///   - `boolean`: its value as a boolean;
///   - `items`: the elements of a sequence;
///   - `entries`: the entries of a table, each key as a value of its own.
pub struct DocNode {
    pub string: Option<String>,
    pub number: Option<String>,
    pub integer: bool,
    pub null: bool,
    pub tagged: bool,
    pub int: Option<i64>,
    pub float: Option<u64>,
    pub boolean: Option<bool>,
    pub items: Option<Vec<DocNode>>,
    pub entries: Option<Vec<(DocNode, DocNode)>>,
}

/// The scalar text of a document value: a string as it is; a number as
/// the format prints it; an integer in decimal; a boolean as `true` or
/// `false`; a null as the empty text; nothing for a sequence, a table or
/// a tagged value.
pub open spec fn node_text(n: DocNode) -> Option<Seq<char>> {
    if n.tagged {
        None
    } else if n.string is Some {
        Some(n.string->0@)
    } else if n.number is Some {
        Some(n.number->0@)
    } else if n.integer {
        Some(decimal(match n.int { Some(v) => v as int, None => 0 }))
    } else if n.boolean is Some {
        Some(if n.boolean->0 { "true"@ } else { "false"@ })
    } else if n.null {
        Some(Seq::empty())
    } else {
        None
    }
}

/// The scalar text of a document value.
pub fn scalar_text(n: &DocNode) -> (r: Option<String>)
    ensures
        match node_text(*n) {
            Some(t) => r is Some && r->0@ == t,
            None => r is None,
        },
{
    if n.tagged {
        None
    } else if let Some(t) = &n.string {
        Some(t.clone())
    } else if let Some(t) = &n.number {
        Some(t.clone())
    } else if n.integer {
        let v: i64 = match n.int { Some(v) => v, None => 0 };
        let mut t = String::new();
        push_decimal(&mut t, v as i128);
        Some(t)
    } else if let Some(b) = n.boolean {
        if b { Some(owned("true")) } else { Some(owned("false")) }
    } else if n.null {
        Some(String::new())
    } else {
        None
    }
}

/// A document value that is the string `s` and nothing else.
pub open spec fn text_node(s: String) -> DocNode {
    DocNode {
        string: Some(s),
        number: None,
        integer: false,
        null: false,
        tagged: false,
        int: None,
        float: None,
        boolean: None,
        items: None,
        entries: None,
    }
}

/// The document value that is the string `s`: a table key.
pub fn string_node(s: String) -> (r: DocNode)
    ensures
        r == text_node(s),
{
    DocNode {
        string: Some(s),
        number: None,
        integer: false,
        null: false,
        tagged: false,
        int: None,
        float: None,
        boolean: None,
        items: None,
        entries: None,
    }
}

/// A scalar type a document value can be read as.
pub trait DocScalar: MapValue + Sized {
    /// What `n` reads as, if it reads as this type.
    spec fn from_node(n: DocNode) -> Option<Self::V>;

    fn read_node(n: &DocNode) -> (r: Option<Self>)
        ensures
            match Self::from_node(*n) {
                Some(v) => r is Some && r->0@ == v,
                None => r is None,
            };
}

impl DocScalar for String {
    open spec fn from_node(n: DocNode) -> Option<Seq<char>> {
        node_text(n)
    }

    fn read_node(n: &DocNode) -> (r: Option<Self>) {
        scalar_text(n)
    }
}

impl DocScalar for i32 {
    open spec fn from_node(n: DocNode) -> Option<i32> {
        match n.int {
            Some(v) => if i32::MIN <= v <= i32::MAX { Some(v as i32) } else { None },
            None => None,
        }
    }

    fn read_node(n: &DocNode) -> (r: Option<Self>) {
        match n.int {
            Some(v) => if i32::MIN as i64 <= v && v <= i32::MAX as i64 { Some(v as i32) } else { None },
            None => None,
        }
    }
}

impl DocScalar for i64 {
    open spec fn from_node(n: DocNode) -> Option<i64> {
        n.int
    }

    fn read_node(n: &DocNode) -> (r: Option<Self>) {
        n.int
    }
}

impl DocScalar for i128 {
    open spec fn from_node(n: DocNode) -> Option<i128> {
        match n.int {
            Some(v) => Some(v as i128),
            None => None,
        }
    }

    fn read_node(n: &DocNode) -> (r: Option<Self>) {
        match n.int {
            Some(v) => Some(v as i128),
            None => None,
        }
    }
}

impl DocScalar for bool {
    open spec fn from_node(n: DocNode) -> Option<bool> {
        n.boolean
    }

    fn read_node(n: &DocNode) -> (r: Option<Self>) {
        n.boolean
    }
}

/// Floats, by bit pattern.
impl DocScalar for u64 {
    open spec fn from_node(n: DocNode) -> Option<u64> {
        n.float
    }

    fn read_node(n: &DocNode) -> (r: Option<Self>) {
        n.float
    }
}

/// Every element read as a `T`, or `None` if one does not read.
pub open spec fn items_read<T: DocScalar>(s: Seq<DocNode>) -> Option<Seq<T::V>>
    decreases s.len(),
{
    if s.len() == 0 {
        Some(Seq::empty())
    } else {
        match (items_read::<T>(s.drop_last()), T::from_node(s.last())) {
            (Some(a), Some(b)) => Some(a.push(b)),
            _ => None,
        }
    }
}

/// Every entry's value read as a `T`, keyed by its key text, a later entry
/// replacing an earlier one with the same key; `None` if a key has no
/// text or a value does not read.
pub open spec fn entries_read<T: DocScalar>(s: Seq<(DocNode, DocNode)>) -> Option<Map<Seq<char>, T::V>>
    decreases s.len(),
{
    if s.len() == 0 {
        Some(Map::empty())
    } else {
        match (entries_read::<T>(s.drop_last()), node_text(s.last().0), T::from_node(s.last().1)) {
            (Some(m), Some(k), Some(v)) => Some(m.insert(k, v)),
            _ => None,
        }
    }
}

fn read_items<T: DocScalar>(s: &Vec<DocNode>) -> (r: Option<Vec<T>>)
    ensures
        match items_read::<T>(s@) {
            Some(v) => r is Some && seq_view(r->0@) == v,
            None => r is None,
        },
{
    let mut out: Vec<T> = Vec::new();
    let mut i: usize = 0;
    while i < s.len()
        invariant
            i <= s@.len(),
            items_read::<T>(s@.take(i as int)) == Some(seq_view(out@)),
        decreases s@.len() - i,
    {
        assert(s@.take(i + 1).drop_last() =~= s@.take(i as int));
        assert(s@.take(i + 1).last() == s@[i as int]);
        match T::read_node(&s[i]) {
            Some(v) => {
                let ghost before = out@;
                out.push(v);
                assert(seq_view(out@) =~= seq_view(before).push(out@.last()@));
            },
            None => {
                proof { lemma_items_none::<T>(s@, i as int); }
                return None;
            },
        }
        i += 1;
    }
    assert(s@.take(s@.len() as int) =~= s@);
    Some(out)
}

proof fn lemma_items_none<T: DocScalar>(s: Seq<DocNode>, i: int)
    requires
        0 <= i < s.len(),
        T::from_node(s[i]) is None,
    ensures
        items_read::<T>(s) is None,
    decreases s.len(),
{
    if i < s.len() - 1 {
        assert(s.drop_last()[i] == s[i]);
        lemma_items_none::<T>(s.drop_last(), i);
    }
}

proof fn lemma_entries_none<T: DocScalar>(s: Seq<(DocNode, DocNode)>, i: int)
    requires
        0 <= i < s.len(),
        node_text(s[i].0) is None || T::from_node(s[i].1) is None,
    ensures
        entries_read::<T>(s) is None,
    decreases s.len(),
{
    if i < s.len() - 1 {
        assert(s.drop_last()[i] == s[i]);
        lemma_entries_none::<T>(s.drop_last(), i);
    }
}

fn read_entries<T: DocScalar>(s: &Vec<(DocNode, DocNode)>) -> (r: Option<StrMap<T>>)
    ensures
        match entries_read::<T>(s@) {
            Some(m) => r is Some && r->0@ == m,
            None => r is None,
        },
{
    let mut out: StrMap<T> = StrMap::new();
    let mut i: usize = 0;
    while i < s.len()
        invariant
            i <= s@.len(),
            entries_read::<T>(s@.take(i as int)) == Some(out@),
        decreases s@.len() - i,
    {
        assert(s@.take(i + 1).drop_last() =~= s@.take(i as int));
        assert(s@.take(i + 1).last() == s@[i as int]);
        let key = match scalar_text(&s[i].0) {
            Some(k) => k,
            None => {
                proof { lemma_entries_none::<T>(s@, i as int); }
                return None;
            },
        };
        match T::read_node(&s[i].1) {
            Some(v) => {
                out.insert(key, v);
            },
            None => {
                proof { lemma_entries_none::<T>(s@, i as int); }
                return None;
            },
        }
        i += 1;
    }
    assert(s@.take(s@.len() as int) =~= s@);
    Some(out)
}

/// A list of `T`s as a value view.
pub open spec fn list_of<T: DocScalar>(n: DocNode, f: spec_fn(Seq<T::V>) -> ValueView) -> Option<ValueView> {
    match n.items {
        Some(v) => match items_read::<T>(v@) {
            Some(s) => Some(f(s)),
            None => None,
        },
        None => None,
    }
}

/// A table of `T`s as a value view.
pub open spec fn table_of<T: DocScalar>(n: DocNode, f: spec_fn(Map<Seq<char>, T::V>) -> ValueView) -> Option<ValueView> {
    match n.entries {
        Some(v) => match entries_read::<T>(v@) {
            Some(m) => Some(f(m)),
            None => None,
        },
        None => None,
    }
}

/// A scalar `T` as a value view.
pub open spec fn scalar_of<T: DocScalar>(n: DocNode, f: spec_fn(T::V) -> ValueView) -> Option<ValueView> {
    match T::from_node(n) {
        Some(v) => Some(f(v)),
        None => None,
    }
}

/// What a document value reads as, for a key of type `k`: a scalar by the
/// format's accessor for that type; a duration from its text, the way
/// the environment is read; a list or table element by element.
pub open spec fn node_value(n: DocNode, k: Kind) -> Option<ValueView> {
    match k {
        Kind::String => scalar_of::<String>(n, |v: Seq<char>| ValueView::Str(v)),
        Kind::Int => scalar_of::<i32>(n, |v: i32| ValueView::Int(v)),
        Kind::Int64 => scalar_of::<i64>(n, |v: i64| ValueView::Int64(v)),
        Kind::Int128 => scalar_of::<i128>(n, |v: i128| ValueView::Int128(v)),
        Kind::Float64 => scalar_of::<u64>(n, |v: u64| ValueView::Float64(v)),
        Kind::Float128 => scalar_of::<u64>(n, |v: u64| ValueView::Float128(v)),
        Kind::Bool => scalar_of::<bool>(n, |v: bool| ValueView::Bool(v)),
        Kind::Duration => match node_text(n) {
            Some(t) => env_value(t, Kind::Duration),
            None => None,
        },
        Kind::ListString => list_of::<String>(n, |s: Seq<Seq<char>>| ValueView::ListString(s)),
        Kind::ListInt => list_of::<i32>(n, |s: Seq<i32>| ValueView::ListInt(s)),
        Kind::ListInt64 => list_of::<i64>(n, |s: Seq<i64>| ValueView::ListInt64(s)),
        Kind::ListInt128 => list_of::<i128>(n, |s: Seq<i128>| ValueView::ListInt128(s)),
        Kind::ListFloat64 => list_of::<u64>(n, |s: Seq<u64>| ValueView::ListFloat64(s)),
        Kind::ListFloat128 => list_of::<u64>(n, |s: Seq<u64>| ValueView::ListFloat128(s)),
        Kind::ListBool => list_of::<bool>(n, |s: Seq<bool>| ValueView::ListBool(s)),
        Kind::MapString => table_of::<String>(n, |m: Map<Seq<char>, Seq<char>>| ValueView::MapString(m)),
        Kind::MapInt => table_of::<i32>(n, |m: Map<Seq<char>, i32>| ValueView::MapInt(m)),
        Kind::MapInt64 => table_of::<i64>(n, |m: Map<Seq<char>, i64>| ValueView::MapInt64(m)),
        Kind::MapInt128 => table_of::<i128>(n, |m: Map<Seq<char>, i128>| ValueView::MapInt128(m)),
        Kind::MapFloat64 => table_of::<u64>(n, |m: Map<Seq<char>, u64>| ValueView::MapFloat64(m)),
        Kind::MapFloat128 => table_of::<u64>(n, |m: Map<Seq<char>, u64>| ValueView::MapFloat128(m)),
        Kind::MapBool => table_of::<bool>(n, |m: Map<Seq<char>, bool>| ValueView::MapBool(m)),
    }
}

fn list_value<T: DocScalar>(n: &DocNode) -> (r: Option<Vec<T>>)
    ensures
        match n.items {
            Some(v) => match items_read::<T>(v@) {
                Some(s) => r is Some && seq_view(r->0@) == s,
                None => r is None,
            },
            None => r is None,
        },
{
    match &n.items {
        Some(v) => read_items::<T>(v),
        None => None,
    }
}

fn table_value<T: DocScalar>(n: &DocNode) -> (r: Option<StrMap<T>>)
    ensures
        match n.entries {
            Some(v) => match entries_read::<T>(v@) {
                Some(m) => r is Some && r->0@ == m,
                None => r is None,
            },
            None => r is None,
        },
{
    match &n.entries {
        Some(v) => read_entries::<T>(v),
        None => None,
    }
}

/// Converts a document value to a value of the type of `hint`.
pub fn node_to_value(n: &DocNode, hint: &FigValue) -> (r: Option<FigValue>)
    ensures
        match node_value(*n, kind_of(hint@)) {
            Some(v) => r is Some && r->0@ == v,
            None => r is None,
        },
{
    match hint.kind() {
        Kind::String => match String::read_node(n) { Some(v) => Some(FigValue::String(v)), None => None },
        Kind::Int => match i32::read_node(n) { Some(v) => Some(FigValue::Int(v)), None => None },
        Kind::Int64 => match i64::read_node(n) { Some(v) => Some(FigValue::Int64(v)), None => None },
        Kind::Int128 => match i128::read_node(n) { Some(v) => Some(FigValue::Int128(v)), None => None },
        Kind::Float64 => match u64::read_node(n) { Some(v) => Some(FigValue::Float64(v)), None => None },
        Kind::Float128 => match u64::read_node(n) { Some(v) => Some(FigValue::Float128(v)), None => None },
        Kind::Bool => match bool::read_node(n) { Some(v) => Some(FigValue::Bool(v)), None => None },
        Kind::Duration => match scalar_text(n) {
            Some(t) => parse_env_value(t.as_str(), hint),
            None => None,
        },
        Kind::ListString => match list_value::<String>(n) { Some(v) => Some(FigValue::ListString(v)), None => None },
        Kind::ListInt => match list_value::<i32>(n) { Some(v) => Some(FigValue::ListInt(v)), None => None },
        Kind::ListInt64 => match list_value::<i64>(n) { Some(v) => Some(FigValue::ListInt64(v)), None => None },
        Kind::ListInt128 => match list_value::<i128>(n) { Some(v) => Some(FigValue::ListInt128(v)), None => None },
        Kind::ListFloat64 => match list_value::<u64>(n) { Some(v) => Some(FigValue::ListFloat64(v)), None => None },
        Kind::ListFloat128 => match list_value::<u64>(n) { Some(v) => Some(FigValue::ListFloat128(v)), None => None },
        Kind::ListBool => match list_value::<bool>(n) { Some(v) => Some(FigValue::ListBool(v)), None => None },
        Kind::MapString => match table_value::<String>(n) { Some(v) => Some(FigValue::MapString(v)), None => None },
        Kind::MapInt => match table_value::<i32>(n) { Some(v) => Some(FigValue::MapInt(v)), None => None },
        Kind::MapInt64 => match table_value::<i64>(n) { Some(v) => Some(FigValue::MapInt64(v)), None => None },
        Kind::MapInt128 => match table_value::<i128>(n) { Some(v) => Some(FigValue::MapInt128(v)), None => None },
        Kind::MapFloat64 => match table_value::<u64>(n) { Some(v) => Some(FigValue::MapFloat64(v)), None => None },
        Kind::MapFloat128 => match table_value::<u64>(n) { Some(v) => Some(FigValue::MapFloat128(v)), None => None },
        Kind::MapBool => match table_value::<bool>(n) { Some(v) => Some(FigValue::MapBool(v)), None => None },
    }
}

// ── lookup ────────────────────────────────────────────────────────────────────

/// The value of the first entry keyed `key`.
pub open spec fn lookup(entries: Seq<(DocNode, DocNode)>, key: Seq<char>) -> Option<DocNode>
    decreases entries.len(),
{
    if entries.len() == 0 {
        None
    } else if node_text(entries[0].0) == Some(key) {
        Some(entries[0].1)
    } else {
        lookup(entries.drop_first(), key)
    }
}

/// A key walked through nested tables at its first dot: "a.b" is the
/// entry "b" of the table "a"; a key without a dot is a top-level entry.
pub open spec fn dotted_lookup(entries: Seq<(DocNode, DocNode)>, key: Seq<char>) -> Option<DocNode> {
    match split_once(key, '.') {
        None => lookup(entries, key),
        Some((head, rest)) => match lookup(entries, head) {
            Some(t) => match t.entries {
                Some(inner) => lookup(inner@, rest),
                None => None,
            },
            None => None,
        },
    }
}

fn find_entry<'a>(entries: &'a Vec<(DocNode, DocNode)>, key: &str) -> (r: Option<&'a DocNode>)
    ensures
        match lookup(entries@, key@) {
            Some(n) => r is Some && *r->0 == n,
            None => r is None,
        },
{
    let mut i: usize = 0;
    assert(entries@.skip(0) =~= entries@);
    while i < entries.len()
        invariant
            i <= entries@.len(),
            lookup(entries@, key@) == lookup(entries@.skip(i as int), key@),
        decreases entries@.len() - i,
    {
        assert(entries@.skip(i as int)[0] == entries@[i as int]);
        let hit = match scalar_text(&entries[i].0) {
            Some(k) => same_text(k.as_str(), key),
            None => false,
        };
        if hit {
            return Some(&entries[i].1);
        }
        assert(entries@.skip(i as int).drop_first() =~= entries@.skip(i + 1));
        i += 1;
    }
    assert(entries@.skip(entries@.len() as int) =~= Seq::<(DocNode, DocNode)>::empty());
    None
}

fn find_dotted<'a>(entries: &'a Vec<(DocNode, DocNode)>, key: &str) -> (r: Option<&'a DocNode>)
    ensures
        match dotted_lookup(entries@, key@) {
            Some(n) => r is Some && *r->0 == n,
            None => r is None,
        },
{
    let cs = chars_of(key);
    let dot = find_char(&cs, 0, cs.len(), '.');
    proof { crate::text::lemma_split_once(cs@, 0, cs@.len() as int, '.', dot); }
    assert(cs@.subrange(0, cs@.len() as int) =~= cs@);
    match dot {
        None => find_entry(entries, key),
        Some(i) => {
            let head = string_of_range(&cs, 0, i);
            let rest = string_of_range(&cs, i + 1, cs.len());
            assert(head@ =~= key@.take(i as int));
            assert(rest@ =~= key@.skip(i + 1));
            match find_entry(entries, head.as_str()) {
                Some(t) => match &t.entries {
                    Some(inner) => find_entry(inner, rest.as_str()),
                    None => None,
                },
                None => None,
            }
        },
    }
}

// ── the document sources ──────────────────────────────────────────────────────

/// The top-level entries of a document read from a file, with the file's
/// path, and whether keys walk into nested tables at dots.
pub struct Document {
    path: String,
    entries: Vec<(DocNode, DocNode)>,
    dotted: bool,
}

impl Document {
    /// The path the document was read from.
    pub closed spec fn path_text(&self) -> Seq<char> {
        self.path@
    }

    /// The document value under `key`.
    pub closed spec fn at(&self, key: Seq<char>) -> Option<DocNode> {
        if self.dotted { dotted_lookup(self.entries@, key) } else { lookup(self.entries@, key) }
    }

    fn new(path: &str, entries: Vec<(String, DocNode)>, dotted: bool) -> (r: Self)
        ensures
            r.path_text() == path@,
            forall|key: Seq<char>| #[trigger] r.at(key) == if dotted {
                dotted_lookup(keyed(entries@), key)
            } else {
                lookup(keyed(entries@), key)
            },
    {
        let ghost src = entries@;
        let mut out: Vec<(DocNode, DocNode)> = Vec::new();
        let mut rest = entries;
        let mut i: usize = 0;
        while i < rest.len()
            invariant
                rest@.len() == src.len(),
                i <= src.len(),
                out@.len() == i,
                forall|j: int| 0 <= j < i ==> #[trigger] out@[j] == keyed(src)[j],
                forall|j: int| i <= j < src.len() ==> #[trigger] rest@[j] == src[j],
            decreases src.len() - i,
        {
            let (k, n) = take_entry(&mut rest, i);
            out.push((string_node(k), n));
            i += 1;
        }
        assert(out@ =~= keyed(src));
        Document { path: path.to_string(), entries: out, dotted }
    }

    fn node(&self, key: &str) -> (r: Option<&DocNode>)
        ensures
            match self.at(key@) {
                Some(n) => r is Some && *r->0 == n,
                None => r is None,
            },
    {
        if self.dotted { find_dotted(&self.entries, key) } else { find_entry(&self.entries, key) }
    }

    /// The scalar text of the value under `key`, as `FigValue::String`.
    fn get_text(&self, key: &str) -> (r: Option<FigValue>)
        ensures
            match self.at(key@) {
                Some(n) => match node_text(n) {
                    Some(t) => r is Some && r->0@ == ValueView::Str(t),
                    None => r is None,
                },
                None => r is None,
            },
    {
        match self.node(key) {
            Some(n) => match scalar_text(n) {
                Some(t) => Some(FigValue::String(t)),
                None => None,
            },
            None => None,
        }
    }

    /// The value under `key` read as the type of `hint`.
    fn get_value(&self, key: &str, hint: &FigValue) -> (r: Option<FigValue>)
        ensures
            match self.at(key@) {
                Some(n) => match node_value(n, kind_of(hint@)) {
                    Some(v) => r is Some && r->0@ == v,
                    None => r is None,
                },
                None => r is None,
            },
    {
        match self.node(key) {
            Some(n) => node_to_value(n, hint),
            None => None,
        }
    }

    fn file_name(&self) -> (r: String)
        ensures
            r@ == "file("@ + self.path_text() + ")"@,
    {
        let mut s = owned("file(");
        push_str(&mut s, self.path.as_str());
        push_str(&mut s, ")");
        s
    }
}

/// Top-level entries with their keys as table keys.
pub open spec fn keyed(entries: Seq<(String, DocNode)>) -> Seq<(DocNode, DocNode)> {
    entries.map_values(|e: (String, DocNode)| (text_node(e.0), e.1))
}

/// Moves the `i`-th entry out of `entries`, leaving an empty one behind.
fn take_entry(entries: &mut Vec<(String, DocNode)>, i: usize) -> (r: (String, DocNode))
    requires
        i < old(entries)@.len(),
    ensures
        r == old(entries)@[i as int],
        final(entries)@.len() == old(entries)@.len(),
        forall|j: int| 0 <= j < old(entries)@.len() && j != i ==> #[trigger] final(entries)@[j] == old(entries)@[j],
{
    let mut slot = (String::new(), string_node(String::new()));
    std::mem::swap(&mut slot, &mut entries[i]);
    slot
}


/// A configuration source backed by a YAML file: a top-level mapping of keys to values.
///
/// YAML is a typed-origin source: integers, floats, booleans, lists and
/// tables keep the types the file gives them. The file is read once; the
/// source holds a snapshot of its values.
pub struct YamlSource {
    doc: Document,
}

impl YamlSource {
    /// The path the source was read from.
    pub closed spec fn path_text(&self) -> Seq<char> {
        self.doc.path_text()
    }

    /// The document value under `key`.
    pub closed spec fn at(&self, key: Seq<char>) -> Option<DocNode> {
        self.doc.at(key)
    }

    /// A source over the top-level entries of the YAML document at `path`.
    pub fn from_entries(path: &str, entries: Vec<(String, DocNode)>) -> (r: Self)
        ensures
            r.path_text() == path@,
            forall|key: Seq<char>| #[trigger] r.at(key) == lookup(keyed(entries@), key),
    {
        YamlSource { doc: Document::new(path, entries, false) }
    }

    /// The value under `key` converted to the type of `hint`.
    pub fn get_typed(&self, key: &str, hint: &FigValue) -> (r: Option<FigValue>)
        ensures
            match self.at(key@) {
                Some(n) => match node_value(n, kind_of(hint@)) {
                    Some(v) => r is Some && r->0@ == v,
                    None => r is None,
                },
                None => r is None,
            },
    {
        self.doc.get_value(key, hint)
    }
}

impl Source for YamlSource {
    /// The scalar text of the value under `key`, as `FigValue::String`.
    fn get(&self, key: &str) -> (r: Option<FigValue>)
        ensures
            match self.at(key@) {
                Some(n) => match node_text(n) {
                    Some(t) => r is Some && r->0@ == ValueView::Str(t),
                    None => r is None,
                },
                None => r is None,
            },
    {
        self.doc.get_text(key)
    }

    fn source_name(&self) -> (r: String)
        ensures
            r@ == "file("@ + self.path_text() + ")"@,
    {
        self.doc.file_name()
    }

    fn as_fig_source(&self) -> (r: FigSource)
        ensures
            r matches FigSource::File(p) && p@ == self.path_text(),
    {
        FigSource::File(self.doc.path.clone())
    }
}

/// A configuration source backed by a JSON file: a top-level object of keys to values.
///
/// JSON is a typed-origin source: integers, floats, booleans, lists and
/// tables keep the types the file gives them. The file is read once; the
/// source holds a snapshot of its values.
pub struct JsonSource {
    doc: Document,
}

impl JsonSource {
    /// The path the source was read from.
    pub closed spec fn path_text(&self) -> Seq<char> {
        self.doc.path_text()
    }

    /// The document value under `key`.
    pub closed spec fn at(&self, key: Seq<char>) -> Option<DocNode> {
        self.doc.at(key)
    }

    /// A source over the top-level entries of the JSON document at `path`.
    pub fn from_entries(path: &str, entries: Vec<(String, DocNode)>) -> (r: Self)
        ensures
            r.path_text() == path@,
            forall|key: Seq<char>| #[trigger] r.at(key) == lookup(keyed(entries@), key),
    {
        JsonSource { doc: Document::new(path, entries, false) }
    }

    /// The value under `key` converted to the type of `hint`.
    pub fn get_typed(&self, key: &str, hint: &FigValue) -> (r: Option<FigValue>)
        ensures
            match self.at(key@) {
                Some(n) => match node_value(n, kind_of(hint@)) {
                    Some(v) => r is Some && r->0@ == v,
                    None => r is None,
                },
                None => r is None,
            },
    {
        self.doc.get_value(key, hint)
    }
}

impl Source for JsonSource {
    /// The scalar text of the value under `key`, as `FigValue::String`.
    fn get(&self, key: &str) -> (r: Option<FigValue>)
        ensures
            match self.at(key@) {
                Some(n) => match node_text(n) {
                    Some(t) => r is Some && r->0@ == ValueView::Str(t),
                    None => r is None,
                },
                None => r is None,
            },
    {
        self.doc.get_text(key)
    }

    fn source_name(&self) -> (r: String)
        ensures
            r@ == "file("@ + self.path_text() + ")"@,
    {
        self.doc.file_name()
    }

    fn as_fig_source(&self) -> (r: FigSource)
        ensures
            r matches FigSource::File(p) && p@ == self.path_text(),
    {
        FigSource::File(self.doc.path.clone())
    }
}

/// A configuration source backed by a TOML file. Nested tables are reached with dotted keys:
/// "database.host" is the entry `host` of the table `database`.
///
/// TOML is a typed-origin source: integers, floats, booleans, lists and
/// tables keep the types the file gives them. The file is read once; the
/// source holds a snapshot of its values.
pub struct TomlSource {
    doc: Document,
}

impl TomlSource {
    /// The path the source was read from.
    pub closed spec fn path_text(&self) -> Seq<char> {
        self.doc.path_text()
    }

    /// The document value under `key`.
    pub closed spec fn at(&self, key: Seq<char>) -> Option<DocNode> {
        self.doc.at(key)
    }

    /// A source over the top-level entries of the TOML document at `path`.
    pub fn from_entries(path: &str, entries: Vec<(String, DocNode)>) -> (r: Self)
        ensures
            r.path_text() == path@,
            forall|key: Seq<char>| #[trigger] r.at(key) == dotted_lookup(keyed(entries@), key),
    {
        TomlSource { doc: Document::new(path, entries, true) }
    }

    /// The value under `key` converted to the type of `hint`.
    pub fn get_typed(&self, key: &str, hint: &FigValue) -> (r: Option<FigValue>)
        ensures
            match self.at(key@) {
                Some(n) => match node_value(n, kind_of(hint@)) {
                    Some(v) => r is Some && r->0@ == v,
                    None => r is None,
                },
                None => r is None,
            },
    {
        self.doc.get_value(key, hint)
    }

    /// The document value under a possibly dotted key: "a.b" walks into
    /// the table "a" for its entry "b".
    pub fn get_toml_value(&self, key: &str) -> (r: Option<&DocNode>)
        ensures
            match self.at(key@) {
                Some(n) => r is Some && *r->0 == n,
                None => r is None,
            },
    {
        self.doc.node(key)
    }
}

impl Source for TomlSource {
    /// The scalar text of the value under `key`, as `FigValue::String`.
    fn get(&self, key: &str) -> (r: Option<FigValue>)
        ensures
            match self.at(key@) {
                Some(n) => match node_text(n) {
                    Some(t) => r is Some && r->0@ == ValueView::Str(t),
                    None => r is None,
                },
                None => r is None,
            },
    {
        self.doc.get_text(key)
    }

    fn source_name(&self) -> (r: String)
        ensures
            r@ == "file("@ + self.path_text() + ")"@,
    {
        self.doc.file_name()
    }

    fn as_fig_source(&self) -> (r: FigSource)
        ensures
            r matches FigSource::File(p) && p@ == self.path_text(),
    {
        FigSource::File(self.doc.path.clone())
    }
}

/// A configuration source backed by an Apple property list whose root is a dictionary (XML, binary or
/// ASCII; the format is told by the content).
///
/// property list is a typed-origin source: integers, floats, booleans, lists and
/// tables keep the types the file gives them. The file is read once; the
/// source holds a snapshot of its values.
pub struct PlistSource {
    doc: Document,
}

impl PlistSource {
    /// The path the source was read from.
    pub closed spec fn path_text(&self) -> Seq<char> {
        self.doc.path_text()
    }

    /// The document value under `key`.
    pub closed spec fn at(&self, key: Seq<char>) -> Option<DocNode> {
        self.doc.at(key)
    }

    /// A source over the top-level entries of the property list document at `path`.
    pub fn from_entries(path: &str, entries: Vec<(String, DocNode)>) -> (r: Self)
        ensures
            r.path_text() == path@,
            forall|key: Seq<char>| #[trigger] r.at(key) == lookup(keyed(entries@), key),
    {
        PlistSource { doc: Document::new(path, entries, false) }
    }

    /// A source over the entries of the property list's root dictionary,
    /// each key as the document value it is.
    pub fn from_table(path: &str, entries: Vec<(DocNode, DocNode)>) -> (r: Self)
        ensures
            r.path_text() == path@,
            forall|key: Seq<char>| #[trigger] r.at(key) == lookup(entries@, key),
    {
        PlistSource { doc: Document { path: owned(path), entries, dotted: false } }
    }

    /// The value under `key` converted to the type of `hint`.
    pub fn get_typed(&self, key: &str, hint: &FigValue) -> (r: Option<FigValue>)
        ensures
            match self.at(key@) {
                Some(n) => match node_value(n, kind_of(hint@)) {
                    Some(v) => r is Some && r->0@ == v,
                    None => r is None,
                },
                None => r is None,
            },
    {
        self.doc.get_value(key, hint)
    }
}

impl Source for PlistSource {
    /// The scalar text of the value under `key`, as `FigValue::String`.
    fn get(&self, key: &str) -> (r: Option<FigValue>)
        ensures
            match self.at(key@) {
                Some(n) => match node_text(n) {
                    Some(t) => r is Some && r->0@ == ValueView::Str(t),
                    None => r is None,
                },
                None => r is None,
            },
    {
        self.doc.get_text(key)
    }

    fn source_name(&self) -> (r: String)
        ensures
            r@ == "file("@ + self.path_text() + ")"@,
    {
        self.doc.file_name()
    }

    fn as_fig_source(&self) -> (r: FigSource)
        ensures
            r matches FigSource::File(p) && p@ == self.path_text(),
    {
        FigSource::File(self.doc.path.clone())
    }
}

/// A configuration source backed by a RON file: a top-level map of string keys to values.
///
/// RON is a typed-origin source: integers, floats, booleans, lists and
/// tables keep the types the file gives them. The file is read once; the
/// source holds a snapshot of its values.
pub struct RonSource {
    doc: Document,
}

impl RonSource {
    /// The path the source was read from.
    pub closed spec fn path_text(&self) -> Seq<char> {
        self.doc.path_text()
    }

    /// The document value under `key`.
    pub closed spec fn at(&self, key: Seq<char>) -> Option<DocNode> {
        self.doc.at(key)
    }

    /// A source over the top-level entries of the RON document at `path`.
    pub fn from_entries(path: &str, entries: Vec<(String, DocNode)>) -> (r: Self)
        ensures
            r.path_text() == path@,
            forall|key: Seq<char>| #[trigger] r.at(key) == lookup(keyed(entries@), key),
    {
        RonSource { doc: Document::new(path, entries, false) }
    }

    /// The value under `key` converted to the type of `hint`.
    pub fn get_typed(&self, key: &str, hint: &FigValue) -> (r: Option<FigValue>)
        ensures
            match self.at(key@) {
                Some(n) => match node_value(n, kind_of(hint@)) {
                    Some(v) => r is Some && r->0@ == v,
                    None => r is None,
                },
                None => r is None,
            },
    {
        self.doc.get_value(key, hint)
    }
}

impl Source for RonSource {
    /// The scalar text of the value under `key`, as `FigValue::String`.
    fn get(&self, key: &str) -> (r: Option<FigValue>)
        ensures
            match self.at(key@) {
                Some(n) => match node_text(n) {
                    Some(t) => r is Some && r->0@ == ValueView::Str(t),
                    None => r is None,
                },
                None => r is None,
            },
    {
        self.doc.get_text(key)
    }

    fn source_name(&self) -> (r: String)
        ensures
            r@ == "file("@ + self.path_text() + ")"@,
    {
        self.doc.file_name()
    }

    fn as_fig_source(&self) -> (r: FigSource)
        ensures
            r matches FigSource::File(p) && p@ == self.path_text(),
    {
        FigSource::File(self.doc.path.clone())
    }
}

}
