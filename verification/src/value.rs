//! `FigValue`, the typed value a configuration key holds.
use vstd::prelude::*;
use crate::duration::Duration;
use crate::strmap::{MapValue, StrMap};
use crate::numeric::{float_bits_eq, float_eq};

verus! {

/// The typed value container for a Fig.
///
/// Each variant corresponds to a value type. Floating-point payloads are
/// carried as their IEEE-754 bit patterns (`f64::to_bits`), so values
/// move through the library unchanged; arithmetic on them, parsing and
/// printing happen where floating point is available.
#[derive(Debug, Clone, PartialEq)]
pub enum FigValue {
    String(String),
    Int(i32),
    Int64(i64),
    Int128(i128),
    Float64(u64),
    Float128(u64),
    Bool(bool),
    Duration(Duration),
    ListString(Vec<String>),
    ListInt(Vec<i32>),
    ListInt64(Vec<i64>),
    ListInt128(Vec<i128>),
    ListFloat64(Vec<u64>),
    ListFloat128(Vec<u64>),
    ListBool(Vec<bool>),
    MapString(StrMap<String>),
    MapInt(StrMap<i32>),
    MapInt64(StrMap<i64>),
    MapInt128(StrMap<i128>),
    MapFloat64(StrMap<u64>),
    MapFloat128(StrMap<u64>),
    MapBool(StrMap<bool>),
}

/// The type of a `FigValue`, without its payload.
#[derive(Debug, Clone, Copy, PartialEq, Eq, Structural)]
pub enum Kind {
    String,
    Int,
    Int64,
    Int128,
    Float64,
    Float128,
    Bool,
    Duration,
    ListString,
    ListInt,
    ListInt64,
    ListInt128,
    ListFloat64,
    ListFloat128,
    ListBool,
    MapString,
    MapInt,
    MapInt64,
    MapInt128,
    MapFloat64,
    MapFloat128,
    MapBool,
}

/// The mathematical content of a `FigValue`.
pub enum ValueView {
    Str(Seq<char>),
    Int(i32),
    Int64(i64),
    Int128(i128),
    Float64(u64),
    Float128(u64),
    Bool(bool),
    Duration(int),
    ListString(Seq<Seq<char>>),
    ListInt(Seq<i32>),
    ListInt64(Seq<i64>),
    ListInt128(Seq<i128>),
    ListFloat64(Seq<u64>),
    ListFloat128(Seq<u64>),
    ListBool(Seq<bool>),
    MapString(Map<Seq<char>, Seq<char>>),
    MapInt(Map<Seq<char>, i32>),
    MapInt64(Map<Seq<char>, i64>),
    MapInt128(Map<Seq<char>, i128>),
    MapFloat64(Map<Seq<char>, u64>),
    MapFloat128(Map<Seq<char>, u64>),
    MapBool(Map<Seq<char>, bool>),
}

/// The views of a sequence's elements.
pub open spec fn seq_view<T: View>(s: Seq<T>) -> Seq<T::V> {
    s.map_values(|x: T| x@)
}

impl View for FigValue {
    type V = ValueView;

    open spec fn view(&self) -> ValueView {
        match self {
            FigValue::String(s) => ValueView::Str(s@),
            FigValue::Int(n) => ValueView::Int(*n),
            FigValue::Int64(n) => ValueView::Int64(*n),
            FigValue::Int128(n) => ValueView::Int128(*n),
            FigValue::Float64(b) => ValueView::Float64(*b),
            FigValue::Float128(b) => ValueView::Float128(*b),
            FigValue::Bool(b) => ValueView::Bool(*b),
            FigValue::Duration(d) => ValueView::Duration(d.total_nanos()),
            FigValue::ListString(v) => ValueView::ListString(seq_view(v@)),
            FigValue::ListInt(v) => ValueView::ListInt(seq_view(v@)),
            FigValue::ListInt64(v) => ValueView::ListInt64(seq_view(v@)),
            FigValue::ListInt128(v) => ValueView::ListInt128(seq_view(v@)),
            FigValue::ListFloat64(v) => ValueView::ListFloat64(seq_view(v@)),
            FigValue::ListFloat128(v) => ValueView::ListFloat128(seq_view(v@)),
            FigValue::ListBool(v) => ValueView::ListBool(seq_view(v@)),
            FigValue::MapString(m) => ValueView::MapString(m@),
            FigValue::MapInt(m) => ValueView::MapInt(m@),
            FigValue::MapInt64(m) => ValueView::MapInt64(m@),
            FigValue::MapInt128(m) => ValueView::MapInt128(m@),
            FigValue::MapFloat64(m) => ValueView::MapFloat64(m@),
            FigValue::MapFloat128(m) => ValueView::MapFloat128(m@),
            FigValue::MapBool(m) => ValueView::MapBool(m@),
        }
    }
}

/// The type of a value view.
pub open spec fn kind_of(v: ValueView) -> Kind {
    match v {
        ValueView::Str(_) => Kind::String,
        ValueView::Int(_) => Kind::Int,
        ValueView::Int64(_) => Kind::Int64,
        ValueView::Int128(_) => Kind::Int128,
        ValueView::Float64(_) => Kind::Float64,
        ValueView::Float128(_) => Kind::Float128,
        ValueView::Bool(_) => Kind::Bool,
        ValueView::Duration(_) => Kind::Duration,
        ValueView::ListString(_) => Kind::ListString,
        ValueView::ListInt(_) => Kind::ListInt,
        ValueView::ListInt64(_) => Kind::ListInt64,
        ValueView::ListInt128(_) => Kind::ListInt128,
        ValueView::ListFloat64(_) => Kind::ListFloat64,
        ValueView::ListFloat128(_) => Kind::ListFloat128,
        ValueView::ListBool(_) => Kind::ListBool,
        ValueView::MapString(_) => Kind::MapString,
        ValueView::MapInt(_) => Kind::MapInt,
        ValueView::MapInt64(_) => Kind::MapInt64,
        ValueView::MapInt128(_) => Kind::MapInt128,
        ValueView::MapFloat64(_) => Kind::MapFloat64,
        ValueView::MapFloat128(_) => Kind::MapFloat128,
        ValueView::MapBool(_) => Kind::MapBool,
    }
}

/// The name of a type, as `FigValue::type_name` returns it.
pub open spec fn kind_name(k: Kind) -> Seq<char> {
    match k {
        Kind::String => "String"@,
        Kind::Int => "Int"@,
        Kind::Int64 => "Int64"@,
        Kind::Int128 => "Int128"@,
        Kind::Float64 => "Float64"@,
        Kind::Float128 => "Float128"@,
        Kind::Bool => "Bool"@,
        Kind::Duration => "Duration"@,
        Kind::ListString => "ListString"@,
        Kind::ListInt => "ListInt"@,
        Kind::ListInt64 => "ListInt64"@,
        Kind::ListInt128 => "ListInt128"@,
        Kind::ListFloat64 => "ListFloat64"@,
        Kind::ListFloat128 => "ListFloat128"@,
        Kind::ListBool => "ListBool"@,
        Kind::MapString => "MapString"@,
        Kind::MapInt => "MapInt"@,
        Kind::MapInt64 => "MapInt64"@,
        Kind::MapInt128 => "MapInt128"@,
        Kind::MapFloat64 => "MapFloat64"@,
        Kind::MapFloat128 => "MapFloat128"@,
        Kind::MapBool => "MapBool"@,
    }
}

/// The map types.
pub open spec fn is_map_kind(k: Kind) -> bool {
    k == Kind::MapString || k == Kind::MapInt || k == Kind::MapInt64 || k == Kind::MapInt128
        || k == Kind::MapFloat64 || k == Kind::MapFloat128 || k == Kind::MapBool
}

/// The list types.
pub open spec fn is_list_kind(k: Kind) -> bool {
    k == Kind::ListString || k == Kind::ListInt || k == Kind::ListInt64 || k == Kind::ListInt128
        || k == Kind::ListFloat64 || k == Kind::ListFloat128 || k == Kind::ListBool
}

impl Kind {
    /// The type's name.
    pub fn name(&self) -> (r: &'static str)
        ensures
            r@ == kind_name(*self),
    {
        match self {
            Kind::String => "String",
            Kind::Int => "Int",
            Kind::Int64 => "Int64",
            Kind::Int128 => "Int128",
            Kind::Float64 => "Float64",
            Kind::Float128 => "Float128",
            Kind::Bool => "Bool",
            Kind::Duration => "Duration",
            Kind::ListString => "ListString",
            Kind::ListInt => "ListInt",
            Kind::ListInt64 => "ListInt64",
            Kind::ListInt128 => "ListInt128",
            Kind::ListFloat64 => "ListFloat64",
            Kind::ListFloat128 => "ListFloat128",
            Kind::ListBool => "ListBool",
            Kind::MapString => "MapString",
            Kind::MapInt => "MapInt",
            Kind::MapInt64 => "MapInt64",
            Kind::MapInt128 => "MapInt128",
            Kind::MapFloat64 => "MapFloat64",
            Kind::MapFloat128 => "MapFloat128",
            Kind::MapBool => "MapBool",
        }
    }
}

/// Copies a list element by element.
pub fn copy_list<T: MapValue>(v: &Vec<T>) -> (r: Vec<T>)
    ensures
        seq_view(r@) == seq_view(v@),
{
    let mut r: Vec<T> = Vec::new();
    let mut i: usize = 0;
    while i < v.len()
        invariant
            i <= v@.len(),
            r@.len() == i,
            forall|j: int| 0 <= j < i ==> r@[j]@ == v@[j]@,
        decreases v@.len() - i,
    {
        r.push(v[i].copy_value());
        i += 1;
    }
    assert(seq_view(r@) =~= seq_view(v@));
    r
}

/// Two lists of doubles (by bit pattern) are equal element by element as
/// numbers.
pub open spec fn floats_eq(a: Seq<u64>, b: Seq<u64>) -> bool {
    a.len() == b.len() && forall|i: int| 0 <= i < a.len() ==> #[trigger] float_bits_eq(a[i], b[i])
}

/// Two maps of doubles (by bit pattern) hold the same keys, with values
/// equal as numbers.
pub open spec fn float_maps_eq(a: Map<Seq<char>, u64>, b: Map<Seq<char>, u64>) -> bool {
    a.dom() == b.dom() && forall|k: Seq<char>| #[trigger] a.contains_key(k) ==> float_bits_eq(a[k], b[k])
}

/// Two values are the same value, as comparing the values compares them:
/// same type and content, floats compared as numbers (the two zeros are
/// equal, a NaN equals nothing), in lists and maps element by element.
pub open spec fn same_value(a: ValueView, b: ValueView) -> bool {
    match (a, b) {
        (ValueView::Float64(x), ValueView::Float64(y)) => float_bits_eq(x, y),
        (ValueView::Float128(x), ValueView::Float128(y)) => float_bits_eq(x, y),
        (ValueView::ListFloat64(x), ValueView::ListFloat64(y)) => floats_eq(x, y),
        (ValueView::ListFloat128(x), ValueView::ListFloat128(y)) => floats_eq(x, y),
        (ValueView::MapFloat64(x), ValueView::MapFloat64(y)) => float_maps_eq(x, y),
        (ValueView::MapFloat128(x), ValueView::MapFloat128(y)) => float_maps_eq(x, y),
        _ => a == b,
    }
}

/// A value the same as another is the same as itself, and the two have
/// one type.
pub proof fn lemma_same_value(a: ValueView, b: ValueView)
    requires
        same_value(a, b),
    ensures
        same_value(a, a),
        kind_of(a) == kind_of(b),
{
    match (a, b) {
        (ValueView::ListFloat64(x), ValueView::ListFloat64(y)) => {
            assert forall|i: int| 0 <= i < x.len() implies #[trigger] float_bits_eq(x[i], x[i]) by {
                assert(float_bits_eq(x[i], y[i]));
            }
        },
        (ValueView::ListFloat128(x), ValueView::ListFloat128(y)) => {
            assert forall|i: int| 0 <= i < x.len() implies #[trigger] float_bits_eq(x[i], x[i]) by {
                assert(float_bits_eq(x[i], y[i]));
            }
        },
        (ValueView::MapFloat64(x), ValueView::MapFloat64(y)) => {
            assert forall|k: Seq<char>| #[trigger] x.contains_key(k) implies float_bits_eq(x[k], x[k]) by {
                assert(float_bits_eq(x[k], y[k]));
            }
        },
        (ValueView::MapFloat128(x), ValueView::MapFloat128(y)) => {
            assert forall|k: Seq<char>| #[trigger] x.contains_key(k) implies float_bits_eq(x[k], x[k]) by {
                assert(float_bits_eq(x[k], y[k]));
            }
        },
        _ => {},
    }
}

/// Compares two lists of doubles (by bit pattern) element by element as
/// numbers.
fn same_floats(a: &Vec<u64>, b: &Vec<u64>) -> (r: bool)
    ensures
        r == floats_eq(seq_view(a@), seq_view(b@)),
{
    if a.len() != b.len() {
        assert(seq_view(a@).len() != seq_view(b@).len());
        return false;
    }
    let mut i: usize = 0;
    while i < a.len()
        invariant
            a@.len() == b@.len(),
            i <= a@.len(),
            forall|j: int| 0 <= j < i ==> #[trigger] float_bits_eq(seq_view(a@)[j], seq_view(b@)[j]),
        decreases a@.len() - i,
    {
        assert(seq_view(a@)[i as int] == a@[i as int]);
        assert(seq_view(b@)[i as int] == b@[i as int]);
        if !float_eq(a[i], b[i]) {
            return false;
        }
        i += 1;
    }
    true
}

/// Compares two lists element by element.
pub fn same_list<T: MapValue>(a: &Vec<T>, b: &Vec<T>) -> (r: bool)
    ensures
        r == (seq_view(a@) == seq_view(b@)),
{
    if a.len() != b.len() {
        assert(seq_view(a@).len() != seq_view(b@).len());
        return false;
    }
    let mut i: usize = 0;
    while i < a.len()
        invariant
            a@.len() == b@.len(),
            i <= a@.len(),
            forall|j: int| 0 <= j < i ==> a@[j]@ == b@[j]@,
        decreases a@.len() - i,
    {
        if !a[i].same_value(&b[i]) {
            assert(seq_view(a@)[i as int] != seq_view(b@)[i as int]);
            return false;
        }
        i += 1;
    }
    assert(seq_view(a@) =~= seq_view(b@));
    true
}

impl FigValue {
    /// The value's type.
    pub fn kind(&self) -> (r: Kind)
        ensures
            r == kind_of(self@),
    {
        match self {
            FigValue::String(_) => Kind::String,
            FigValue::Int(_) => Kind::Int,
            FigValue::Int64(_) => Kind::Int64,
            FigValue::Int128(_) => Kind::Int128,
            FigValue::Float64(_) => Kind::Float64,
            FigValue::Float128(_) => Kind::Float128,
            FigValue::Bool(_) => Kind::Bool,
            FigValue::Duration(_) => Kind::Duration,
            FigValue::ListString(_) => Kind::ListString,
            FigValue::ListInt(_) => Kind::ListInt,
            FigValue::ListInt64(_) => Kind::ListInt64,
            FigValue::ListInt128(_) => Kind::ListInt128,
            FigValue::ListFloat64(_) => Kind::ListFloat64,
            FigValue::ListFloat128(_) => Kind::ListFloat128,
            FigValue::ListBool(_) => Kind::ListBool,
            FigValue::MapString(_) => Kind::MapString,
            FigValue::MapInt(_) => Kind::MapInt,
            FigValue::MapInt64(_) => Kind::MapInt64,
            FigValue::MapInt128(_) => Kind::MapInt128,
            FigValue::MapFloat64(_) => Kind::MapFloat64,
            FigValue::MapFloat128(_) => Kind::MapFloat128,
            FigValue::MapBool(_) => Kind::MapBool,
        }
    }

    /// Returns the name of the type this value represents.
    /// Used in error messages and history entries.
    pub fn type_label(&self) -> (r: &'static str)
        ensures
            r@ == kind_name(kind_of(self@)),
    {
        self.kind().name()
    }

    /// Returns true if this value and the other are the same variant,
    /// regardless of the contained value.
    pub fn same_type(&self, other: &FigValue) -> (r: bool)
        ensures
            r == (kind_of(self@) == kind_of(other@)),
    {
        self.kind() == other.kind()
    }

    /// True when the values are the same value (`same_value`): floats
    /// compare as numbers.
    pub fn same_as(&self, other: &FigValue) -> (r: bool)
        ensures
            r == same_value(self@, other@),
    {
        match (self, other) {
            (FigValue::Float64(a), FigValue::Float64(b)) => float_eq(*a, *b),
            (FigValue::Float128(a), FigValue::Float128(b)) => float_eq(*a, *b),
            (FigValue::ListFloat64(a), FigValue::ListFloat64(b)) => same_floats(a, b),
            (FigValue::ListFloat128(a), FigValue::ListFloat128(b)) => same_floats(a, b),
            (FigValue::MapFloat64(a), FigValue::MapFloat64(b)) => a.same_floats(b),
            (FigValue::MapFloat128(a), FigValue::MapFloat128(b)) => a.same_floats(b),
            _ => self.equals(other),
        }
    }

    /// True when both values have the same type and the same content.
    /// Floating-point payloads compare by bit pattern.
    pub fn equals(&self, other: &FigValue) -> (r: bool)
        ensures
            r == (self@ == other@),
    {
        match (self, other) {
            (FigValue::String(a), FigValue::String(b)) => a.same_value(b),
            (FigValue::Int(a), FigValue::Int(b)) => *a == *b,
            (FigValue::Int64(a), FigValue::Int64(b)) => *a == *b,
            (FigValue::Int128(a), FigValue::Int128(b)) => *a == *b,
            (FigValue::Float64(a), FigValue::Float64(b)) => *a == *b,
            (FigValue::Float128(a), FigValue::Float128(b)) => *a == *b,
            (FigValue::Bool(a), FigValue::Bool(b)) => *a == *b,
            (FigValue::Duration(a), FigValue::Duration(b)) => a.same_span(b),
            (FigValue::ListString(a), FigValue::ListString(b)) => same_list(a, b),
            (FigValue::ListInt(a), FigValue::ListInt(b)) => same_list(a, b),
            (FigValue::ListInt64(a), FigValue::ListInt64(b)) => same_list(a, b),
            (FigValue::ListInt128(a), FigValue::ListInt128(b)) => same_list(a, b),
            (FigValue::ListFloat64(a), FigValue::ListFloat64(b)) => same_list(a, b),
            (FigValue::ListFloat128(a), FigValue::ListFloat128(b)) => same_list(a, b),
            (FigValue::ListBool(a), FigValue::ListBool(b)) => same_list(a, b),
            (FigValue::MapString(a), FigValue::MapString(b)) => a.same_as(b),
            (FigValue::MapInt(a), FigValue::MapInt(b)) => a.same_as(b),
            (FigValue::MapInt64(a), FigValue::MapInt64(b)) => a.same_as(b),
            (FigValue::MapInt128(a), FigValue::MapInt128(b)) => a.same_as(b),
            (FigValue::MapFloat64(a), FigValue::MapFloat64(b)) => a.same_as(b),
            (FigValue::MapFloat128(a), FigValue::MapFloat128(b)) => a.same_as(b),
            (FigValue::MapBool(a), FigValue::MapBool(b)) => a.same_as(b),
            _ => {
                assert(kind_of(self@) != kind_of(other@));
                false
            },
        }
    }

    /// A copy of this value.
    pub fn duplicate(&self) -> (r: FigValue)
        ensures
            r@ == self@,
    {
        match self {
            FigValue::String(s) => FigValue::String(s.clone()),
            FigValue::Int(n) => FigValue::Int(*n),
            FigValue::Int64(n) => FigValue::Int64(*n),
            FigValue::Int128(n) => FigValue::Int128(*n),
            FigValue::Float64(b) => FigValue::Float64(*b),
            FigValue::Float128(b) => FigValue::Float128(*b),
            FigValue::Bool(b) => FigValue::Bool(*b),
            FigValue::Duration(d) => FigValue::Duration(*d),
            FigValue::ListString(v) => FigValue::ListString(copy_list(v)),
            FigValue::ListInt(v) => FigValue::ListInt(copy_list(v)),
            FigValue::ListInt64(v) => FigValue::ListInt64(copy_list(v)),
            FigValue::ListInt128(v) => FigValue::ListInt128(copy_list(v)),
            FigValue::ListFloat64(v) => FigValue::ListFloat64(copy_list(v)),
            FigValue::ListFloat128(v) => FigValue::ListFloat128(copy_list(v)),
            FigValue::ListBool(v) => FigValue::ListBool(copy_list(v)),
            FigValue::MapString(m) => FigValue::MapString(m.duplicate()),
            FigValue::MapInt(m) => FigValue::MapInt(m.duplicate()),
            FigValue::MapInt64(m) => FigValue::MapInt64(m.duplicate()),
            FigValue::MapInt128(m) => FigValue::MapInt128(m.duplicate()),
            FigValue::MapFloat64(m) => FigValue::MapFloat64(m.duplicate()),
            FigValue::MapFloat128(m) => FigValue::MapFloat128(m.duplicate()),
            FigValue::MapBool(m) => FigValue::MapBool(m.duplicate()),
        }
    }
}

/// Copies an optional value.
pub fn duplicate_opt(v: &Option<FigValue>) -> (r: Option<FigValue>)
    ensures
        match (r, *v) {
            (Some(a), Some(b)) => a@ == b@,
            (None, None) => true,
            _ => false,
        },
{
    match v {
        Some(x) => Some(x.duplicate()),
        None => None,
    }
}


/// Floating-point text, for a library that carries floats as bit patterns.
///
/// The application supplies an implementation backed by the platform's
/// `f64` parsing and printing (`str::parse::<f64>` and `Display`).
pub trait FloatCodec {
    /// The bit pattern of the float that `text` denotes, if it is one.
    fn parse_float(&self, text: &str) -> Option<u64>;

    /// The text of the float with bit pattern `bits`.
    fn float_text(&self, bits: u64) -> String;
}

pub open spec fn is_float_kind(k: Kind) -> bool {
    k == Kind::Float64 || k == Kind::Float128 || k == Kind::ListFloat64 || k == Kind::ListFloat128
        || k == Kind::MapFloat64 || k == Kind::MapFloat128
}

}
