//! Human-readable text: of values, sources, history states and entries,
//! history logs and mutations (what `Display` prints in a std build).
use vstd::prelude::*;
use crate::clock::secs_since_epoch;
use crate::duration::duration_debug_text;
use crate::fig::{Fig, FigHistoryEntry, FigSource, FigState};
use crate::mutation::Mutation;
use crate::numeric::{decimal, push_decimal, push_unsigned};
use crate::strmap::StrMap;
use crate::text::{owned, push_str};
use crate::value::{FigValue, FloatCodec, seq_view};

verus! {

/// `parts` joined with `sep` between each two.
pub open spec fn joined(parts: Seq<Seq<char>>, sep: Seq<char>) -> Seq<char>
    decreases parts.len(),
{
    if parts.len() == 0 {
        Seq::empty()
    } else if parts.len() == 1 {
        parts[0]
    } else {
        joined(parts.drop_last(), sep) + sep + parts.last()
    }
}

/// A scalar that prints as text.
pub trait Render: View + Sized {
    /// The text of the value `v`.
    spec fn text(v: Self::V) -> Seq<char>;

    /// Appends this value's text to `out`.
    fn render(&self, out: &mut String)
        ensures
            final(out)@ == old(out)@ + Self::text(self@);
}

impl Render for String {
    open spec fn text(v: Seq<char>) -> Seq<char> {
        v
    }

    fn render(&self, out: &mut String) {
        push_str(out, self.as_str());
    }
}

impl Render for i32 {
    open spec fn text(v: i32) -> Seq<char> {
        decimal(v as int)
    }

    fn render(&self, out: &mut String) {
        push_decimal(out, *self as i128);
    }
}

impl Render for i64 {
    open spec fn text(v: i64) -> Seq<char> {
        decimal(v as int)
    }

    fn render(&self, out: &mut String) {
        push_decimal(out, *self as i128);
    }
}

impl Render for i128 {
    open spec fn text(v: i128) -> Seq<char> {
        decimal(v as int)
    }

    fn render(&self, out: &mut String) {
        push_decimal(out, *self);
    }
}

impl Render for bool {
    open spec fn text(v: bool) -> Seq<char> {
        if v { "true"@ } else { "false"@ }
    }

    fn render(&self, out: &mut String) {
        if *self {
            push_str(out, "true");
        } else {
            push_str(out, "false");
        }
    }
}

/// The text of a list: its elements' texts, comma-separated, in brackets.
pub open spec fn list_text<T: Render>(v: Seq<T::V>) -> Seq<char> {
    "["@ + joined(v.map_values(|x: T::V| T::text(x)), ", "@) + "]"@
}

/// The text of a map: its entries as `key: value`, comma-separated, in
/// braces, in the map's entry order.
pub open spec fn map_text<T: Render>(e: Seq<(Seq<char>, T::V)>) -> Seq<char> {
    "{"@ + joined(e.map_values(|p: (Seq<char>, T::V)| p.0 + ": "@ + T::text(p.1)), ", "@) + "}"@
}

fn render_list<T: Render>(v: &Vec<T>, out: &mut String)
    ensures
        final(out)@ == old(out)@ + list_text::<T>(seq_view(v@)),
{
    let ghost start = out@;
    let ghost parts = seq_view(v@).map_values(|x: T::V| T::text(x));
    push_str(out, "[");
    let mut i: usize = 0;
    while i < v.len()
        invariant
            i <= v@.len(),
            parts == seq_view(v@).map_values(|x: T::V| T::text(x)),
            out@ == start + "["@ + joined(parts.take(i as int), ", "@),
        decreases v@.len() - i,
    {
        assert(parts.take(i + 1).drop_last() =~= parts.take(i as int));
        assert(parts.take(i + 1).last() == T::text(v@[i as int]@));
        if i > 0 {
            push_str(out, ", ");
        }
        v[i].render(out);
        proof {
            if i == 0 {
                assert(joined(parts.take(1), ", "@) == parts.take(1)[0]);
            }
            assert(out@ =~= start + "["@ + joined(parts.take(i + 1), ", "@));
        }
        i += 1;
    }
    assert(parts.take(v@.len() as int) =~= parts);
    push_str(out, "]");
}

fn render_map<T: Render>(m: &StrMap<T>, out: &mut String)
    ensures
        final(out)@ == old(out)@ + map_text::<T>(m.entry_seq()),
{
    let ghost start = out@;
    let ghost parts = m.entry_seq().map_values(|p: (Seq<char>, T::V)| p.0 + ": "@ + T::text(p.1));
    push_str(out, "{");
    let n = m.entry_count();
    let mut i: usize = 0;
    while i < n
        invariant
            n == m.entry_seq().len(),
            i <= n,
            parts == m.entry_seq().map_values(|p: (Seq<char>, T::V)| p.0 + ": "@ + T::text(p.1)),
            out@ == start + "{"@ + joined(parts.take(i as int), ", "@),
        decreases n - i,
    {
        assert(parts.take(i + 1).drop_last() =~= parts.take(i as int));
        if i > 0 {
            push_str(out, ", ");
        }
        push_str(out, m.key_at(i).as_str());
        push_str(out, ": ");
        m.value_at(i).render(out);
        proof {
            assert(parts.take(i + 1).last() == parts[i as int]);
            if i == 0 {
                assert(joined(parts.take(1), ", "@) == parts.take(1)[0]);
            }
            assert(out@ =~= start + "{"@ + joined(parts.take(i + 1), ", "@));
        }
        i += 1;
    }
    assert(parts.take(n as int) =~= parts);
    push_str(out, "}");
}

/// A float's text `t` for the bit pattern `bits`: with no codec at hand it
/// is the bit pattern in decimal; with one it is the codec's text.
pub open spec fn float_piece(bits: u64, t: Seq<char>, has_codec: bool) -> bool {
    !has_codec ==> t == decimal(bits as int)
}

/// `ts` are texts of the floats `bits`, one each (see `float_piece`).
pub open spec fn float_texts(bits: Seq<u64>, ts: Seq<Seq<char>>, has_codec: bool) -> bool {
    &&& ts.len() == bits.len()
    &&& forall|i: int| 0 <= i < ts.len() ==> float_piece(bits[i], #[trigger] ts[i], has_codec)
}

/// The values of a float map's entries, in entry order.
pub open spec fn entry_bits(e: Seq<(Seq<char>, u64)>) -> Seq<u64> {
    e.map_values(|p: (Seq<char>, u64)| p.1)
}

/// The text of one map entry whose value printed as `t`.
pub open spec fn entry_piece(key: Seq<char>, t: Seq<char>) -> Seq<char> {
    key + ": "@ + t
}

/// Appends a float's text: the codec's, or, with no codec at hand, its
/// bit pattern in decimal.
fn render_float(bits: u64, floats: Option<&dyn FloatCodec>, out: &mut String)
    ensures
        exists|t: Seq<char>| final(out)@ == old(out)@ + t && float_piece(bits, t, floats is Some),
{
    match floats {
        Some(c) => {
            let t = c.float_text(bits);
            push_str(out, t.as_str());
            assert(float_piece(bits, t@, true));
        },
        None => {
            push_unsigned(out, bits as u128);
            assert(float_piece(bits, decimal(bits as int), false));
        },
    }
}

/// Appends the text of a float list: its items' texts (see `float_piece`)
/// between brackets, separated by ", ".
fn render_float_list(v: &Vec<u64>, floats: Option<&dyn FloatCodec>, out: &mut String)
    ensures
        exists|ts: Seq<Seq<char>>| #[trigger] float_texts(v@, ts, floats is Some)
            && final(out)@ == old(out)@ + "["@ + joined(ts, ", "@) + "]"@,
{
    let ghost start = out@;
    let ghost mut ts: Seq<Seq<char>> = Seq::empty();
    push_str(out, "[");
    let mut i: usize = 0;
    while i < v.len()
        invariant
            i <= v@.len(),
            ts.len() == i,
            forall|j: int| 0 <= j < ts.len() ==> float_piece(v@[j], #[trigger] ts[j], floats is Some),
            out@ == start + "["@ + joined(ts, ", "@),
        decreases v@.len() - i,
    {
        let ghost before = out@;
        if i > 0 {
            push_str(out, ", ");
        }
        let ghost mid = out@;
        render_float(v[i], floats, out);
        proof {
            let t = choose|t: Seq<char>| out@ == mid + t && float_piece(v@[i as int], t, floats is Some);
            let nts = ts.push(t);
            assert(nts.drop_last() =~= ts);
            if i == 0 {
                assert(joined(nts, ", "@) == nts[0]);
            }
            assert(out@ =~= start + "["@ + joined(nts, ", "@));
            ts = nts;
        }
        i += 1;
    }
    push_str(out, "]");
    assert(float_texts(v@, ts, floats is Some));
}

/// Appends the text of a float map: its entries as "key: text" (see
/// `float_piece`) in entry order between braces, separated by ", ".
fn render_float_map(m: &StrMap<u64>, floats: Option<&dyn FloatCodec>, out: &mut String)
    ensures
        exists|ts: Seq<Seq<char>>| #[trigger] float_texts(entry_bits(m.entry_seq()), ts, floats is Some)
            && final(out)@ == old(out)@ + "{"@
                + joined(Seq::new(ts.len(), |i: int| entry_piece(m.entry_seq()[i].0, ts[i])), ", "@) + "}"@,
{
    let ghost start = out@;
    let ghost mut ts: Seq<Seq<char>> = Seq::empty();
    push_str(out, "{");
    let n = m.entry_count();
    let mut i: usize = 0;
    while i < n
        invariant
            n == m.entry_seq().len(),
            i <= n,
            ts.len() == i,
            forall|j: int| 0 <= j < ts.len() ==> float_piece(m.entry_seq()[j].1, #[trigger] ts[j], floats is Some),
            out@ == start + "{"@ + joined(Seq::new(ts.len(), |j: int| entry_piece(m.entry_seq()[j].0, ts[j])), ", "@),
        decreases n - i,
    {
        if i > 0 {
            push_str(out, ", ");
        }
        push_str(out, m.key_at(i).as_str());
        push_str(out, ": ");
        let ghost mid = out@;
        render_float(*m.value_at(i), floats, out);
        proof {
            let t = choose|t: Seq<char>| out@ == mid + t && float_piece(m.entry_seq()[i as int].1, t, floats is Some);
            let nts = ts.push(t);
            let old_parts = Seq::new(ts.len(), |j: int| entry_piece(m.entry_seq()[j].0, ts[j]));
            let new_parts = Seq::new(nts.len(), |j: int| entry_piece(m.entry_seq()[j].0, nts[j]));
            assert(new_parts.drop_last() =~= old_parts);
            assert(new_parts.last() == entry_piece(m.entry_seq()[i as int].0, t));
            if i == 0 {
                assert(joined(new_parts, ", "@) == new_parts[0]);
            }
            assert(out@ =~= start + "{"@ + joined(new_parts, ", "@));
            ts = nts;
        }
        i += 1;
    }
    push_str(out, "}");
    assert(float_texts(entry_bits(m.entry_seq()), ts, floats is Some));
}

/// The text of a value, as `Display` prints it; `None` for the
/// floating-point types, whose text is the float codec's.
pub open spec fn value_text(v: FigValue) -> Option<Seq<char>> {
    match v {
        FigValue::String(s) => Some(s@),
        FigValue::Int(n) => Some(decimal(n as int)),
        FigValue::Int64(n) => Some(decimal(n as int)),
        FigValue::Int128(n) => Some(decimal(n as int)),
        FigValue::Bool(b) => Some(<bool as Render>::text(b)),
        FigValue::Duration(d) => Some(duration_debug_text(d.secs_part(), d.nanos_part())),
        FigValue::ListString(l) => Some(list_text::<String>(seq_view(l@))),
        FigValue::ListInt(l) => Some(list_text::<i32>(seq_view(l@))),
        FigValue::ListInt64(l) => Some(list_text::<i64>(seq_view(l@))),
        FigValue::ListInt128(l) => Some(list_text::<i128>(seq_view(l@))),
        FigValue::ListBool(l) => Some(list_text::<bool>(seq_view(l@))),
        FigValue::MapString(m) => Some(map_text::<String>(m.entry_seq())),
        FigValue::MapInt(m) => Some(map_text::<i32>(m.entry_seq())),
        FigValue::MapInt64(m) => Some(map_text::<i64>(m.entry_seq())),
        FigValue::MapInt128(m) => Some(map_text::<i128>(m.entry_seq())),
        FigValue::MapBool(m) => Some(map_text::<bool>(m.entry_seq())),
        _ => None,
    }
}

/// Appends the text of `v` to `out`, floats printed by `floats`.
pub fn push_value(out: &mut String, v: &FigValue, floats: Option<&dyn FloatCodec>)
    ensures
        value_text(*v) is Some ==> final(out)@ == old(out)@ + value_text(*v)->0,
{
    match v {
        FigValue::String(s) => push_str(out, s.as_str()),
        FigValue::Int(n) => n.render(out),
        FigValue::Int64(n) => n.render(out),
        FigValue::Int128(n) => n.render(out),
        FigValue::Float64(b) => render_float(*b, floats, out),
        FigValue::Float128(b) => render_float(*b, floats, out),
        FigValue::Bool(b) => b.render(out),
        FigValue::Duration(d) => {
            let t = d.debug_text();
            push_str(out, t.as_str());
        },
        FigValue::ListString(l) => render_list(l, out),
        FigValue::ListInt(l) => render_list(l, out),
        FigValue::ListInt64(l) => render_list(l, out),
        FigValue::ListInt128(l) => render_list(l, out),
        FigValue::ListFloat64(l) => render_float_list(l, floats, out),
        FigValue::ListFloat128(l) => render_float_list(l, floats, out),
        FigValue::ListBool(l) => render_list(l, out),
        FigValue::MapString(m) => render_map(m, out),
        FigValue::MapInt(m) => render_map(m, out),
        FigValue::MapInt64(m) => render_map(m, out),
        FigValue::MapInt128(m) => render_map(m, out),
        FigValue::MapFloat64(m) => render_float_map(m, floats, out),
        FigValue::MapFloat128(m) => render_float_map(m, floats, out),
        FigValue::MapBool(m) => render_map(m, out),
    }
}

impl FigValue {
    /// The text of this value (what `Display` prints). Floats print as
    /// their bit patterns; see `to_text_with`.
    pub fn to_text(&self) -> (r: String)
        ensures
            value_text(*self) is Some ==> r@ == value_text(*self)->0,
    {
        self.to_text_with(None)
    }

    /// The text of this value, floats printed by `floats`.
    pub fn to_text_with(&self, floats: Option<&dyn FloatCodec>) -> (r: String)
        ensures
            value_text(*self) is Some ==> r@ == value_text(*self)->0,
    {
        let mut s = String::new();
        push_value(&mut s, self, floats);
        s
    }
}

// ── sources and states ────────────────────────────────────────────────────────

/// The text of a source.
pub open spec fn source_text(s: FigSource) -> Seq<char> {
    match s {
        FigSource::Empty => "empty"@,
        FigSource::Default => "default"@,
        FigSource::Programmatic => "programmatic"@,
        FigSource::File(p) => "file("@ + p@ + ")"@,
        FigSource::Environment(k) => "env("@ + k@ + ")"@,
        FigSource::Flag(n) => "flag("@ + n@ + ")"@,
    }
}

fn push_source(out: &mut String, s: &FigSource)
    ensures
        final(out)@ == old(out)@ + source_text(*s),
{
    match s {
        FigSource::Empty => push_str(out, "empty"),
        FigSource::Default => push_str(out, "default"),
        FigSource::Programmatic => push_str(out, "programmatic"),
        FigSource::File(p) => {
            push_str(out, "file(");
            push_str(out, p.as_str());
            push_str(out, ")");
        },
        FigSource::Environment(k) => {
            push_str(out, "env(");
            push_str(out, k.as_str());
            push_str(out, ")");
        },
        FigSource::Flag(n) => {
            push_str(out, "flag(");
            push_str(out, n.as_str());
            push_str(out, ")");
        },
    }
}

impl FigSource {
    /// The text of this source: "empty", "default", "programmatic",
    /// "file(path)", "env(key)" or "flag(name)".
    pub fn to_text(&self) -> (r: String)
        ensures
            r@ == source_text(*self),
    {
        let mut s = String::new();
        push_source(&mut s, self);
        s
    }
}

/// The text of a history state, when its values print without floats.
pub open spec fn state_text(s: FigState) -> Option<Seq<char>> {
    match s {
        FigState::Initialized => Some("initialized with empty value"@),
        FigState::FirstResolution { source } => Some("set for the first time via "@ + source_text(source)),
        FigState::Changed { from, to, source } => match (value_text(from), value_text(to)) {
            (Some(a), Some(b)) => Some("changed from '"@ + a + "' to '"@ + b + "' via "@ + source_text(source)),
            _ => None,
        },
        FigState::Unchanged { source } => Some("unchanged (same value) via "@ + source_text(source)),
        FigState::ValidationRejected { message } => Some("validation rejected: "@ + message@),
        FigState::RuleBlocked { rule } => Some("blocked by rule '"@ + rule@ + "'"@),
    }
}

fn push_state(out: &mut String, s: &FigState, floats: Option<&dyn FloatCodec>)
    ensures
        state_text(*s) is Some ==> final(out)@ == old(out)@ + state_text(*s)->0,
{
    match s {
        FigState::Initialized => push_str(out, "initialized with empty value"),
        FigState::FirstResolution { source } => {
            push_str(out, "set for the first time via ");
            push_source(out, source);
        },
        FigState::Changed { from, to, source } => {
            push_str(out, "changed from '");
            push_value(out, from, floats);
            push_str(out, "' to '");
            push_value(out, to, floats);
            push_str(out, "' via ");
            push_source(out, source);
        },
        FigState::Unchanged { source } => {
            push_str(out, "unchanged (same value) via ");
            push_source(out, source);
        },
        FigState::ValidationRejected { message } => {
            push_str(out, "validation rejected: ");
            push_str(out, message.as_str());
        },
        FigState::RuleBlocked { rule } => {
            push_str(out, "blocked by rule '");
            push_str(out, rule.as_str());
            push_str(out, "'");
        },
    }
}

impl FigState {
    /// The text of this state, floats printed by `floats`.
    pub fn to_text(&self, floats: Option<&dyn FloatCodec>) -> (r: String)
        ensures
            state_text(*self) is Some ==> r@ == state_text(*self)->0,
    {
        let mut s = String::new();
        push_state(&mut s, self, floats);
        s
    }
}

// ── history ───────────────────────────────────────────────────────────────────

/// The text of a history entry recorded `secs` seconds after the Unix
/// epoch.
pub open spec fn entry_text(e: FigHistoryEntry, secs: u64) -> Option<Seq<char>> {
    match state_text(e.state) {
        Some(t) => Some("state "@ + decimal(e.state_index as int) + ": "@ + t + " (at "@ + decimal(secs as int) + "s)"@),
        None => None,
    }
}

fn push_entry(out: &mut String, e: &FigHistoryEntry, floats: Option<&dyn FloatCodec>) -> (secs: Ghost<u64>)
    ensures
        state_text(e.state) is Some ==> final(out)@ == old(out)@ + entry_text(*e, secs@)->0,
{
    push_str(out, "state ");
    push_unsigned(out, e.state_index as u128);
    push_str(out, ": ");
    push_state(out, &e.state, floats);
    push_str(out, " (at ");
    let secs = secs_since_epoch(&e.recorded);
    push_unsigned(out, secs as u128);
    push_str(out, "s)");
    Ghost(secs)
}

impl FigHistoryEntry {
    /// The text of this entry: "state N: <state> (at <secs>s)", where secs
    /// is the time it was recorded, in seconds since the Unix epoch.
    pub fn to_text(&self, floats: Option<&dyn FloatCodec>) -> (r: String)
        ensures
            state_text(self.state) is Some ==> exists|secs: u64| r@ == entry_text(*self, secs)->0,
    {
        let mut s = String::new();
        let secs = push_entry(&mut s, self, floats);
        s
    }
}

/// The lines of a history log, given each entry's recording second.
pub open spec fn log_lines(h: Seq<FigHistoryEntry>, secs: Seq<u64>) -> Seq<Seq<char>> {
    Seq::new(h.len(), |i: int| "  "@ + entry_text(h[i], secs[i])->0)
}

/// Every state of `h` prints without floats.
pub open spec fn printable(h: Seq<FigHistoryEntry>) -> bool {
    forall|i: int| 0 <= i < h.len() ==> (#[trigger] state_text(h[i].state)) is Some
}

impl Fig {
    /// Renders the complete history as a human-readable log: one line
    /// per state entry, each indented by two spaces. Floats print as
    /// their bit patterns; see `history_log_with`.
    pub fn history_log(&self) -> (r: String)
        ensures
            printable(self.history@) ==> exists|secs: Seq<u64>| secs.len() == self.history@.len()
                && r@ == joined(log_lines(self.history@, secs), "\n"@),
    {
        self.history_log_with(None)
    }

    /// Renders the complete history as `history_log` does, floats printed
    /// by `floats`.
    pub fn history_log_with(&self, floats: Option<&dyn FloatCodec>) -> (r: String)
        ensures
            printable(self.history@) ==> exists|secs: Seq<u64>| secs.len() == self.history@.len()
                && r@ == joined(log_lines(self.history@, secs), "\n"@),
    {
        let h = &self.history;
        let mut out = String::new();
        let ghost mut secs: Seq<u64> = Seq::empty();
        let mut i: usize = 0;
        while i < h.len()
            invariant
                i <= h@.len(),
                secs.len() == i,
                printable(h@) ==> out@ == joined(log_lines(h@.take(i as int), secs), "\n"@),
            decreases h@.len() - i,
        {
            if i > 0 {
                push_str(&mut out, "\n");
            }
            push_str(&mut out, "  ");
            let s = push_entry(&mut out, &h[i], floats);
            proof {
                let old_secs = secs;
                secs = secs.push(s@);
                if printable(h@) {
                    assert(state_text(h@[i as int].state) is Some);
                    let a = log_lines(h@.take(i as int), old_secs);
                    let b = log_lines(h@.take(i + 1), secs);
                    assert(b.drop_last() =~= a);
                    if i == 0 {
                        assert(joined(b, "\n"@) == b[0]);
                    }
                }
            }
            i += 1;
        }
        assert(h@.take(h@.len() as int) =~= h@);
        out
    }
}

// ── mutations ─────────────────────────────────────────────────────────────────

/// The text of a Mutation that happened `secs` seconds after the Unix
/// epoch.
pub open spec fn mutation_text(m: Mutation, secs: u64) -> Option<Seq<char>> {
    let head = "["@ + m.key@ + "] '"@ + m.key@ + "' "@;
    let tail = " via "@ + source_text(m.source) + " (at "@ + decimal(secs as int) + "s)"@;
    match m.old {
        None => match value_text(m.new) {
            Some(n) => Some(head + "first set to '"@ + n + "'"@ + tail),
            None => None,
        },
        Some(o) => match (value_text(o), value_text(m.new)) {
            (Some(a), Some(b)) => Some(head + "changed from '"@ + a + "' to '"@ + b + "'"@ + tail),
            _ => None,
        },
    }
}

impl Mutation {
    /// The text of this Mutation:
    /// "[key] 'key' first set to 'new' via source (at Ns)" or
    /// "[key] 'key' changed from 'old' to 'new' via source (at Ns)".
    /// Floats print as their bit patterns; see `to_text_with`.
    pub fn to_text(&self) -> (r: String)
        ensures
            mutation_text(*self, 0) is Some ==> exists|secs: u64| r@ == mutation_text(*self, secs)->0,
    {
        self.to_text_with(None)
    }

    /// The text of this Mutation, floats printed by `floats`.
    pub fn to_text_with(&self, floats: Option<&dyn FloatCodec>) -> (r: String)
        ensures
            mutation_text(*self, 0) is Some ==> exists|secs: u64| r@ == mutation_text(*self, secs)->0,
    {
        let mut s = owned("[");
        push_str(&mut s, self.key.as_str());
        push_str(&mut s, "] '");
        push_str(&mut s, self.key.as_str());
        push_str(&mut s, "' ");
        match &self.old {
            None => {
                push_str(&mut s, "first set to '");
                push_value(&mut s, &self.new, floats);
                push_str(&mut s, "'");
            },
            Some(o) => {
                push_str(&mut s, "changed from '");
                push_value(&mut s, o, floats);
                push_str(&mut s, "' to '");
                push_value(&mut s, &self.new, floats);
                push_str(&mut s, "'");
            },
        }
        push_str(&mut s, " via ");
        push_source(&mut s, &self.source);
        push_str(&mut s, " (at ");
        let secs = secs_since_epoch(&self.when);
        push_unsigned(&mut s, secs as u128);
        push_str(&mut s, "s)");
        proof {
            assert(mutation_text(*self, 0) is Some ==> s@ =~= mutation_text(*self, secs)->0);
        }
        s
    }
}

}
