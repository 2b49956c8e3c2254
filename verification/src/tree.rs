//! The Tree: registration, resolution, typed reads, programmatic stores,
//! pollination and mutation tracking over a set of Figs.
use vstd::prelude::*;
use crate::callbacks::{CallbackPhase, CallbackRegistry, HookSpec, count_phase, phase_outcome, registry_hooks, registry_phases};
use crate::duration::Duration;
use crate::error::{FigtreeError, FigtreeResult, error_text};
use crate::fig::{Fig, FigHistoryEntry, FigSource, FigState, resolved_value, set_result, set_would_panic};
use crate::mutation::{Mutation, MutationReceiver, MutationSender, mutation_channel};
use crate::render::{joined, printable, source_text, value_text, log_lines};
use crate::priority::{ResolutionResult, Source, resolve, resolved_by, stored_value};
use crate::rules::{Rule, rule_name};
use crate::sources::env::{env_value, parse_env_value_with};
use crate::strmap::StrMap;
use crate::text::{chars_of, eq_folded, matches_folded, owned, push_str, same_text};
use crate::validators::{ValidatorRegistry, chain_outcome, validator_hooks, validator_names};
use crate::value::{FigValue, FloatCodec, Kind, ValueView, copy_list, duplicate_opt, same_value, is_float_kind, is_list_kind, is_map_kind, kind_name, kind_of, seq_view};

verus! {

// ── Options ───────────────────────────────────────────────────────────────────

/// Construction options for a Tree.
///
/// Passed to Tree::with() for full control over Tree behavior.
/// Tree::new() and Tree::grow() are convenience constructors that
/// set sensible defaults.
#[derive(Debug)]
pub struct Options {
    /// Enable mutation tracking. When true, Tree::mutations() returns
    /// a live receiver that emits a Mutation whenever a Fig's value
    /// changes. Default false.
    pub tracking: bool,
    /// When true, Tree::pollinate() re-checks the environment source and
    /// updates any Figs whose value there has changed since the last
    /// resolution. Default false means pollinate() is a no-op.
    pub pollinate: bool,
    /// Ignore CLI flags whose names begin with "-test." — flags injected
    /// by the test runner infrastructure. Default false.
    pub germinate: bool,
    /// Path to a config file to load on construction. Its format is
    /// told by the extension (see `config_format`). Optional.
    pub config_file: Option<String>,
}

impl Default for Options {
    fn default() -> (r: Self)
        ensures
            !r.tracking,
            !r.pollinate,
            !r.germinate,
            r.config_file is None,
    {
        Options { tracking: false, pollinate: false, germinate: false, config_file: None }
    }
}

// ── the model ─────────────────────────────────────────────────────────────────

/// No two Figs share a key.
pub open spec fn keys_distinct(figs: Seq<Fig>) -> bool {
    forall|i: int, j: int| 0 <= i < figs.len() && 0 <= j < figs.len() && i != j
        ==> #[trigger] figs[i].key@ != #[trigger] figs[j].key@
}

/// Some Fig is registered under `key`.
pub open spec fn has_key(figs: Seq<Fig>, key: Seq<char>) -> bool {
    exists|i: int| 0 <= i < figs.len() && #[trigger] figs[i].key@ == key
}

/// The position of the Fig registered under `key`.
pub open spec fn key_pos(figs: Seq<Fig>, key: Seq<char>) -> int {
    choose|i: int| 0 <= i < figs.len() && #[trigger] figs[i].key@ == key
}

/// The Fig registered under `key`, if any.
pub open spec fn fig_for(figs: Seq<Fig>, key: Seq<char>) -> Option<Fig> {
    if has_key(figs, key) {
        Some(figs[key_pos(figs, key)])
    } else {
        None
    }
}

/// The value a read of `key` reports: the Fig's value, else its default.
pub open spec fn value_of(figs: Seq<Fig>, key: Seq<char>) -> Option<FigValue> {
    match fig_for(figs, key) {
        Some(f) => resolved_value(f),
        None => None,
    }
}

/// `after` is `before` with a fresh Fig for `key` appended, holding
/// `default` and nothing else, unless `key` was already registered, in
/// which case nothing changes: the first registration wins.
pub open spec fn registered(before: Seq<Fig>, after: Seq<Fig>, key: Seq<char>, default: Option<ValueView>) -> bool {
    if has_key(before, key) {
        after == before
    } else {
        &&& after.len() == before.len() + 1
        &&& after.take(before.len() as int) == before
        &&& after.last().key@ == key
        &&& after.last().value is None
        &&& after.last().source == FigSource::Empty
        &&& after.last().rule == Rule::Undefined
        &&& after.last().error is None
        &&& after.last().history@.len() == 1
        &&& match (after.last().default, default) {
            (Some(d), Some(v)) => d@ == v,
            (None, None) => true,
            _ => false,
        }
    }
}


/// The view of an optional value.
pub open spec fn opt_view(v: Option<FigValue>) -> Option<ValueView> {
    match v {
        Some(x) => Some(x@),
        None => None,
    }
}

/// `after` is `before` with one Mutation appended, for `key`, from
/// `prior` to `new`, caused by `source`.
pub open spec fn sent(before: Seq<Mutation>, after: Seq<Mutation>, key: Seq<char>, prior: Option<ValueView>, new: ValueView, source: FigSource) -> bool {
    &&& after.len() == before.len() + 1
    &&& after.take(before.len() as int) == before
    &&& after.last().key@ == key
    &&& opt_view(after.last().old) == prior
    &&& after.last().new@ == new
    &&& after.last().source == source
}

/// `e` reports that a `phase` callback on `key` failed.
pub open spec fn callback_refusal(e: FigtreeError, key: Seq<char>, phase: CallbackPhase) -> bool {
    e matches FigtreeError::CallbackFailed { key: k, phase: p, message } && k@ == key && p@ == crate::callbacks::phase_name(phase)
}

/// A read of `key` expecting type `k` finds a value of that type.
pub open spec fn readable(figs: Seq<Fig>, key: Seq<char>, k: Kind) -> bool {
    value_of(figs, key) is Some && kind_of(value_of(figs, key)->0@) == k
}

/// `e` is what a read of `key` expecting type `k` reports when the key is
/// unknown, has no value, or holds a value of another type.
pub open spec fn read_refusal(figs: Seq<Fig>, key: Seq<char>, k: Kind, e: FigtreeError) -> bool {
    if !has_key(figs, key) {
        e matches FigtreeError::UnknownKey(x) && x@ == key
    } else if value_of(figs, key) is None {
        e matches FigtreeError::MissingRequired(x) && x@ == key
    } else if kind_of(value_of(figs, key)->0@) != k {
        &&& e matches FigtreeError::TypeMismatch { key: x, expected, got }
        &&& x@ == key
        &&& expected@ == kind_name(k)
        &&& got@ == kind_name(kind_of(value_of(figs, key)->0@))
    } else {
        false
    }
}

/// `e` reports that a validator refused a value for `key`: a validation
/// failure carries the key; any other error the validator chose.
pub open spec fn validation_refusal(e: FigtreeError, key: Seq<char>) -> bool {
    e is ValidationFailed ==> e->ValidationFailed_key@ == key
}

/// `r` is the validators' outcome `out` as reported under `key`: a
/// validation failure names the key, any other error is passed on.
pub open spec fn keyed_as(out: FigtreeResult<()>, key: Seq<char>, r: FigtreeResult<()>) -> bool {
    match out {
        Ok(()) => r is Ok,
        Err(FigtreeError::ValidationFailed { key: _, message }) =>
            r matches Err(FigtreeError::ValidationFailed { key: k, message: m }) && k@ == key && m == message,
        Err(e) => r == Err::<(), FigtreeError>(e),
    }
}

/// `r` is what running the validators `hooks` in order on `v` may be
/// reported as under `key`.
pub open spec fn validated(hooks: Seq<HookSpec>, v: ValueView, key: Seq<char>, r: FigtreeResult<()>) -> bool {
    exists|out: FigtreeResult<()>| #[trigger] chain_outcome(hooks, v, out) && keyed_as(out, key, r)
}

/// `r` is what firing the `phase` callbacks of `cbs` in order on `v` may
/// be reported as under `key`: a failure becomes `CallbackFailed` naming
/// the key and the phase, with the failure's text as the message.
pub open spec fn fired(cbs: Seq<(CallbackPhase, HookSpec)>, phase: CallbackPhase, v: ValueView, key: Seq<char>, r: FigtreeResult<()>) -> bool {
    exists|out: FigtreeResult<()>| #[trigger] phase_outcome(cbs, phase, v, out) && match out {
        Ok(()) => r is Ok,
        Err(e) => r matches Err(FigtreeError::CallbackFailed { key: k, phase: p, message: m })
            && k@ == key && p@ == crate::callbacks::phase_name(phase) && m@ == error_text(e),
    }
}

/// The validators that run on a Fig under `rule`: none under
/// NoValidations.
pub open spec fn active_validators(rule: Rule, hooks: Seq<HookSpec>) -> Seq<HookSpec> {
    if rule == Rule::NoValidations { Seq::empty() } else { hooks }
}

/// The callbacks that fire on a Fig under `rule`: none under NoCallbacks.
pub open spec fn active_callbacks(rule: Rule, cbs: Seq<(CallbackPhase, HookSpec)>) -> Seq<(CallbackPhase, HookSpec)> {
    if rule == Rule::NoCallbacks { Seq::empty() } else { cbs }
}

/// `n` is `o` with a validator's refusal `e` recorded: the value and
/// source kept, the refusal's message in a ValidationRejected entry.
pub open spec fn rejection_recorded(o: Fig, n: Fig, e: FigtreeError) -> bool {
    &&& refusal_recorded(o, n)
    &&& n.history@.last().state matches FigState::ValidationRejected { message: m }
        && m@ == match e {
            FigtreeError::ValidationFailed { key: _, message } => message@,
            _ => error_text(e),
        }
}


/// What the environment's answer reads as for a Fig: the value, exactly
/// (non-float types), or some value of a float type (read by the codec).
pub enum EnvReading {
    Exact(ValueView),
    Float,
}

/// What the environment's `answer` reads as for Fig `o`, when it may
/// change it: `None` when the rule ignores the environment, the answer is
/// no text, `o` has no type yet, the text does not read as `o`'s type, or
/// it reads as the value `o` holds. Float text is read by the codec; with
/// none installed it reads as nothing.
pub open spec fn env_reading(o: Fig, answer: Option<FigValue>, has_floats: bool) -> Option<EnvReading> {
    if o.rule == Rule::NoEnv || !(answer matches Some(FigValue::String(_))) || resolved_value(o) is None {
        None
    } else {
        let raw = answer->0->String_0@;
        let k = kind_of(resolved_value(o)->0@);
        if is_float_kind(k) {
            if has_floats { Some(EnvReading::Float) } else { None }
        } else {
            match env_value(raw, k) {
                None => None,
                Some(x) => if o.value is Some && same_value(o.value->0@, x) { None } else { Some(EnvReading::Exact(x)) },
            }
        }
    }
}

/// What a resolution with no answering source gives Fig `f`: a value
/// stored programmatically, else its default.
pub open spec fn fallback(f: Fig) -> Option<ValueView> {
    match stored_value(f) {
        Some(v) => Some(v@),
        None => opt_view(f.default),
    }
}

/// The source a resolution with no answering source reports for Fig `f`:
/// a programmatic store, else the default.
pub open spec fn fallback_answer_source(f: Fig) -> FigSource {
    if stored_value(f) is Some { FigSource::Programmatic } else { FigSource::Default }
}

/// The source Fig `f` records after such a resolution: that of its
/// stored value; that it had, when the default equals the value it
/// already holds (an unchanged set); else `FigSource::Default`.
pub open spec fn fallback_source(f: Fig) -> FigSource {
    if stored_value(f) is Some {
        FigSource::Programmatic
    } else if f.value is Some && f.default is Some && same_value(f.value->0@, f.default->0@) {
        f.source
    } else {
        FigSource::Default
    }
}

/// The value Fig `f` holds after such a resolution: its fallback, unless
/// it already holds a value equal to it (floats compare as numbers), which
/// it keeps.
pub open spec fn settled_value(f: Fig) -> Option<ValueView> {
    match fallback(f) {
        Some(v) => if f.value is Some && same_value(f.value->0@, v) { Some(f.value->0@) } else { Some(v) },
        None => None,
    }
}

/// `n` keeps the key, default and rule of `o`, and its history only grows.
pub open spec fn fig_grown(o: Fig, n: Fig) -> bool {
    &&& n.key == o.key && n.default == o.default && n.rule == o.rule
    &&& n.history@.len() >= o.history@.len()
    &&& n.history@.take(o.history@.len() as int) == o.history@
}

/// What applying the answer `value` from `source` during resolution
/// leaves of Fig `o` as `n`, returning `r`, where `vhooks` are its
/// validators and `cbs` its callbacks: the coercion's refusal with the Fig
/// unchanged; or, for the coerced value, a validator's refusal recorded as
/// ValidationRejected; or, the validators accepting, the set's refusal; or
/// a successful set followed by what the AfterVerify callbacks report.
pub open spec fn answer_applied(o: Fig, n: Fig, value: FigValue, source: FigSource, r: FigtreeResult<()>,
    vhooks: Seq<HookSpec>, cbs: Seq<(CallbackPhase, HookSpec)>) -> bool {
    exists|c: FigtreeResult<FigValue>| #[trigger] coerced(opt_view(resolved_value(o)), value@, o.key@, c) && match c {
        Err(e) => r == Err::<(), FigtreeError>(e) && n == o,
        Ok(v) => {
            let vh = active_validators(o.rule, vhooks);
            let ch = active_callbacks(o.rule, cbs);
            ||| {
                &&& r is Err && validated(vh, v@, o.key@, r)
                &&& rejection_recorded(o, n, r->Err_0)
            }
            ||| {
                &&& validated(vh, v@, o.key@, Ok(()))
                &&& r is Err && set_result(o, n, v, source, r)
            }
            ||| {
                &&& validated(vh, v@, o.key@, Ok(()))
                &&& set_result(o, n, v, source, Ok(()))
                &&& fired(ch, CallbackPhase::AfterVerify, v@, o.key@, r)
            }
        },
    }
}

/// Fig `o` became `n`, with outcome `r`, by applying its fallback during a
/// resolution that consults no source: `answer_applied` with the fallback
/// value and the source it is reported from.
pub open spec fn fallback_applied(o: Fig, n: Fig, r: FigtreeResult<()>,
    vhooks: Seq<HookSpec>, cbs: Seq<(CallbackPhase, HookSpec)>) -> bool {
    exists|v: FigValue| Some(v@) == fallback(o) && #[trigger] answer_applied(o, n, v, fallback_answer_source(o), r, vhooks, cbs)
}

/// Applying an answer depends on the answer's value only through its view.
proof fn lemma_answer_view(o: Fig, n: Fig, x: FigValue, y: FigValue, source: FigSource, r: FigtreeResult<()>,
    vhooks: Seq<HookSpec>, cbs: Seq<(CallbackPhase, HookSpec)>)
    requires
        x@ == y@,
        answer_applied(o, n, x, source, r, vhooks, cbs),
    ensures
        answer_applied(o, n, y, source, r, vhooks, cbs),
{
    let c = choose|c: FigtreeResult<FigValue>| #[trigger] coerced(opt_view(resolved_value(o)), x@, o.key@, c) && match c {
        Err(e) => r == Err::<(), FigtreeError>(e) && n == o,
        Ok(v) => {
            let vh = active_validators(o.rule, vhooks);
            let ch = active_callbacks(o.rule, cbs);
            ||| {
                &&& r is Err && validated(vh, v@, o.key@, r)
                &&& rejection_recorded(o, n, r->Err_0)
            }
            ||| {
                &&& validated(vh, v@, o.key@, Ok(()))
                &&& r is Err && set_result(o, n, v, source, r)
            }
            ||| {
                &&& validated(vh, v@, o.key@, Ok(()))
                &&& set_result(o, n, v, source, Ok(()))
                &&& fired(ch, CallbackPhase::AfterVerify, v@, o.key@, r)
            }
        },
    };
    assert(coerced(opt_view(resolved_value(o)), y@, o.key@, c));
}

/// A resolution of `figs` stopped at a required key that nothing
/// answered: `answers` holds what was found up to it (the last, for that
/// key, is none), `r` names the key, and the Figs are unchanged.
pub open spec fn stopped_missing(figs: Seq<Fig>, answers: Seq<Option<ResolutionResult>>, after: Seq<Fig>, r: FigtreeResult<()>) -> bool {
    let m = answers.len() as int;
    &&& 0 < m <= figs.len()
    &&& consulted_fig(figs[m - 1]) && answers[m - 1] is None
    &&& forall|k: int| 0 <= k < m - 1 && consulted_fig(figs[k]) ==> (#[trigger] answers[k]) is Some
    &&& r matches Err(FigtreeError::MissingRequired(key)) && key@ == figs[m - 1].key@
    &&& after == figs
}

/// `after`, with the outcome `r`, is what applying `answers` (one per
/// Fig, every consulted Fig answered) to `figs` in order makes of them,
/// each Fig with its validators `vhooks(i)` and callbacks `cbs(i)`: the
/// first error stops the resolution, the Figs after it are left as they
/// were, and the Figs not consulted are left as they were.
pub open spec fn answers_applied(figs: Seq<Fig>, answers: Seq<Option<ResolutionResult>>, after: Seq<Fig>, r: FigtreeResult<()>,
    vhooks: spec_fn(int) -> Seq<HookSpec>, cbs: spec_fn(int) -> Seq<(CallbackPhase, HookSpec)>) -> bool {
    &&& answers.len() == figs.len() && after.len() == figs.len()
    &&& forall|k: int| 0 <= k < figs.len() && consulted_fig(figs[k]) ==> (#[trigger] answers[k]) is Some
    &&& forall|i: int| 0 <= i < figs.len() && !consulted_fig(figs[i]) ==> #[trigger] after[i] == figs[i]
    &&& r is Ok ==> forall|i: int| 0 <= i < figs.len() && consulted_fig(figs[i])
        ==> answer_applied(figs[i], #[trigger] after[i], answers[i]->0.value, answers[i]->0.source, Ok::<(), FigtreeError>(()),
            vhooks(i), cbs(i))
    &&& r is Err ==> exists|j: int| 0 <= j < figs.len() && consulted_fig(figs[j])
        && answer_applied(figs[j], #[trigger] after[j], answers[j]->0.value, answers[j]->0.source, r, vhooks(j), cbs(j))
        && (forall|i: int| 0 <= i < j && consulted_fig(figs[i])
            ==> answer_applied(figs[i], #[trigger] after[i], answers[i]->0.value, answers[i]->0.source, Ok::<(), FigtreeError>(()),
                vhooks(i), cbs(i)))
        && (forall|i: int| j < i < figs.len() ==> #[trigger] after[i] == figs[i])
}

/// The Fig at position `j` is the one registered under its key.
proof fn lemma_key_pos(figs: Seq<Fig>, j: int)
    requires
        keys_distinct(figs),
        0 <= j < figs.len(),
    ensures
        has_key(figs, figs[j].key@),
        key_pos(figs, figs[j].key@) == j,
        fig_for(figs, figs[j].key@) == Some(figs[j]),
{
    assert(figs[j].key@ == figs[j].key@);
    let k = key_pos(figs, figs[j].key@);
    assert(figs[k].key@ == figs[j].key@);
}

/// A store to Fig `o` is blocked by its rule: it holds a value under
/// PreventChange.
pub open spec fn store_blocked(o: Fig) -> bool {
    o.source != FigSource::Empty && o.rule == Rule::PreventChange
}

/// The rule refuses values of type `k`: NoMaps a map, NoLists a list.
pub open spec fn kind_blocked(rule: Rule, k: Kind) -> bool {
    ||| rule == Rule::NoMaps && is_map_kind(k)
    ||| rule == Rule::NoLists && is_list_kind(k)
}

/// Taking `value` would change Fig `o`: the type fits and the value is
/// not the one it holds.
pub open spec fn would_change(o: Fig, value: ValueView) -> bool {
    &&& changes(o, value)
    &&& (resolved_value(o) is None || kind_of(resolved_value(o)->0@) == kind_of(value))
}

/// `n` is `o` with one refusal appended to its history (an entry carrying
/// no value); its value, source, key, default and rule are those of `o`.
pub open spec fn refusal_recorded(o: Fig, n: Fig) -> bool {
    &&& n.key == o.key && n.default == o.default && n.rule == o.rule
    &&& n.value == o.value && n.source == o.source
    &&& n.history@.len() == o.history@.len() + 1
    &&& n.history@.take(o.history@.len() as int) == o.history@
    &&& n.history@.last().value is None
}

/// What a programmatic store of `value` leaves of Fig `o` as `n`,
/// returning `r`, where `vhooks` are its validators and `cbs` its
/// callbacks. Rules come first: a PreventChange block is the set's own
/// refusal, and a NoMaps/NoLists type refusal is a RuleViolation recorded
/// as RuleBlocked. Then the validators: a refusal is recorded as
/// ValidationRejected. Then, when the value would change, the AfterChange
/// callbacks: a refusal leaves the Fig as it was, rolling the change
/// back. Then the set's outcome.
pub open spec fn stored(o: Fig, n: Fig, value: FigValue, r: FigtreeResult<()>,
    vhooks: Seq<HookSpec>, cbs: Seq<(CallbackPhase, HookSpec)>) -> bool {
    if store_blocked(o) {
        set_result(o, n, value, FigSource::Programmatic, r)
    } else if kind_blocked(o.rule, kind_of(value@)) {
        &&& r matches Err(FigtreeError::RuleViolation { key: k, rule: m }) && k == o.key && m@ == rule_name(o.rule)
        &&& refusal_recorded(o, n)
        &&& n.history@.last().state is RuleBlocked
    } else {
        let vh = active_validators(o.rule, vhooks);
        let ch = if would_change(o, value@) { active_callbacks(o.rule, cbs) } else { Seq::empty() };
        ||| {
            &&& r is Err && validated(vh, value@, o.key@, r)
            &&& rejection_recorded(o, n, r->Err_0)
        }
        ||| {
            &&& validated(vh, value@, o.key@, Ok(()))
            &&& r is Err && fired(ch, CallbackPhase::AfterChange, value@, o.key@, r)
            &&& n == o
        }
        ||| {
            &&& validated(vh, value@, o.key@, Ok(()))
            &&& fired(ch, CallbackPhase::AfterChange, value@, o.key@, Ok(()))
            &&& set_result(o, n, value, FigSource::Programmatic, r)
        }
    }
}

/// Every Mutation of `log` from position `from` on reports a change: a
/// first value, or a new value other than the old one.
pub open spec fn changes_only(log: Seq<Mutation>, from: int) -> bool {
    forall|i: int| from <= i < log.len() ==> (#[trigger] log[i]).old is None || !same_value(log[i].old->0@, log[i].new@)
}

/// Taking `value` changes what Fig `o` holds.
pub open spec fn changes(o: Fig, value: ValueView) -> bool {
    !(o.value is Some && same_value(o.value->0@, value))
}


/// `r` reports that `raw` could not be read as a value of type `k` for
/// `key`.
pub open spec fn parse_refusal(r: FigtreeResult<FigValue>, key: Seq<char>, raw: Seq<char>, k: Kind) -> bool {
    r matches Err(FigtreeError::ParseFailed { key: x, raw: y, reason })
        && x@ == key && y@ == raw
        && reason@ == "cannot parse '"@ + raw + "' as "@ + kind_name(k)
}

/// What coercing `value` for `key` against the type hint `hint` gives:
/// a value of the hint's type or no hint passes through; text is read as
/// the hint's type, the way the environment is read (floating-point text
/// by the installed codec); any other value passes through, for the set
/// to refuse.
pub open spec fn coerced(hint: Option<ValueView>, value: ValueView, key: Seq<char>, r: FigtreeResult<FigValue>) -> bool {
    match hint {
        None => r is Ok && r->Ok_0@ == value,
        Some(h) => if kind_of(h) == kind_of(value) {
            r is Ok && r->Ok_0@ == value
        } else {
            match value {
                ValueView::Str(raw) => if !is_float_kind(kind_of(h)) {
                    match env_value(raw, kind_of(h)) {
                        Some(x) => r is Ok && r->Ok_0@ == x,
                        None => parse_refusal(r, key, raw, kind_of(h)),
                    }
                } else {
                    &&& r is Ok ==> kind_of(r->Ok_0@) == kind_of(h)
                    &&& r is Err ==> parse_refusal(r, key, raw, kind_of(h))
                },
                _ => r is Ok && r->Ok_0@ == value,
            }
        },
    }
}

/// `e` names a registered key that has no default.
pub open spec fn missing_refusal(figs: Seq<Fig>, e: FigtreeError) -> bool {
    e matches FigtreeError::MissingRequired(k) && has_key(figs, k@) && fig_for(figs, k@)->0.default is None
}

/// `resolve_all` consults this Fig: it is not locked by PreventChange
/// with a value already.
pub open spec fn consulted_fig(f: Fig) -> bool {
    !(f.rule == Rule::PreventChange && f.source != FigSource::Empty)
}

/// `after` keeps the keys, defaults and rules of `before`, and each Fig's
/// history only grows.
pub open spec fn same_figs_grown(before: Seq<Fig>, after: Seq<Fig>) -> bool {
    &&& after.len() == before.len()
    &&& forall|k: int| 0 <= k < before.len() ==> {
        &&& (#[trigger] after[k]).key == before[k].key
        &&& after[k].default == before[k].default
        &&& after[k].rule == before[k].rule
        &&& after[k].history@.len() >= before[k].history@.len()
        &&& after[k].history@.take(before[k].history@.len() as int) == before[k].history@
    }
}


/// Every sequence of Figs is grown from itself.
proof fn lemma_grown_refl(figs: Seq<Fig>)
    ensures
        same_figs_grown(figs, figs),
{
    assert forall|k: int| 0 <= k < figs.len() implies
        (#[trigger] figs[k]).history@.take(figs[k].history@.len() as int) == figs[k].history@ by {
        assert(figs[k].history@.take(figs[k].history@.len() as int) =~= figs[k].history@);
    }
}

/// Growth composes.
proof fn lemma_grown_trans(a: Seq<Fig>, b: Seq<Fig>, c: Seq<Fig>)
    requires
        same_figs_grown(a, b),
        same_figs_grown(b, c),
    ensures
        same_figs_grown(a, c),
{
    assert forall|k: int| 0 <= k < a.len() implies {
        &&& (#[trigger] c[k]).key == a[k].key
        &&& c[k].default == a[k].default
        &&& c[k].rule == a[k].rule
        &&& c[k].history@.len() >= a[k].history@.len()
        &&& c[k].history@.take(a[k].history@.len() as int) == a[k].history@
    } by {
        assert(b[k].key == a[k].key);
        assert(c[k].key == b[k].key);
        let n = a[k].history@.len() as int;
        assert(c[k].history@.take(n) =~= c[k].history@.take(b[k].history@.len() as int).take(n));
    }
}

/// Replacing one Fig by a grown copy of it grows the sequence.
proof fn lemma_grown_update(before: Seq<Fig>, p: int, n: Fig)
    requires
        0 <= p < before.len(),
        n.key == before[p].key,
        n.default == before[p].default,
        n.rule == before[p].rule,
        n.history@.len() >= before[p].history@.len(),
        n.history@.take(before[p].history@.len() as int) == before[p].history@,
    ensures
        same_figs_grown(before, before.update(p, n)),
{
    lemma_grown_refl(before);
}


/// The errors recorded against `figs`, in order.
pub open spec fn recorded_errors(figs: Seq<Fig>) -> Seq<FigtreeError>
    decreases figs.len(),
{
    if figs.len() == 0 {
        Seq::empty()
    } else {
        let rest = recorded_errors(figs.drop_last());
        match figs.last().error {
            Some(e) => rest.push(e),
            None => rest,
        }
    }
}


/// The configuration file formats, told by a file's extension.
#[derive(Debug, Clone, Copy, PartialEq, Eq, Structural)]
pub enum ConfigFormat {
    Yaml,
    Json,
    Toml,
    Ini,
    Plist,
    Dotenv,
    Ron,
}

/// `s` ends with the lower-case word `w`, ASCII letters folded.
pub open spec fn ends_folded(s: Seq<char>, w: Seq<char>) -> bool {
    s.len() >= w.len() && eq_folded(s.skip(s.len() - w.len()), w)
}

/// The format a config file's path selects, by its lower-cased
/// extension: .yaml or .yml, .json, .toml, .ini, .plist, .env, .ron.
pub open spec fn format_for(path: Seq<char>) -> Option<ConfigFormat> {
    if ends_folded(path, ".yaml"@) || ends_folded(path, ".yml"@) {
        Some(ConfigFormat::Yaml)
    } else if ends_folded(path, ".json"@) {
        Some(ConfigFormat::Json)
    } else if ends_folded(path, ".toml"@) {
        Some(ConfigFormat::Toml)
    } else if ends_folded(path, ".ini"@) {
        Some(ConfigFormat::Ini)
    } else if ends_folded(path, ".plist"@) {
        Some(ConfigFormat::Plist)
    } else if ends_folded(path, ".env"@) {
        Some(ConfigFormat::Dotenv)
    } else if ends_folded(path, ".ron"@) {
        Some(ConfigFormat::Ron)
    } else {
        None
    }
}

fn ends_with_folded(cs: &Vec<char>, w: &str) -> (r: bool)
    ensures
        r == ends_folded(cs@, w@),
{
    let n = chars_of(w).len();
    if cs.len() < n {
        return false;
    }
    let r = matches_folded(cs, cs.len() - n, cs.len(), w);
    assert(cs@.subrange(cs@.len() - n, cs@.len() as int) =~= cs@.skip(cs@.len() - w@.len()));
    r
}

/// The format of the config file at `path`, told by its extension
/// (letter case aside); `None` for any other extension.
pub fn config_format(path: &str) -> (r: Option<ConfigFormat>)
    ensures
        r == format_for(path@),
{
    let cs = chars_of(path);
    if ends_with_folded(&cs, ".yaml") || ends_with_folded(&cs, ".yml") {
        Some(ConfigFormat::Yaml)
    } else if ends_with_folded(&cs, ".json") {
        Some(ConfigFormat::Json)
    } else if ends_with_folded(&cs, ".toml") {
        Some(ConfigFormat::Toml)
    } else if ends_with_folded(&cs, ".ini") {
        Some(ConfigFormat::Ini)
    } else if ends_with_folded(&cs, ".plist") {
        Some(ConfigFormat::Plist)
    } else if ends_with_folded(&cs, ".env") {
        Some(ConfigFormat::Dotenv)
    } else if ends_with_folded(&cs, ".ron") {
        Some(ConfigFormat::Ron)
    } else {
        None
    }
}


/// `a` sorts no later than `b`: character by character, by code point,
/// a prefix first (the order of `str`).
pub open spec fn text_le(a: Seq<char>, b: Seq<char>) -> bool
    decreases a.len(),
{
    if a.len() == 0 {
        true
    } else if b.len() == 0 {
        false
    } else if a[0] != b[0] {
        a[0] < b[0]
    } else {
        text_le(a.drop_first(), b.drop_first())
    }
}

proof fn lemma_text_le_total(a: Seq<char>, b: Seq<char>)
    ensures
        text_le(a, b) || text_le(b, a),
    decreases a.len(),
{
    if a.len() > 0 && b.len() > 0 && a[0] == b[0] {
        lemma_text_le_total(a.drop_first(), b.drop_first());
    }
}

proof fn lemma_text_le_trans(a: Seq<char>, b: Seq<char>, c: Seq<char>)
    requires
        text_le(a, b),
        text_le(b, c),
    ensures
        text_le(a, c),
    decreases a.len(),
{
    if a.len() > 0 && b.len() > 0 && c.len() > 0 && a[0] == b[0] && b[0] == c[0] {
        lemma_text_le_trans(a.drop_first(), b.drop_first(), c.drop_first());
    }
}

fn text_le_exec(a: &str, b: &str) -> (r: bool)
    ensures
        r == text_le(a@, b@),
{
    let ac = chars_of(a);
    let bc = chars_of(b);
    let mut i: usize = 0;
    assert(a@.skip(0) =~= a@);
    assert(b@.skip(0) =~= b@);
    while i < ac.len() && i < bc.len()
        invariant
            ac@ == a@,
            bc@ == b@,
            i <= ac@.len(),
            i <= bc@.len(),
            forall|j: int| 0 <= j < i ==> ac@[j] == bc@[j],
            text_le(a@, b@) == text_le(a@.skip(i as int), b@.skip(i as int)),
        decreases ac@.len() - i,
    {
        assert(a@.skip(i as int)[0] == ac@[i as int]);
        assert(b@.skip(i as int)[0] == bc@[i as int]);
        if ac[i] != bc[i] {
            return ac[i] < bc[i];
        }
        assert(a@.skip(i as int).drop_first() =~= a@.skip(i + 1));
        assert(b@.skip(i as int).drop_first() =~= b@.skip(i + 1));
        i += 1;
    }
    i == ac.len()
}

/// `s` padded on the right with spaces to at least `w` characters (what
/// `{:w}` does).
pub open spec fn padded(s: Seq<char>, w: nat) -> Seq<char> {
    if s.len() >= w { s } else { s + Seq::new((w - s.len()) as nat, |i: int| ' ') }
}

fn push_padded(out: &mut String, s: &str, w: usize)
    ensures
        final(out)@ == old(out)@ + padded(s@, w as nat),
{
    push_str(out, s);
    let n = chars_of(s).len();
    let mut k = n;
    let ghost start = old(out)@;
    while k < w
        invariant
            n == s@.len(),
            n <= k <= w || (k == n && n >= w),
            out@ == start + s@ + Seq::new((k - n) as nat, |i: int| ' '),
        decreases w - k,
    {
        crate::text::push_char(out, ' ');
        assert(Seq::new((k + 1 - n) as nat, |i: int| ' ') =~= Seq::new((k - n) as nat, |i: int| ' ').push(' '));
        k += 1;
    }
    assert(n >= w ==> Seq::new((k - n) as nat, |i: int| ' ') =~= Seq::<char>::empty());
    assert(out@ =~= start + padded(s@, w as nat));
}

/// The positions `order` list every position below `n` once.
pub open spec fn is_permutation(order: Seq<int>, n: int) -> bool {
    &&& order.len() == n
    &&& forall|i: int| 0 <= i < n ==> 0 <= #[trigger] order[i] < n
    &&& forall|i: int, j: int| 0 <= i < n && 0 <= j < n && i != j ==> #[trigger] order[i] != #[trigger] order[j]
}

/// `order` lists the Figs by key, in `str` order.
pub open spec fn sorted_by_key(figs: Seq<Fig>, order: Seq<int>) -> bool {
    &&& is_permutation(order, figs.len() as int)
    &&& forall|i: int, j: int| 0 <= i < j < order.len() ==> text_le(figs[#[trigger] order[i]].key@, figs[#[trigger] order[j]].key@)
}

/// The usage line of a Fig with the given description, when its value
/// prints without floats.
pub open spec fn usage_line(f: Fig, description: Option<Seq<char>>) -> Option<Seq<char>> {
    let value = match resolved_value(f) {
        Some(v) => value_text(v),
        None => Some("<unresolved>"@),
    };
    let error = match f.error {
        Some(e) => " [ERROR: "@ + error_text(e) + "]"@,
        None => Seq::empty(),
    };
    let desc = match description {
        Some(d) => "  # "@ + d,
        None => Seq::empty(),
    };
    match value {
        Some(t) => Some("  "@ + padded(f.key@, 30) + " = "@ + padded(t, 40) + " ("@ + source_text(f.source) + ")"@ + error + desc),
        None => None,
    }
}


proof fn lemma_text_le_refl(a: Seq<char>)
    ensures
        text_le(a, a),
    decreases a.len(),
{
    if a.len() > 0 {
        lemma_text_le_refl(a.drop_first());
    }
}

/// Position `j` occurs in `order`.
pub open spec fn listed(order: Seq<usize>, j: int) -> bool {
    exists|i: int| 0 <= i < order.len() && #[trigger] order[i] == j
}

/// Distinct positions below `n` that include every position below `n`
/// number at least `n`.
proof fn lemma_all_listed(order: Seq<usize>, n: int)
    requires
        0 <= n,
        forall|i: int| 0 <= i < order.len() ==> (#[trigger] order[i]) < n,
        forall|i: int, j: int| 0 <= i < order.len() && 0 <= j < order.len() && i != j ==> #[trigger] order[i] != #[trigger] order[j],
        forall|j: int| 0 <= j < n ==> #[trigger] listed(order, j),
    ensures
        order.len() >= n,
{
    let m = order.map_values(|x: usize| x as int);
    let s = m.to_set();
    let full = vstd::set_lib::set_int_range(0, n);
    vstd::set_lib::lemma_int_range(0, n);
    assert(m.no_duplicates()) by {
        assert forall|i: int, j: int| 0 <= i < m.len() && 0 <= j < m.len() && i != j implies m[i] != m[j] by {
            assert(order[i] != order[j]);
        }
    }
    m.unique_seq_to_set();
    vstd::seq_lib::seq_to_set_is_finite(m);
    assert(full.subset_of(s)) by {
        assert forall|j: int| full.contains(j) implies s.contains(j) by {
            assert(listed(order, j));
            let i = choose|i: int| 0 <= i < order.len() && #[trigger] order[i] == j;
            assert(m[i] == j);
        }
    }
    vstd::set_lib::lemma_len_subset(full, s);
}

/// `Vec::push` for boxed sources. (vstd specifies `push`, but its
/// contract does not reach a vector of trait objects here.) The source is
/// appended after those already present.
#[verifier::external_body]
fn append_source(sources: &mut Vec<Box<dyn Source>>, source: Box<dyn Source>)
    ensures
        final(sources)@.len() == old(sources)@.len() + 1,
        final(sources)@.take(old(sources)@.len() as int) == old(sources)@,
        final(sources)@[old(sources)@.len() as int] == source,
{
    sources.push(source);
}

/// What the validators' outcome is reported as for `key`: a validation
/// failure is reported under `key` with the validator's message; success
/// and any other error pass through.
fn keyed_validation(key: &String, outcome: FigtreeResult<()>) -> (r: FigtreeResult<()>)
    ensures
        match outcome {
            Ok(()) => r is Ok,
            Err(FigtreeError::ValidationFailed { key: _, message }) =>
                r matches Err(FigtreeError::ValidationFailed { key: k, message: m }) && k@ == key@ && m == message,
            Err(e) => r == Err::<(), FigtreeError>(e),
        },
{
    match outcome {
        Ok(()) => Ok(()),
        Err(FigtreeError::ValidationFailed { key: _, message }) => Err(FigtreeError::ValidationFailed {
            key: key.clone(),
            message,
        }),
        Err(other) => Err(other),
    }
}

/// What the callbacks' outcome for `phase` is reported as for `key`: a
/// failure becomes `CallbackFailed` naming the key and the phase, with the
/// failure's text as the message.
fn callback_outcome(key: &String, phase: CallbackPhase, outcome: FigtreeResult<()>) -> (r: FigtreeResult<()>)
    ensures
        match outcome {
            Ok(()) => r is Ok,
            Err(e) => r matches Err(FigtreeError::CallbackFailed { key: k, phase: p, message: m })
                && k@ == key@ && p@ == crate::callbacks::phase_name(phase) && m@ == error_text(e),
        },
{
    match outcome {
        Ok(()) => Ok(()),
        Err(e) => Err(FigtreeError::CallbackFailed {
            key: key.clone(),
            phase: phase.name(),
            message: e.to_text(),
        }),
    }
}

/// Whether `rule` refuses values of type `k`.
fn rule_blocks_kind(rule: &Rule, k: Kind) -> (r: bool)
    ensures
        r == kind_blocked(*rule, k),
{
    match rule {
        Rule::NoMaps => match k {
            Kind::MapString | Kind::MapInt | Kind::MapInt64 | Kind::MapInt128
                | Kind::MapFloat64 | Kind::MapFloat128 | Kind::MapBool => true,
            _ => false,
        },
        Rule::NoLists => match k {
            Kind::ListString | Kind::ListInt | Kind::ListInt64 | Kind::ListInt128
                | Kind::ListFloat64 | Kind::ListFloat128 | Kind::ListBool => true,
            _ => false,
        },
        _ => false,
    }
}

/// The message a validation refusal is recorded with: a validator's own
/// message, or the text of any other error.
fn rejection_text(e: &FigtreeError) -> (r: String)
    ensures
        r@ == match *e {
            FigtreeError::ValidationFailed { key: _, message } => message@,
            _ => error_text(*e),
        },
{
    match e {
        FigtreeError::ValidationFailed { key: _, message } => message.clone(),
        _ => e.to_text(),
    }
}

/// One registered key: its Fig, validators and callbacks.
struct Entry {
    fig: Fig,
    validators: ValidatorRegistry,
    callbacks: CallbackRegistry,
}

/// The central configuration tree.
///
/// ## Lifecycle
///
///   1. Construct:   Tree::new(), Tree::grow(), or Tree::with(Options)
///   2. Register:    new_string(), new_int(), new_bool(), etc.
///   3. Constrain:   with_validator(), with_callback(), with_rule()
///   4. Source:      with_flag_source(), with_env_source(), with_file_source()
///   5. Resolve:     parse() or load()
///   6. Read:        string(), integer(), boolean(), etc.  — all take &self
///   7. React:       mutations() receiver for live change notifications
///   8. Update:      store() for programmatic changes after resolution
///   9. Pollinate:   pollinate() or pollinate_key() to re-check the environment
///
/// Keys are kept in registration order; resolution visits them in that
/// order.
pub struct Tree {
    entries: Vec<Entry>,
    descriptions: StrMap<String>,
    flag_source: Option<Box<dyn Source>>,
    env_source: Option<Box<dyn Source>>,
    file_sources: Vec<Box<dyn Source>>,
    floats: Option<Box<dyn FloatCodec>>,
    tracking: bool,
    pollinate: bool,
    mutation_tx: Option<MutationSender>,
    resolved: bool,
    emitted: Ghost<Seq<Mutation>>,
}

impl Tree {
    /// The registered Figs, in registration order.
    pub closed spec fn figs(&self) -> Seq<Fig> {
        self.entries@.map_values(|e: Entry| e.fig)
    }

    /// The names of the validators registered on the `i`-th key.
    pub closed spec fn validators_at(&self, i: int) -> Seq<Seq<char>> {
        validator_names(self.entries@[i].validators)
    }

    /// The phases of the callbacks registered on the `i`-th key.
    pub closed spec fn phases_at(&self, i: int) -> Seq<CallbackPhase> {
        registry_phases(self.entries@[i].callbacks)
    }

    /// What the validators registered on the `i`-th key may return, in
    /// registration order.
    pub closed spec fn validator_hooks_at(&self, i: int) -> Seq<HookSpec> {
        validator_hooks(self.entries@[i].validators)
    }

    /// The callbacks registered on the `i`-th key, each as its phase and
    /// what it may return, in registration order.
    pub closed spec fn callback_hooks_at(&self, i: int) -> Seq<(CallbackPhase, HookSpec)> {
        registry_hooks(self.entries@[i].callbacks)
    }

    /// The descriptions, by key.
    pub closed spec fn description_map(&self) -> Map<Seq<char>, Seq<char>> {
        self.descriptions@
    }

    /// Whether mutation tracking was enabled at construction.
    pub closed spec fn tracks(&self) -> bool {
        self.tracking
    }

    /// Whether pollination was enabled at construction.
    pub closed spec fn pollinates(&self) -> bool {
        self.pollinate
    }

    /// Whether a parse or load has completed.
    pub closed spec fn was_resolved(&self) -> bool {
        self.resolved
    }

    /// Whether the Tree holds a live sending half of the mutation channel.
    pub closed spec fn listening(&self) -> bool {
        self.mutation_tx is Some
    }

    /// Whether a flag source is registered.
    pub closed spec fn has_flags(&self) -> bool {
        self.flag_source is Some
    }

    /// Whether an environment source is registered.
    pub closed spec fn has_env(&self) -> bool {
        self.env_source is Some
    }

    /// The number of file sources registered.
    pub closed spec fn file_count(&self) -> nat {
        self.file_sources@.len()
    }

    /// Whether a float codec is installed.
    pub closed spec fn has_floats(&self) -> bool {
        self.floats is Some
    }

    /// Every Mutation this Tree has sent, in order.
    pub closed spec fn emitted(&self) -> Seq<Mutation> {
        self.emitted@
    }

    /// The Tree is well formed: keys are distinct and every Fig's history
    /// is well formed.
    pub closed spec fn wf(&self) -> bool {
        &&& keys_distinct(self.figs())
        &&& forall|i: int| 0 <= i < self.figs().len() ==> (#[trigger] self.figs()[i]).wf()
    }

    /// The Tree's configuration other than its Figs, validators and
    /// callbacks is that of `other`.
    pub open spec fn same_setup(&self, other: &Tree) -> bool {
        &&& self.same_config(other)
        &&& self.was_resolved() == other.was_resolved()
        &&& self.emitted() == other.emitted()
    }

    /// As `same_setup`, the mutation log and the resolved flag excepted.
    pub open spec fn same_config(&self, other: &Tree) -> bool {
        &&& self.description_map() == other.description_map()
        &&& self.has_flags() == other.has_flags()
        &&& self.has_env() == other.has_env()
        &&& self.file_count() == other.file_count()
        &&& self.has_floats() == other.has_floats()
        &&& self.tracks() == other.tracks()
        &&& self.pollinates() == other.pollinates()
        &&& self.listening() == other.listening()
    }

    /// The validators and callbacks of every key are those of `other`.
    pub open spec fn same_hooks(&self, other: &Tree) -> bool {
        &&& self.figs().len() == other.figs().len()
        &&& forall|i: int| 0 <= i < self.figs().len()
            ==> #[trigger] self.validators_at(i) == other.validators_at(i)
        &&& forall|i: int| 0 <= i < self.figs().len()
            ==> #[trigger] self.phases_at(i) == other.phases_at(i)
        &&& forall|i: int| 0 <= i < self.figs().len()
            ==> #[trigger] self.validator_hooks_at(i) == other.validator_hooks_at(i)
        &&& forall|i: int| 0 <= i < self.figs().len()
            ==> #[trigger] self.callback_hooks_at(i) == other.callback_hooks_at(i)
    }

    /// Keeping the hooks is transitive.
    proof fn lemma_same_hooks_trans(a: &Tree, b: &Tree, c: &Tree)
        requires
            a.same_hooks(b),
            b.same_hooks(c),
        ensures
            a.same_hooks(c),
    {
        assert forall|i: int| 0 <= i < a.figs().len() implies #[trigger] a.validators_at(i) == c.validators_at(i) by {
            assert(a.validators_at(i) == b.validators_at(i));
            assert(b.validators_at(i) == c.validators_at(i));
        }
        assert forall|i: int| 0 <= i < a.figs().len() implies #[trigger] a.phases_at(i) == c.phases_at(i) by {
            assert(a.phases_at(i) == b.phases_at(i));
            assert(b.phases_at(i) == c.phases_at(i));
        }
        assert forall|i: int| 0 <= i < a.figs().len() implies #[trigger] a.validator_hooks_at(i) == c.validator_hooks_at(i) by {
            assert(a.validator_hooks_at(i) == b.validator_hooks_at(i));
            assert(b.validator_hooks_at(i) == c.validator_hooks_at(i));
        }
        assert forall|i: int| 0 <= i < a.figs().len() implies #[trigger] a.callback_hooks_at(i) == c.callback_hooks_at(i) by {
            assert(a.callback_hooks_at(i) == b.callback_hooks_at(i));
            assert(b.callback_hooks_at(i) == c.callback_hooks_at(i));
        }
    }

    /// The hooks of each entry being kept keeps the Tree's hooks.
    proof fn lemma_same_hooks_entries(a: &Tree, b: &Tree)
        requires
            a.entries@.len() == b.entries@.len(),
            forall|i: int| 0 <= i < a.entries@.len() ==>
                (#[trigger] a.entries@[i].validators) == b.entries@[i].validators,
            forall|i: int| 0 <= i < a.entries@.len() ==>
                (#[trigger] a.entries@[i].callbacks) == b.entries@[i].callbacks,
        ensures
            a.same_hooks(b),
    {
        assert forall|i: int| 0 <= i < a.figs().len() implies #[trigger] a.validators_at(i) == b.validators_at(i) by {
            assert(a.entries@[i].validators == b.entries@[i].validators);
        }
        assert forall|i: int| 0 <= i < a.figs().len() implies #[trigger] a.phases_at(i) == b.phases_at(i) by {
            assert(a.entries@[i].callbacks == b.entries@[i].callbacks);
        }
        assert forall|i: int| 0 <= i < a.figs().len() implies #[trigger] a.validator_hooks_at(i) == b.validator_hooks_at(i) by {
            assert(a.entries@[i].validators == b.entries@[i].validators);
        }
        assert forall|i: int| 0 <= i < a.figs().len() implies #[trigger] a.callback_hooks_at(i) == b.callback_hooks_at(i) by {
            assert(a.entries@[i].callbacks == b.entries@[i].callbacks);
        }
    }

    // ── Constructors ──────────────────────────────────────────────────────────

    /// Creates a Tree with full option control.
    ///
    /// The Tree starts with no sources; the application installs the
    /// environment source and a float codec. The config file named by
    /// `options.config_file` is read by the caller (reading files is
    /// I/O); `config_format` tells which loader its extension selects.
    pub fn with(options: Options) -> (r: Tree)
        ensures
            r.wf(),
            r.figs() == Seq::<Fig>::empty(),
            r.description_map() == Map::<Seq<char>, Seq<char>>::empty(),
            r.tracks() == options.tracking,
            r.listening() == options.tracking,
            r.pollinates() == options.pollinate,
            !r.was_resolved(),
            !r.has_flags(),
            !r.has_env(),
            r.file_count() == 0,
            !r.has_floats(),
            r.emitted() == Seq::<Mutation>::empty(),
    {
        let mutation_tx = if options.tracking {
            let (tx, _rx) = mutation_channel();
            Some(tx)
        } else {
            None
        };
        let r = Tree {
            entries: Vec::new(),
            descriptions: StrMap::new(),
            flag_source: None,
            env_source: None,
            file_sources: Vec::new(),
            floats: None,
            tracking: options.tracking,
            pollinate: options.pollinate,
            mutation_tx,
            resolved: false,
            emitted: Ghost(Seq::empty()),
        };
        assert(r.figs() =~= Seq::<Fig>::empty());
        r
    }

    /// Creates a Tree with no mutation tracking.
    pub fn new() -> (r: Tree)
        ensures
            r.wf(),
            r.figs() == Seq::<Fig>::empty(),
            r.description_map() == Map::<Seq<char>, Seq<char>>::empty(),
            !r.tracks(),
            !r.listening(),
            !r.pollinates(),
            !r.was_resolved(),
            !r.has_flags(),
            !r.has_env(),
            r.file_count() == 0,
            !r.has_floats(),
            r.emitted() == Seq::<Mutation>::empty(),
    {
        Tree::with(Options::default())
    }

    /// Creates a Tree with mutation tracking enabled.
    /// Call mutations() after grow() to receive the channel before
    /// calling parse() or load() — otherwise early mutations are missed.
    pub fn grow() -> (r: Tree)
        ensures
            r.wf(),
            r.figs() == Seq::<Fig>::empty(),
            r.tracks(),
            r.listening(),
            !r.pollinates(),
            !r.was_resolved(),
            !r.has_flags(),
            !r.has_env(),
            r.file_count() == 0,
            r.emitted() == Seq::<Mutation>::empty(),
    {
        Tree::with(Options { tracking: true, pollinate: false, germinate: false, config_file: None })
    }

    // ── Source registration ───────────────────────────────────────────────────

    /// Replaces the flag source.
    pub fn with_flag_source(&mut self, source: Box<dyn Source>) -> (r: &mut Self)
        ensures
            r.figs() == old(self).figs(),
            r.has_flags(),
            r.has_env() == old(self).has_env(),
            r.file_count() == old(self).file_count(),
            r.wf() == old(self).wf(),
            r.description_map() == old(self).description_map(),
            r.tracks() == old(self).tracks(),
            r.listening() == old(self).listening(),
            r.pollinates() == old(self).pollinates(),
            r.was_resolved() == old(self).was_resolved(),
            r.emitted() == old(self).emitted(),
            r.same_hooks(&*old(self)),
            r.has_floats() == old(self).has_floats(),
            *final(self) == *final(r),
    {
        self.flag_source = Some(source);
        self
    }

    /// Replaces the environment source. Pass None to disable
    /// environment resolution entirely.
    pub fn with_env_source(&mut self, source: Option<Box<dyn Source>>) -> (r: &mut Self)
        ensures
            r.figs() == old(self).figs(),
            r.has_env() == (source is Some),
            r.has_flags() == old(self).has_flags(),
            r.file_count() == old(self).file_count(),
            r.wf() == old(self).wf(),
            r.description_map() == old(self).description_map(),
            r.tracks() == old(self).tracks(),
            r.listening() == old(self).listening(),
            r.pollinates() == old(self).pollinates(),
            r.was_resolved() == old(self).was_resolved(),
            r.emitted() == old(self).emitted(),
            r.same_hooks(&*old(self)),
            r.has_floats() == old(self).has_floats(),
            *final(self) == *final(r),
    {
        self.env_source = source;
        self
    }

    /// Adds a file source. Multiple file sources are consulted in
    /// registration order — first registered wins.
    pub fn with_file_source(&mut self, source: Box<dyn Source>) -> (r: &mut Self)
        ensures
            r.figs() == old(self).figs(),
            r.file_count() == old(self).file_count() + 1,
            r.has_flags() == old(self).has_flags(),
            r.has_env() == old(self).has_env(),
            r.wf() == old(self).wf(),
            r.description_map() == old(self).description_map(),
            r.tracks() == old(self).tracks(),
            r.listening() == old(self).listening(),
            r.pollinates() == old(self).pollinates(),
            r.was_resolved() == old(self).was_resolved(),
            r.emitted() == old(self).emitted(),
            r.same_hooks(&*old(self)),
            r.has_floats() == old(self).has_floats(),
            *final(self) == *final(r),
    {
        append_source(&mut self.file_sources, source);
        self
    }

    /// Installs the codec that reads and prints floating-point values.
    pub fn with_float_codec(&mut self, codec: Box<dyn FloatCodec>) -> (r: &mut Self)
        ensures
            r.figs() == old(self).figs(),
            r.has_floats(),
            r.wf() == old(self).wf(),
            r.description_map() == old(self).description_map(),
            r.tracks() == old(self).tracks(),
            r.listening() == old(self).listening(),
            r.pollinates() == old(self).pollinates(),
            r.was_resolved() == old(self).was_resolved(),
            r.emitted() == old(self).emitted(),
            r.same_hooks(&*old(self)),
            r.has_flags() == old(self).has_flags(),
            r.has_env() == old(self).has_env(),
            r.file_count() == old(self).file_count(),
            *final(self) == *final(r),
    {
        self.floats = Some(codec);
        self
    }

    // ── lookup ────────────────────────────────────────────────────────────────

    /// The position of `key` among the registered Figs.
    fn position(&self, key: &str) -> (r: Option<usize>)
        requires
            self.wf(),
        ensures
            match r {
                Some(i) => {
                    &&& i < self.figs().len()
                    &&& self.figs()[i as int].key@ == key@
                    &&& has_key(self.figs(), key@)
                    &&& key_pos(self.figs(), key@) == i
                    &&& fig_for(self.figs(), key@) == Some(self.figs()[i as int])
                },
                None => !has_key(self.figs(), key@) && fig_for(self.figs(), key@) is None,
            },
    {
        let mut i: usize = 0;
        while i < self.entries.len()
            invariant
                i <= self.entries@.len(),
                self.entries@.len() == self.figs().len(),
                keys_distinct(self.figs()),
                forall|j: int| 0 <= j < i ==> (#[trigger] self.figs()[j]).key@ != key@,
            decreases self.entries@.len() - i,
        {
            assert(self.figs()[i as int] == self.entries@[i as int].fig);
            if same_text(self.entries[i].fig.key.as_str(), key) {
                proof {
                    assert(self.figs()[i as int].key@ == key@);
                    assert(has_key(self.figs(), key@));
                    let k = key_pos(self.figs(), key@);
                    assert(self.figs()[k].key@ == key@);
                }
                return Some(i);
            }
            i += 1;
        }
        None
    }

    // ── Key registration ──────────────────────────────────────────────────────

    /// Registers a Fig for a key. First registration wins —
    /// duplicate registrations are silently ignored.
    fn register(&mut self, key: &str, default: Option<FigValue>)
        requires
            old(self).wf(),
        ensures
            final(self).wf(),
            registered(old(self).figs(), final(self).figs(), key@, match default { Some(d) => Some(d@), None => None }),
            final(self).same_setup(&*old(self)),
            final(self).entries@.len() >= old(self).entries@.len(),
            forall|i: int| 0 <= i < old(self).entries@.len() ==> {
                &&& (#[trigger] final(self).entries@[i].validators) == old(self).entries@[i].validators
                &&& final(self).entries@[i].callbacks == old(self).entries@[i].callbacks
            },
            final(self).entries@.len() > old(self).entries@.len() ==> {
                &&& validator_names(final(self).entries@.last().validators).len() == 0
                &&& registry_phases(final(self).entries@.last().callbacks).len() == 0
                &&& validator_hooks(final(self).entries@.last().validators).len() == 0
                &&& registry_hooks(final(self).entries@.last().callbacks).len() == 0
            },
    {
        match self.position(key) {
            Some(_) => {},
            None => {
                let ghost before = self.figs();
                let fig = Fig::new(key, default);
                self.entries.push(Entry { fig, validators: ValidatorRegistry::new(), callbacks: CallbackRegistry::new() });
                proof {
                    assert(self.figs().take(before.len() as int) =~= before);
                    assert forall|i: int, j: int| 0 <= i < self.figs().len() && 0 <= j < self.figs().len() && i != j
                        implies #[trigger] self.figs()[i].key@ != #[trigger] self.figs()[j].key@ by {
                        if i < before.len() && j < before.len() {
                            assert(self.figs()[i] == before[i]);
                            assert(self.figs()[j] == before[j]);
                        } else if i < before.len() {
                            assert(self.figs()[i] == before[i]);
                        } else {
                            assert(self.figs()[j] == before[j]);
                        }
                    }
                    assert forall|i: int| 0 <= i < self.figs().len() implies (#[trigger] self.figs()[i]).wf() by {
                        if i < before.len() {
                            assert(self.figs()[i] == before[i]);
                        }
                    }
                }
            },
        }
    }

    /// Records a description and registers a key.
    #[verifier::spinoff_prover]
    fn register_described(&mut self, key: &str, default: Option<FigValue>, description: &str)
        requires
            old(self).wf(),
        ensures
            final(self).wf(),
            registered(old(self).figs(), final(self).figs(), key@, match default { Some(d) => Some(d@), None => None }),
            final(self).description_map() == if has_key(old(self).figs(), key@) {
                old(self).description_map()
            } else {
                old(self).description_map().insert(key@, description@)
            },
            final(self).tracks() == old(self).tracks(),
            final(self).listening() == old(self).listening(),
            final(self).pollinates() == old(self).pollinates(),
            final(self).was_resolved() == old(self).was_resolved(),
            final(self).emitted() == old(self).emitted(),
            final(self).has_flags() == old(self).has_flags(),
            final(self).has_env() == old(self).has_env(),
            final(self).file_count() == old(self).file_count(),
            final(self).has_floats() == old(self).has_floats(),
            forall|i: int| 0 <= i < old(self).figs().len() ==>
                #[trigger] final(self).validators_at(i) == old(self).validators_at(i) && final(self).phases_at(i) == old(self).phases_at(i),
            forall|i: int| 0 <= i < old(self).figs().len() ==>
                #[trigger] final(self).validator_hooks_at(i) == old(self).validator_hooks_at(i)
                    && final(self).callback_hooks_at(i) == old(self).callback_hooks_at(i),
            final(self).figs().len() > old(self).figs().len() ==> {
                &&& final(self).validators_at(old(self).figs().len() as int).len() == 0
                &&& final(self).phases_at(old(self).figs().len() as int).len() == 0
                &&& final(self).validator_hooks_at(old(self).figs().len() as int).len() == 0
                &&& final(self).callback_hooks_at(old(self).figs().len() as int).len() == 0
            },
    {
        if self.position(key).is_none() {
            self.descriptions.insert(key.to_string(), description.to_string());
        }
        let ghost mid = *self;
        self.register(key, default);
        proof {
            assert forall|i: int| 0 <= i < old(self).figs().len() implies
                #[trigger] self.validators_at(i) == old(self).validators_at(i) && self.phases_at(i) == old(self).phases_at(i) by {
                assert(self.entries@[i].validators == mid.entries@[i].validators);
                assert(self.entries@[i].callbacks == mid.entries@[i].callbacks);
            }
            assert forall|i: int| 0 <= i < old(self).figs().len() implies
                #[trigger] self.validator_hooks_at(i) == old(self).validator_hooks_at(i)
                    && self.callback_hooks_at(i) == old(self).callback_hooks_at(i) by {
                assert(self.entries@[i].validators == mid.entries@[i].validators);
                assert(self.entries@[i].callbacks == mid.entries@[i].callbacks);
            }
        }
    }
    /// `after` is `before` with `key` registered holding `default` and its
    /// description recorded; registering a key again is ignored, the first
    /// registration winning. Nothing else changes.
    pub open spec fn grew(before: &Tree, after: &Tree, key: Seq<char>, default: Option<ValueView>, description: Seq<char>) -> bool {
        &&& after.wf()
        &&& registered(before.figs(), after.figs(), key, default)
        &&& after.description_map() == if has_key(before.figs(), key) {
            before.description_map()
        } else {
            before.description_map().insert(key, description)
        }
        &&& after.tracks() == before.tracks()
        &&& after.listening() == before.listening()
        &&& after.pollinates() == before.pollinates()
        &&& after.was_resolved() == before.was_resolved()
        &&& after.emitted() == before.emitted()
        &&& after.has_flags() == before.has_flags()
        &&& after.has_env() == before.has_env()
        &&& after.file_count() == before.file_count()
        &&& after.has_floats() == before.has_floats()
        &&& forall|i: int| 0 <= i < before.figs().len() ==>
            #[trigger] after.validators_at(i) == before.validators_at(i) && after.phases_at(i) == before.phases_at(i)
        &&& forall|i: int| 0 <= i < before.figs().len() ==>
            #[trigger] after.validator_hooks_at(i) == before.validator_hooks_at(i) && after.callback_hooks_at(i) == before.callback_hooks_at(i)
        &&& after.figs().len() > before.figs().len() ==> {
            &&& after.validators_at(before.figs().len() as int).len() == 0
            &&& after.phases_at(before.figs().len() as int).len() == 0
            &&& after.validator_hooks_at(before.figs().len() as int).len() == 0
            &&& after.callback_hooks_at(before.figs().len() as int).len() == 0
        }
    }

    /// Registers a required String key: it has no default, so some source
    /// must provide it.
    pub fn new_string_required(&mut self, key: &str, description: &str) -> (r: &mut Self)
        requires
            old(self).wf(),
        ensures
            Tree::grew(&*old(self), &*r, key@, None, description@),
            *final(self) == *final(r),
    {
        self.register_described(key, None, description);
        self
    }

    /// Registers a String key with a default.
    pub fn new_string(&mut self, key: &str, default: &str, description: &str) -> (r: &mut Self)
        requires
            old(self).wf(),
        ensures
            Tree::grew(&*old(self), &*r, key@, Some(ValueView::Str(default@)), description@),
            *final(self) == *final(r),
    {
        self.register_described(key, Some(FigValue::String(default.to_string())), description);
        self
    }

    /// Registers an Int (i32) key with a default.
    pub fn new_int(&mut self, key: &str, default: i32, description: &str) -> (r: &mut Self)
        requires
            old(self).wf(),
        ensures
            Tree::grew(&*old(self), &*r, key@, Some(ValueView::Int(default)), description@),
            *final(self) == *final(r),
    {
        self.register_described(key, Some(FigValue::Int(default)), description);
        self
    }

    /// Registers an Int64 key with a default.
    pub fn new_int64(&mut self, key: &str, default: i64, description: &str) -> (r: &mut Self)
        requires
            old(self).wf(),
        ensures
            Tree::grew(&*old(self), &*r, key@, Some(ValueView::Int64(default)), description@),
            *final(self) == *final(r),
    {
        self.register_described(key, Some(FigValue::Int64(default)), description);
        self
    }

    /// Registers an Int128 key with a default.
    pub fn new_int128(&mut self, key: &str, default: i128, description: &str) -> (r: &mut Self)
        requires
            old(self).wf(),
        ensures
            Tree::grew(&*old(self), &*r, key@, Some(ValueView::Int128(default)), description@),
            *final(self) == *final(r),
    {
        self.register_described(key, Some(FigValue::Int128(default)), description);
        self
    }

    /// Registers a Float64 key whose default is given by its bit pattern.
    pub fn new_float64(&mut self, key: &str, default: u64, description: &str) -> (r: &mut Self)
        requires
            old(self).wf(),
        ensures
            Tree::grew(&*old(self), &*r, key@, Some(ValueView::Float64(default)), description@),
            *final(self) == *final(r),
    {
        self.register_described(key, Some(FigValue::Float64(default)), description);
        self
    }

    /// Registers a Float128 key whose default is given by its bit pattern.
    pub fn new_float128(&mut self, key: &str, default: u64, description: &str) -> (r: &mut Self)
        requires
            old(self).wf(),
        ensures
            Tree::grew(&*old(self), &*r, key@, Some(ValueView::Float128(default)), description@),
            *final(self) == *final(r),
    {
        self.register_described(key, Some(FigValue::Float128(default)), description);
        self
    }

    /// Registers a Bool key with a default.
    pub fn new_bool(&mut self, key: &str, default: bool, description: &str) -> (r: &mut Self)
        requires
            old(self).wf(),
        ensures
            Tree::grew(&*old(self), &*r, key@, Some(ValueView::Bool(default)), description@),
            *final(self) == *final(r),
    {
        self.register_described(key, Some(FigValue::Bool(default)), description);
        self
    }

    /// Registers a Duration key with a default.
    pub fn new_duration(&mut self, key: &str, default: Duration, description: &str) -> (r: &mut Self)
        requires
            old(self).wf(),
        ensures
            Tree::grew(&*old(self), &*r, key@, Some(ValueView::Duration(default.total_nanos())), description@),
            *final(self) == *final(r),
    {
        self.register_described(key, Some(FigValue::Duration(default)), description);
        self
    }

    /// Registers a ListString key with a default.
    pub fn new_list_string(&mut self, key: &str, default: Vec<String>, description: &str) -> (r: &mut Self)
        requires
            old(self).wf(),
        ensures
            Tree::grew(&*old(self), &*r, key@, Some(FigValue::ListString(default)@), description@),
            *final(self) == *final(r),
    {
        self.register_described(key, Some(FigValue::ListString(default)), description);
        self
    }

    /// Registers a ListInt key with a default.
    pub fn new_list_int(&mut self, key: &str, default: Vec<i32>, description: &str) -> (r: &mut Self)
        requires
            old(self).wf(),
        ensures
            Tree::grew(&*old(self), &*r, key@, Some(FigValue::ListInt(default)@), description@),
            *final(self) == *final(r),
    {
        self.register_described(key, Some(FigValue::ListInt(default)), description);
        self
    }

    /// Registers a ListInt64 key with a default.
    pub fn new_list_int64(&mut self, key: &str, default: Vec<i64>, description: &str) -> (r: &mut Self)
        requires
            old(self).wf(),
        ensures
            Tree::grew(&*old(self), &*r, key@, Some(FigValue::ListInt64(default)@), description@),
            *final(self) == *final(r),
    {
        self.register_described(key, Some(FigValue::ListInt64(default)), description);
        self
    }

    /// Registers a ListInt128 key with a default.
    pub fn new_list_int128(&mut self, key: &str, default: Vec<i128>, description: &str) -> (r: &mut Self)
        requires
            old(self).wf(),
        ensures
            Tree::grew(&*old(self), &*r, key@, Some(FigValue::ListInt128(default)@), description@),
            *final(self) == *final(r),
    {
        self.register_described(key, Some(FigValue::ListInt128(default)), description);
        self
    }

    /// Registers a ListFloat64 key whose default is given by bit patterns.
    pub fn new_list_float64(&mut self, key: &str, default: Vec<u64>, description: &str) -> (r: &mut Self)
        requires
            old(self).wf(),
        ensures
            Tree::grew(&*old(self), &*r, key@, Some(FigValue::ListFloat64(default)@), description@),
            *final(self) == *final(r),
    {
        self.register_described(key, Some(FigValue::ListFloat64(default)), description);
        self
    }

    /// Registers a ListBool key with a default.
    pub fn new_list_bool(&mut self, key: &str, default: Vec<bool>, description: &str) -> (r: &mut Self)
        requires
            old(self).wf(),
        ensures
            Tree::grew(&*old(self), &*r, key@, Some(FigValue::ListBool(default)@), description@),
            *final(self) == *final(r),
    {
        self.register_described(key, Some(FigValue::ListBool(default)), description);
        self
    }

    /// Registers a MapString key with a default.
    pub fn new_map_string(&mut self, key: &str, default: StrMap<String>, description: &str) -> (r: &mut Self)
        requires
            old(self).wf(),
        ensures
            Tree::grew(&*old(self), &*r, key@, Some(ValueView::MapString(default@)), description@),
            *final(self) == *final(r),
    {
        self.register_described(key, Some(FigValue::MapString(default)), description);
        self
    }

    /// Registers a MapBool key with a default.
    pub fn new_map_bool(&mut self, key: &str, default: StrMap<bool>, description: &str) -> (r: &mut Self)
        requires
            old(self).wf(),
        ensures
            Tree::grew(&*old(self), &*r, key@, Some(ValueView::MapBool(default@)), description@),
            *final(self) == *final(r),
    {
        self.register_described(key, Some(FigValue::MapBool(default)), description);
        self
    }


    // ── Constraints ───────────────────────────────────────────────────────────

    /// Attaches a named validator to a key. Validators run in
    /// registration order; the first failure halts the chain. An
    /// unregistered key is refused with `UnknownKey`.
    pub fn with_validator<F>(&mut self, key: &str, name: &str, func: F) -> (r: FigtreeResult<()>)
        where F: Fn(&FigValue) -> FigtreeResult<()> + Send + Sync + 'static,
        requires
            old(self).wf(),
            forall|v: &FigValue| #[trigger] func.requires((v,)),
        ensures
            final(self).wf(),
            final(self).figs() == old(self).figs(),
            final(self).same_setup(&*old(self)),
            r is Ok <==> has_key(old(self).figs(), key@),
            r is Err ==> (r->Err_0 matches FigtreeError::UnknownKey(k) && k@ == key@) && final(self).same_hooks(&*old(self)),
            r is Ok ==> {
                let p = key_pos(old(self).figs(), key@);
                &&& final(self).validators_at(p) == old(self).validators_at(p).push(name@)
                &&& forall|i: int| 0 <= i < old(self).figs().len() && i != p ==> #[trigger] final(self).validators_at(i) == old(self).validators_at(i)
                &&& forall|i: int| 0 <= i < old(self).figs().len() ==> #[trigger] final(self).phases_at(i) == old(self).phases_at(i)
                &&& final(self).validator_hooks_at(p).len() == old(self).validator_hooks_at(p).len() + 1
                &&& final(self).validator_hooks_at(p).drop_last() == old(self).validator_hooks_at(p)
                &&& forall|v: ValueView, out: FigtreeResult<()>| #[trigger] (final(self).validator_hooks_at(p).last())(v, out)
                    == exists|x: FigValue| x@ == v && #[trigger] func.ensures((&x,), out)
                &&& forall|i: int| 0 <= i < old(self).figs().len() && i != p ==> #[trigger] final(self).validator_hooks_at(i) == old(self).validator_hooks_at(i)
                &&& forall|i: int| 0 <= i < old(self).figs().len() ==> #[trigger] final(self).callback_hooks_at(i) == old(self).callback_hooks_at(i)
            },
    {
        match self.position(key) {
            Some(i) => {
                let ghost before = self.figs();
                self.entries[i].validators.register(name, func);
                assert(self.figs() =~= before);
                Ok(())
            },
            None => Err(FigtreeError::UnknownKey(key.to_string())),
        }
    }

    /// Attaches a callback to a key for a lifecycle phase. Callbacks fire
    /// in registration order within each phase. An unregistered key is
    /// refused with `UnknownKey`.
    pub fn with_callback<F>(&mut self, key: &str, phase: CallbackPhase, func: F) -> (r: FigtreeResult<()>)
        where F: Fn(&FigValue) -> FigtreeResult<()> + Send + Sync + 'static,
        requires
            old(self).wf(),
            forall|v: &FigValue| #[trigger] func.requires((v,)),
        ensures
            final(self).wf(),
            final(self).figs() == old(self).figs(),
            final(self).same_setup(&*old(self)),
            r is Ok <==> has_key(old(self).figs(), key@),
            r is Err ==> (r->Err_0 matches FigtreeError::UnknownKey(k) && k@ == key@) && final(self).same_hooks(&*old(self)),
            r is Ok ==> {
                let p = key_pos(old(self).figs(), key@);
                &&& final(self).phases_at(p) == old(self).phases_at(p).push(phase)
                &&& forall|i: int| 0 <= i < old(self).figs().len() && i != p ==> #[trigger] final(self).phases_at(i) == old(self).phases_at(i)
                &&& forall|i: int| 0 <= i < old(self).figs().len() ==> #[trigger] final(self).validators_at(i) == old(self).validators_at(i)
                &&& final(self).callback_hooks_at(p).len() == old(self).callback_hooks_at(p).len() + 1
                &&& final(self).callback_hooks_at(p).drop_last() == old(self).callback_hooks_at(p)
                &&& final(self).callback_hooks_at(p).last().0 == phase
                &&& forall|v: ValueView, out: FigtreeResult<()>| #[trigger] (final(self).callback_hooks_at(p).last().1)(v, out)
                    == exists|x: FigValue| x@ == v && #[trigger] func.ensures((&x,), out)
                &&& forall|i: int| 0 <= i < old(self).figs().len() && i != p ==> #[trigger] final(self).callback_hooks_at(i) == old(self).callback_hooks_at(i)
                &&& forall|i: int| 0 <= i < old(self).figs().len() ==> #[trigger] final(self).validator_hooks_at(i) == old(self).validator_hooks_at(i)
            },
    {
        match self.position(key) {
            Some(i) => {
                let ghost before = self.figs();
                self.entries[i].callbacks.register(phase, func);
                assert(self.figs() =~= before);
                Ok(())
            },
            None => Err(FigtreeError::UnknownKey(key.to_string())),
        }
    }

    /// Sets the rule for a key. An unregistered key is refused with
    /// `UnknownKey`; NoMaps on a key holding a map type and NoLists on a
    /// key holding a list type are refused with `RuleViolation`, the rule
    /// left as it was.
    pub fn with_rule(&mut self, key: &str, rule: Rule) -> (r: FigtreeResult<()>)
        requires
            old(self).wf(),
        ensures
            final(self).wf(),
            final(self).same_setup(&*old(self)),
            final(self).same_hooks(&*old(self)),
            !has_key(old(self).figs(), key@) ==> (r matches Err(FigtreeError::UnknownKey(k)) && k@ == key@),
            has_key(old(self).figs(), key@) ==> {
                let p = key_pos(old(self).figs(), key@);
                let f = old(self).figs()[p];
                if resolved_value(f) is Some && kind_blocked(rule, kind_of(resolved_value(f)->0@)) {
                    r matches Err(FigtreeError::RuleViolation { key: k, rule: m }) && k@ == key@ && m@ == rule_name(rule)
                } else {
                    r is Ok
                }
            },
            r is Err ==> final(self).figs() == old(self).figs(),
            r is Ok ==> final(self).figs() == old(self).figs().update(
                key_pos(old(self).figs(), key@),
                Fig { rule, ..old(self).figs()[key_pos(old(self).figs(), key@)] },
            ),
    {
        match self.position(key) {
            Some(i) => {
                assert(self.figs()[i as int] == self.entries@[i as int].fig);
                let blocked = match self.entries[i].fig.resolve() {
                    Some(v) => rule_blocks_kind(&rule, v.kind()),
                    None => false,
                };
                if blocked {
                    let name = rule.name();
                    return Err(FigtreeError::RuleViolation { key: key.to_string(), rule: name });
                }
                let ghost before = self.figs();
                let ghost entries_before = self.entries@;
                self.entries[i].fig.rule = rule;
                proof {
                    let want = before.update(i as int, Fig { rule, ..before[i as int] });
                    assert(self.figs() =~= want);
                    assert forall|a: int, b: int| 0 <= a < self.figs().len() && 0 <= b < self.figs().len() && a != b
                        implies #[trigger] self.figs()[a].key@ != #[trigger] self.figs()[b].key@ by {
                        assert(self.figs()[a].key == before[a].key);
                        assert(self.figs()[b].key == before[b].key);
                    }
                    assert forall|a: int| 0 <= a < self.figs().len() implies (#[trigger] self.figs()[a]).wf() by {
                        assert(before[a].wf());
                    }
                }
                Ok(())
            },
            None => Err(FigtreeError::UnknownKey(key.to_string())),
        }
    }

    // ── Reads of the registry ─────────────────────────────────────────────────

    /// Returns the raw Fig for a key, giving access to history, source,
    /// rule and error.
    pub fn fig(&self, key: &str) -> (r: Option<&Fig>)
        requires
            self.wf(),
        ensures
            match r {
                Some(f) => fig_for(self.figs(), key@) == Some(*f),
                None => fig_for(self.figs(), key@) is None,
            },
    {
        match self.position(key) {
            Some(i) => Some(&self.entries[i].fig),
            None => None,
        }
    }

    /// Returns the history of a key's state transitions.
    pub fn history(&self, key: &str) -> (r: Option<&[FigHistoryEntry]>)
        requires
            self.wf(),
        ensures
            match r {
                Some(h) => has_key(self.figs(), key@) && h@ == fig_for(self.figs(), key@)->0.history@,
                None => !has_key(self.figs(), key@),
            },
    {
        match self.position(key) {
            Some(i) => Some(self.entries[i].fig.history()),
            None => None,
        }
    }

    /// Returns the description recorded for a key.
    pub fn description(&self, key: &str) -> (r: Option<&str>)
        ensures
            match r {
                Some(d) => self.description_map().contains_key(key@) && d@ == self.description_map()[key@],
                None => !self.description_map().contains_key(key@),
            },
    {
        match self.descriptions.get(key) {
            Some(d) => Some(d.as_str()),
            None => None,
        }
    }

    /// Returns true if parse() or load() has completed successfully.
    pub fn is_resolved(&self) -> (r: bool)
        ensures
            r == self.was_resolved(),
    {
        self.resolved
    }

    /// Returns the number of registered keys.
    pub fn len(&self) -> (r: usize)
        ensures
            r == self.figs().len(),
    {
        self.entries.len()
    }

    /// Returns true if no keys are registered.
    pub fn is_empty(&self) -> (r: bool)
        ensures
            r == (self.figs().len() == 0),
    {
        self.entries.len() == 0
    }


    // ── hooks ─────────────────────────────────────────────────────────────────

    /// No AfterRead callback can run for a read of `key`: the key is
    /// unknown, has no value, skips callbacks, or has none for the phase.
    pub open spec fn read_quiet(&self, key: Seq<char>) -> bool {
        let p = key_pos(self.figs(), key);
        ||| !has_key(self.figs(), key)
        ||| value_of(self.figs(), key) is None
        ||| self.figs()[p].rule == Rule::NoCallbacks
        ||| count_phase(self.phases_at(p), CallbackPhase::AfterRead) == 0
    }

    /// Runs the validators of the `i`-th key on `value`; a validation
    /// failure is reported under that key.
    fn run_validators(&self, i: usize, value: &FigValue) -> (r: FigtreeResult<()>)
        requires
            i < self.figs().len(),
        ensures
            self.validators_at(i as int).len() == 0 ==> r is Ok,
            r is Err ==> validation_refusal(r->Err_0, self.figs()[i as int].key@),
            validated(self.validator_hooks_at(i as int), value@, self.figs()[i as int].key@, r),
    {
        assert(self.figs()[i as int] == self.entries@[i as int].fig);
        let outcome = self.entries[i].validators.validate(value);
        keyed_validation(&self.entries[i].fig.key, outcome)
    }

    /// Fires the `phase` callbacks of the `i`-th key on `value`; a failure
    /// is reported as `CallbackFailed` under that key and phase.
    fn run_callbacks(&self, i: usize, phase: CallbackPhase, value: &FigValue) -> (r: FigtreeResult<()>)
        requires
            i < self.figs().len(),
        ensures
            count_phase(self.phases_at(i as int), phase) == 0 ==> r is Ok,
            r is Err ==> callback_refusal(r->Err_0, self.figs()[i as int].key@, phase),
            fired(self.callback_hooks_at(i as int), phase, value@, self.figs()[i as int].key@, r),
    {
        assert(self.figs()[i as int] == self.entries@[i as int].fig);
        let outcome = self.entries[i].callbacks.invoke_phase(&phase, value);
        callback_outcome(&self.entries[i].fig.key, phase, outcome)
    }

    /// What the AfterRead callbacks report for a read of `key`: none fire
    /// for an unknown key, a key without a value or a key whose rule skips
    /// callbacks; otherwise the key's callbacks fire, in order, on its
    /// current value, and the first failure is reported.
    pub open spec fn after_read_outcome(&self, key: Seq<char>, out: FigtreeResult<()>) -> bool {
        let p = key_pos(self.figs(), key);
        if !has_key(self.figs(), key) || value_of(self.figs(), key) is None || self.figs()[p].rule == Rule::NoCallbacks {
            out is Ok
        } else {
            fired(self.callback_hooks_at(p), CallbackPhase::AfterRead, value_of(self.figs(), key)->0@, key, out)
        }
    }

    /// Fires the AfterRead callbacks for a key. An unknown key, a key
    /// without a value, and a key whose rule skips callbacks fire none.
    fn invoke_after_read(&self, key: &str) -> (r: FigtreeResult<()>)
        requires
            self.wf(),
        ensures
            self.read_quiet(key@) ==> r is Ok,
            r is Err ==> callback_refusal(r->Err_0, key@, CallbackPhase::AfterRead),
            self.after_read_outcome(key@, r),
    {
        let i = match self.position(key) {
            Some(i) => i,
            None => return Ok(()),
        };
        assert(self.figs()[i as int] == self.entries@[i as int].fig);
        proof { lemma_key_pos(self.figs(), i as int); }
        if self.entries[i].fig.rule == Rule::NoCallbacks {
            return Ok(());
        }
        match self.entries[i].fig.resolve() {
            Some(v) => self.run_callbacks(i, CallbackPhase::AfterRead, v),
            None => Ok(()),
        }
    }

    /// The value a read of `key` expecting type `k` returns, after the
    /// AfterRead callbacks have fired.
    fn read_value(&self, key: &str, k: Kind) -> (r: FigtreeResult<&FigValue>)
        requires
            self.wf(),
        ensures
            self.read_quiet(key@) ==> (r is Ok <==> readable(self.figs(), key@, k)),
            r is Ok ==> readable(self.figs(), key@, k) && value_of(self.figs(), key@)->0@ == r->Ok_0@,
            r is Err ==> read_refusal(self.figs(), key@, k, r->Err_0)
                || (!self.read_quiet(key@) && callback_refusal(r->Err_0, key@, CallbackPhase::AfterRead)),
            exists|cb: FigtreeResult<()>| #[trigger] self.after_read_outcome(key@, cb) && match cb {
                Err(e) => r is Err && r->Err_0 == e,
                Ok(()) => (r is Ok <==> readable(self.figs(), key@, k)) && (r is Err ==> read_refusal(self.figs(), key@, k, r->Err_0)),
            },
    {
        let cb = self.invoke_after_read(key);
        assert(self.after_read_outcome(key@, cb));
        match cb {
            Ok(()) => {},
            Err(e) => return Err(e),
        }
        let ghost u: () = cb->Ok_0;
        assert(cb == Ok::<(), FigtreeError>(u));
        let i = match self.position(key) {
            Some(i) => i,
            None => return Err(FigtreeError::UnknownKey(key.to_string())),
        };
        assert(self.figs()[i as int] == self.entries@[i as int].fig);
        match self.entries[i].fig.resolve() {
            Some(v) => {
                if v.kind() == k {
                    Ok(v)
                } else {
                    Err(FigtreeError::TypeMismatch {
                        key: key.to_string(),
                        expected: owned(k.name()),
                        got: owned(v.type_label()),
                    })
                }
            },
            None => Err(FigtreeError::MissingRequired(key.to_string())),
        }
    }

    /// Returns the current String value for a key.
    pub fn string(&self, key: &str) -> (r: FigtreeResult<&str>)
        requires
            self.wf(),
        ensures
            self.read_quiet(key@) ==> (r is Ok <==> readable(self.figs(), key@, Kind::String)),
            r is Ok ==> value_of(self.figs(), key@) is Some
                && value_of(self.figs(), key@)->0@ == ValueView::Str(r->Ok_0@),
            r is Err ==> read_refusal(self.figs(), key@, Kind::String, r->Err_0)
                || (!self.read_quiet(key@) && callback_refusal(r->Err_0, key@, CallbackPhase::AfterRead)),
            exists|cb: FigtreeResult<()>| #[trigger] self.after_read_outcome(key@, cb) && match cb {
                Err(e) => r is Err && r->Err_0 == e,
                Ok(()) => (r is Ok <==> readable(self.figs(), key@, Kind::String)) && (r is Err ==> read_refusal(self.figs(), key@, Kind::String, r->Err_0)),
            },
    {
        match self.read_value(key, Kind::String) {
            Ok(FigValue::String(s)) => Ok(s.as_str()),
            Ok(_) => Err(FigtreeError::Other(String::new())),
            Err(e) => Err(e),
        }
    }

    /// Returns the current Int (i32) value for a key.
    pub fn integer(&self, key: &str) -> (r: FigtreeResult<i32>)
        requires
            self.wf(),
        ensures
            self.read_quiet(key@) ==> (r is Ok <==> readable(self.figs(), key@, Kind::Int)),
            r is Ok ==> value_of(self.figs(), key@) is Some
                && value_of(self.figs(), key@)->0@ == ValueView::Int(r->Ok_0),
            r is Err ==> read_refusal(self.figs(), key@, Kind::Int, r->Err_0)
                || (!self.read_quiet(key@) && callback_refusal(r->Err_0, key@, CallbackPhase::AfterRead)),
            exists|cb: FigtreeResult<()>| #[trigger] self.after_read_outcome(key@, cb) && match cb {
                Err(e) => r is Err && r->Err_0 == e,
                Ok(()) => (r is Ok <==> readable(self.figs(), key@, Kind::Int)) && (r is Err ==> read_refusal(self.figs(), key@, Kind::Int, r->Err_0)),
            },
    {
        match self.read_value(key, Kind::Int) {
            Ok(FigValue::Int(n)) => Ok(*n),
            Ok(_) => Err(FigtreeError::Other(String::new())),
            Err(e) => Err(e),
        }
    }

    /// Returns the current Int64 value for a key.
    pub fn int64(&self, key: &str) -> (r: FigtreeResult<i64>)
        requires
            self.wf(),
        ensures
            self.read_quiet(key@) ==> (r is Ok <==> readable(self.figs(), key@, Kind::Int64)),
            r is Ok ==> value_of(self.figs(), key@) is Some
                && value_of(self.figs(), key@)->0@ == ValueView::Int64(r->Ok_0),
            r is Err ==> read_refusal(self.figs(), key@, Kind::Int64, r->Err_0)
                || (!self.read_quiet(key@) && callback_refusal(r->Err_0, key@, CallbackPhase::AfterRead)),
            exists|cb: FigtreeResult<()>| #[trigger] self.after_read_outcome(key@, cb) && match cb {
                Err(e) => r is Err && r->Err_0 == e,
                Ok(()) => (r is Ok <==> readable(self.figs(), key@, Kind::Int64)) && (r is Err ==> read_refusal(self.figs(), key@, Kind::Int64, r->Err_0)),
            },
    {
        match self.read_value(key, Kind::Int64) {
            Ok(FigValue::Int64(n)) => Ok(*n),
            Ok(_) => Err(FigtreeError::Other(String::new())),
            Err(e) => Err(e),
        }
    }

    /// Returns the current Int128 value for a key.
    pub fn int128(&self, key: &str) -> (r: FigtreeResult<i128>)
        requires
            self.wf(),
        ensures
            self.read_quiet(key@) ==> (r is Ok <==> readable(self.figs(), key@, Kind::Int128)),
            r is Ok ==> value_of(self.figs(), key@) is Some
                && value_of(self.figs(), key@)->0@ == ValueView::Int128(r->Ok_0),
            r is Err ==> read_refusal(self.figs(), key@, Kind::Int128, r->Err_0)
                || (!self.read_quiet(key@) && callback_refusal(r->Err_0, key@, CallbackPhase::AfterRead)),
            exists|cb: FigtreeResult<()>| #[trigger] self.after_read_outcome(key@, cb) && match cb {
                Err(e) => r is Err && r->Err_0 == e,
                Ok(()) => (r is Ok <==> readable(self.figs(), key@, Kind::Int128)) && (r is Err ==> read_refusal(self.figs(), key@, Kind::Int128, r->Err_0)),
            },
    {
        match self.read_value(key, Kind::Int128) {
            Ok(FigValue::Int128(n)) => Ok(*n),
            Ok(_) => Err(FigtreeError::Other(String::new())),
            Err(e) => Err(e),
        }
    }

    /// Returns the bit pattern of the current Float64 value for a key.
    pub fn float64(&self, key: &str) -> (r: FigtreeResult<u64>)
        requires
            self.wf(),
        ensures
            self.read_quiet(key@) ==> (r is Ok <==> readable(self.figs(), key@, Kind::Float64)),
            r is Ok ==> value_of(self.figs(), key@) is Some
                && value_of(self.figs(), key@)->0@ == ValueView::Float64(r->Ok_0),
            r is Err ==> read_refusal(self.figs(), key@, Kind::Float64, r->Err_0)
                || (!self.read_quiet(key@) && callback_refusal(r->Err_0, key@, CallbackPhase::AfterRead)),
            exists|cb: FigtreeResult<()>| #[trigger] self.after_read_outcome(key@, cb) && match cb {
                Err(e) => r is Err && r->Err_0 == e,
                Ok(()) => (r is Ok <==> readable(self.figs(), key@, Kind::Float64)) && (r is Err ==> read_refusal(self.figs(), key@, Kind::Float64, r->Err_0)),
            },
    {
        match self.read_value(key, Kind::Float64) {
            Ok(FigValue::Float64(n)) => Ok(*n),
            Ok(_) => Err(FigtreeError::Other(String::new())),
            Err(e) => Err(e),
        }
    }

    /// Returns the bit pattern of the current Float128 value for a key.
    pub fn float128(&self, key: &str) -> (r: FigtreeResult<u64>)
        requires
            self.wf(),
        ensures
            self.read_quiet(key@) ==> (r is Ok <==> readable(self.figs(), key@, Kind::Float128)),
            r is Ok ==> value_of(self.figs(), key@) is Some
                && value_of(self.figs(), key@)->0@ == ValueView::Float128(r->Ok_0),
            r is Err ==> read_refusal(self.figs(), key@, Kind::Float128, r->Err_0)
                || (!self.read_quiet(key@) && callback_refusal(r->Err_0, key@, CallbackPhase::AfterRead)),
            exists|cb: FigtreeResult<()>| #[trigger] self.after_read_outcome(key@, cb) && match cb {
                Err(e) => r is Err && r->Err_0 == e,
                Ok(()) => (r is Ok <==> readable(self.figs(), key@, Kind::Float128)) && (r is Err ==> read_refusal(self.figs(), key@, Kind::Float128, r->Err_0)),
            },
    {
        match self.read_value(key, Kind::Float128) {
            Ok(FigValue::Float128(n)) => Ok(*n),
            Ok(_) => Err(FigtreeError::Other(String::new())),
            Err(e) => Err(e),
        }
    }

    /// Returns the current Bool value for a key.
    /// Named `boolean` because `bool` is a Rust keyword.
    pub fn boolean(&self, key: &str) -> (r: FigtreeResult<bool>)
        requires
            self.wf(),
        ensures
            self.read_quiet(key@) ==> (r is Ok <==> readable(self.figs(), key@, Kind::Bool)),
            r is Ok ==> value_of(self.figs(), key@) is Some
                && value_of(self.figs(), key@)->0@ == ValueView::Bool(r->Ok_0),
            r is Err ==> read_refusal(self.figs(), key@, Kind::Bool, r->Err_0)
                || (!self.read_quiet(key@) && callback_refusal(r->Err_0, key@, CallbackPhase::AfterRead)),
            exists|cb: FigtreeResult<()>| #[trigger] self.after_read_outcome(key@, cb) && match cb {
                Err(e) => r is Err && r->Err_0 == e,
                Ok(()) => (r is Ok <==> readable(self.figs(), key@, Kind::Bool)) && (r is Err ==> read_refusal(self.figs(), key@, Kind::Bool, r->Err_0)),
            },
    {
        match self.read_value(key, Kind::Bool) {
            Ok(FigValue::Bool(n)) => Ok(*n),
            Ok(_) => Err(FigtreeError::Other(String::new())),
            Err(e) => Err(e),
        }
    }

    /// Returns the current Duration value for a key.
    pub fn duration(&self, key: &str) -> (r: FigtreeResult<Duration>)
        requires
            self.wf(),
        ensures
            self.read_quiet(key@) ==> (r is Ok <==> readable(self.figs(), key@, Kind::Duration)),
            r is Ok ==> value_of(self.figs(), key@) is Some
                && value_of(self.figs(), key@)->0@ == ValueView::Duration(r->Ok_0.total_nanos()),
            r is Err ==> read_refusal(self.figs(), key@, Kind::Duration, r->Err_0)
                || (!self.read_quiet(key@) && callback_refusal(r->Err_0, key@, CallbackPhase::AfterRead)),
            exists|cb: FigtreeResult<()>| #[trigger] self.after_read_outcome(key@, cb) && match cb {
                Err(e) => r is Err && r->Err_0 == e,
                Ok(()) => (r is Ok <==> readable(self.figs(), key@, Kind::Duration)) && (r is Err ==> read_refusal(self.figs(), key@, Kind::Duration, r->Err_0)),
            },
    {
        match self.read_value(key, Kind::Duration) {
            Ok(FigValue::Duration(n)) => Ok(*n),
            Ok(_) => Err(FigtreeError::Other(String::new())),
            Err(e) => Err(e),
        }
    }

    /// Returns the current ListString value for a key.
    pub fn list_string(&self, key: &str) -> (r: FigtreeResult<Vec<String>>)
        requires
            self.wf(),
        ensures
            self.read_quiet(key@) ==> (r is Ok <==> readable(self.figs(), key@, Kind::ListString)),
            r is Ok ==> value_of(self.figs(), key@) is Some
                && value_of(self.figs(), key@)->0@ == ValueView::ListString(seq_view(r->Ok_0@)),
            r is Err ==> read_refusal(self.figs(), key@, Kind::ListString, r->Err_0)
                || (!self.read_quiet(key@) && callback_refusal(r->Err_0, key@, CallbackPhase::AfterRead)),
            exists|cb: FigtreeResult<()>| #[trigger] self.after_read_outcome(key@, cb) && match cb {
                Err(e) => r is Err && r->Err_0 == e,
                Ok(()) => (r is Ok <==> readable(self.figs(), key@, Kind::ListString)) && (r is Err ==> read_refusal(self.figs(), key@, Kind::ListString, r->Err_0)),
            },
    {
        match self.read_value(key, Kind::ListString) {
            Ok(FigValue::ListString(n)) => Ok(copy_list(n)),
            Ok(_) => Err(FigtreeError::Other(String::new())),
            Err(e) => Err(e),
        }
    }

    /// Returns the current ListInt value for a key.
    pub fn list_int(&self, key: &str) -> (r: FigtreeResult<Vec<i32>>)
        requires
            self.wf(),
        ensures
            self.read_quiet(key@) ==> (r is Ok <==> readable(self.figs(), key@, Kind::ListInt)),
            r is Ok ==> value_of(self.figs(), key@) is Some
                && value_of(self.figs(), key@)->0@ == ValueView::ListInt(seq_view(r->Ok_0@)),
            r is Err ==> read_refusal(self.figs(), key@, Kind::ListInt, r->Err_0)
                || (!self.read_quiet(key@) && callback_refusal(r->Err_0, key@, CallbackPhase::AfterRead)),
            exists|cb: FigtreeResult<()>| #[trigger] self.after_read_outcome(key@, cb) && match cb {
                Err(e) => r is Err && r->Err_0 == e,
                Ok(()) => (r is Ok <==> readable(self.figs(), key@, Kind::ListInt)) && (r is Err ==> read_refusal(self.figs(), key@, Kind::ListInt, r->Err_0)),
            },
    {
        match self.read_value(key, Kind::ListInt) {
            Ok(FigValue::ListInt(n)) => Ok(copy_list(n)),
            Ok(_) => Err(FigtreeError::Other(String::new())),
            Err(e) => Err(e),
        }
    }

    /// Returns the current MapString value for a key.
    pub fn map_string(&self, key: &str) -> (r: FigtreeResult<StrMap<String>>)
        requires
            self.wf(),
        ensures
            self.read_quiet(key@) ==> (r is Ok <==> readable(self.figs(), key@, Kind::MapString)),
            r is Ok ==> value_of(self.figs(), key@) is Some
                && value_of(self.figs(), key@)->0@ == ValueView::MapString(r->Ok_0@),
            r is Err ==> read_refusal(self.figs(), key@, Kind::MapString, r->Err_0)
                || (!self.read_quiet(key@) && callback_refusal(r->Err_0, key@, CallbackPhase::AfterRead)),
            exists|cb: FigtreeResult<()>| #[trigger] self.after_read_outcome(key@, cb) && match cb {
                Err(e) => r is Err && r->Err_0 == e,
                Ok(()) => (r is Ok <==> readable(self.figs(), key@, Kind::MapString)) && (r is Err ==> read_refusal(self.figs(), key@, Kind::MapString, r->Err_0)),
            },
    {
        match self.read_value(key, Kind::MapString) {
            Ok(FigValue::MapString(n)) => Ok(n.duplicate()),
            Ok(_) => Err(FigtreeError::Other(String::new())),
            Err(e) => Err(e),
        }
    }


    // ── updates ───────────────────────────────────────────────────────────────

    /// Sends a Mutation, when tracking is enabled and a receiver channel
    /// is open, and records it in the log.
    fn emit(&mut self, key: &str, prior: Option<FigValue>, new_value: FigValue, source: FigSource)
        ensures
            final(self).figs() == old(self).figs(),
            final(self).entries@ == old(self).entries@,
            final(self).same_config(&*old(self)),
            final(self).same_hooks(&*old(self)),
            final(self).was_resolved() == old(self).was_resolved(),
            if old(self).tracks() && old(self).listening() {
                sent(old(self).emitted(), final(self).emitted(), key@, opt_view(prior), new_value@, source)
            } else {
                final(self).emitted() == old(self).emitted()
            },
    {
        if !self.tracking {
            return;
        }
        match &self.mutation_tx {
            Some(tx) => {
                let m = match prior {
                    None => Mutation::first(key, new_value, source),
                    Some(o) => Mutation::changed(key, o, new_value, source),
                };
                let ghost gm = m;
                tx.send(m);
                proof {
                    let before = self.emitted@;
                    self.emitted@ = before.push(gm);
                    assert(self.emitted@.take(before.len() as int) =~= before);
                }
            },
            None => {},
        }
    }

    /// Sets the `i`-th Fig's value from `source`, as `Fig::set` does.
    fn set_at(&mut self, i: usize, value: FigValue, source: FigSource) -> (r: FigtreeResult<()>)
        requires
            old(self).wf(),
            i < old(self).figs().len(),
            !set_would_panic(old(self).figs()[i as int]),
        ensures
            final(self).wf(),
            final(self).figs().len() == old(self).figs().len(),
            final(self).figs() == old(self).figs().update(i as int, final(self).figs()[i as int]),
            set_result(old(self).figs()[i as int], final(self).figs()[i as int], value, source, r),
            final(self).same_setup(&*old(self)),
            final(self).same_hooks(&*old(self)),
    {
        let ghost before = self.figs();
        let ghost entries_before = self.entries@;
        assert(before[i as int] == self.entries@[i as int].fig);
        let r = self.entries[i].fig.set(value, source);
        proof {
            let n = self.entries@[i as int].fig;
            assert(self.figs() =~= before.update(i as int, n));
            assert forall|a: int, b: int| 0 <= a < self.figs().len() && 0 <= b < self.figs().len() && a != b
                implies #[trigger] self.figs()[a].key@ != #[trigger] self.figs()[b].key@ by {
                assert(self.figs()[a].key == before[a].key);
                assert(self.figs()[b].key == before[b].key);
            }
            assert forall|a: int| 0 <= a < self.figs().len() implies (#[trigger] self.figs()[a]).wf() by {
                assert(before[a].wf());
            }
            assert forall|a: int| 0 <= a < self.entries@.len() implies
                (#[trigger] self.entries@[a].validators) == entries_before[a].validators by {
            }
            assert forall|a: int| 0 <= a < self.entries@.len() implies
                (#[trigger] self.entries@[a].callbacks) == entries_before[a].callbacks by {
            }
        }
        r
    }

    /// Sets a value programmatically, typically after parse() or load().
    ///
    /// Runs the key's validators (unless its rule skips them), sets the
    /// value from `FigSource::Programmatic` under the Fig's rule and type,
    /// fires the AfterChange callbacks (unless the rule skips them), and
    /// emits a Mutation if tracking is enabled and the value changed.
    /// A PanicOnChange key that already holds a value must not be stored
    /// to: that is a programming error.
    pub fn store(&mut self, key: &str, value: FigValue) -> (r: FigtreeResult<()>)
        requires
            old(self).wf(),
            !(has_key(old(self).figs(), key@) && set_would_panic(fig_for(old(self).figs(), key@)->0)),
        ensures
            final(self).wf(),
            final(self).same_config(&*old(self)),
            final(self).was_resolved() == old(self).was_resolved(),
            final(self).same_hooks(&*old(self)),
            !has_key(old(self).figs(), key@) ==> {
                &&& r matches Err(FigtreeError::UnknownKey(k)) && k@ == key@
                &&& final(self).figs() == old(self).figs()
                &&& final(self).emitted() == old(self).emitted()
            },
            has_key(old(self).figs(), key@) ==> {
                let p = key_pos(old(self).figs(), key@);
                let o = old(self).figs()[p];
                let n = final(self).figs()[p];
                &&& final(self).figs() == old(self).figs().update(p, n)
                &&& stored(o, n, value, r, old(self).validator_hooks_at(p), old(self).callback_hooks_at(p))
                &&& if r is Ok && changes(o, value@) && old(self).tracks() && old(self).listening() {
                    sent(old(self).emitted(), final(self).emitted(), key@, opt_view(o.value), value@, FigSource::Programmatic)
                } else {
                    final(self).emitted() == old(self).emitted()
                }
            },
    {
        let i = match self.position(key) {
            Some(i) => i,
            None => return Err(FigtreeError::UnknownKey(key.to_string())),
        };
        let ghost o = self.figs()[i as int];
        assert(o == self.entries@[i as int].fig);
        // rules come first
        if self.entries[i].fig.is_resolved() && self.entries[i].fig.rule == Rule::PreventChange {
            return self.set_at(i, value, FigSource::Programmatic);
        }
        if rule_blocks_kind(&self.entries[i].fig.rule, value.kind()) {
            let name = self.entries[i].fig.rule.name();
            let key_text = self.entries[i].fig.key.clone();
            self.record_rule_block_at(i, name.as_str());
            return Err(FigtreeError::RuleViolation { key: key_text, rule: name });
        }
        let skip_validators = self.entries[i].fig.rule == Rule::NoValidations;
        let skip_callbacks = self.entries[i].fig.rule == Rule::NoCallbacks;
        let prior = duplicate_opt(&self.entries[i].fig.value);
        if !skip_validators {
            match self.run_validators(i, &value) {
                Ok(()) => {},
                Err(e) => {
                    let message = rejection_text(&e);
                    self.record_rejection_at(i, message.as_str());
                    return Err(e);
                },
            }
        }
        let ghost start = *self;
        proof {
            if o.rule == Rule::NoValidations {
                assert(chain_outcome(Seq::<HookSpec>::empty(), value@, Ok::<(), FigtreeError>(())));
                assert(keyed_as(Ok::<(), FigtreeError>(()), o.key@, Ok::<(), FigtreeError>(())));
            }
            assert(validated(active_validators(o.rule, start.validator_hooks_at(i as int)), value@, o.key@, Ok::<(), FigtreeError>(())));
        }
        let kept = value.duplicate();
        let unchanged = match &prior {
            Some(p) => p.same_as(&value),
            None => false,
        };
        let fits = match self.entries[i].fig.resolve() {
            Some(h) => h.same_type(&value),
            None => true,
        };
        let changing = fits && !unchanged;
        // AfterChange callbacks see the new value before it is committed;
        // a refusal leaves the Fig as it was, which rolls the change back.
        let ghost ch = if would_change(o, value@) { active_callbacks(o.rule, start.callback_hooks_at(i as int)) } else { Seq::empty() };
        if changing && !skip_callbacks {
            match self.run_callbacks(i, CallbackPhase::AfterChange, &kept) {
                Ok(()) => {},
                Err(e) => {
                    assert(self.figs().update(i as int, o) =~= self.figs());
                    assert(fired(ch, CallbackPhase::AfterChange, value@, o.key@, Err::<(), FigtreeError>(e)));
                    return Err(e);
                },
            }
        } else {
            assert(ch.len() == 0);
            assert(phase_outcome(Seq::<(CallbackPhase, HookSpec)>::empty(), CallbackPhase::AfterChange, value@, Ok::<(), FigtreeError>(())));
        }
        assert(fired(ch, CallbackPhase::AfterChange, value@, o.key@, Ok::<(), FigtreeError>(())));
        match self.set_at(i, value, FigSource::Programmatic) {
            Ok(()) => {},
            Err(e) => return Err(e),
        }
        if changing {
            self.emit(key, prior, kept, FigSource::Programmatic);
        }
        Ok(())
    }

    /// Records a rule block on the `i`-th Fig without changing its value.
    fn record_rule_block_at(&mut self, i: usize, rule: &str)
        requires
            old(self).wf(),
            i < old(self).figs().len(),
        ensures
            final(self).wf(),
            final(self).figs() == old(self).figs().update(i as int, final(self).figs()[i as int]),
            refusal_recorded(old(self).figs()[i as int], final(self).figs()[i as int]),
            (final(self).figs()[i as int].history@.last().state matches FigState::RuleBlocked { rule: m } && m@ == rule@),
            final(self).same_setup(&*old(self)),
            final(self).same_hooks(&*old(self)),
    {
        let ghost before = self.figs();
        let ghost entries_before = self.entries@;
        assert(before[i as int] == self.entries@[i as int].fig);
        self.entries[i].fig.record_rule_block(rule);
        proof { self.lemma_one_fig_changed(before, entries_before, i as int); }
    }

    /// Records a validation rejection on the `i`-th Fig without changing
    /// its value.
    fn record_rejection_at(&mut self, i: usize, message: &str)
        requires
            old(self).wf(),
            i < old(self).figs().len(),
        ensures
            final(self).wf(),
            final(self).figs() == old(self).figs().update(i as int, final(self).figs()[i as int]),
            refusal_recorded(old(self).figs()[i as int], final(self).figs()[i as int]),
            (final(self).figs()[i as int].history@.last().state matches FigState::ValidationRejected { message: m } && m@ == message@),
            final(self).same_setup(&*old(self)),
            final(self).same_hooks(&*old(self)),
    {
        let ghost before = self.figs();
        let ghost entries_before = self.entries@;
        assert(before[i as int] == self.entries@[i as int].fig);
        self.entries[i].fig.record_validation_rejection(message);
        proof { self.lemma_one_fig_changed(before, entries_before, i as int); }
    }

    /// Changing the `i`-th Fig alone, keeping its key and well-formedness,
    /// keeps the Tree well formed and its hooks.
    proof fn lemma_one_fig_changed(&self, before: Seq<Fig>, entries_before: Seq<Entry>, i: int)
        requires
            0 <= i < before.len(),
            before == entries_before.map_values(|e: Entry| e.fig),
            keys_distinct(before),
            forall|a: int| 0 <= a < before.len() ==> (#[trigger] before[a]).wf(),
            self.entries@.len() == entries_before.len(),
            forall|a: int| 0 <= a < entries_before.len() && a != i ==> #[trigger] self.entries@[a] == entries_before[a],
            self.entries@[i].validators == entries_before[i].validators,
            self.entries@[i].callbacks == entries_before[i].callbacks,
            self.entries@[i].fig.key == entries_before[i].fig.key,
            self.entries@[i].fig.wf(),
        ensures
            keys_distinct(self.figs()),
            forall|a: int| 0 <= a < self.figs().len() ==> (#[trigger] self.figs()[a]).wf(),
            self.figs() == before.update(i, self.figs()[i]),
            forall|a: int| 0 <= a < self.entries@.len() ==>
                (#[trigger] self.entries@[a].validators) == entries_before[a].validators,
            forall|a: int| 0 <= a < self.entries@.len() ==>
                (#[trigger] self.entries@[a].callbacks) == entries_before[a].callbacks,
    {
        assert(self.figs() =~= before.update(i, self.figs()[i]));
        assert forall|a: int, b: int| 0 <= a < self.figs().len() && 0 <= b < self.figs().len() && a != b
            implies #[trigger] self.figs()[a].key@ != #[trigger] self.figs()[b].key@ by {
            assert(self.figs()[a].key == before[a].key);
            assert(self.figs()[b].key == before[b].key);
        }
        assert forall|a: int| 0 <= a < self.figs().len() implies (#[trigger] self.figs()[a]).wf() by {
            if a != i {
                assert(self.figs()[a] == before[a]);
            }
        }
        assert forall|a: int| 0 <= a < self.entries@.len() implies
            (#[trigger] self.entries@[a].validators) == entries_before[a].validators by {
            if a != i { assert(self.entries@[a] == entries_before[a]); }
        }
        assert forall|a: int| 0 <= a < self.entries@.len() implies
            (#[trigger] self.entries@[a].callbacks) == entries_before[a].callbacks by {
            if a != i { assert(self.entries@[a] == entries_before[a]); }
        }
    }


    // ── resolution ────────────────────────────────────────────────────────────

    /// Some key has a validator or an AfterVerify callback, whose errors
    /// may be any error their contracts allow.
    pub open spec fn hooks_may_run(&self) -> bool {
        exists|i: int| 0 <= i < self.figs().len() && {
            ||| (#[trigger] self.validators_at(i)).len() > 0
            ||| count_phase(self.phases_at(i), CallbackPhase::AfterVerify) > 0
        }
    }

    /// Where the `j`-th key has no validator that runs and no AfterVerify
    /// callback that fires, validation and the AfterVerify phase succeed.
    proof fn lemma_silent_hooks(&self, j: int)
        requires
            0 <= j < self.figs().len(),
            self.wf(),
            self.validators_at(j).len() == 0 || self.figs()[j].rule == Rule::NoValidations,
            count_phase(self.phases_at(j), CallbackPhase::AfterVerify) == 0 || self.figs()[j].rule == Rule::NoCallbacks,
        ensures
            forall|v: ValueView, key: Seq<char>, r: FigtreeResult<()>|
                #[trigger] validated(active_validators(self.figs()[j].rule, self.validator_hooks_at(j)), v, key, r) ==> r is Ok,
            forall|v: ValueView, key: Seq<char>, r: FigtreeResult<()>|
                #[trigger] fired(active_callbacks(self.figs()[j].rule, self.callback_hooks_at(j)), CallbackPhase::AfterVerify, v, key, r) ==> r is Ok,
    {
        let rule = self.figs()[j].rule;
        assert(self.figs()[j] == self.entries@[j].fig);
        crate::validators::lemma_hooks_named(self.entries@[j].validators);
        crate::callbacks::lemma_hooks_phases(self.entries@[j].callbacks);
        let vh = active_validators(rule, self.validator_hooks_at(j));
        let ch = active_callbacks(rule, self.callback_hooks_at(j));
        assert(vh.len() == 0);
        assert forall|v: ValueView, key: Seq<char>, r: FigtreeResult<()>|
            #[trigger] validated(vh, v, key, r) implies r is Ok by {
            let out = choose|out: FigtreeResult<()>| chain_outcome(vh, v, out) && keyed_as(out, key, r);
            assert(out is Ok);
        }
        assert forall|i: int| 0 <= i < ch.len() implies (#[trigger] ch[i]).0 != CallbackPhase::AfterVerify by {
            if self.phases_at(j)[i] == CallbackPhase::AfterVerify {
                crate::callbacks::lemma_count_phase_occurs(self.phases_at(j), CallbackPhase::AfterVerify, i);
            }
        }
        assert forall|v: ValueView, key: Seq<char>, r: FigtreeResult<()>|
            #[trigger] fired(ch, CallbackPhase::AfterVerify, v, key, r) implies r is Ok by {
            let out = choose|out: FigtreeResult<()>| phase_outcome(ch, CallbackPhase::AfterVerify, v, out) && match out {
                Ok(()) => r is Ok,
                Err(e) => r matches Err(FigtreeError::CallbackFailed { key: k, phase: p, message: m })
                    && k@ == key && p@ == crate::callbacks::phase_name(CallbackPhase::AfterVerify) && m@ == error_text(e),
            };
            crate::callbacks::lemma_phase_absent(ch, CallbackPhase::AfterVerify, v, out);
        }
    }

    /// What a resolution consulting the flags (`include_flags`) found for
    /// the first `answers.len()` Figs, each a consulted Fig's answer from
    /// the sources this Tree holds, by PEMDAS order.
    pub open spec fn answers_found(&self, include_flags: bool, answers: Seq<Option<ResolutionResult>>) -> bool {
        &&& answers.len() <= self.figs().len()
        &&& forall|k: int| 0 <= k < answers.len() && consulted_fig(self.figs()[k]) ==>
            resolved_by(self.figs()[k], include_flags && self.has_flags(), self.has_env(), self.file_count(), #[trigger] answers[k])
    }

    /// `after`, with outcome `r`, is what a resolution that found
    /// `answers` makes of these Figs: a stop at a required key nothing
    /// answered, or the answers applied in order with this Tree's hooks.
    pub open spec fn resolved_with(&self, answers: Seq<Option<ResolutionResult>>, after: Seq<Fig>, r: FigtreeResult<()>) -> bool {
        ||| stopped_missing(self.figs(), answers, after, r)
        ||| answers_applied(self.figs(), answers, after, r, |i: int| self.validator_hooks_at(i), |i: int| self.callback_hooks_at(i))
    }

    /// Every key a resolution consults has a fallback.
    pub open spec fn fallbacks_present(&self) -> bool {
        forall|i: int| 0 <= i < self.figs().len() && consulted_fig(self.figs()[i])
            ==> fallback(#[trigger] self.figs()[i]) is Some
    }

    /// `after`, with the outcome `r`, is what applying the fallback of
    /// each consulted key in registration order makes of these Figs, each
    /// with its validators and callbacks: the first error stops the
    /// resolution, the keys after it are left as they were, and the keys
    /// not consulted are left as they were.
    pub open spec fn fallbacks_applied(&self, after: Seq<Fig>, r: FigtreeResult<()>) -> bool {
        let figs = self.figs();
        &&& after.len() == figs.len()
        &&& forall|i: int| 0 <= i < figs.len() && !consulted_fig(figs[i]) ==> #[trigger] after[i] == figs[i]
        &&& r is Ok ==> forall|i: int| 0 <= i < figs.len() && consulted_fig(figs[i])
            ==> fallback_applied(figs[i], #[trigger] after[i], Ok::<(), FigtreeError>(()),
                self.validator_hooks_at(i), self.callback_hooks_at(i))
        &&& r is Err ==> exists|j: int| 0 <= j < figs.len() && consulted_fig(figs[j])
            && fallback_applied(figs[j], #[trigger] after[j], r, self.validator_hooks_at(j), self.callback_hooks_at(j))
            && (forall|i: int| 0 <= i < j && consulted_fig(figs[i])
                ==> fallback_applied(figs[i], #[trigger] after[i], Ok::<(), FigtreeError>(()),
                    self.validator_hooks_at(i), self.callback_hooks_at(i)))
            && (forall|i: int| j < i < figs.len() ==> #[trigger] after[i] == figs[i])
    }

    /// No source is consulted: a resolution answers each Fig with its
    /// fallback.
    pub open spec fn sourceless(&self, include_flags: bool) -> bool {
        &&& !include_flags || !self.has_flags()
        &&& !self.has_env()
        &&& self.file_count() == 0
    }

    /// No source is consulted and no validator or AfterVerify callback
    /// can run (none is registered, or the key's rule skips them): a
    /// resolution then takes each Fig's fallback.
    pub open spec fn quiet_resolution(&self, include_flags: bool) -> bool {
        &&& !include_flags || !self.has_flags()
        &&& !self.has_env()
        &&& self.file_count() == 0
        &&& forall|i: int| 0 <= i < self.figs().len() ==>
            (#[trigger] self.validators_at(i)).len() == 0 || self.figs()[i].rule == Rule::NoValidations
        &&& forall|i: int| 0 <= i < self.figs().len() ==>
            count_phase(#[trigger] self.phases_at(i), CallbackPhase::AfterVerify) == 0 || self.figs()[i].rule == Rule::NoCallbacks
    }

    /// Coerces a value from a string-origin source into the type of the
    /// `i`-th Fig (its value, else its default).
    ///
    /// String-origin sources (env, cli, ini, dotenv, embedded) return
    /// `FigValue::String(raw)`; the raw text is parsed as the Fig's type.
    /// Typed-origin sources already return the right variant and pass
    /// through unchanged.
    fn coerce_to_type(&self, i: usize, value: FigValue) -> (r: FigtreeResult<FigValue>)
        requires
            i < self.figs().len(),
        ensures
            coerced(opt_view(resolved_value(self.figs()[i as int])), value@, self.figs()[i as int].key@, r),
    {
        assert(self.figs()[i as int] == self.entries@[i as int].fig);
        let hint = match self.entries[i].fig.resolve() {
            Some(h) => h,
            None => return Ok(value),
        };
        if hint.same_type(&value) {
            return Ok(value);
        }
        match value {
            FigValue::String(raw) => {
                let floats: Option<&dyn FloatCodec> = match &self.floats {
                    Some(c) => Some(&**c),
                    None => None,
                };
                match parse_env_value_with(raw.as_str(), hint, floats) {
                    Some(v) => Ok(v),
                    None => {
                        let mut reason = owned("cannot parse '");
                        crate::text::push_str(&mut reason, raw.as_str());
                        crate::text::push_str(&mut reason, "' as ");
                        crate::text::push_str(&mut reason, hint.type_label());
                        Err(FigtreeError::ParseFailed {
                            key: self.entries[i].fig.key.clone(),
                            raw,
                            reason,
                        })
                    },
                }
            },
            other => Ok(other),
        }
    }

    /// Applies the winning answer `value` from `source` to the `i`-th key
    /// during resolution: coerces it to the key's type, runs the key's
    /// validators (unless its rule skips them), sets it, fires the
    /// AfterVerify callbacks (unless the rule skips them), and emits a
    /// Mutation when the value changed and tracking is on. A coercion
    /// failure leaves the Fig as it was; a validator's refusal is
    /// recorded in its history.
    pub fn apply_answer(&mut self, i: usize, value: FigValue, source: FigSource) -> (r: FigtreeResult<()>)
        requires
            old(self).wf(),
            i < old(self).figs().len(),
            !set_would_panic(old(self).figs()[i as int]),
        ensures
            final(self).wf(),
            final(self).same_config(&*old(self)),
            final(self).same_hooks(&*old(self)),
            final(self).was_resolved() == old(self).was_resolved(),
            final(self).figs() == old(self).figs().update(i as int, final(self).figs()[i as int]),
            fig_grown(old(self).figs()[i as int], final(self).figs()[i as int]),
            r is Ok ==> final(self).figs()[i as int].value is Some,
            answer_applied(
                old(self).figs()[i as int], final(self).figs()[i as int], value, source, r,
                old(self).validator_hooks_at(i as int), old(self).callback_hooks_at(i as int),
            ),
            ({
                let o = old(self).figs()[i as int];
                let n = final(self).figs()[i as int];
                if r is Ok && (o.value is None || !same_value(o.value->0@, n.value->0@)) && old(self).tracks() && old(self).listening() {
                    sent(old(self).emitted(), final(self).emitted(), o.key@, opt_view(o.value), n.value->0@, source)
                } else {
                    final(self).emitted() == old(self).emitted()
                }
            }),
    {
        let ghost o = self.figs()[i as int];
        assert(o == self.entries@[i as int].fig);
        let ghost start = *self;
        let typed = match self.coerce_to_type(i, value) {
            Ok(v) => v,
            Err(e) => {
                assert(self.figs().update(i as int, o) =~= self.figs());
                assert(o.history@.take(o.history@.len() as int) =~= o.history@);
                return Err(e);
            },
        };
        if self.entries[i].fig.rule != Rule::NoValidations {
            match self.run_validators(i, &typed) {
                Ok(()) => {},
                Err(e) => {
                    let message = rejection_text(&e);
                    self.record_rejection_at(i, message.as_str());
                    return Err(e);
                },
            }
        }
        proof {
            if o.rule == Rule::NoValidations {
                assert(chain_outcome(Seq::<HookSpec>::empty(), typed@, Ok::<(), FigtreeError>(())));
                assert(keyed_as(Ok::<(), FigtreeError>(()), o.key@, Ok::<(), FigtreeError>(())));
            }
            assert(validated(active_validators(o.rule, start.validator_hooks_at(i as int)), typed@, o.key@, Ok::<(), FigtreeError>(())));
        }
        let skip_callbacks = self.entries[i].fig.rule == Rule::NoCallbacks;
        let prior = duplicate_opt(&self.entries[i].fig.value);
        let kept = typed.duplicate();
        let unchanged = match &prior {
            Some(p) => p.same_as(&typed),
            None => false,
        };
        let key = self.entries[i].fig.key.clone();
        let source_kept = source.duplicate();
        let ghost tv = typed;
        match self.set_at(i, typed, source) {
            Ok(()) => {},
            Err(e) => return Err(e),
        }
        let ghost after_set = *self;
        assert(after_set.callback_hooks_at(i as int) == start.callback_hooks_at(i as int));
        if !skip_callbacks {
            match self.run_callbacks(i, CallbackPhase::AfterVerify, &kept) {
                Ok(()) => {},
                Err(e) => {
                    assert(fired(active_callbacks(o.rule, start.callback_hooks_at(i as int)), CallbackPhase::AfterVerify, tv@, o.key@, Err::<(), FigtreeError>(e)));
                    return Err(e);
                },
            }
        } else {
            assert(phase_outcome(Seq::<(CallbackPhase, HookSpec)>::empty(), CallbackPhase::AfterVerify, tv@, Ok::<(), FigtreeError>(())));
        }
        assert(fired(active_callbacks(o.rule, start.callback_hooks_at(i as int)), CallbackPhase::AfterVerify, tv@, o.key@, Ok::<(), FigtreeError>(())));
        if !unchanged {
            self.emit(key.as_str(), prior, kept, source_kept);
        }
        proof {
            let n = self.figs()[i as int];
            if unchanged {
                assert(n.value == o.value);
                crate::value::lemma_same_value(o.value->0@, tv@);
            } else {
                assert(n.value == Some(tv));
            }
        }
        Ok(())
    }

    /// Resolves every registered key, in registration order, from the
    /// sources in PEMDAS order. Every consulted key's answer is found
    /// first: a required key that no source provides stops the resolution
    /// with MissingRequired before anything is applied. Then each answer
    /// is applied (`apply_answer`); the first error stops the resolution.
    fn resolve_all(&mut self, include_flags: bool) -> (r: FigtreeResult<()>)
        requires
            old(self).wf(),
            forall|i: int| 0 <= i < old(self).figs().len() ==> !set_would_panic(#[trigger] old(self).figs()[i]),
        ensures
            final(self).wf(),
            final(self).same_config(&*old(self)),
            final(self).same_hooks(&*old(self)),
            same_figs_grown(old(self).figs(), final(self).figs()),
            final(self).emitted().len() >= old(self).emitted().len(),
            final(self).emitted().take(old(self).emitted().len() as int) == old(self).emitted(),
            changes_only(final(self).emitted(), old(self).emitted().len() as int),
            r is Ok ==> final(self).was_resolved(),
            r is Err ==> final(self).was_resolved() == old(self).was_resolved(),
            r is Ok ==> forall|i: int| 0 <= i < final(self).figs().len() ==> (#[trigger] final(self).figs()[i]).value is Some,
            r matches Err(FigtreeError::MissingRequired(_)) && !old(self).hooks_may_run() ==> {
                &&& missing_refusal(old(self).figs(), r->Err_0)
                &&& final(self).figs() == old(self).figs()
                &&& final(self).emitted() == old(self).emitted()
            },
            exists|answers: Seq<Option<ResolutionResult>>| old(self).answers_found(include_flags, answers)
                && #[trigger] old(self).resolved_with(answers, final(self).figs(), r),
            old(self).sourceless(include_flags) && old(self).fallbacks_present()
                ==> old(self).fallbacks_applied(final(self).figs(), r),
            old(self).quiet_resolution(include_flags) ==> {
                &&& r is Ok <==> forall|i: int| 0 <= i < old(self).figs().len() && consulted_fig(old(self).figs()[i])
                    ==> fallback(#[trigger] old(self).figs()[i]) is Some
                &&& r is Ok ==> forall|i: int| 0 <= i < old(self).figs().len() && consulted_fig(old(self).figs()[i])
                    ==> opt_view((#[trigger] final(self).figs()[i]).value) == settled_value(old(self).figs()[i])
                &&& r is Ok ==> forall|i: int| 0 <= i < old(self).figs().len() && consulted_fig(old(self).figs()[i])
                    ==> (#[trigger] final(self).figs()[i]).source == fallback_source(old(self).figs()[i])
                &&& r is Err ==> missing_refusal(old(self).figs(), r->Err_0)
            },
    {
        let ghost start = *self;
        let ghost quiet = self.quiet_resolution(include_flags);
        let ghost sless = self.sourceless(include_flags);
        let n = self.entries.len();
        // ── first pass: every consulted key's answer ─────────────────────
        let mut answers: Vec<Option<ResolutionResult>> = Vec::new();
        let mut j: usize = 0;
        while j < n
            invariant
                start == *old(self),
                *self == start,
                n == self.figs().len(),
                j <= n,
                answers@.len() == j,
                quiet == start.quiet_resolution(include_flags),
                sless == start.sourceless(include_flags),
                quiet ==> sless,
                start.wf(),
                forall|k: int| 0 <= k < j && consulted_fig(start.figs()[k]) ==> (#[trigger] answers@[k]) is Some,
                forall|k: int| 0 <= k < j && consulted_fig(start.figs()[k]) ==>
                    resolved_by(start.figs()[k], include_flags && start.has_flags(), start.has_env(), start.file_count(), #[trigger] answers@[k]),
                sless ==> forall|k: int| 0 <= k < j && consulted_fig(start.figs()[k]) ==>
                    Some((#[trigger] answers@[k])->0.value@) == fallback(start.figs()[k]),
                sless ==> forall|k: int| 0 <= k < j && consulted_fig(start.figs()[k]) ==>
                    (#[trigger] answers@[k])->0.source == fallback_answer_source(start.figs()[k]),
                sless ==> forall|k: int| 0 <= k < j && consulted_fig(start.figs()[k]) ==>
                    fallback(#[trigger] start.figs()[k]) is Some,
            decreases n - j,
        {
            assert(self.figs()[j as int] == self.entries@[j as int].fig);
            if self.entries[j].fig.rule == Rule::PreventChange && self.entries[j].fig.is_resolved() {
                answers.push(None);
            } else {
                let flag_src: Option<&dyn Source> = if include_flags {
                    match &self.flag_source {
                        Some(b) => Some(&**b),
                        None => None,
                    }
                } else {
                    None
                };
                let env_src: Option<&dyn Source> = match &self.env_source {
                    Some(b) => Some(&**b),
                    None => None,
                };
                let answer = resolve(&self.entries[j].fig, flag_src, env_src, self.file_sources.as_slice());
                if answer.is_none() {
                    let key = self.entries[j].fig.key.clone();
                    proof {
                        let f = start.figs()[j as int];
                        assert(has_key(start.figs(), key@)) by {
                            assert(start.figs()[j as int].key@ == key@);
                        }
                        lemma_key_pos(start.figs(), j as int);
                        if sless {
                            assert(stored_value(f) is None);
                            assert(fallback(start.figs()[j as int]) is None);
                        }
                        lemma_grown_refl(start.figs());
                        assert(start.emitted().take(start.emitted().len() as int) =~= start.emitted());
                    }
                    proof {
                        let found = answers@.push(None);
                        assert forall|k: int| 0 <= k < found.len() && consulted_fig(start.figs()[k]) implies
                            resolved_by(start.figs()[k], include_flags && start.has_flags(), start.has_env(), start.file_count(), #[trigger] found[k]) by {
                            if k < j {
                                assert(found[k] == answers@[k]);
                            }
                        }
                        assert(start.answers_found(include_flags, found));
                        assert forall|k: int| 0 <= k < found.len() - 1 && consulted_fig(start.figs()[k]) implies (#[trigger] found[k]) is Some by {
                            assert(found[k] == answers@[k]);
                        }
                        assert(stopped_missing(start.figs(), found, self.figs(), Err::<(), FigtreeError>(FigtreeError::MissingRequired(key))));
                        assert(start.resolved_with(found, self.figs(), Err::<(), FigtreeError>(FigtreeError::MissingRequired(key))));
                    }
                    return Err(FigtreeError::MissingRequired(key));
                }
                proof {
                    if sless {
                        let f = start.figs()[j as int];
                        assert(self.file_sources@.len() == 0);
                        assert(fallback(f) is Some);
                    }
                }
                answers.push(answer);
            }
            j += 1;
        }
        // ── second pass: apply the answers ────────────────────────────────
        assert forall|k: int| 0 <= k < start.figs().len() implies
            (#[trigger] start.figs()[k]).history@.take(start.figs()[k].history@.len() as int) == start.figs()[k].history@ by {
            assert(start.figs()[k].history@.take(start.figs()[k].history@.len() as int) =~= start.figs()[k].history@);
        }
        assert(start.emitted().take(start.emitted().len() as int) =~= start.emitted());
        let mut j: usize = 0;
        while j < n
            invariant
                start == *old(self),
                n == self.figs().len(),
                n == start.figs().len(),
                answers@.len() == n,
                j <= n,
                self.wf(),
                self.same_config(&start),
                self.same_hooks(&start),
                self.was_resolved() == start.was_resolved(),
                same_figs_grown(start.figs(), self.figs()),
                keys_distinct(start.figs()),
                forall|k: int| j <= k < n ==> #[trigger] self.figs()[k] == start.figs()[k],
                forall|k: int| 0 <= k < n ==> !set_would_panic(#[trigger] start.figs()[k]),
                forall|k: int| 0 <= k < n && consulted_fig(start.figs()[k]) ==> (#[trigger] answers@[k]) is Some,
                self.emitted().len() >= start.emitted().len(),
                self.emitted().take(start.emitted().len() as int) == start.emitted(),
                changes_only(self.emitted(), start.emitted().len() as int),
                forall|k: int| 0 <= k < j ==> (#[trigger] self.figs()[k]).value is Some,
                quiet == start.quiet_resolution(include_flags),
                sless == start.sourceless(include_flags),
                quiet ==> sless,
                sless ==> forall|k: int| 0 <= k < n && consulted_fig(start.figs()[k]) ==>
                    Some((#[trigger] answers@[k])->0.value@) == fallback(start.figs()[k]),
                sless ==> forall|k: int| 0 <= k < n && consulted_fig(start.figs()[k]) ==>
                    (#[trigger] answers@[k])->0.source == fallback_answer_source(start.figs()[k]),
                forall|k: int| 0 <= k < j && !consulted_fig(start.figs()[k]) ==> #[trigger] self.figs()[k] == start.figs()[k],
                sless ==> forall|k: int| 0 <= k < j && consulted_fig(start.figs()[k]) ==>
                    fallback_applied(start.figs()[k], #[trigger] self.figs()[k], Ok::<(), FigtreeError>(()),
                        start.validator_hooks_at(k), start.callback_hooks_at(k)),
                start.answers_found(include_flags, answers@),
                forall|k: int| 0 <= k < j && consulted_fig(start.figs()[k]) ==>
                    answer_applied(start.figs()[k], #[trigger] self.figs()[k], answers@[k]->0.value, answers@[k]->0.source,
                        Ok::<(), FigtreeError>(()), start.validator_hooks_at(k), start.callback_hooks_at(k)),
                quiet ==> forall|k: int| 0 <= k < j && consulted_fig(start.figs()[k]) ==>
                    opt_view((#[trigger] self.figs()[k]).value) == settled_value(start.figs()[k]),
                quiet ==> forall|k: int| 0 <= k < j && consulted_fig(start.figs()[k]) ==>
                    (#[trigger] self.figs()[k]).source == fallback_source(start.figs()[k]),
            decreases n - j,
        {
            assert(self.figs()[j as int] == self.entries@[j as int].fig);
            assert(self.figs()[j as int] == start.figs()[j as int]);
            if self.entries[j].fig.rule == Rule::PreventChange && self.entries[j].fig.is_resolved() {
                assert(start.figs()[j as int].wf());
                j += 1;
                continue;
            }
            let (value, source) = match &answers[j] {
                Some(a) => (a.value.duplicate(), a.source.duplicate()),
                None => { proof { assert(false); } return Ok(()); },
            };
            let ghost before = *self;
            let ghost f = start.figs()[j as int];
            proof {
                if quiet {
                    assert(before.validators_at(j as int) == start.validators_at(j as int));
                    assert(start.validators_at(j as int).len() == 0 || f.rule == Rule::NoValidations);
                    assert(before.phases_at(j as int) == start.phases_at(j as int));
                    assert(count_phase(start.phases_at(j as int), CallbackPhase::AfterVerify) == 0 || f.rule == Rule::NoCallbacks);
                    assert(Some(value@) == fallback(f));
                    assert(source == fallback_answer_source(f));
                    assert(f.wf());
                }
            }
            let ghost value_given = value;
            let ghost source_given = source;
            let applied = self.apply_answer(j, value, source);
            proof {
                self.lemma_grown_step(&start, &before, j as int);
                let nf = self.figs()[j as int];
                assert(before.validator_hooks_at(j as int) == start.validator_hooks_at(j as int));
                assert(before.callback_hooks_at(j as int) == start.callback_hooks_at(j as int));
                assert(consulted_fig(f));
                assert(value_given@ == answers@[j as int]->0.value@);
                assert(source_given == answers@[j as int]->0.source);
                lemma_answer_view(f, nf, value_given, answers@[j as int]->0.value, source_given, applied,
                    start.validator_hooks_at(j as int), start.callback_hooks_at(j as int));
                assert forall|k: int| 0 <= k < j && consulted_fig(start.figs()[k]) implies
                    answer_applied(start.figs()[k], #[trigger] self.figs()[k], answers@[k]->0.value, answers@[k]->0.source,
                        Ok::<(), FigtreeError>(()), start.validator_hooks_at(k), start.callback_hooks_at(k)) by {
                    assert(self.figs()[k] == before.figs()[k]);
                }
                if sless {
                    assert(Some(value_given@) == fallback(f));
                    assert(source_given == fallback_answer_source(f));
                    assert(answer_applied(f, nf, value_given, fallback_answer_source(f), applied,
                        start.validator_hooks_at(j as int), start.callback_hooks_at(j as int)));
                    assert(fallback_applied(f, nf, applied, start.validator_hooks_at(j as int), start.callback_hooks_at(j as int)));
                }
                assert forall|k: int| 0 <= k < j && !consulted_fig(start.figs()[k]) implies #[trigger] self.figs()[k] == start.figs()[k] by {
                    assert(self.figs()[k] == before.figs()[k]);
                }
                if sless {
                    assert forall|k: int| 0 <= k < j && consulted_fig(start.figs()[k]) implies
                        fallback_applied(start.figs()[k], #[trigger] self.figs()[k], Ok::<(), FigtreeError>(()),
                            start.validator_hooks_at(k), start.callback_hooks_at(k)) by {
                        assert(self.figs()[k] == before.figs()[k]);
                    }
                }
                assert forall|k: int| j < k < n implies #[trigger] self.figs()[k] == start.figs()[k] by {
                    assert(self.figs()[k] == before.figs()[k]);
                }
                if self.emitted().len() > before.emitted().len() {
                    assert(self.emitted().take(start.emitted().len() as int) =~= before.emitted().take(start.emitted().len() as int));
                    assert forall|i: int| start.emitted().len() <= i < self.emitted().len() implies
                        (#[trigger] self.emitted()[i]).old is None || !same_value(self.emitted()[i].old->0@, self.emitted()[i].new@) by {
                        if i < before.emitted().len() {
                            assert(self.emitted()[i] == before.emitted()[i]);
                        }
                    }
                }
            }
            match applied {
                Ok(()) => {
                    proof {
                        let u: () = applied->Ok_0;
                        assert(applied == Ok::<(), FigtreeError>(u));
                        assert(applied == Ok::<(), FigtreeError>(()));
                    }
                },
                Err(e) => {
                    proof {
                        if quiet || !start.hooks_may_run() {
                            if !start.hooks_may_run() {
                                assert(!(start.validators_at(j as int).len() > 0));
                                assert(!(count_phase(start.phases_at(j as int), CallbackPhase::AfterVerify) > 0));
                            }
                            assert(before.validators_at(j as int) == start.validators_at(j as int));
                            assert(before.phases_at(j as int) == start.phases_at(j as int));
                            before.lemma_silent_hooks(j as int);
                        }
                        if quiet {
                            assert(false);
                        }
                        let vh = |i: int| start.validator_hooks_at(i);
                        let cb = |i: int| start.callback_hooks_at(i);
                        assert forall|k: int| 0 <= k < n && !consulted_fig(start.figs()[k]) implies #[trigger] self.figs()[k] == start.figs()[k] by {
                            if k < j {
                                assert(self.figs()[k] == before.figs()[k]);
                            }
                        }
                        assert(answer_applied(start.figs()[j as int], self.figs()[j as int], answers@[j as int]->0.value,
                            answers@[j as int]->0.source, Err::<(), FigtreeError>(e), vh(j as int), cb(j as int)));
                        assert(answers_applied(start.figs(), answers@, self.figs(), Err::<(), FigtreeError>(e), vh, cb));
                        assert(start.resolved_with(answers@, self.figs(), Err::<(), FigtreeError>(e)));
                        if !start.hooks_may_run() {
                            assert(start.validators_at(j as int).len() == 0);
                            assert(count_phase(start.phases_at(j as int), CallbackPhase::AfterVerify) == 0);
                            assert(before.validators_at(j as int) == start.validators_at(j as int));
                            assert(before.phases_at(j as int) == start.phases_at(j as int));
                            assert(!(e is MissingRequired));
                        }
                    }
                    return Err(e);
                },
            }
            j += 1;
        }
        proof {
            let vh = |i: int| start.validator_hooks_at(i);
            let cb = |i: int| start.callback_hooks_at(i);
            assert(answers_applied(start.figs(), answers@, self.figs(), Ok::<(), FigtreeError>(()), vh, cb));
            assert(start.resolved_with(answers@, self.figs(), Ok::<(), FigtreeError>(())));
        }
        let ghost before_flag = *self;
        self.resolved = true;
        proof {
            Tree::lemma_same_hooks_entries(&*self, &before_flag);
            Tree::lemma_same_hooks_trans(&*self, &before_flag, &start);
        }
        Ok(())
    }

    /// One set during resolution keeps `self` grown from `start`.
    proof fn lemma_grown_step(&self, start: &Tree, before: &Tree, j: int)
        requires
            0 <= j < before.figs().len(),
            same_figs_grown(start.figs(), before.figs()),
            self.figs() == before.figs().update(j, self.figs()[j]),
            self.figs()[j].key == before.figs()[j].key,
            self.figs()[j].default == before.figs()[j].default,
            self.figs()[j].rule == before.figs()[j].rule,
            self.figs()[j].history@.len() >= before.figs()[j].history@.len(),
            self.figs()[j].history@.take(before.figs()[j].history@.len() as int) == before.figs()[j].history@,
        ensures
            same_figs_grown(start.figs(), self.figs()),
    {
        assert forall|k: int| 0 <= k < start.figs().len() implies {
            &&& (#[trigger] self.figs()[k]).key == start.figs()[k].key
            &&& self.figs()[k].default == start.figs()[k].default
            &&& self.figs()[k].rule == start.figs()[k].rule
            &&& self.figs()[k].history@.len() >= start.figs()[k].history@.len()
            &&& self.figs()[k].history@.take(start.figs()[k].history@.len() as int) == start.figs()[k].history@
        } by {
            if k == j {
                let a = start.figs()[k].history@;
                let b = before.figs()[k].history@;
                let c = self.figs()[k].history@;
                assert(c.take(a.len() as int) =~= b.take(a.len() as int));
            }
        }
    }

    /// Resolves all registered keys from all sources in PEMDAS order,
    /// including the CLI flag source if registered. Runs validators,
    /// fires AfterVerify callbacks, and returns the first error
    /// encountered. A PanicOnChange key that already holds a value must
    /// not be resolved again: that is a programming error.
    pub fn parse(&mut self) -> (r: FigtreeResult<()>)
        requires
            old(self).wf(),
            forall|i: int| 0 <= i < old(self).figs().len() ==> !set_would_panic(#[trigger] old(self).figs()[i]),
        ensures
            final(self).wf(),
            final(self).same_config(&*old(self)),
            final(self).same_hooks(&*old(self)),
            same_figs_grown(old(self).figs(), final(self).figs()),
            final(self).emitted().len() >= old(self).emitted().len(),
            final(self).emitted().take(old(self).emitted().len() as int) == old(self).emitted(),
            changes_only(final(self).emitted(), old(self).emitted().len() as int),
            r is Ok ==> final(self).was_resolved(),
            r is Err ==> final(self).was_resolved() == old(self).was_resolved(),
            r is Ok ==> forall|i: int| 0 <= i < final(self).figs().len() ==> (#[trigger] final(self).figs()[i]).value is Some,
            r matches Err(FigtreeError::MissingRequired(_)) && !old(self).hooks_may_run() ==> {
                &&& missing_refusal(old(self).figs(), r->Err_0)
                &&& final(self).figs() == old(self).figs()
                &&& final(self).emitted() == old(self).emitted()
            },
            exists|answers: Seq<Option<ResolutionResult>>| old(self).answers_found(true, answers)
                && #[trigger] old(self).resolved_with(answers, final(self).figs(), r),
            old(self).sourceless(true) && old(self).fallbacks_present()
                ==> old(self).fallbacks_applied(final(self).figs(), r),
            old(self).quiet_resolution(true) ==> {
                &&& r is Ok <==> forall|i: int| 0 <= i < old(self).figs().len() && consulted_fig(old(self).figs()[i])
                    ==> fallback(#[trigger] old(self).figs()[i]) is Some
                &&& r is Ok ==> forall|i: int| 0 <= i < old(self).figs().len() && consulted_fig(old(self).figs()[i])
                    ==> opt_view((#[trigger] final(self).figs()[i]).value) == settled_value(old(self).figs()[i])
                &&& r is Ok ==> forall|i: int| 0 <= i < old(self).figs().len() && consulted_fig(old(self).figs()[i])
                    ==> (#[trigger] final(self).figs()[i]).source == fallback_source(old(self).figs()[i])
                &&& r is Err ==> missing_refusal(old(self).figs(), r->Err_0)
            },
    {
        self.resolve_all(true)
    }

    /// Resolves all registered keys as `parse` does, without consulting
    /// the CLI flag source (which stays registered). For long-running
    /// services, embedded systems and library code.
    pub fn load(&mut self) -> (r: FigtreeResult<()>)
        requires
            old(self).wf(),
            forall|i: int| 0 <= i < old(self).figs().len() ==> !set_would_panic(#[trigger] old(self).figs()[i]),
        ensures
            final(self).wf(),
            final(self).same_config(&*old(self)),
            final(self).same_hooks(&*old(self)),
            same_figs_grown(old(self).figs(), final(self).figs()),
            final(self).emitted().len() >= old(self).emitted().len(),
            final(self).emitted().take(old(self).emitted().len() as int) == old(self).emitted(),
            changes_only(final(self).emitted(), old(self).emitted().len() as int),
            r is Ok ==> final(self).was_resolved(),
            r is Err ==> final(self).was_resolved() == old(self).was_resolved(),
            r is Ok ==> forall|i: int| 0 <= i < final(self).figs().len() ==> (#[trigger] final(self).figs()[i]).value is Some,
            r matches Err(FigtreeError::MissingRequired(_)) && !old(self).hooks_may_run() ==> {
                &&& missing_refusal(old(self).figs(), r->Err_0)
                &&& final(self).figs() == old(self).figs()
                &&& final(self).emitted() == old(self).emitted()
            },
            exists|answers: Seq<Option<ResolutionResult>>| old(self).answers_found(false, answers)
                && #[trigger] old(self).resolved_with(answers, final(self).figs(), r),
            old(self).sourceless(false) && old(self).fallbacks_present()
                ==> old(self).fallbacks_applied(final(self).figs(), r),
            old(self).quiet_resolution(false) ==> {
                &&& r is Ok <==> forall|i: int| 0 <= i < old(self).figs().len() && consulted_fig(old(self).figs()[i])
                    ==> fallback(#[trigger] old(self).figs()[i]) is Some
                &&& r is Ok ==> forall|i: int| 0 <= i < old(self).figs().len() && consulted_fig(old(self).figs()[i])
                    ==> opt_view((#[trigger] final(self).figs()[i]).value) == settled_value(old(self).figs()[i])
                &&& r is Ok ==> forall|i: int| 0 <= i < old(self).figs().len() && consulted_fig(old(self).figs()[i])
                    ==> (#[trigger] final(self).figs()[i]).source == fallback_source(old(self).figs()[i])
                &&& r is Err ==> missing_refusal(old(self).figs(), r->Err_0)
            },
    {
        self.resolve_all(false)
    }


    // ── Pollination ───────────────────────────────────────────────────────────

    /// What the environment's answer for the `i`-th key does to it:
    /// nothing when the key's rule ignores the environment, there is no
    /// answer (or no text), the key has no type yet, the text does not
    /// read as the key's type, or it reads as the value the key already
    /// holds. Otherwise the key takes the value read, from
    /// `FigSource::Environment(key)`, and a Mutation is sent when tracking
    /// is on.
    pub fn pollinate_answer(&mut self, i: usize, answer: Option<FigValue>) -> (r: FigtreeResult<()>)
        requires
            old(self).wf(),
            i < old(self).figs().len(),
            !set_would_panic(old(self).figs()[i as int]),
        ensures
            final(self).wf(),
            final(self).same_config(&*old(self)),
            final(self).same_hooks(&*old(self)),
            final(self).was_resolved() == old(self).was_resolved(),
            final(self).figs() == old(self).figs().update(i as int, final(self).figs()[i as int]),
            fig_grown(old(self).figs()[i as int], final(self).figs()[i as int]),
            ({
                let o = old(self).figs()[i as int];
                let n = final(self).figs()[i as int];
                match env_reading(o, answer, old(self).has_floats()) {
                    None => r is Ok && n == o && final(self).emitted() == old(self).emitted(),
                    Some(x) => {
                        ||| (x is Float && r is Ok && n == o && final(self).emitted() == old(self).emitted())
                        ||| exists|v: FigValue| {
                            &&& #[trigger] set_result(o, n, v, FigSource::Environment(o.key), r)
                            &&& (x matches EnvReading::Exact(w) ==> v@ == w)
                            &&& kind_of(v@) == kind_of(resolved_value(o)->0@)
                            &&& changes(o, v@)
                            &&& if r is Ok && old(self).tracks() && old(self).listening() {
                                sent(old(self).emitted(), final(self).emitted(), o.key@, opt_view(o.value), v@, FigSource::Environment(o.key))
                            } else {
                                final(self).emitted() == old(self).emitted()
                            }
                        }
                    },
                }
            }),
    {
        let ghost o = self.figs()[i as int];
        assert(o == self.entries@[i as int].fig);
        assert(o.history@.take(o.history@.len() as int) =~= o.history@);
        assert(self.figs().update(i as int, o) =~= self.figs());
        if self.entries[i].fig.rule == Rule::NoEnv {
            return Ok(());
        }
        let raw = match answer {
            Some(FigValue::String(s)) => s,
            _ => return Ok(()),
        };
        let typed = {
            let hint = match self.entries[i].fig.resolve() {
                Some(h) => h,
                None => return Ok(()),
            };
            let floats: Option<&dyn FloatCodec> = match &self.floats {
                Some(c) => Some(&**c),
                None => None,
            };
            match parse_env_value_with(raw.as_str(), hint, floats) {
                Some(v) => v,
                None => return Ok(()),
            }
        };
        let prior = duplicate_opt(&self.entries[i].fig.value);
        let unchanged = match &prior {
            Some(p) => p.same_as(&typed),
            None => false,
        };
        if unchanged {
            return Ok(());
        }
        let kept = typed.duplicate();
        let key = self.entries[i].fig.key.clone();
        let source = FigSource::Environment(self.entries[i].fig.key.clone());
        let source_kept = source.duplicate();
        let ghost gv = typed;
        let ghost gs = source;
        let ghost before = *self;
        let rs = self.set_at(i, typed, source);
        proof {
            assert(changes(o, gv@));
            assert(gs == FigSource::Environment(o.key));
            assert(set_result(o, self.figs()[i as int], gv, FigSource::Environment(o.key), rs));
        }
        match rs {
            Ok(()) => {},
            Err(e) => return Err(e),
        }
        self.emit(key.as_str(), prior, kept, source_kept);
        proof {
            assert(set_result(o, self.figs()[i as int], gv, FigSource::Environment(o.key), Ok(())));
        }
        Ok(())
    }

    /// Re-checks the environment source for a single key and applies its
    /// answer as `pollinate_answer` does. Only active when
    /// `Options::pollinate` was true at construction, for a registered key
    /// and with an environment source installed; what the source answers
    /// is the source's.
    pub fn pollinate_key(&mut self, key: &str) -> (r: FigtreeResult<()>)
        requires
            old(self).wf(),
            !(has_key(old(self).figs(), key@) && set_would_panic(fig_for(old(self).figs(), key@)->0)),
        ensures
            final(self).wf(),
            final(self).same_config(&*old(self)),
            final(self).same_hooks(&*old(self)),
            final(self).was_resolved() == old(self).was_resolved(),
            same_figs_grown(old(self).figs(), final(self).figs()),
            forall|k: int| 0 <= k < old(self).figs().len() && k != key_pos(old(self).figs(), key@)
                ==> #[trigger] final(self).figs()[k] == old(self).figs()[k],
            final(self).emitted().len() >= old(self).emitted().len(),
            final(self).emitted().take(old(self).emitted().len() as int) == old(self).emitted(),
            changes_only(final(self).emitted(), old(self).emitted().len() as int),
            !old(self).pollinates() || !has_key(old(self).figs(), key@) || !old(self).has_env() ==> {
                &&& r is Ok
                &&& final(self).figs() == old(self).figs()
                &&& final(self).emitted() == old(self).emitted()
            },
            has_key(old(self).figs(), key@) && fig_for(old(self).figs(), key@)->0.rule == Rule::NoEnv ==> {
                &&& r is Ok
                &&& final(self).figs() == old(self).figs()
                &&& final(self).emitted() == old(self).emitted()
            },
    {
        proof {
            lemma_grown_refl(self.figs());
            assert(self.emitted().take(self.emitted().len() as int) =~= self.emitted());
        }
        if !self.pollinate {
            return Ok(());
        }
        let i = match self.position(key) {
            Some(i) => i,
            None => return Ok(()),
        };
        assert(self.figs()[i as int] == self.entries@[i as int].fig);
        let answer = match &self.env_source {
            Some(src) => src.get(key),
            None => return Ok(()),
        };
        let ghost before = *self;
        let r = self.pollinate_answer(i, answer);
        proof {
            lemma_grown_update(before.figs(), i as int, self.figs()[i as int]);
            assert(key_pos(before.figs(), key@) == i);
            assert(self.emitted().take(before.emitted().len() as int) =~= before.emitted());
        }
        r
    }

    /// Re-checks the environment source for every key, in registration
    /// order, as `pollinate_key` does. Only active when
    /// `Options::pollinate` was true at construction; the first error
    /// stops it.
    pub fn pollinate(&mut self) -> (r: FigtreeResult<()>)
        requires
            old(self).wf(),
            forall|i: int| 0 <= i < old(self).figs().len() ==> !set_would_panic(#[trigger] old(self).figs()[i]),
        ensures
            final(self).wf(),
            final(self).same_config(&*old(self)),
            final(self).same_hooks(&*old(self)),
            final(self).was_resolved() == old(self).was_resolved(),
            same_figs_grown(old(self).figs(), final(self).figs()),
            final(self).emitted().len() >= old(self).emitted().len(),
            final(self).emitted().take(old(self).emitted().len() as int) == old(self).emitted(),
            changes_only(final(self).emitted(), old(self).emitted().len() as int),
            !old(self).pollinates() || !old(self).has_env() ==> {
                &&& r is Ok
                &&& final(self).figs() == old(self).figs()
                &&& final(self).emitted() == old(self).emitted()
            },
    {
        proof {
            lemma_grown_refl(self.figs());
            assert(self.emitted().take(self.emitted().len() as int) =~= self.emitted());
        }
        if !self.pollinate {
            return Ok(());
        }
        let ghost start = *self;
        let n = self.entries.len();
        let mut j: usize = 0;
        while j < n
            invariant
                start == *old(self),
                n == self.figs().len(),
                n == start.figs().len(),
                j <= n,
                self.wf(),
                self.same_config(&start),
                self.same_hooks(&start),
                self.was_resolved() == start.was_resolved(),
                same_figs_grown(start.figs(), self.figs()),
                keys_distinct(start.figs()),
                forall|k: int| j <= k < n ==> #[trigger] self.figs()[k] == start.figs()[k],
                forall|k: int| 0 <= k < n ==> !set_would_panic(#[trigger] start.figs()[k]),
                self.emitted().len() >= start.emitted().len(),
                self.emitted().take(start.emitted().len() as int) == start.emitted(),
                changes_only(self.emitted(), start.emitted().len() as int),
                start.pollinates(),
                !start.has_env() ==> self.figs() == start.figs() && self.emitted() == start.emitted(),
            decreases n - j,
        {
            assert(self.figs()[j as int] == self.entries@[j as int].fig);
            let key = self.entries[j].fig.key.clone();
            let ghost before = *self;
            proof {
                assert(self.figs()[j as int] == start.figs()[j as int]);
                assert(has_key(self.figs(), key@));
                let p = key_pos(self.figs(), key@);
                assert(self.figs()[p].key@ == key@);
                assert(p == j);
            }
            let step = self.pollinate_key(key.as_str());
            proof {
                lemma_grown_trans(start.figs(), before.figs(), self.figs());
                assert forall|i: int| start.emitted().len() <= i < self.emitted().len() implies
                    (#[trigger] self.emitted()[i]).old is None || !same_value(self.emitted()[i].old->0@, self.emitted()[i].new@) by {
                    if i < before.emitted().len() {
                        assert(self.emitted().take(before.emitted().len() as int)[i] == self.emitted()[i]);
                    }
                }
                assert(self.emitted().take(start.emitted().len() as int) =~= self.emitted().take(before.emitted().len() as int).take(start.emitted().len() as int));
                assert forall|k: int| j + 1 <= k < n implies #[trigger] self.figs()[k] == start.figs()[k] by {
                    assert(self.figs()[k] == before.figs()[k]);
                }
            }
            match step {
                Ok(()) => {},
                Err(e) => return Err(e),
            }
            j += 1;
        }
        Ok(())
    }

    // ── Mutation tracking ─────────────────────────────────────────────────────

    /// Returns a MutationReceiver that gets a Mutation whenever a Fig's
    /// value changes. Requires tracking to have been enabled at
    /// construction (Tree::grow() or Options { tracking: true }).
    ///
    /// Call this before parse() or load() to receive every mutation. Each
    /// call creates a new channel pair — previous receivers are
    /// disconnected.
    pub fn mutations(&mut self) -> (r: Option<MutationReceiver>)
        ensures
            r is Some <==> old(self).tracks(),
            final(self).figs() == old(self).figs(),
            final(self).wf() == old(self).wf(),
            final(self).same_hooks(&*old(self)),
            final(self).tracks() == old(self).tracks(),
            final(self).pollinates() == old(self).pollinates(),
            final(self).was_resolved() == old(self).was_resolved(),
            final(self).emitted() == old(self).emitted(),
            final(self).listening() == (old(self).tracks() || old(self).listening()),
            final(self).description_map() == old(self).description_map(),
            final(self).has_flags() == old(self).has_flags(),
            final(self).has_env() == old(self).has_env(),
            final(self).file_count() == old(self).file_count(),
            final(self).has_floats() == old(self).has_floats(),
    {
        if !self.tracking {
            return None;
        }
        let (tx, rx) = mutation_channel();
        self.mutation_tx = Some(tx);
        Some(rx)
    }

    /// Disables mutation delivery: existing receivers see the channel
    /// close. Call recall() to re-enable.
    pub fn curse(&mut self)
        ensures
            !final(self).listening(),
            final(self).figs() == old(self).figs(),
            final(self).wf() == old(self).wf(),
            final(self).same_hooks(&*old(self)),
            final(self).tracks() == old(self).tracks(),
            final(self).pollinates() == old(self).pollinates(),
            final(self).was_resolved() == old(self).was_resolved(),
            final(self).emitted() == old(self).emitted(),
            final(self).description_map() == old(self).description_map(),
            final(self).has_flags() == old(self).has_flags(),
            final(self).has_env() == old(self).has_env(),
            final(self).file_count() == old(self).file_count(),
            final(self).has_floats() == old(self).has_floats(),
    {
        self.mutation_tx = None;
    }

    /// Re-enables mutation delivery after curse(), when tracking is on.
    /// Callers must call mutations() again to get a receiver.
    pub fn recall(&mut self)
        ensures
            final(self).listening() == (old(self).tracks() || old(self).listening()),
            final(self).figs() == old(self).figs(),
            final(self).wf() == old(self).wf(),
            final(self).same_hooks(&*old(self)),
            final(self).tracks() == old(self).tracks(),
            final(self).pollinates() == old(self).pollinates(),
            final(self).was_resolved() == old(self).was_resolved(),
            final(self).emitted() == old(self).emitted(),
            final(self).description_map() == old(self).description_map(),
            final(self).has_flags() == old(self).has_flags(),
            final(self).has_env() == old(self).has_env(),
            final(self).file_count() == old(self).file_count(),
            final(self).has_floats() == old(self).has_floats(),
    {
        if self.tracking {
            let (tx, _rx) = mutation_channel();
            self.mutation_tx = Some(tx);
        }
    }


    // ── Diagnostics ───────────────────────────────────────────────────────────

    /// Returns all errors currently recorded against any Fig, in
    /// registration order, each as `FigtreeError::Other` carrying its
    /// text. An empty Vec means every Fig resolved and validated cleanly.
    pub fn problems(&self) -> (r: Vec<FigtreeError>)
        ensures
            r@.len() == recorded_errors(self.figs()).len(),
            forall|i: int| 0 <= i < r@.len() ==> ((#[trigger] r@[i]) matches FigtreeError::Other(t)
                && t@ == error_text(recorded_errors(self.figs())[i])),
    {
        let mut r: Vec<FigtreeError> = Vec::new();
        let mut j: usize = 0;
        while j < self.entries.len()
            invariant
                j <= self.entries@.len(),
                self.entries@.len() == self.figs().len(),
                r@.len() == recorded_errors(self.figs().take(j as int)).len(),
                forall|i: int| 0 <= i < r@.len() ==> ((#[trigger] r@[i]) matches FigtreeError::Other(t)
                    && t@ == error_text(recorded_errors(self.figs().take(j as int))[i])),
            decreases self.entries@.len() - j,
        {
            assert(self.figs().take(j + 1).drop_last() =~= self.figs().take(j as int));
            assert(self.figs().take(j + 1).last() == self.entries@[j as int].fig);
            match &self.entries[j].fig.error {
                Some(e) => {
                    r.push(FigtreeError::Other(e.to_text()));
                },
                None => {},
            }
            j += 1;
        }
        assert(self.figs().take(self.entries@.len() as int) =~= self.figs());
        r
    }


    /// The description recorded for `key`, as an option.
    pub open spec fn description_of(&self, key: Seq<char>) -> Option<Seq<char>> {
        if self.description_map().contains_key(key) { Some(self.description_map()[key]) } else { None }
    }

    /// The positions of the Figs, ordered by key.
    fn key_order(&self) -> (r: Vec<usize>)
        requires
            self.wf(),
        ensures
            sorted_by_key(self.figs(), r@.map_values(|i: usize| i as int)),
    {
        let n = self.entries.len();
        let mut order: Vec<usize> = Vec::new();
        let mut used: Vec<bool> = Vec::new();
        let mut k: usize = 0;
        while k < n
            invariant
                k <= n,
                used@.len() == k,
                forall|j: int| 0 <= j < k ==> !used@[j],
            decreases n - k,
        {
            used.push(false);
            k += 1;
        }
        let ghost figs = self.figs();
        while order.len() < n
            invariant
                n == figs.len(),
                figs == self.figs(),
                used@.len() == n,
                order@.len() <= n,
                forall|i: int| 0 <= i < order@.len() ==> (#[trigger] order@[i]) < n && used@[order@[i] as int],
                forall|i: int, j: int| 0 <= i < order@.len() && 0 <= j < order@.len() && i != j
                    ==> #[trigger] order@[i] != #[trigger] order@[j],
                forall|j: int| 0 <= j < n && used@[j] ==> exists|i: int| 0 <= i < order@.len() && #[trigger] order@[i] == j,
                forall|i: int, j: int| 0 <= i < j < order@.len()
                    ==> text_le(figs[#[trigger] order@[i] as int].key@, figs[#[trigger] order@[j] as int].key@),
                forall|i: int, j: int| 0 <= i < order@.len() && 0 <= j < n && !used@[j]
                    ==> text_le(figs[#[trigger] order@[i] as int].key@, #[trigger] figs[j].key@),
            decreases n - order@.len(),
        {
            // some position is unused: the used ones are exactly those in `order`
            let mut best: usize = n;
            let mut j: usize = 0;
            while j < n
                invariant
                    n == figs.len(),
                    figs == self.figs(),
                    used@.len() == n,
                    j <= n,
                    best == n || (best < j && !used@[best as int]),
                    best < n ==> forall|m: int| 0 <= m < j && !used@[m] ==> text_le(figs[best as int].key@, #[trigger] figs[m].key@),
                    best == n ==> forall|m: int| 0 <= m < j ==> used@[m],
                decreases n - j,
            {
                if !used[j] {
                    assert(figs[j as int] == self.entries@[j as int].fig);
                    if best == n {
                        best = j;
                        proof { crate::tree::lemma_text_le_refl(figs[j as int].key@); }
                    } else {
                        assert(figs[best as int] == self.entries@[best as int].fig);
                        if !text_le_exec(self.entries[best].fig.key.as_str(), self.entries[j].fig.key.as_str()) {
                            proof {
                                lemma_text_le_total(figs[best as int].key@, figs[j as int].key@);
                                assert forall|m: int| 0 <= m < j + 1 && !used@[m] implies text_le(figs[j as int].key@, #[trigger] figs[m].key@) by {
                                    if m < j {
                                        lemma_text_le_trans(figs[j as int].key@, figs[best as int].key@, figs[m].key@);
                                    } else {
                                        lemma_text_le_refl(figs[j as int].key@);
                                    }
                                }
                            }
                            best = j;
                        }
                    }
                }
                j += 1;
            }
            proof {
                if best == n {
                    // every position is used, so `order` already lists them all
                    assert forall|m: int| 0 <= m < n implies #[trigger] listed(order@, m) by {
                        assert(used@[m]);
                    }
                    lemma_all_listed(order@, n as int);
                }
            }
            let ghost before = order@;
            order.push(best);
            used.set(best, true);
            proof {
                assert forall|j: int| 0 <= j < n && used@[j] implies exists|i: int| 0 <= i < order@.len() && #[trigger] order@[i] == j by {
                    if j == best as int {
                        assert(order@[before.len() as int] == j);
                    } else {
                        let i = choose|i: int| 0 <= i < before.len() && #[trigger] before[i] == j;
                        assert(order@[i] == j);
                    }
                }
            }
        }
        proof {
            let o = order@.map_values(|i: usize| i as int);
            assert forall|i: int| 0 <= i < n implies 0 <= #[trigger] o[i] < n by {}
        }
        order
    }

    /// Appends a newline and the usage line of the `p`-th Fig.
    #[verifier::spinoff_prover]
    #[verifier::rlimit(40)]
    fn push_usage_line(&self, out: &mut String, p: usize, floats: Option<&dyn FloatCodec>)
        requires
            p < self.figs().len(),
        ensures
            usage_line(self.figs()[p as int], self.description_of(self.figs()[p as int].key@)) is Some ==>
                final(out)@ == old(out)@ + "\n"@
                    + usage_line(self.figs()[p as int], self.description_of(self.figs()[p as int].key@))->0,
    {
        assert(self.figs()[p as int] == self.entries@[p as int].fig);
        let fig = &self.entries[p].fig;
        push_str(out, "\n");
        push_str(out, "  ");
        push_padded(out, fig.key.as_str(), 30);
        push_str(out, " = ");
        let value = match fig.resolve() {
            Some(v) => v.to_text_with(floats),
            None => owned("<unresolved>"),
        };
        push_padded(out, value.as_str(), 40);
        push_str(out, " (");
        let src = fig.source.to_text();
        push_str(out, src.as_str());
        push_str(out, ")");
        match &fig.error {
            Some(e) => {
                push_str(out, " [ERROR: ");
                let t = e.to_text();
                push_str(out, t.as_str());
                push_str(out, "]");
            },
            None => {},
        }
        match self.descriptions.get(fig.key.as_str()) {
            Some(d) => {
                push_str(out, "  # ");
                push_str(out, d.as_str());
            },
            None => {},
        }
    }

    /// Returns a human-readable summary of all registered keys, by key
    /// order: each key's current value (or "<unresolved>"), source, any
    /// recorded error and its description.
    pub fn usage(&self) -> (r: String)
        requires
            self.wf(),
        ensures
            (forall|i: int| 0 <= i < self.figs().len() ==> #[trigger] usage_line(self.figs()[i], self.description_of(self.figs()[i].key@)) is Some)
            ==> exists|order: Seq<int>| {
                &&& sorted_by_key(self.figs(), order)
                &&& r@ == joined(seq!["Tree configuration:"@] + Seq::new(order.len(), |i: int|
                        usage_line(self.figs()[order[i]], self.description_of(self.figs()[order[i]].key@))->0), "\n"@)
            },
    {
        let order = self.key_order();
        let ghost o = order@.map_values(|i: usize| i as int);
        let ghost figs = self.figs();
        let floats: Option<&dyn FloatCodec> = match &self.floats {
            Some(c) => Some(&**c),
            None => None,
        };
        let mut out = owned("Tree configuration:");
        let mut k: usize = 0;
        while k < order.len()
            invariant
                figs == self.figs(),
                o == order@.map_values(|i: usize| i as int),
                sorted_by_key(figs, o),
                k <= order@.len(),
                (forall|i: int| 0 <= i < figs.len() ==> #[trigger] usage_line(figs[i], self.description_of(figs[i].key@)) is Some)
                ==> out@ == joined(seq!["Tree configuration:"@] + Seq::new(k as nat, |i: int|
                        usage_line(figs[o[i]], self.description_of(figs[o[i]].key@))->0), "\n"@),
            decreases order@.len() - k,
        {
            let p = order[k];
            assert(o[k as int] == p as int);
            let ghost before = out@;
            self.push_usage_line(&mut out, p, floats);
            proof {
                if forall|i: int| 0 <= i < figs.len() ==> #[trigger] usage_line(figs[i], self.description_of(figs[i].key@)) is Some {
                    let line = usage_line(figs[p as int], self.description_of(figs[p as int].key@));
                    assert(line is Some);
                    let a = seq!["Tree configuration:"@] + Seq::new(k as nat, |i: int|
                        usage_line(figs[o[i]], self.description_of(figs[o[i]].key@))->0);
                    let b = seq!["Tree configuration:"@] + Seq::new((k + 1) as nat, |i: int|
                        usage_line(figs[o[i]], self.description_of(figs[o[i]].key@))->0);
                    assert(b.drop_last() =~= a);
                    assert(b.last() == line->0);
                }
            }
            k += 1;
        }
        proof {
            if forall|i: int| 0 <= i < figs.len() ==> #[trigger] usage_line(figs[i], self.description_of(figs[i].key@)) is Some {
                assert(o.len() == order@.len());
            }
        }
        out
    }

    /// Returns the formatted history log of a key.
    pub fn history_log(&self, key: &str) -> (r: Option<String>)
        requires
            self.wf(),
        ensures
            r is Some <==> has_key(self.figs(), key@),
            r is Some && printable(fig_for(self.figs(), key@)->0.history@) ==> exists|secs: Seq<u64>|
                secs.len() == fig_for(self.figs(), key@)->0.history@.len()
                && r->0@ == joined(log_lines(fig_for(self.figs(), key@)->0.history@, secs), "\n"@),
    {
        match self.position(key) {
            Some(i) => {
                let floats: Option<&dyn FloatCodec> = match &self.floats {
                    Some(c) => Some(&**c),
                    None => None,
                };
                Some(self.entries[i].fig.history_log_with(floats))
            },
            None => None,
        }
    }


    /// Whether mutation tracking was enabled at construction.
    pub fn is_tracking(&self) -> (r: bool)
        ensures
            r == self.tracks(),
    {
        self.tracking
    }

    /// Whether pollination was enabled at construction.
    pub fn is_pollinating(&self) -> (r: bool)
        ensures
            r == self.pollinates(),
    {
        self.pollinate
    }

    /// Whether a flag source is registered.
    pub fn has_flag_source(&self) -> (r: bool)
        ensures
            r == self.has_flags(),
    {
        self.flag_source.is_some()
    }

    /// Whether the Tree holds a live sending half of the mutation channel.
    pub fn is_listening(&self) -> (r: bool)
        ensures
            r == self.listening(),
    {
        self.mutation_tx.is_some()
    }

}

}
