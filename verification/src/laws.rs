//! Properties of the library as a whole, stated over the models that the
//! operations' contracts use, and proved from them.
use vstd::prelude::*;
use crate::error::{FigtreeError, error_text};
use crate::callbacks::{CallbackPhase, HookSpec, phase_name, phase_outcome};
use crate::fig::{Fig, FigSource, FigState, set_result, source_rank, resolved_value};
use crate::numeric::{decimal, decimal_in, lemma_decimal_reads_back, signed_decimal};
use crate::priority::{ResolutionResult, first_answer, pemdas};
use crate::rules::Rule;
use crate::tree::{active_validators, changes, fired, has_key, keyed_as, would_change, key_pos, keys_distinct, kind_blocked, opt_view, readable, registered, rejection_recorded, sent, store_blocked, stored, validated, value_of};
use crate::validators::chain_outcome;
use crate::value::{FigValue, ValueView, kind_of, same_value};

verus! {

/// PEMDAS: a flag answer wins over everything else, unless the key's rule
/// ignores flags.
pub proof fn flag_wins(rule: Rule, flag: Option<ResolutionResult>, env: Option<ResolutionResult>,
    files: Seq<Option<ResolutionResult>>, stored: Option<FigValue>, default: Option<FigValue>)
    requires
        rule != Rule::NoFlags,
        flag is Some,
    ensures
        pemdas(rule, flag, env, files, stored, default) == flag,
{
}

/// PEMDAS: without a (heeded) flag answer, an environment answer wins
/// over files and the default, unless the key's rule ignores the
/// environment.
pub proof fn env_beats_files(rule: Rule, flag: Option<ResolutionResult>, env: Option<ResolutionResult>,
    files: Seq<Option<ResolutionResult>>, stored: Option<FigValue>, default: Option<FigValue>)
    requires
        rule == Rule::NoFlags || flag is None,
        rule != Rule::NoEnv,
        env is Some,
    ensures
        pemdas(rule, flag, env, files, stored, default) == env,
{
}

/// PEMDAS: among files, the first registered file that answers wins, and
/// any file answer beats a stored value and the default.
pub proof fn first_file_wins(rule: Rule, flag: Option<ResolutionResult>, env: Option<ResolutionResult>,
    files: Seq<Option<ResolutionResult>>, stored: Option<FigValue>, default: Option<FigValue>, i: int)
    requires
        rule == Rule::NoFlags || flag is None,
        rule == Rule::NoEnv || env is None,
        0 <= i < files.len(),
        files[i] is Some,
        forall|k: int| 0 <= k < i ==> (#[trigger] files[k]) is None,
    ensures
        pemdas(rule, flag, env, files, stored, default) == files[i],
    decreases i,
{
    if i > 0 {
        assert(files.drop_first()[i - 1] == files[i]);
        assert forall|k: int| 0 <= k < i - 1 implies (#[trigger] files.drop_first()[k]) is None by {
            assert(files.drop_first()[k] == files[k + 1]);
        }
        first_file_wins(rule, flag, env, files.drop_first(), stored, default, i - 1);
        assert(first_answer(files) == first_answer(files.drop_first()));
    }
}

/// PEMDAS: the default is the last resort, reported as coming from
/// `FigSource::Default`; with no default, no stored value and no answer
/// there is nothing.
pub proof fn default_is_last(rule: Rule, flag: Option<ResolutionResult>, env: Option<ResolutionResult>,
    files: Seq<Option<ResolutionResult>>, stored: Option<FigValue>, default: Option<FigValue>)
    requires
        rule == Rule::NoFlags || flag is None,
        rule == Rule::NoEnv || env is None,
        forall|k: int| 0 <= k < files.len() ==> (#[trigger] files[k]) is None,
        stored is None,
    ensures
        match default {
            Some(d) => pemdas(rule, flag, env, files, stored, default)
                == Some(ResolutionResult { value: d, source: FigSource::Default }),
            None => pemdas(rule, flag, env, files, stored, default) is None,
        },
    decreases files.len(),
{
    if files.len() > 0 {
        assert forall|k: int| 0 <= k < files.drop_first().len() implies (#[trigger] files.drop_first()[k]) is None by {
            assert(files.drop_first()[k] == files[k + 1]);
        }
        default_is_last(rule, flag, env, files.drop_first(), stored, default);
        assert(files[0] is None);
    }
}

/// PEMDAS: when no source answers, a value stored programmatically wins
/// over the default, reported as coming from `FigSource::Programmatic`.
pub proof fn stored_beats_default(rule: Rule, flag: Option<ResolutionResult>, env: Option<ResolutionResult>,
    files: Seq<Option<ResolutionResult>>, stored: Option<FigValue>, default: Option<FigValue>)
    requires
        rule == Rule::NoFlags || flag is None,
        rule == Rule::NoEnv || env is None,
        forall|k: int| 0 <= k < files.len() ==> (#[trigger] files[k]) is None,
        stored is Some,
    ensures
        pemdas(rule, flag, env, files, stored, default)
            == Some(ResolutionResult { value: stored->0, source: FigSource::Programmatic }),
    decreases files.len(),
{
    if files.len() > 0 {
        assert forall|k: int| 0 <= k < files.drop_first().len() implies (#[trigger] files.drop_first()[k]) is None by {
            assert(files.drop_first()[k] == files[k + 1]);
        }
        stored_beats_default(rule, flag, env, files.drop_first(), stored, default);
        assert(files[0] is None);
    }
}

/// Source priority is a strict chain:
/// Flag > Environment > File > Programmatic > Default > Empty.
pub proof fn source_priority_chain(flag: FigSource, env: FigSource, file: FigSource)
    requires
        flag is Flag,
        env is Environment,
        file is File,
    ensures
        source_rank(flag) > source_rank(env),
        source_rank(env) > source_rank(file),
        source_rank(file) > source_rank(FigSource::Programmatic),
        source_rank(FigSource::Programmatic) > source_rank(FigSource::Default),
        source_rank(FigSource::Default) > source_rank(FigSource::Empty),
{
}

/// Registration: the first registration of a key wins; registering it
/// again changes no Fig.
pub proof fn first_registration_wins(before: Seq<Fig>, after: Seq<Fig>, key: Seq<char>, default: Option<ValueView>)
    requires
        has_key(before, key),
        registered(before, after, key, default),
    ensures
        after == before,
        value_of(after, key) == value_of(before, key),
{
}

/// A read after a successful set gives back what was set: once the Fig
/// under `key` has taken `value`, reading `key` reports `value` (unless
/// the Fig held a distinct float equal to it as a number, such as the
/// other zero, which it keeps).
pub proof fn read_after_set(before: Seq<Fig>, key: Seq<char>, n: Fig, value: FigValue, source: FigSource)
    requires
        keys_distinct(before),
        has_key(before, key),
        !(before[key_pos(before, key)].value is Some && same_value(before[key_pos(before, key)].value->0@, value@)
            && before[key_pos(before, key)].value->0@ != value@),
        set_result(before[key_pos(before, key)], n, value, source, Ok(())),
    ensures
        opt_view(value_of(before.update(key_pos(before, key), n), key)) == Some(value@),
        readable(before.update(key_pos(before, key), n), key, kind_of(value@)),
{
    let p = key_pos(before, key);
    let after = before.update(p, n);
    assert(after[p].key@ == key);
    assert(has_key(after, key));
    let q = key_pos(after, key);
    if q != p {
        assert(after[q] == before[q]);
        assert(before[q].key@ == key);
    }
    assert(q == p);
}

/// PreventChange: once a Fig holds a value, setting it again is refused
/// with a RuleViolation, and the value and source stay as they were.
pub proof fn prevent_change_blocks(o: Fig, n: Fig, value: FigValue, source: FigSource, r: Result<(), FigtreeError>)
    requires
        set_result(o, n, value, source, r),
        o.rule == Rule::PreventChange,
        o.source != FigSource::Empty,
    ensures
        r matches Err(FigtreeError::RuleViolation { key, rule }) && key == o.key,
        n.value == o.value,
        n.source == o.source,
        n.history@.last().state is RuleBlocked,
{
}

/// Types are fixed: a value of another type than the Fig's is refused
/// with a TypeMismatch, the value and source are untouched, and the
/// refusal is recorded as the one new history entry.
pub proof fn type_is_fixed(o: Fig, n: Fig, value: FigValue, source: FigSource, r: Result<(), FigtreeError>)
    requires
        set_result(o, n, value, source, r),
        !(o.rule == Rule::PreventChange && o.source != FigSource::Empty),
        resolved_value(o) is Some,
        kind_of(resolved_value(o)->0@) != kind_of(value@),
    ensures
        r matches Err(FigtreeError::TypeMismatch { .. }),
        n.value == o.value,
        n.source == o.source,
        n.history@ == o.history@.push(n.history@.last()),
        n.history@.last().state is ValidationRejected,
{
    assert(n.history@ =~= o.history@.push(n.history@.last()));
}

/// Setting the value a Fig already holds (a value equal to it: floats
/// compare as numbers) changes nothing but the history, which records it
/// as unchanged, and the last error, which a successful set clears.
pub proof fn same_value_is_unchanged(o: Fig, n: Fig, value: FigValue, source: FigSource, r: Result<(), FigtreeError>)
    requires
        set_result(o, n, value, source, r),
        !(o.rule == Rule::PreventChange && o.source != FigSource::Empty),
        o.value is Some,
        same_value(o.value->0@, value@),
    ensures
        r is Ok,
        n.value == o.value,
        n.source == o.source,
        n.history@.last().state == (FigState::Unchanged { source }),
        n.history@.len() == o.history@.len() + 1,
        n.error is None,
{
    assert(resolved_value(o) == o.value);
}

/// History is append-only and indexed: a set keeps every earlier entry,
/// adds at most one, and entry `i` always carries index `i`, entry 0
/// being the initialization.
pub proof fn history_is_append_only(o: Fig, n: Fig, value: FigValue, source: FigSource, r: Result<(), FigtreeError>)
    requires
        set_result(o, n, value, source, r),
    ensures
        n.history@.len() >= o.history@.len(),
        n.history@.len() <= o.history@.len() + 1,
        forall|i: int| 0 <= i < o.history@.len() ==> #[trigger] n.history@[i] == o.history@[i],
        forall|i: int| 0 <= i < n.history@.len() ==> (#[trigger] n.history@[i]).state_index == i,
        n.history@[0].state == FigState::Initialized,
{
    assert forall|i: int| 0 <= i < o.history@.len() implies #[trigger] n.history@[i] == o.history@[i] by {
        assert(n.history@.take(o.history@.len() as int)[i] == n.history@[i]);
    }
}


/// Integer text reads back: the text an integer prints as (its value text,
/// `to_string`) denotes that integer under the integer syntax the
/// environment and flag sources read.
pub proof fn integer_text_reads_back(n: int, lo: int, hi: int)
    requires
        lo <= n <= hi,
    ensures
        signed_decimal(decimal(n)) == Some(n),
        decimal_in(decimal(n), lo, hi) == Some(n),
{
    lemma_decimal_reads_back(n);
}


/// A read after a successful store gives back what was stored, whatever
/// the key's callbacks and validators: the Fig under `key` then reports
/// `value`, of `value`'s type (unless it held a distinct float equal to
/// it as a number, which it keeps).
pub proof fn read_after_store(before: Seq<Fig>, key: Seq<char>, n: Fig, value: FigValue,
    vhooks: Seq<HookSpec>, cbs: Seq<(CallbackPhase, HookSpec)>)
    requires
        keys_distinct(before),
        has_key(before, key),
        !(before[key_pos(before, key)].value is Some && same_value(before[key_pos(before, key)].value->0@, value@)
            && before[key_pos(before, key)].value->0@ != value@),
        stored(before[key_pos(before, key)], n, value, Ok(()), vhooks, cbs),
    ensures
        opt_view(value_of(before.update(key_pos(before, key), n), key)) == Some(value@),
        readable(before.update(key_pos(before, key), n), key, kind_of(value@)),
{
    read_after_set(before, key, n, value, FigSource::Programmatic);
}

/// A mutation reports a change: when a store that changed a Fig's value
/// sends one, it carries the old value and the new, and they are not
/// equal.
pub proof fn stored_mutation_reports_change(o: Fig, before: Seq<crate::mutation::Mutation>,
    after: Seq<crate::mutation::Mutation>, key: Seq<char>, value: FigValue)
    requires
        changes(o, value@),
        sent(before, after, key, opt_view(o.value), value@, FigSource::Programmatic),
    ensures
        after.last().old is None || !same_value(after.last().old->0@, after.last().new@),
        after.last().new@ == value@,
        after.last().source == FigSource::Programmatic,
{
}

/// A refused store leaves the value and its source as they were, whatever
/// refused it: a rule, the type, a validator or an AfterChange callback.
pub proof fn refused_store_keeps_value(o: Fig, n: Fig, value: FigValue, r: Result<(), FigtreeError>,
    vhooks: Seq<HookSpec>, cbs: Seq<(CallbackPhase, HookSpec)>)
    requires
        stored(o, n, value, r, vhooks, cbs),
        r is Err,
    ensures
        n.value == o.value,
        n.source == o.source,
{
}

/// Rules come before validators: a store to a key that holds a value
/// under PreventChange is refused with a RuleViolation, whatever its
/// validators and callbacks would say.
pub proof fn rules_before_validators(o: Fig, n: Fig, value: FigValue, r: Result<(), FigtreeError>,
    vhooks: Seq<HookSpec>, cbs: Seq<(CallbackPhase, HookSpec)>)
    requires
        stored(o, n, value, r, vhooks, cbs),
        store_blocked(o),
    ensures
        r matches Err(FigtreeError::RuleViolation { .. }),
        n.value == o.value,
{
}


/// Validators guard a store: when every run of the key's validators on
/// `value` rejects it, the store fails with what they report under the
/// key, nothing is committed, and the rejection is recorded in the history.
pub proof fn rejected_store_recorded(o: Fig, n: Fig, value: FigValue, r: Result<(), FigtreeError>,
    vhooks: Seq<HookSpec>, cbs: Seq<(CallbackPhase, HookSpec)>)
    requires
        stored(o, n, value, r, vhooks, cbs),
        !store_blocked(o),
        !kind_blocked(o.rule, kind_of(value@)),
        o.rule != Rule::NoValidations,
        forall|out: Result<(), FigtreeError>| #[trigger] chain_outcome(vhooks, value@, out) ==> out is Err,
    ensures
        r is Err,
        validated(vhooks, value@, o.key@, r),
        rejection_recorded(o, n, r->Err_0),
        n.value == o.value,
        n.source == o.source,
{
    if validated(vhooks, value@, o.key@, Ok::<(), FigtreeError>(())) {
        let out = choose|out: Result<(), FigtreeError>| chain_outcome(vhooks, value@, out) && keyed_as(out, o.key@, Ok::<(), FigtreeError>(()));
        assert(out is Err);
    }
}

/// An AfterChange refusal rolls a store back: when the validators accept
/// `value`, it would change the Fig, and every run of the key's
/// AfterChange callbacks on it fails, the store fails with CallbackFailed
/// for the key and the phase, and the Fig is left exactly as it was.
pub proof fn after_change_refusal_rolls_back(o: Fig, n: Fig, value: FigValue, r: Result<(), FigtreeError>,
    vhooks: Seq<HookSpec>, cbs: Seq<(CallbackPhase, HookSpec)>)
    requires
        stored(o, n, value, r, vhooks, cbs),
        !store_blocked(o),
        !kind_blocked(o.rule, kind_of(value@)),
        o.rule != Rule::NoCallbacks,
        would_change(o, value@),
        forall|out: Result<(), FigtreeError>| #[trigger] chain_outcome(active_validators(o.rule, vhooks), value@, out) ==> out is Ok,
        forall|out: Result<(), FigtreeError>| #[trigger] phase_outcome(cbs, CallbackPhase::AfterChange, value@, out) ==> out is Err,
    ensures
        r matches Err(FigtreeError::CallbackFailed { key: k, phase: p, .. }) && k@ == o.key@ && p@ == "AfterChange"@,
        n == o,
{
    let vh = active_validators(o.rule, vhooks);
    if r is Err && validated(vh, value@, o.key@, r) {
        let out = choose|out: Result<(), FigtreeError>| chain_outcome(vh, value@, out) && keyed_as(out, o.key@, r);
        assert(out is Ok);
    }
    if fired(cbs, CallbackPhase::AfterChange, value@, o.key@, Ok::<(), FigtreeError>(())) {
        let out = choose|out: Result<(), FigtreeError>| phase_outcome(cbs, CallbackPhase::AfterChange, value@, out) && out is Ok;
        assert(out is Err);
    }
    assert(fired(cbs, CallbackPhase::AfterChange, value@, o.key@, r));
    let out = choose|out: Result<(), FigtreeError>| phase_outcome(cbs, CallbackPhase::AfterChange, value@, out) && match out {
        Ok(()) => r is Ok,
        Err(e) => r matches Err(FigtreeError::CallbackFailed { key: k, phase: p, message: m })
            && k@ == o.key@ && p@ == phase_name(CallbackPhase::AfterChange) && m@ == error_text(e),
    };
    assert(out is Err);
    reveal_strlit("AfterChange");
}

}
