//! `Fig`: the container for one configuration value, with its source,
//! rule and append-only history.
use vstd::prelude::*;
use std::time::SystemTime;
use crate::clock::now;
use crate::error::{FigtreeError, FigtreeResult, error_text};
use crate::rules::{Rule, rule_name};
use crate::value::{FigValue, kind_of, kind_name, same_value};

verus! {

// ── FigSource ─────────────────────────────────────────────────────────────────

/// Identifies which configuration source provided a Fig's value.
///
/// Ordered by priority — later variants outrank earlier ones:
///   Flag > Environment > File > Programmatic > Default > Empty
#[derive(Debug, Clone, PartialEq, Eq, PartialOrd, Ord)]
pub enum FigSource {
    /// No source has provided a value yet. Every Fig starts here.
    Empty,
    /// Value came from the declared default at registration time.
    Default,
    /// Value was set programmatically via store() after parse or load.
    Programmatic,
    /// Value came from a configuration file. Carries the file path.
    File(String),
    /// Value came from an environment variable. Carries the variable name.
    Environment(String),
    /// Value came from a CLI flag. Carries the flag name.
    Flag(String),
}

/// The priority rank of a source: a higher rank wins.
pub open spec fn source_rank(s: FigSource) -> nat {
    match s {
        FigSource::Empty => 0,
        FigSource::Default => 1,
        FigSource::Programmatic => 2,
        FigSource::File(_) => 3,
        FigSource::Environment(_) => 4,
        FigSource::Flag(_) => 5,
    }
}

impl FigSource {
    /// The priority rank of this source (Empty 0 … Flag 5).
    pub fn rank(&self) -> (r: u8)
        ensures
            r == source_rank(*self),
    {
        match self {
            FigSource::Empty => 0,
            FigSource::Default => 1,
            FigSource::Programmatic => 2,
            FigSource::File(_) => 3,
            FigSource::Environment(_) => 4,
            FigSource::Flag(_) => 5,
        }
    }

    /// True when this source has a higher priority than `other`.
    pub fn outranks(&self, other: &FigSource) -> (r: bool)
        ensures
            r == (source_rank(*self) > source_rank(*other)),
    {
        self.rank() > other.rank()
    }

    /// True for `FigSource::Empty`.
    pub fn is_empty(&self) -> (r: bool)
        ensures
            r == (*self == FigSource::Empty),
    {
        matches!(self, FigSource::Empty)
    }

    /// A copy of this source.
    pub fn duplicate(&self) -> (r: FigSource)
        ensures
            r == *self,
    {
        match self {
            FigSource::Empty => FigSource::Empty,
            FigSource::Default => FigSource::Default,
            FigSource::Programmatic => FigSource::Programmatic,
            FigSource::File(p) => FigSource::File(p.clone()),
            FigSource::Environment(k) => FigSource::Environment(k.clone()),
            FigSource::Flag(n) => FigSource::Flag(n.clone()),
        }
    }
}

// ── FigState ──────────────────────────────────────────────────────────────────

/// The semantic state of a Fig at a point in its history.
#[derive(Debug, Clone, PartialEq)]
pub enum FigState {
    /// State 0 — the Fig was created with no value.
    Initialized,
    /// The Fig received its first value from a source.
    FirstResolution { source: FigSource },
    /// The Fig's value changed after first resolution.
    Changed { from: FigValue, to: FigValue, source: FigSource },
    /// An attempted set carried the value the Fig already held.
    Unchanged { source: FigSource },
    /// A validator rejected a value. The Fig's value was not changed.
    ValidationRejected { message: String },
    /// A rule blocked a change. The Fig's value was not changed.
    RuleBlocked { rule: String },
}

// ── FigHistoryEntry ───────────────────────────────────────────────────────────

/// A single entry in a Fig's history log.
#[derive(Debug, Clone)]
pub struct FigHistoryEntry {
    /// Sequential state index, starting at 0 for initialization.
    pub state_index: usize,
    /// The semantic state at this point in history.
    pub state: FigState,
    /// The value at this point, if one existed.
    pub value: Option<FigValue>,
    /// When this entry was recorded.
    pub recorded: SystemTime,
}

impl FigHistoryEntry {
    /// Creates the state-0 initialization entry.
    pub fn init() -> (r: Self)
        ensures
            r.state_index == 0,
            r.state == FigState::Initialized,
            r.value is None,
    {
        FigHistoryEntry { state_index: 0, state: FigState::Initialized, value: None, recorded: now() }
    }

    /// Creates a state entry for a value transition.
    pub fn record(index: usize, state: FigState, value: Option<FigValue>) -> (r: Self)
        ensures
            r.state_index == index,
            r.state == state,
            r.value == value,
    {
        FigHistoryEntry { state_index: index, state, value, recorded: now() }
    }
}

// ── Fig ───────────────────────────────────────────────────────────────────────

/// A Fig is the container for a single configuration value.
///
/// It holds the current value, the default, the winning source, the rule
/// governing its behavior, and a complete append-only history of every
/// state it has passed through since initialization.
#[derive(Debug, Clone)]
pub struct Fig {
    /// The unique key identifying this Fig within its Tree.
    pub key: String,
    /// The current resolved value. None until resolution has run.
    pub value: Option<FigValue>,
    /// The default value declared at registration time.
    /// None if no default was declared — the key is then required.
    pub default: Option<FigValue>,
    /// Which source provided the current value.
    pub source: FigSource,
    /// The rule governing this Fig's behavior.
    pub rule: Rule,
    /// Complete append-only history of this Fig's state transitions.
    /// Entry at index 0 is always the initialization entry.
    pub history: Vec<FigHistoryEntry>,
    /// The last error recorded against this Fig, if any.
    /// Cleared on a successful set.
    pub error: Option<FigtreeError>,
}

/// The value a Fig reports: its current value, else its default.
pub open spec fn resolved_value(f: Fig) -> Option<FigValue> {
    match f.value {
        Some(v) => Some(v),
        None => f.default,
    }
}

/// True when a second `set` on this Fig would panic.
pub open spec fn set_would_panic(f: Fig) -> bool {
    f.source != FigSource::Empty && f.rule == Rule::PanicOnChange
}

/// What `Fig::set` does to a Fig `o`, leaving `n` and returning `r`, when
/// asked to take `value` from `source`:
///   - a resolved Fig under PreventChange records a rule block and refuses;
///   - a value whose type differs from the Fig's records a TypeMismatch
///     on the Fig and refuses, history untouched;
///   - the value the Fig already holds records an Unchanged entry;
///   - otherwise the value and source are taken, recording a first
///     resolution or a change.
pub open spec fn set_result(o: Fig, n: Fig, value: FigValue, source: FigSource, r: FigtreeResult<()>) -> bool {
    &&& n.wf()
    &&& n.key == o.key
    &&& n.default == o.default
    &&& n.rule == o.rule
    // the history only grows, and by at most one entry
    &&& n.history@.len() >= o.history@.len()
    &&& n.history@.len() <= o.history@.len() + 1
    &&& n.history@.take(o.history@.len() as int) == o.history@
    &&& {
        let resolved = o.source != FigSource::Empty;
        let last = n.history@.last();
        if resolved && o.rule == Rule::PreventChange {
            &&& r == Err::<(), FigtreeError>(FigtreeError::RuleViolation {
                key: o.key,
                rule: n.history@.last().state->RuleBlocked_rule,
            })
            &&& last.state->RuleBlocked_rule@ == rule_name(Rule::PreventChange)
            &&& last.state is RuleBlocked
            &&& last.value is None
            &&& n.history@.len() == o.history@.len() + 1
            &&& n.value == o.value && n.source == o.source && n.error == o.error
        } else if resolved_value(o) is Some
            && kind_of(resolved_value(o)->0@) != kind_of(value@) {
            &&& r matches Err(FigtreeError::TypeMismatch { key, expected, got })
            &&& key == o.key
            &&& expected@ == kind_name(kind_of(resolved_value(o)->0@))
            &&& got@ == kind_name(kind_of(value@))
            &&& n.error == Some(r->Err_0)
            &&& n.history@.len() == o.history@.len() + 1
            &&& (last.state matches FigState::ValidationRejected { message } && message@ == error_text(r->Err_0))
            &&& last.value is None
            &&& n.value == o.value && n.source == o.source
        } else if o.value is Some && same_value(o.value->0@, value@) {
            &&& r is Ok
            &&& n.history@.len() == o.history@.len() + 1
            &&& last.state == (FigState::Unchanged { source })
            &&& last.value == Some(value)
            &&& n.value == o.value && n.source == o.source && n.error is None
        } else {
            &&& r is Ok
            &&& n.history@.len() == o.history@.len() + 1
            &&& (if resolved {
                &&& last.state is Changed
                &&& last.state->Changed_from@ == o.value->0@
                &&& last.state->Changed_to@ == value@
                &&& last.state->Changed_source == source
            } else {
                last.state == (FigState::FirstResolution { source })
            })
            &&& last.value is Some && last.value->0@ == value@
            &&& n.value == Some(value)
            &&& n.source == source
            &&& n.error is None
        }

    }
}

impl Fig {
    /// The Fig is well formed: history entry `i` carries index `i`, entry
    /// 0 is the initialization entry, a Fig with a source has a value, and
    /// a value has the type of the default.
    pub open spec fn wf(&self) -> bool {
        &&& self.value is Some && self.default is Some ==> kind_of(self.value->0@) == kind_of(self.default->0@)
        &&& self.history@.len() > 0
        &&& self.history@[0].state == FigState::Initialized
        &&& self.history@[0].value is None
        &&& forall|i: int| 0 <= i < self.history@.len() ==> (#[trigger] self.history@[i]).state_index == i
        &&& self.source != FigSource::Empty ==> self.value is Some
    }

    /// Creates a new Fig at initialization state.
    /// History starts with a single state-0 initialization entry.
    pub fn new(key: &str, default: Option<FigValue>) -> (r: Self)
        ensures
            r.wf(),
            r.key@ == key@,
            r.value is None,
            r.default == default,
            r.source == FigSource::Empty,
            r.rule == Rule::Undefined,
            r.history@.len() == 1,
            r.error is None,
    {
        let mut history: Vec<FigHistoryEntry> = Vec::new();
        history.push(FigHistoryEntry::init());
        Fig { key: key.to_string(), value: None, default, source: FigSource::Empty, rule: Rule::Undefined, history, error: None }
    }

    /// Returns the current value if resolved, otherwise the default.
    pub fn resolve(&self) -> (r: Option<&FigValue>)
        ensures
            match (r, resolved_value(*self)) {
                (Some(a), Some(b)) => *a == b,
                (None, None) => true,
                _ => false,
            },
    {
        match &self.value {
            Some(v) => Some(v),
            None => match &self.default {
                Some(d) => Some(d),
                None => None,
            },
        }
    }

    /// Returns true if this Fig has been resolved from any source.
    pub fn is_resolved(&self) -> (r: bool)
        ensures
            r == (self.source != FigSource::Empty),
    {
        !self.source.is_empty()
    }

    /// Returns true if this Fig has no default and therefore
    /// must be provided by some source.
    pub fn is_required(&self) -> (r: bool)
        ensures
            r == (self.default is None),
    {
        self.default.is_none()
    }

    /// Returns the number of state transitions since initialization.
    /// The initialization entry at index 0 is not counted.
    pub fn change_count(&self) -> (r: usize)
        ensures
            r == if self.history@.len() == 0 { 0 } else { self.history@.len() - 1 },
    {
        self.history.len().saturating_sub(1)
    }

    /// Returns the full history as a slice.
    pub fn history(&self) -> (r: &[FigHistoryEntry])
        ensures
            r@ == self.history@,
    {
        self.history.as_slice()
    }

    /// Attempts to set the current value from a given source.
    ///
    /// Enforces:
    ///   - Rule::PanicOnChange  — callers must not set a resolved Fig
    ///   - Rule::PreventChange  — returns RuleViolation if already resolved
    ///   - Type consistency     — new value must match the existing type
    ///
    /// Records the outcome in history whatever it is: a rule block, a type
    /// mismatch (as a rejection carrying the error's text, the error also
    /// kept on the Fig), an unchanged set, a first resolution or a change.
    /// A successful set clears the Fig's last error.
    pub fn set(&mut self, value: FigValue, source: FigSource) -> (r: FigtreeResult<()>)
        requires
            old(self).wf(),
            !set_would_panic(*old(self)),
        ensures
            set_result(*old(self), *final(self), value, source, r),
    {
        let next_index = self.history.len();
        let ghost old_history = self.history@;

        // ── rule checks ───────────────────────────────────────────────────
        if self.is_resolved() {
            if self.rule == Rule::PreventChange {
                let name = self.rule.name();
                let entry = FigHistoryEntry::record(
                    next_index,
                    FigState::RuleBlocked { rule: name.clone() },
                    None,
                );
                self.history.push(entry);
                assert(self.history@.take(old_history.len() as int) =~= old_history);
                return Err(FigtreeError::RuleViolation { key: self.key.clone(), rule: name });
            }
        }

        // ── type consistency check ─────────────────────────────────────────
        let existing = match &self.value {
            Some(v) => Some(v),
            None => match &self.default {
                Some(d) => Some(d),
                None => None,
            },
        };
        if let Some(e) = existing {
            if !e.same_type(&value) {
                let expected = crate::text::owned(e.type_label());
                let got = crate::text::owned(value.type_label());
                let err = FigtreeError::TypeMismatch {
                    key: self.key.clone(),
                    expected: expected.clone(),
                    got: got.clone(),
                };
                self.error = Some(FigtreeError::TypeMismatch { key: self.key.clone(), expected, got });
                let entry = FigHistoryEntry::record(
                    next_index,
                    FigState::ValidationRejected { message: err.to_text() },
                    None,
                );
                self.history.push(entry);
                assert(self.history@.take(old_history.len() as int) =~= old_history);
                return Err(err);
            }
        }

        // ── unchanged check ───────────────────────────────────────────────
        let unchanged = match &self.value {
            Some(v) => v.same_as(&value),
            None => false,
        };
        if unchanged {
            let entry = FigHistoryEntry::record(
                next_index,
                FigState::Unchanged { source: source },
                Some(value),
            );
            self.history.push(entry);
            assert(self.history@.take(old_history.len() as int) =~= old_history);
            self.error = None;
            return Ok(());
        }

        // ── record the state transition ───────────────────────────────────
        let state = if !self.is_resolved() {
            FigState::FirstResolution { source: source.duplicate() }
        } else {
            let from = match &self.value {
                Some(v) => v.duplicate(),
                None => value.duplicate(),
            };
            FigState::Changed { from, to: value.duplicate(), source: source.duplicate() }
        };
        let entry = FigHistoryEntry::record(next_index, state, Some(value.duplicate()));
        self.history.push(entry);
        assert(self.history@.take(old_history.len() as int) =~= old_history);

        self.value = Some(value);
        self.source = source;
        self.error = None;
        Ok(())
    }

    /// Records a validation rejection in history without changing the value.
    pub fn record_validation_rejection(&mut self, message: &str)
        requires
            old(self).wf(),
        ensures
            final(self).wf(),
            final(self).history@.len() == old(self).history@.len() + 1,
            final(self).history@.take(old(self).history@.len() as int) == old(self).history@,
            (final(self).history@.last().state matches FigState::ValidationRejected { message: m } && m@ == message@),
            final(self).history@.last().value is None,
            (final(self).error matches Some(FigtreeError::ValidationFailed { key: k, message: m }) && k == old(self).key && m@ == message@),
            final(self).value == old(self).value,
            final(self).source == old(self).source,
            final(self).key == old(self).key,
            final(self).default == old(self).default,
            final(self).rule == old(self).rule,
    {
        let index = self.history.len();
        let ghost old_history = self.history@;
        let entry = FigHistoryEntry::record(
            index,
            FigState::ValidationRejected { message: message.to_string() },
            None,
        );
        self.history.push(entry);
        assert(self.history@.take(old_history.len() as int) =~= old_history);
        self.error = Some(FigtreeError::ValidationFailed { key: self.key.clone(), message: message.to_string() });
    }

    /// Records a rule block in history without changing the value.
    pub fn record_rule_block(&mut self, rule: &str)
        requires
            old(self).wf(),
        ensures
            final(self).wf(),
            final(self).history@.len() == old(self).history@.len() + 1,
            final(self).history@.take(old(self).history@.len() as int) == old(self).history@,
            (final(self).history@.last().state matches FigState::RuleBlocked { rule: m } && m@ == rule@),
            final(self).history@.last().value is None,
            (final(self).error matches Some(FigtreeError::RuleViolation { key: k, rule: m }) && k == old(self).key && m@ == rule@),
            final(self).value == old(self).value,
            final(self).source == old(self).source,
            final(self).key == old(self).key,
            final(self).default == old(self).default,
            final(self).rule == old(self).rule,
    {
        let index = self.history.len();
        let ghost old_history = self.history@;
        let entry = FigHistoryEntry::record(index, FigState::RuleBlocked { rule: rule.to_string() }, None);
        self.history.push(entry);
        assert(self.history@.take(old_history.len() as int) =~= old_history);
        self.error = Some(FigtreeError::RuleViolation { key: self.key.clone(), rule: rule.to_string() });
    }
}

}
