//! Per-key behavioural rules.
use vstd::prelude::*;
use crate::text::owned;

verus! {

/// A Rule governs the behavior of a single Fig after it has been resolved.
/// Only one rule may be applied per key.
#[derive(Debug, Clone, PartialEq, Eq, Structural)]
pub enum Rule {
    /// No behavioral restriction.
    Undefined,
    /// `store()` on a resolved key returns `RuleViolation`.
    PreventChange,
    /// `store()` on a resolved key is a programming error.
    PanicOnChange,
    /// All validators registered on this key are skipped.
    NoValidations,
    /// All callbacks registered on this key are skipped.
    NoCallbacks,
    /// The CLI flag source is ignored for this key.
    NoFlags,
    /// The environment variable source is ignored for this key.
    NoEnv,
    /// Map values are refused for this key.
    NoMaps,
    /// List values are refused for this key.
    NoLists,
    /// The key is permanently retired.
    CondemnedFromResurrection,
}

/// The name of a rule, as `Display` would print it.
pub open spec fn rule_name(r: Rule) -> Seq<char> {
    match r {
        Rule::Undefined => "Undefined"@,
        Rule::PreventChange => "PreventChange"@,
        Rule::PanicOnChange => "PanicOnChange"@,
        Rule::NoValidations => "NoValidations"@,
        Rule::NoCallbacks => "NoCallbacks"@,
        Rule::NoFlags => "NoFlags"@,
        Rule::NoEnv => "NoEnv"@,
        Rule::NoMaps => "NoMaps"@,
        Rule::NoLists => "NoLists"@,
        Rule::CondemnedFromResurrection => "CondemnedFromResurrection"@,
    }
}

impl Rule {
    /// Returns true if this rule blocks store() operations.
    pub fn blocks_change(&self) -> (r: bool)
        ensures
            r == (*self == Rule::PreventChange || *self == Rule::PanicOnChange),
    {
        matches!(self, Rule::PreventChange | Rule::PanicOnChange)
    }

    /// Returns true if this rule skips validators.
    pub fn skips_validations(&self) -> (r: bool)
        ensures
            r == (*self == Rule::NoValidations),
    {
        matches!(self, Rule::NoValidations)
    }

    /// Returns true if this rule skips callbacks.
    pub fn skips_callbacks(&self) -> (r: bool)
        ensures
            r == (*self == Rule::NoCallbacks),
    {
        matches!(self, Rule::NoCallbacks)
    }

    /// Returns true if this rule ignores the CLI flag source.
    pub fn ignores_flags(&self) -> (r: bool)
        ensures
            r == (*self == Rule::NoFlags),
    {
        matches!(self, Rule::NoFlags)
    }

    /// Returns true if this rule ignores the environment source.
    pub fn ignores_env(&self) -> (r: bool)
        ensures
            r == (*self == Rule::NoEnv),
    {
        matches!(self, Rule::NoEnv)
    }

    /// Returns true if this rule blocks map types.
    pub fn blocks_maps(&self) -> (r: bool)
        ensures
            r == (*self == Rule::NoMaps),
    {
        matches!(self, Rule::NoMaps)
    }

    /// Returns true if this rule blocks list types.
    pub fn blocks_lists(&self) -> (r: bool)
        ensures
            r == (*self == Rule::NoLists),
    {
        matches!(self, Rule::NoLists)
    }

    /// The rule's name (what `Display` prints).
    pub fn name(&self) -> (r: String)
        ensures
            r@ == rule_name(*self),
    {
        let s = match self {
            Rule::Undefined => "Undefined",
            Rule::PreventChange => "PreventChange",
            Rule::PanicOnChange => "PanicOnChange",
            Rule::NoValidations => "NoValidations",
            Rule::NoCallbacks => "NoCallbacks",
            Rule::NoFlags => "NoFlags",
            Rule::NoEnv => "NoEnv",
            Rule::NoMaps => "NoMaps",
            Rule::NoLists => "NoLists",
            Rule::CondemnedFromResurrection => "CondemnedFromResurrection",
        };
        owned(s)
    }

    /// A copy of this rule.
    pub fn duplicate(&self) -> (r: Rule)
        ensures
            r == *self,
    {
        match self {
            Rule::Undefined => Rule::Undefined,
            Rule::PreventChange => Rule::PreventChange,
            Rule::PanicOnChange => Rule::PanicOnChange,
            Rule::NoValidations => Rule::NoValidations,
            Rule::NoCallbacks => Rule::NoCallbacks,
            Rule::NoFlags => Rule::NoFlags,
            Rule::NoEnv => Rule::NoEnv,
            Rule::NoMaps => Rule::NoMaps,
            Rule::NoLists => Rule::NoLists,
            Rule::CondemnedFromResurrection => Rule::CondemnedFromResurrection,
        }
    }
}

impl Default for Rule {
    fn default() -> (r: Rule)
        ensures
            r == Rule::Undefined,
    {
        Rule::Undefined
    }
}

}
