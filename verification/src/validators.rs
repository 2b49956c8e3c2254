//! Validators: the registry that runs them in order, and the built-in
//! `assure_*` checks.
use vstd::prelude::*;
use crate::callbacks::{HookSpec, ValueHook};
use crate::duration::{Duration, duration_debug_text};
use crate::error::{FigtreeError, FigtreeResult};
use crate::numeric::{decimal, push_decimal, push_unsigned};
use crate::text::{has_infix, has_prefix, has_suffix, is_infix, is_prefix, is_suffix, owned, push_str};
use crate::value::{FigValue, ValueView, kind_name, kind_of, seq_view};

verus! {

// ── ValidatorRegistry ─────────────────────────────────────────────────────────

/// A validator paired with a human-readable name for diagnostics.
pub struct NamedValidator {
    /// Short name describing what this validator checks.
    pub name: String,
    /// The validator function.
    pub func: ValueHook,
}

/// An ordered collection of validators for a single Fig.
///
/// Validators run in registration order. The first failure stops
/// execution and returns its error; later validators are not run.
/// The validators are user code, and what they return is theirs.
pub struct ValidatorRegistry {
    validators: Vec<NamedValidator>,
}

/// The names of a registry's validators, in registration order.
pub closed spec fn validator_names(r: ValidatorRegistry) -> Seq<Seq<char>> {
    r.validators@.map_values(|v: NamedValidator| v.name@)
}

/// The validators of a registry, in registration order, each as what it
/// may return.
pub closed spec fn validator_hooks(r: ValidatorRegistry) -> Seq<HookSpec> {
    r.validators@.map_values(|v: NamedValidator| v.func.allows())
}

/// What running the validators `hooks` in order on `v` may return: each
/// runs in turn while the ones before it accept, and the first rejection
/// is the outcome; with every one accepting, success.
pub open spec fn chain_outcome(hooks: Seq<HookSpec>, v: ValueView, r: FigtreeResult<()>) -> bool
    decreases hooks.len(),
{
    if hooks.len() == 0 {
        r is Ok
    } else {
        ||| r is Err && (hooks[0])(v, r)
        ||| (hooks[0])(v, Ok(())) && chain_outcome(hooks.drop_first(), v, r)
    }
}

/// A registry has as many validators as names.
pub proof fn lemma_hooks_named(r: ValidatorRegistry)
    ensures
        validator_hooks(r).len() == validator_names(r).len(),
{
}

impl ValidatorRegistry {
    /// Creates an empty registry.
    pub fn new() -> (r: Self)
        ensures
            validator_names(r) == Seq::<Seq<char>>::empty(),
            validator_hooks(r) == Seq::<HookSpec>::empty(),
    {
        let r = ValidatorRegistry { validators: Vec::new() };
        assert(validator_names(r) =~= Seq::<Seq<char>>::empty());
        assert(validator_hooks(r) =~= Seq::<HookSpec>::empty());
        r
    }

    /// Registers a named validator, one that accepts every value, after
    /// those already present.
    pub fn register<F>(&mut self, name: &str, func: F)
        where F: Fn(&FigValue) -> FigtreeResult<()> + Send + Sync + 'static,
        requires
            forall|v: &FigValue| #[trigger] func.requires((v,)),
        ensures
            validator_names(*final(self)) == validator_names(*old(self)).push(name@),
            validator_hooks(*final(self)).len() == validator_hooks(*old(self)).len() + 1,
            validator_hooks(*final(self)).drop_last() == validator_hooks(*old(self)),
            forall|v: ValueView, out: FigtreeResult<()>| #[trigger] (validator_hooks(*final(self)).last())(v, out)
                == exists|x: FigValue| x@ == v && #[trigger] func.ensures((&x,), out),
    {
        let hook = ValueHook::new(func);
        self.validators.push(NamedValidator { name: owned(name), func: hook });
        assert(validator_names(*self) =~= validator_names(*old(self)).push(name@));
        assert(validator_hooks(*self).drop_last() =~= validator_hooks(*old(self)));
    }

    /// Runs all registered validators against `value` in registration
    /// order and returns the first error; later validators are not run.
    /// With no validators it succeeds; otherwise what it returns is what
    /// the validators' contracts allow of such a run.
    pub fn validate(&self, value: &FigValue) -> (r: FigtreeResult<()>)
        ensures
            validator_names(*self).len() == 0 ==> r is Ok,
            chain_outcome(validator_hooks(*self), value@, r),
    {
        let ghost hooks = validator_hooks(*self);
        let mut i: usize = 0;
        assert(hooks.skip(0) =~= hooks);
        while i < self.validators.len()
            invariant
                i <= self.validators@.len(),
                hooks == validator_hooks(*self),
                hooks.len() == self.validators@.len(),
                forall|x: FigtreeResult<()>| chain_outcome(#[trigger] hooks.skip(i as int), value@, x)
                    ==> chain_outcome(hooks, value@, x),
            decreases self.validators@.len() - i,
        {
            let ghost here = hooks.skip(i as int);
            assert(here.len() > 0);
            assert(here[0] == hooks[i as int]);
            assert(hooks[i as int] == self.validators@[i as int].func.allows());
            assert(here.drop_first() =~= hooks.skip(i + 1));
            let out = self.validators[i].func.call(value);
            match out {
                Ok(()) => {
                    assert(out is Ok);
                    let ghost u: () = out->Ok_0;
                    assert(out == Ok::<(), FigtreeError>(u));
                    assert((here[0])(value@, Ok::<(), FigtreeError>(())));
                    assert forall|x: FigtreeResult<()>| chain_outcome(#[trigger] hooks.skip(i + 1), value@, x)
                        implies chain_outcome(hooks, value@, x) by {
                        assert(chain_outcome(here.drop_first(), value@, x));
                        assert(chain_outcome(here, value@, x));
                    }
                },
                Err(e) => {
                    assert(chain_outcome(here, value@, Err::<(), FigtreeError>(e)));
                    return Err(e);
                },
            }
            i += 1;
        }
        assert(hooks.skip(i as int) =~= Seq::<HookSpec>::empty());
        assert(chain_outcome(hooks.skip(i as int), value@, Ok::<(), FigtreeError>(())));
        Ok(())
    }

    /// Returns the number of registered validators.
    pub fn len(&self) -> (r: usize)
        ensures
            r == validator_names(*self).len(),
    {
        self.validators.len()
    }

    /// Returns true if no validators are registered.
    pub fn is_empty(&self) -> (r: bool)
        ensures
            r == (validator_names(*self).len() == 0),
    {
        self.len() == 0
    }
}

// ── Verdicts ──────────────────────────────────────────────────────────────────

/// `r` accepts when `accept` holds, and otherwise is the rejection with
/// message `msg` and an empty key (the Tree fills in the key).
pub open spec fn verdict(r: FigtreeResult<()>, accept: bool, msg: Seq<char>) -> bool {
    if accept {
        r is Ok
    } else {
        r matches Err(FigtreeError::ValidationFailed { key, message })
            && key@ == Seq::<char>::empty() && message@ == msg
    }
}

/// The message for a value of the wrong type.
pub open spec fn wrong_type_msg(expected: Seq<char>, v: ValueView) -> Seq<char> {
    "expected "@ + expected + ", got "@ + kind_name(kind_of(v))
}

/// Produces a ValidationFailed error with the given message.
pub fn reject(message: String) -> (r: FigtreeResult<()>)
    ensures
        verdict(r, false, message@),
{
    Err(FigtreeError::ValidationFailed { key: String::new(), message })
}

fn reject_wrong_type(expected: &str, value: &FigValue) -> (r: FigtreeResult<()>)
    ensures
        verdict(r, false, wrong_type_msg(expected@, value@)),
{
    let mut m = owned("expected ");
    push_str(&mut m, expected);
    push_str(&mut m, ", got ");
    push_str(&mut m, value.type_label());
    reject(m)
}

/// Message text: `head` followed by the decimal `n`.
fn text_num(head: &str, n: i128) -> (r: String)
    ensures
        r@ == head@ + decimal(n as int),
{
    let mut m = owned(head);
    push_decimal(&mut m, n);
    m
}

/// Message text: `head`, `n`, `mid`, `k`.
fn text_num2(head: &str, n: i128, mid: &str, k: i128) -> (r: String)
    ensures
        r@ == head@ + decimal(n as int) + mid@ + decimal(k as int),
{
    let mut m = owned(head);
    push_decimal(&mut m, n);
    push_str(&mut m, mid);
    push_decimal(&mut m, k);
    m
}

/// Message text: `head`, `a`, `mid`, `b`, `tail`, `v`.
fn text_num3(head: &str, a: i128, mid: &str, b: i128, tail: &str, v: i128) -> (r: String)
    ensures
        r@ == head@ + decimal(a as int) + mid@ + decimal(b as int) + tail@ + decimal(v as int),
{
    let mut m = owned(head);
    push_decimal(&mut m, a);
    push_str(&mut m, mid);
    push_decimal(&mut m, b);
    push_str(&mut m, tail);
    push_decimal(&mut m, v);
    m
}

/// Message text: `head`, `s`, `tail`.
fn text_quoted(head: &str, s: &str, tail: &str) -> (r: String)
    ensures
        r@ == head@ + s@ + tail@,
{
    let mut m = owned(head);
    push_str(&mut m, s);
    push_str(&mut m, tail);
    m
}

/// The number of bytes in the UTF-8 encoding of `s` (`str::len`).
pub open spec fn byte_len(s: Seq<char>) -> usize {
    vstd::utf8::encode_utf8(s).len() as usize
}

// ── String validators ─────────────────────────────────────────────────────────

/// Rejects empty strings.
pub fn assure_string_not_empty(value: &FigValue) -> (r: FigtreeResult<()>)
    ensures
        match value@ {
            ValueView::Str(s) => verdict(r, s.len() > 0, "string must not be empty"@),
            v => verdict(r, false, wrong_type_msg("String"@, v)),
        },
{
    match value {
        FigValue::String(s) => if s.as_str().is_empty() { reject(owned("string must not be empty")) } else { Ok(()) },
        _ => reject_wrong_type("String", value),
    }
}

pub open spec fn string_length_verdict(n: usize, v: ValueView, r: FigtreeResult<()>) -> bool {
    match v {
        ValueView::Str(s) => verdict(r, byte_len(s) == n,
            "string length must be exactly "@ + decimal(n as int) + ", got "@ + decimal(byte_len(s) as int)),
        v => verdict(r, false, wrong_type_msg("String"@, v)),
    }
}

/// The verdict of `assure_string_length` on a value.
pub fn check_string_length(n: usize, value: &FigValue) -> (r: FigtreeResult<()>)
    ensures
        string_length_verdict(n, value@, r),
{
    match value {
        FigValue::String(s) => {
            let len = s.as_str().len();
            if len == n { Ok(()) } else {
                reject(text_num2("string length must be exactly ", n as i128, ", got ", len as i128))
            }
        },
        _ => reject_wrong_type("String", value),
    }
}

pub open spec fn string_not_length_verdict(n: usize, v: ValueView, r: FigtreeResult<()>) -> bool {
    match v {
        ValueView::Str(s) => verdict(r, byte_len(s) != n, "string length must not be "@ + decimal(n as int)),
        v => verdict(r, false, wrong_type_msg("String"@, v)),
    }
}

/// The verdict of `assure_string_not_length` on a value.
pub fn check_string_not_length(n: usize, value: &FigValue) -> (r: FigtreeResult<()>)
    ensures
        string_not_length_verdict(n, value@, r),
{
    match value {
        FigValue::String(s) => {
            if s.as_str().len() != n { Ok(()) } else {
                reject(text_num("string length must not be ", n as i128))
            }
        },
        _ => reject_wrong_type("String", value),
    }
}

pub open spec fn string_length_greater_than_verdict(n: usize, v: ValueView, r: FigtreeResult<()>) -> bool {
    match v {
        ValueView::Str(s) => verdict(r, byte_len(s) > n,
            "string length must be greater than "@ + decimal(n as int) + ", got "@ + decimal(byte_len(s) as int)),
        v => verdict(r, false, wrong_type_msg("String"@, v)),
    }
}

/// The verdict of `assure_string_length_greater_than` on a value.
pub fn check_string_length_greater_than(n: usize, value: &FigValue) -> (r: FigtreeResult<()>)
    ensures
        string_length_greater_than_verdict(n, value@, r),
{
    match value {
        FigValue::String(s) => {
            let len = s.as_str().len();
            if len > n { Ok(()) } else {
                reject(text_num2("string length must be greater than ", n as i128, ", got ", len as i128))
            }
        },
        _ => reject_wrong_type("String", value),
    }
}

/// Rejects strings whose length in bytes is not exactly `n`.
pub fn assure_string_length(n: usize) -> (f: impl Fn(&FigValue) -> FigtreeResult<()>)
    ensures
        forall|v: &FigValue| f.requires((v,)),
        forall|v: &FigValue, r: FigtreeResult<()>| f.ensures((v,), r) ==> string_length_verdict(n, v@, r),
{
    move |value: &FigValue| -> (r: FigtreeResult<()>)
        ensures
            string_length_verdict(n, value@, r),
    {
        check_string_length(n, value)
    }
}

/// Rejects strings whose length in bytes is exactly `n`.
pub fn assure_string_not_length(n: usize) -> (f: impl Fn(&FigValue) -> FigtreeResult<()>)
    ensures
        forall|v: &FigValue| f.requires((v,)),
        forall|v: &FigValue, r: FigtreeResult<()>| f.ensures((v,), r) ==> string_not_length_verdict(n, v@, r),
{
    move |value: &FigValue| -> (r: FigtreeResult<()>)
        ensures
            string_not_length_verdict(n, value@, r),
    {
        check_string_not_length(n, value)
    }
}

/// Rejects strings whose length in bytes is not greater than `n`.
pub fn assure_string_length_greater_than(n: usize) -> (f: impl Fn(&FigValue) -> FigtreeResult<()>)
    ensures
        forall|v: &FigValue| f.requires((v,)),
        forall|v: &FigValue, r: FigtreeResult<()>| f.ensures((v,), r) ==> string_length_greater_than_verdict(n, v@, r),
{
    move |value: &FigValue| -> (r: FigtreeResult<()>)
        ensures
            string_length_greater_than_verdict(n, value@, r),
    {
        check_string_length_greater_than(n, value)
    }
}

pub open spec fn string_contains_verdict(p: Seq<char>, v: ValueView, r: FigtreeResult<()>) -> bool {
    match v {
        ValueView::Str(s) => verdict(r, is_infix(p, s), "string must contain '"@ + p + "'"@),
        v => verdict(r, false, wrong_type_msg("String"@, v)),
    }
}

/// The verdict of `assure_string_contains` on a value.
pub fn check_string_contains(sub: &String, value: &FigValue) -> (r: FigtreeResult<()>)
    ensures
        string_contains_verdict(sub@, value@, r),
{
    match value {
        FigValue::String(s) => if has_infix(s.as_str(), sub.as_str()) { Ok(()) } else {
            reject(text_quoted("string must contain '", sub.as_str(), "'"))
        },
        _ => reject_wrong_type("String", value),
    }
}

/// Rejects strings that do not contain `sub`.
pub fn assure_string_contains(sub: &str) -> (f: impl Fn(&FigValue) -> FigtreeResult<()>)
    ensures
        forall|v: &FigValue| f.requires((v,)),
        forall|v: &FigValue, r: FigtreeResult<()>| f.ensures((v,), r) ==> string_contains_verdict(sub@, v@, r),
{
    let sub = sub.to_string();
    move |value: &FigValue| -> (r: FigtreeResult<()>)
        ensures
            string_contains_verdict(sub@, value@, r),
    {
        check_string_contains(&sub, value)
    }
}

pub open spec fn string_not_contains_verdict(p: Seq<char>, v: ValueView, r: FigtreeResult<()>) -> bool {
    match v {
        ValueView::Str(s) => verdict(r, !is_infix(p, s), "string must not contain '"@ + p + "'"@),
        v => verdict(r, false, wrong_type_msg("String"@, v)),
    }
}

/// The verdict of `assure_string_not_contains` on a value.
pub fn check_string_not_contains(sub: &String, value: &FigValue) -> (r: FigtreeResult<()>)
    ensures
        string_not_contains_verdict(sub@, value@, r),
{
    match value {
        FigValue::String(s) => if !has_infix(s.as_str(), sub.as_str()) { Ok(()) } else {
            reject(text_quoted("string must not contain '", sub.as_str(), "'"))
        },
        _ => reject_wrong_type("String", value),
    }
}

/// Rejects strings that contain `sub`.
pub fn assure_string_not_contains(sub: &str) -> (f: impl Fn(&FigValue) -> FigtreeResult<()>)
    ensures
        forall|v: &FigValue| f.requires((v,)),
        forall|v: &FigValue, r: FigtreeResult<()>| f.ensures((v,), r) ==> string_not_contains_verdict(sub@, v@, r),
{
    let sub = sub.to_string();
    move |value: &FigValue| -> (r: FigtreeResult<()>)
        ensures
            string_not_contains_verdict(sub@, value@, r),
    {
        check_string_not_contains(&sub, value)
    }
}

pub open spec fn string_has_prefix_verdict(p: Seq<char>, v: ValueView, r: FigtreeResult<()>) -> bool {
    match v {
        ValueView::Str(s) => verdict(r, is_prefix(p, s), "string must have prefix '"@ + p + "'"@),
        v => verdict(r, false, wrong_type_msg("String"@, v)),
    }
}

/// The verdict of `assure_string_has_prefix` on a value.
pub fn check_string_has_prefix(prefix: &String, value: &FigValue) -> (r: FigtreeResult<()>)
    ensures
        string_has_prefix_verdict(prefix@, value@, r),
{
    match value {
        FigValue::String(s) => if has_prefix(s.as_str(), prefix.as_str()) { Ok(()) } else {
            reject(text_quoted("string must have prefix '", prefix.as_str(), "'"))
        },
        _ => reject_wrong_type("String", value),
    }
}

/// Rejects strings that do not start with `prefix`.
pub fn assure_string_has_prefix(prefix: &str) -> (f: impl Fn(&FigValue) -> FigtreeResult<()>)
    ensures
        forall|v: &FigValue| f.requires((v,)),
        forall|v: &FigValue, r: FigtreeResult<()>| f.ensures((v,), r) ==> string_has_prefix_verdict(prefix@, v@, r),
{
    let prefix = prefix.to_string();
    move |value: &FigValue| -> (r: FigtreeResult<()>)
        ensures
            string_has_prefix_verdict(prefix@, value@, r),
    {
        check_string_has_prefix(&prefix, value)
    }
}

pub open spec fn string_no_prefix_verdict(p: Seq<char>, v: ValueView, r: FigtreeResult<()>) -> bool {
    match v {
        ValueView::Str(s) => verdict(r, !is_prefix(p, s), "string must not have prefix '"@ + p + "'"@),
        v => verdict(r, false, wrong_type_msg("String"@, v)),
    }
}

/// The verdict of `assure_string_no_prefix` on a value.
pub fn check_string_no_prefix(prefix: &String, value: &FigValue) -> (r: FigtreeResult<()>)
    ensures
        string_no_prefix_verdict(prefix@, value@, r),
{
    match value {
        FigValue::String(s) => if !has_prefix(s.as_str(), prefix.as_str()) { Ok(()) } else {
            reject(text_quoted("string must not have prefix '", prefix.as_str(), "'"))
        },
        _ => reject_wrong_type("String", value),
    }
}

/// Rejects strings that start with `prefix`.
pub fn assure_string_no_prefix(prefix: &str) -> (f: impl Fn(&FigValue) -> FigtreeResult<()>)
    ensures
        forall|v: &FigValue| f.requires((v,)),
        forall|v: &FigValue, r: FigtreeResult<()>| f.ensures((v,), r) ==> string_no_prefix_verdict(prefix@, v@, r),
{
    let prefix = prefix.to_string();
    move |value: &FigValue| -> (r: FigtreeResult<()>)
        ensures
            string_no_prefix_verdict(prefix@, value@, r),
    {
        check_string_no_prefix(&prefix, value)
    }
}

pub open spec fn string_has_suffix_verdict(p: Seq<char>, v: ValueView, r: FigtreeResult<()>) -> bool {
    match v {
        ValueView::Str(s) => verdict(r, is_suffix(p, s), "string must have suffix '"@ + p + "'"@),
        v => verdict(r, false, wrong_type_msg("String"@, v)),
    }
}

/// The verdict of `assure_string_has_suffix` on a value.
pub fn check_string_has_suffix(suffix: &String, value: &FigValue) -> (r: FigtreeResult<()>)
    ensures
        string_has_suffix_verdict(suffix@, value@, r),
{
    match value {
        FigValue::String(s) => if has_suffix(s.as_str(), suffix.as_str()) { Ok(()) } else {
            reject(text_quoted("string must have suffix '", suffix.as_str(), "'"))
        },
        _ => reject_wrong_type("String", value),
    }
}

/// Rejects strings that do not end with `suffix`.
pub fn assure_string_has_suffix(suffix: &str) -> (f: impl Fn(&FigValue) -> FigtreeResult<()>)
    ensures
        forall|v: &FigValue| f.requires((v,)),
        forall|v: &FigValue, r: FigtreeResult<()>| f.ensures((v,), r) ==> string_has_suffix_verdict(suffix@, v@, r),
{
    let suffix = suffix.to_string();
    move |value: &FigValue| -> (r: FigtreeResult<()>)
        ensures
            string_has_suffix_verdict(suffix@, value@, r),
    {
        check_string_has_suffix(&suffix, value)
    }
}

pub open spec fn string_no_suffix_verdict(p: Seq<char>, v: ValueView, r: FigtreeResult<()>) -> bool {
    match v {
        ValueView::Str(s) => verdict(r, !is_suffix(p, s), "string must not have suffix '"@ + p + "'"@),
        v => verdict(r, false, wrong_type_msg("String"@, v)),
    }
}

/// The verdict of `assure_string_no_suffix` on a value.
pub fn check_string_no_suffix(suffix: &String, value: &FigValue) -> (r: FigtreeResult<()>)
    ensures
        string_no_suffix_verdict(suffix@, value@, r),
{
    match value {
        FigValue::String(s) => if !has_suffix(s.as_str(), suffix.as_str()) { Ok(()) } else {
            reject(text_quoted("string must not have suffix '", suffix.as_str(), "'"))
        },
        _ => reject_wrong_type("String", value),
    }
}

/// Rejects strings that end with `suffix`.
pub fn assure_string_no_suffix(suffix: &str) -> (f: impl Fn(&FigValue) -> FigtreeResult<()>)
    ensures
        forall|v: &FigValue| f.requires((v,)),
        forall|v: &FigValue, r: FigtreeResult<()>| f.ensures((v,), r) ==> string_no_suffix_verdict(suffix@, v@, r),
{
    let suffix = suffix.to_string();
    move |value: &FigValue| -> (r: FigtreeResult<()>)
        ensures
            string_no_suffix_verdict(suffix@, value@, r),
    {
        check_string_no_suffix(&suffix, value)
    }
}

/// The index of the first pattern in `ps` that `is_prefix` finds in `s`
/// (`ps.len()` when there is none).
pub open spec fn first_is_prefix_hit(ps: Seq<Seq<char>>, s: Seq<char>) -> nat
    decreases ps.len(),
{
    if ps.len() == 0 {
        0
    } else if is_prefix(ps[0], s) {
        0
    } else {
        1 + first_is_prefix_hit(ps.drop_first(), s)
    }
}

pub open spec fn string_no_prefixes_verdict(ps: Seq<Seq<char>>, v: ValueView, r: FigtreeResult<()>) -> bool {
    match v {
        ValueView::Str(s) => {
            let i = first_is_prefix_hit(ps, s);
            verdict(r, i == ps.len(), "string must not have prefix '"@ + ps[i as int] + "'"@)
        },
        v => verdict(r, false, wrong_type_msg("String"@, v)),
    }
}

/// The verdict of `assure_string_no_prefixes` on a value.
pub fn check_string_no_prefixes(ps: &Vec<String>, value: &FigValue) -> (r: FigtreeResult<()>)
    ensures
        string_no_prefixes_verdict(seq_view(ps@), value@, r),
{
    match value {
        FigValue::String(s) => {
            let ghost pv = seq_view(ps@);
            let mut i: usize = 0;
            assert(pv.skip(0) =~= pv);
            while i < ps.len()
                invariant
                    pv == seq_view(ps@),
                    value@ == ValueView::Str(s@),
                    i <= ps@.len(),
                    first_is_prefix_hit(pv, s@) == i + first_is_prefix_hit(pv.skip(i as int), s@),
                decreases ps@.len() - i,
            {
                assert(pv.skip(i as int)[0] == ps@[i as int]@);
                if has_prefix(s.as_str(), ps[i].as_str()) {
                    assert(first_is_prefix_hit(pv.skip(i as int), s@) == 0);
                    assert(pv[i as int] == ps@[i as int]@);
                    assert(pv.len() == ps@.len());
                    assert(first_is_prefix_hit(pv, s@) == i);
                    return reject(text_quoted("string must not have prefix '", ps[i].as_str(), "'"));
                }
                assert(pv.skip(i as int).drop_first() =~= pv.skip(i + 1));
                i += 1;
            }
            Ok(())
        },
        _ => reject_wrong_type("String", value),
    }
}

/// Rejects strings that start with any of the given prefixes.
pub fn assure_string_no_prefixes(ps: Vec<String>) -> (f: impl Fn(&FigValue) -> FigtreeResult<()>)
    ensures
        forall|v: &FigValue| f.requires((v,)),
        forall|v: &FigValue, r: FigtreeResult<()>| f.ensures((v,), r) ==> string_no_prefixes_verdict(seq_view(ps@), v@, r),
{
    move |value: &FigValue| -> (r: FigtreeResult<()>)
        ensures
            string_no_prefixes_verdict(seq_view(ps@), value@, r),
    {
        check_string_no_prefixes(&ps, value)
    }
}

/// The index of the first pattern in `ps` that `is_suffix` finds in `s`
/// (`ps.len()` when there is none).
pub open spec fn first_is_suffix_hit(ps: Seq<Seq<char>>, s: Seq<char>) -> nat
    decreases ps.len(),
{
    if ps.len() == 0 {
        0
    } else if is_suffix(ps[0], s) {
        0
    } else {
        1 + first_is_suffix_hit(ps.drop_first(), s)
    }
}

pub open spec fn string_no_suffixes_verdict(ps: Seq<Seq<char>>, v: ValueView, r: FigtreeResult<()>) -> bool {
    match v {
        ValueView::Str(s) => {
            let i = first_is_suffix_hit(ps, s);
            verdict(r, i == ps.len(), "string must not have suffix '"@ + ps[i as int] + "'"@)
        },
        v => verdict(r, false, wrong_type_msg("String"@, v)),
    }
}

/// The verdict of `assure_string_no_suffixes` on a value.
pub fn check_string_no_suffixes(ps: &Vec<String>, value: &FigValue) -> (r: FigtreeResult<()>)
    ensures
        string_no_suffixes_verdict(seq_view(ps@), value@, r),
{
    match value {
        FigValue::String(s) => {
            let ghost pv = seq_view(ps@);
            let mut i: usize = 0;
            assert(pv.skip(0) =~= pv);
            while i < ps.len()
                invariant
                    pv == seq_view(ps@),
                    value@ == ValueView::Str(s@),
                    i <= ps@.len(),
                    first_is_suffix_hit(pv, s@) == i + first_is_suffix_hit(pv.skip(i as int), s@),
                decreases ps@.len() - i,
            {
                assert(pv.skip(i as int)[0] == ps@[i as int]@);
                if has_suffix(s.as_str(), ps[i].as_str()) {
                    assert(first_is_suffix_hit(pv.skip(i as int), s@) == 0);
                    assert(pv[i as int] == ps@[i as int]@);
                    assert(pv.len() == ps@.len());
                    assert(first_is_suffix_hit(pv, s@) == i);
                    return reject(text_quoted("string must not have suffix '", ps[i].as_str(), "'"));
                }
                assert(pv.skip(i as int).drop_first() =~= pv.skip(i + 1));
                i += 1;
            }
            Ok(())
        },
        _ => reject_wrong_type("String", value),
    }
}

/// Rejects strings that end with any of the given suffixes.
pub fn assure_string_no_suffixes(ps: Vec<String>) -> (f: impl Fn(&FigValue) -> FigtreeResult<()>)
    ensures
        forall|v: &FigValue| f.requires((v,)),
        forall|v: &FigValue, r: FigtreeResult<()>| f.ensures((v,), r) ==> string_no_suffixes_verdict(seq_view(ps@), v@, r),
{
    move |value: &FigValue| -> (r: FigtreeResult<()>)
        ensures
            string_no_suffixes_verdict(seq_view(ps@), value@, r),
    {
        check_string_no_suffixes(&ps, value)
    }
}

// ── Bool validators ───────────────────────────────────────────────────────────

/// Rejects false values.
pub fn assure_bool_true(value: &FigValue) -> (r: FigtreeResult<()>)
    ensures
        match value@ {
            ValueView::Bool(b) => verdict(r, b, "bool must be true"@),
            v => verdict(r, false, wrong_type_msg("Bool"@, v)),
        },
{
    match value {
        FigValue::Bool(true) => Ok(()),
        FigValue::Bool(false) => reject(owned("bool must be true")),
        _ => reject_wrong_type("Bool", value),
    }
}

/// Rejects true values.
pub fn assure_bool_false(value: &FigValue) -> (r: FigtreeResult<()>)
    ensures
        match value@ {
            ValueView::Bool(b) => verdict(r, !b, "bool must be false"@),
            v => verdict(r, false, wrong_type_msg("Bool"@, v)),
        },
{
    match value {
        FigValue::Bool(false) => Ok(()),
        FigValue::Bool(true) => reject(owned("bool must be false")),
        _ => reject_wrong_type("Bool", value),
    }
}

// ── Int validators ──────────────────────────────────────────────────────

/// Rejects Int values that are not positive (greater than zero).
pub fn assure_int_positive(value: &FigValue) -> (r: FigtreeResult<()>)
    ensures
        match value@ {
            ValueView::Int(n) => verdict(r, n > 0, "int must be positive, got "@ + decimal(n as int)),
            v => verdict(r, false, wrong_type_msg("Int"@, v)),
        },
{
    match value {
        FigValue::Int(n) => if *n > 0 { Ok(()) } else { reject(text_num("int must be positive, got ", *n as i128)) },
        _ => reject_wrong_type("Int", value),
    }
}

/// Rejects Int values that are not negative (less than zero).
pub fn assure_int_negative(value: &FigValue) -> (r: FigtreeResult<()>)
    ensures
        match value@ {
            ValueView::Int(n) => verdict(r, n < 0, "int must be negative, got "@ + decimal(n as int)),
            v => verdict(r, false, wrong_type_msg("Int"@, v)),
        },
{
    match value {
        FigValue::Int(n) => if *n < 0 { Ok(()) } else { reject(text_num("int must be negative, got ", *n as i128)) },
        _ => reject_wrong_type("Int", value),
    }
}

pub open spec fn int_greater_than_verdict(n: i32, v: ValueView, r: FigtreeResult<()>) -> bool {
    match v {
        ValueView::Int(x) => verdict(r, x > n,
            "int must be greater than "@ + decimal(n as int) + ", got "@ + decimal(x as int)),
        v => verdict(r, false, wrong_type_msg("Int"@, v)),
    }
}

/// The verdict of `assure_int_greater_than` on a value.
pub fn check_int_greater_than(n: i32, value: &FigValue) -> (r: FigtreeResult<()>)
    ensures
        int_greater_than_verdict(n, value@, r),
{
    match value {
        FigValue::Int(x) => if *x > n { Ok(()) } else {
            reject(text_num2("int must be greater than ", n as i128, ", got ", *x as i128))
        },
        _ => reject_wrong_type("Int", value),
    }
}

/// Rejects Int values not greater than `n` (exclusive).
pub fn assure_int_greater_than(n: i32) -> (f: impl Fn(&FigValue) -> FigtreeResult<()>)
    ensures
        forall|v: &FigValue| f.requires((v,)),
        forall|v: &FigValue, r: FigtreeResult<()>| f.ensures((v,), r) ==> int_greater_than_verdict(n, v@, r),
{
    move |value: &FigValue| -> (r: FigtreeResult<()>)
        ensures
            int_greater_than_verdict(n, value@, r),
    {
        check_int_greater_than(n, value)
    }
}

pub open spec fn int_less_than_verdict(n: i32, v: ValueView, r: FigtreeResult<()>) -> bool {
    match v {
        ValueView::Int(x) => verdict(r, x < n,
            "int must be less than "@ + decimal(n as int) + ", got "@ + decimal(x as int)),
        v => verdict(r, false, wrong_type_msg("Int"@, v)),
    }
}

/// The verdict of `assure_int_less_than` on a value.
pub fn check_int_less_than(n: i32, value: &FigValue) -> (r: FigtreeResult<()>)
    ensures
        int_less_than_verdict(n, value@, r),
{
    match value {
        FigValue::Int(x) => if *x < n { Ok(()) } else {
            reject(text_num2("int must be less than ", n as i128, ", got ", *x as i128))
        },
        _ => reject_wrong_type("Int", value),
    }
}

/// Rejects Int values not less than `n` (exclusive).
pub fn assure_int_less_than(n: i32) -> (f: impl Fn(&FigValue) -> FigtreeResult<()>)
    ensures
        forall|v: &FigValue| f.requires((v,)),
        forall|v: &FigValue, r: FigtreeResult<()>| f.ensures((v,), r) ==> int_less_than_verdict(n, v@, r),
{
    move |value: &FigValue| -> (r: FigtreeResult<()>)
        ensures
            int_less_than_verdict(n, value@, r),
    {
        check_int_less_than(n, value)
    }
}

pub open spec fn int_in_range_verdict(min: i32, max: i32, v: ValueView, r: FigtreeResult<()>) -> bool {
    match v {
        ValueView::Int(x) => verdict(r, min <= x && x <= max,
            "int must be in range ["@ + decimal(min as int) + ", "@ + decimal(max as int) + "], got "@ + decimal(x as int)),
        v => verdict(r, false, wrong_type_msg("Int"@, v)),
    }
}

/// The verdict of `assure_int_in_range` on a value.
pub fn check_int_in_range(min: i32, max: i32, value: &FigValue) -> (r: FigtreeResult<()>)
    ensures
        int_in_range_verdict(min, max, value@, r),
{
    match value {
        FigValue::Int(x) => if *x >= min && *x <= max { Ok(()) } else {
            reject(text_num3("int must be in range [", min as i128, ", ", max as i128, "], got ", *x as i128))
        },
        _ => reject_wrong_type("Int", value),
    }
}

/// Rejects Int values outside the inclusive range [min, max].
pub fn assure_int_in_range(min: i32, max: i32) -> (f: impl Fn(&FigValue) -> FigtreeResult<()>)
    ensures
        forall|v: &FigValue| f.requires((v,)),
        forall|v: &FigValue, r: FigtreeResult<()>| f.ensures((v,), r) ==> int_in_range_verdict(min, max, v@, r),
{
    move |value: &FigValue| -> (r: FigtreeResult<()>)
        ensures
            int_in_range_verdict(min, max, value@, r),
    {
        check_int_in_range(min, max, value)
    }
}

// ── Int64 validators ──────────────────────────────────────────────────────

/// Rejects Int64 values that are not positive (greater than zero).
pub fn assure_int64_positive(value: &FigValue) -> (r: FigtreeResult<()>)
    ensures
        match value@ {
            ValueView::Int64(n) => verdict(r, n > 0, "int64 must be positive, got "@ + decimal(n as int)),
            v => verdict(r, false, wrong_type_msg("Int64"@, v)),
        },
{
    match value {
        FigValue::Int64(n) => if *n > 0 { Ok(()) } else { reject(text_num("int64 must be positive, got ", *n as i128)) },
        _ => reject_wrong_type("Int64", value),
    }
}

pub open spec fn int64_greater_than_verdict(n: i64, v: ValueView, r: FigtreeResult<()>) -> bool {
    match v {
        ValueView::Int64(x) => verdict(r, x > n,
            "int64 must be greater than "@ + decimal(n as int) + ", got "@ + decimal(x as int)),
        v => verdict(r, false, wrong_type_msg("Int64"@, v)),
    }
}

/// The verdict of `assure_int64_greater_than` on a value.
pub fn check_int64_greater_than(n: i64, value: &FigValue) -> (r: FigtreeResult<()>)
    ensures
        int64_greater_than_verdict(n, value@, r),
{
    match value {
        FigValue::Int64(x) => if *x > n { Ok(()) } else {
            reject(text_num2("int64 must be greater than ", n as i128, ", got ", *x as i128))
        },
        _ => reject_wrong_type("Int64", value),
    }
}

/// Rejects Int64 values not greater than `n` (exclusive).
pub fn assure_int64_greater_than(n: i64) -> (f: impl Fn(&FigValue) -> FigtreeResult<()>)
    ensures
        forall|v: &FigValue| f.requires((v,)),
        forall|v: &FigValue, r: FigtreeResult<()>| f.ensures((v,), r) ==> int64_greater_than_verdict(n, v@, r),
{
    move |value: &FigValue| -> (r: FigtreeResult<()>)
        ensures
            int64_greater_than_verdict(n, value@, r),
    {
        check_int64_greater_than(n, value)
    }
}

pub open spec fn int64_less_than_verdict(n: i64, v: ValueView, r: FigtreeResult<()>) -> bool {
    match v {
        ValueView::Int64(x) => verdict(r, x < n,
            "int64 must be less than "@ + decimal(n as int) + ", got "@ + decimal(x as int)),
        v => verdict(r, false, wrong_type_msg("Int64"@, v)),
    }
}

/// The verdict of `assure_int64_less_than` on a value.
pub fn check_int64_less_than(n: i64, value: &FigValue) -> (r: FigtreeResult<()>)
    ensures
        int64_less_than_verdict(n, value@, r),
{
    match value {
        FigValue::Int64(x) => if *x < n { Ok(()) } else {
            reject(text_num2("int64 must be less than ", n as i128, ", got ", *x as i128))
        },
        _ => reject_wrong_type("Int64", value),
    }
}

/// Rejects Int64 values not less than `n` (exclusive).
pub fn assure_int64_less_than(n: i64) -> (f: impl Fn(&FigValue) -> FigtreeResult<()>)
    ensures
        forall|v: &FigValue| f.requires((v,)),
        forall|v: &FigValue, r: FigtreeResult<()>| f.ensures((v,), r) ==> int64_less_than_verdict(n, v@, r),
{
    move |value: &FigValue| -> (r: FigtreeResult<()>)
        ensures
            int64_less_than_verdict(n, value@, r),
    {
        check_int64_less_than(n, value)
    }
}

pub open spec fn int64_in_range_verdict(min: i64, max: i64, v: ValueView, r: FigtreeResult<()>) -> bool {
    match v {
        ValueView::Int64(x) => verdict(r, min <= x && x <= max,
            "int64 must be in range ["@ + decimal(min as int) + ", "@ + decimal(max as int) + "], got "@ + decimal(x as int)),
        v => verdict(r, false, wrong_type_msg("Int64"@, v)),
    }
}

/// The verdict of `assure_int64_in_range` on a value.
pub fn check_int64_in_range(min: i64, max: i64, value: &FigValue) -> (r: FigtreeResult<()>)
    ensures
        int64_in_range_verdict(min, max, value@, r),
{
    match value {
        FigValue::Int64(x) => if *x >= min && *x <= max { Ok(()) } else {
            reject(text_num3("int64 must be in range [", min as i128, ", ", max as i128, "], got ", *x as i128))
        },
        _ => reject_wrong_type("Int64", value),
    }
}

/// Rejects Int64 values outside the inclusive range [min, max].
pub fn assure_int64_in_range(min: i64, max: i64) -> (f: impl Fn(&FigValue) -> FigtreeResult<()>)
    ensures
        forall|v: &FigValue| f.requires((v,)),
        forall|v: &FigValue, r: FigtreeResult<()>| f.ensures((v,), r) ==> int64_in_range_verdict(min, max, v@, r),
{
    move |value: &FigValue| -> (r: FigtreeResult<()>)
        ensures
            int64_in_range_verdict(min, max, value@, r),
    {
        check_int64_in_range(min, max, value)
    }
}

// ── Int128 validators ──────────────────────────────────────────────────────

/// Rejects Int128 values that are not positive (greater than zero).
pub fn assure_int128_positive(value: &FigValue) -> (r: FigtreeResult<()>)
    ensures
        match value@ {
            ValueView::Int128(n) => verdict(r, n > 0, "int128 must be positive, got "@ + decimal(n as int)),
            v => verdict(r, false, wrong_type_msg("Int128"@, v)),
        },
{
    match value {
        FigValue::Int128(n) => if *n > 0 { Ok(()) } else { reject(text_num("int128 must be positive, got ", *n as i128)) },
        _ => reject_wrong_type("Int128", value),
    }
}

pub open spec fn int128_greater_than_verdict(n: i128, v: ValueView, r: FigtreeResult<()>) -> bool {
    match v {
        ValueView::Int128(x) => verdict(r, x > n,
            "int128 must be greater than "@ + decimal(n as int) + ", got "@ + decimal(x as int)),
        v => verdict(r, false, wrong_type_msg("Int128"@, v)),
    }
}

/// The verdict of `assure_int128_greater_than` on a value.
pub fn check_int128_greater_than(n: i128, value: &FigValue) -> (r: FigtreeResult<()>)
    ensures
        int128_greater_than_verdict(n, value@, r),
{
    match value {
        FigValue::Int128(x) => if *x > n { Ok(()) } else {
            reject(text_num2("int128 must be greater than ", n as i128, ", got ", *x as i128))
        },
        _ => reject_wrong_type("Int128", value),
    }
}

/// Rejects Int128 values not greater than `n` (exclusive).
pub fn assure_int128_greater_than(n: i128) -> (f: impl Fn(&FigValue) -> FigtreeResult<()>)
    ensures
        forall|v: &FigValue| f.requires((v,)),
        forall|v: &FigValue, r: FigtreeResult<()>| f.ensures((v,), r) ==> int128_greater_than_verdict(n, v@, r),
{
    move |value: &FigValue| -> (r: FigtreeResult<()>)
        ensures
            int128_greater_than_verdict(n, value@, r),
    {
        check_int128_greater_than(n, value)
    }
}

pub open spec fn int128_less_than_verdict(n: i128, v: ValueView, r: FigtreeResult<()>) -> bool {
    match v {
        ValueView::Int128(x) => verdict(r, x < n,
            "int128 must be less than "@ + decimal(n as int) + ", got "@ + decimal(x as int)),
        v => verdict(r, false, wrong_type_msg("Int128"@, v)),
    }
}

/// The verdict of `assure_int128_less_than` on a value.
pub fn check_int128_less_than(n: i128, value: &FigValue) -> (r: FigtreeResult<()>)
    ensures
        int128_less_than_verdict(n, value@, r),
{
    match value {
        FigValue::Int128(x) => if *x < n { Ok(()) } else {
            reject(text_num2("int128 must be less than ", n as i128, ", got ", *x as i128))
        },
        _ => reject_wrong_type("Int128", value),
    }
}

/// Rejects Int128 values not less than `n` (exclusive).
pub fn assure_int128_less_than(n: i128) -> (f: impl Fn(&FigValue) -> FigtreeResult<()>)
    ensures
        forall|v: &FigValue| f.requires((v,)),
        forall|v: &FigValue, r: FigtreeResult<()>| f.ensures((v,), r) ==> int128_less_than_verdict(n, v@, r),
{
    move |value: &FigValue| -> (r: FigtreeResult<()>)
        ensures
            int128_less_than_verdict(n, value@, r),
    {
        check_int128_less_than(n, value)
    }
}

pub open spec fn int128_in_range_verdict(min: i128, max: i128, v: ValueView, r: FigtreeResult<()>) -> bool {
    match v {
        ValueView::Int128(x) => verdict(r, min <= x && x <= max,
            "int128 must be in range ["@ + decimal(min as int) + ", "@ + decimal(max as int) + "], got "@ + decimal(x as int)),
        v => verdict(r, false, wrong_type_msg("Int128"@, v)),
    }
}

/// The verdict of `assure_int128_in_range` on a value.
pub fn check_int128_in_range(min: i128, max: i128, value: &FigValue) -> (r: FigtreeResult<()>)
    ensures
        int128_in_range_verdict(min, max, value@, r),
{
    match value {
        FigValue::Int128(x) => if *x >= min && *x <= max { Ok(()) } else {
            reject(text_num3("int128 must be in range [", min as i128, ", ", max as i128, "], got ", *x as i128))
        },
        _ => reject_wrong_type("Int128", value),
    }
}

/// Rejects Int128 values outside the inclusive range [min, max].
pub fn assure_int128_in_range(min: i128, max: i128) -> (f: impl Fn(&FigValue) -> FigtreeResult<()>)
    ensures
        forall|v: &FigValue| f.requires((v,)),
        forall|v: &FigValue, r: FigtreeResult<()>| f.ensures((v,), r) ==> int128_in_range_verdict(min, max, v@, r),
{
    move |value: &FigValue| -> (r: FigtreeResult<()>)
        ensures
            int128_in_range_verdict(min, max, value@, r),
    {
        check_int128_in_range(min, max, value)
    }
}

// ── Duration validators ───────────────────────────────────────────────────────

/// Rejects Duration values of zero.
pub fn assure_duration_positive(value: &FigValue) -> (r: FigtreeResult<()>)
    ensures
        match value@ {
            ValueView::Duration(n) => verdict(r, n > 0, "duration must be positive"@),
            v => verdict(r, false, wrong_type_msg("Duration"@, v)),
        },
{
    match value {
        FigValue::Duration(d) => if Duration::zero().shorter_than(d) { Ok(()) } else { reject(owned("duration must be positive")) },
        _ => reject_wrong_type("Duration", value),
    }
}

/// Message text: `head`, the debug text of `a`, `mid`, that of `b`.
fn text_spans(head: &str, a: &Duration, mid: &str, b: &Duration) -> (r: String)
    ensures
        r@ == head@ + duration_debug_text(a.secs_part(), a.nanos_part()) + mid@
            + duration_debug_text(b.secs_part(), b.nanos_part()),
{
    let mut m = owned(head);
    let at = a.debug_text();
    push_str(&mut m, at.as_str());
    push_str(&mut m, mid);
    let bt = b.debug_text();
    push_str(&mut m, bt.as_str());
    m
}

pub open spec fn duration_greater_than_verdict(d: Duration, v: FigValue, r: FigtreeResult<()>) -> bool {
    match v {
        FigValue::Duration(x) => verdict(r, d.total_nanos() < x.total_nanos(),
            "duration must be greater than "@ + duration_debug_text(d.secs_part(), d.nanos_part()) + ", got "@
                + duration_debug_text(x.secs_part(), x.nanos_part())),
        _ => verdict(r, false, wrong_type_msg("Duration"@, v@)),
    }
}

/// The verdict of `assure_duration_greater_than` on a value.
pub fn check_duration_greater_than(d: Duration, value: &FigValue) -> (r: FigtreeResult<()>)
    ensures
        duration_greater_than_verdict(d, *value, r),
{
    match value {
        FigValue::Duration(x) => if d.shorter_than(x) { Ok(()) } else {
            reject(text_spans("duration must be greater than ", &d, ", got ", x))
        },
        _ => reject_wrong_type("Duration", value),
    }
}

/// Rejects Duration values not greater than `d` (exclusive).
pub fn assure_duration_greater_than(d: Duration) -> (f: impl Fn(&FigValue) -> FigtreeResult<()>)
    ensures
        forall|v: &FigValue| f.requires((v,)),
        forall|v: &FigValue, r: FigtreeResult<()>| f.ensures((v,), r) ==> duration_greater_than_verdict(d, *v, r),
{
    move |value: &FigValue| -> (r: FigtreeResult<()>)
        ensures
            duration_greater_than_verdict(d, *value, r),
    {
        check_duration_greater_than(d, value)
    }
}

pub open spec fn duration_less_than_verdict(d: Duration, v: FigValue, r: FigtreeResult<()>) -> bool {
    match v {
        FigValue::Duration(x) => verdict(r, x.total_nanos() < d.total_nanos(),
            "duration must be less than "@ + duration_debug_text(d.secs_part(), d.nanos_part()) + ", got "@
                + duration_debug_text(x.secs_part(), x.nanos_part())),
        _ => verdict(r, false, wrong_type_msg("Duration"@, v@)),
    }
}

/// The verdict of `assure_duration_less_than` on a value.
pub fn check_duration_less_than(d: Duration, value: &FigValue) -> (r: FigtreeResult<()>)
    ensures
        duration_less_than_verdict(d, *value, r),
{
    match value {
        FigValue::Duration(x) => if x.shorter_than(&d) { Ok(()) } else {
            reject(text_spans("duration must be less than ", &d, ", got ", x))
        },
        _ => reject_wrong_type("Duration", value),
    }
}

/// Rejects Duration values not less than `d` (exclusive).
pub fn assure_duration_less_than(d: Duration) -> (f: impl Fn(&FigValue) -> FigtreeResult<()>)
    ensures
        forall|v: &FigValue| f.requires((v,)),
        forall|v: &FigValue, r: FigtreeResult<()>| f.ensures((v,), r) ==> duration_less_than_verdict(d, *v, r),
{
    move |value: &FigValue| -> (r: FigtreeResult<()>)
        ensures
            duration_less_than_verdict(d, *value, r),
    {
        check_duration_less_than(d, value)
    }
}

pub open spec fn duration_min_verdict(min: Duration, v: FigValue, r: FigtreeResult<()>) -> bool {
    match v {
        FigValue::Duration(x) => verdict(r, x.total_nanos() >= min.total_nanos(),
            "duration must be at least "@ + duration_debug_text(min.secs_part(), min.nanos_part()) + ", got "@
                + duration_debug_text(x.secs_part(), x.nanos_part())),
        _ => verdict(r, false, wrong_type_msg("Duration"@, v@)),
    }
}

/// The verdict of `assure_duration_min` on a value.
pub fn check_duration_min(min: Duration, value: &FigValue) -> (r: FigtreeResult<()>)
    ensures
        duration_min_verdict(min, *value, r),
{
    match value {
        FigValue::Duration(x) => if !x.shorter_than(&min) { Ok(()) } else {
            reject(text_spans("duration must be at least ", &min, ", got ", x))
        },
        _ => reject_wrong_type("Duration", value),
    }
}

/// Rejects Duration values less than `min` (inclusive lower bound).
pub fn assure_duration_min(min: Duration) -> (f: impl Fn(&FigValue) -> FigtreeResult<()>)
    ensures
        forall|v: &FigValue| f.requires((v,)),
        forall|v: &FigValue, r: FigtreeResult<()>| f.ensures((v,), r) ==> duration_min_verdict(min, *v, r),
{
    move |value: &FigValue| -> (r: FigtreeResult<()>)
        ensures
            duration_min_verdict(min, *value, r),
    {
        check_duration_min(min, value)
    }
}

pub open spec fn duration_max_verdict(max: Duration, v: FigValue, r: FigtreeResult<()>) -> bool {
    match v {
        FigValue::Duration(x) => verdict(r, x.total_nanos() <= max.total_nanos(),
            "duration must not exceed "@ + duration_debug_text(max.secs_part(), max.nanos_part()) + ", got "@
                + duration_debug_text(x.secs_part(), x.nanos_part())),
        _ => verdict(r, false, wrong_type_msg("Duration"@, v@)),
    }
}

/// The verdict of `assure_duration_max` on a value.
pub fn check_duration_max(max: Duration, value: &FigValue) -> (r: FigtreeResult<()>)
    ensures
        duration_max_verdict(max, *value, r),
{
    match value {
        FigValue::Duration(x) => if !max.shorter_than(x) { Ok(()) } else {
            reject(text_spans("duration must not exceed ", &max, ", got ", x))
        },
        _ => reject_wrong_type("Duration", value),
    }
}

/// Rejects Duration values greater than `max` (inclusive upper bound).
pub fn assure_duration_max(max: Duration) -> (f: impl Fn(&FigValue) -> FigtreeResult<()>)
    ensures
        forall|v: &FigValue| f.requires((v,)),
        forall|v: &FigValue, r: FigtreeResult<()>| f.ensures((v,), r) ==> duration_max_verdict(max, *v, r),
{
    move |value: &FigValue| -> (r: FigtreeResult<()>)
        ensures
            duration_max_verdict(max, *value, r),
    {
        check_duration_max(max, value)
    }
}

// ── List validators ───────────────────────────────────────────────────────────

/// The length of a list value, or `None` for other types.
pub open spec fn list_len(v: ValueView) -> Option<usize> {
    match v {
        ValueView::ListString(s) => Some(s.len() as usize),
        ValueView::ListInt(s) => Some(s.len() as usize),
        ValueView::ListInt64(s) => Some(s.len() as usize),
        ValueView::ListInt128(s) => Some(s.len() as usize),
        ValueView::ListFloat64(s) => Some(s.len() as usize),
        ValueView::ListFloat128(s) => Some(s.len() as usize),
        ValueView::ListBool(s) => Some(s.len() as usize),
        _ => None,
    }
}

fn list_length(value: &FigValue) -> (r: Option<usize>)
    ensures
        match list_len(value@) {
            Some(n) => r == Some(n),
            None => r is None,
        },
{
    match value {
        FigValue::ListString(v) => Some(v.len()),
        FigValue::ListInt(v) => Some(v.len()),
        FigValue::ListInt64(v) => Some(v.len()),
        FigValue::ListInt128(v) => Some(v.len()),
        FigValue::ListFloat64(v) => Some(v.len()),
        FigValue::ListFloat128(v) => Some(v.len()),
        FigValue::ListBool(v) => Some(v.len()),
        _ => None,
    }
}

/// Rejects any List variant that is empty.
pub fn assure_list_not_empty(value: &FigValue) -> (r: FigtreeResult<()>)
    ensures
        match list_len(value@) {
            Some(n) => verdict(r, n > 0, "list must not be empty"@),
            None => verdict(r, false, wrong_type_msg("a List variant"@, value@)),
        },
{
    match list_length(value) {
        Some(n) => if n == 0 { reject(owned("list must not be empty")) } else { Ok(()) },
        None => reject_wrong_type("a List variant", value),
    }
}

pub open spec fn list_min_length_verdict(min: usize, v: ValueView, r: FigtreeResult<()>) -> bool {
    match list_len(v) {
        Some(len) => verdict(r, len >= min, "list must have at least "@ + decimal(min as int) + " elements, got "@ + decimal(len as int)),
        None => verdict(r, false, wrong_type_msg("a List variant"@, v)),
    }
}

/// The verdict of `assure_list_min_length` on a value.
pub fn check_list_min_length(min: usize, value: &FigValue) -> (r: FigtreeResult<()>)
    ensures
        list_min_length_verdict(min, value@, r),
{
    match list_length(value) {
        Some(len) => if len >= min { Ok(()) } else { reject(text_num2("list must have at least ", min as i128, " elements, got ", len as i128)) },
        None => reject_wrong_type("a List variant", value),
    }
}

/// Rejects any List variant with fewer than `min` elements.
pub fn assure_list_min_length(min: usize) -> (f: impl Fn(&FigValue) -> FigtreeResult<()>)
    ensures
        forall|v: &FigValue| f.requires((v,)),
        forall|v: &FigValue, r: FigtreeResult<()>| f.ensures((v,), r) ==> list_min_length_verdict(min, v@, r),
{
    move |value: &FigValue| -> (r: FigtreeResult<()>)
        ensures
            list_min_length_verdict(min, value@, r),
    {
        check_list_min_length(min, value)
    }
}

pub open spec fn list_length_verdict(n: usize, v: ValueView, r: FigtreeResult<()>) -> bool {
    match list_len(v) {
        Some(len) => verdict(r, len == n, "list must have exactly "@ + decimal(n as int) + " elements, got "@ + decimal(len as int)),
        None => verdict(r, false, wrong_type_msg("a List variant"@, v)),
    }
}

/// The verdict of `assure_list_length` on a value.
pub fn check_list_length(n: usize, value: &FigValue) -> (r: FigtreeResult<()>)
    ensures
        list_length_verdict(n, value@, r),
{
    match list_length(value) {
        Some(len) => if len == n { Ok(()) } else { reject(text_num2("list must have exactly ", n as i128, " elements, got ", len as i128)) },
        None => reject_wrong_type("a List variant", value),
    }
}

/// Rejects any List variant whose length is not exactly `n`.
pub fn assure_list_length(n: usize) -> (f: impl Fn(&FigValue) -> FigtreeResult<()>)
    ensures
        forall|v: &FigValue| f.requires((v,)),
        forall|v: &FigValue, r: FigtreeResult<()>| f.ensures((v,), r) ==> list_length_verdict(n, v@, r),
{
    move |value: &FigValue| -> (r: FigtreeResult<()>)
        ensures
            list_length_verdict(n, value@, r),
    {
        check_list_length(n, value)
    }
}

pub open spec fn list_not_length_verdict(n: usize, v: ValueView, r: FigtreeResult<()>) -> bool {
    match list_len(v) {
        Some(len) => verdict(r, len != n, "list must not have exactly "@ + decimal(n as int) + " elements"@),
        None => verdict(r, false, wrong_type_msg("a List variant"@, v)),
    }
}

/// The verdict of `assure_list_not_length` on a value.
pub fn check_list_not_length(n: usize, value: &FigValue) -> (r: FigtreeResult<()>)
    ensures
        list_not_length_verdict(n, value@, r),
{
    match list_length(value) {
        Some(len) => if len != n { Ok(()) } else { reject(text_quoted_num("list must not have exactly ", n, " elements")) },
        None => reject_wrong_type("a List variant", value),
    }
}

/// Rejects any List variant whose length is exactly `n`.
pub fn assure_list_not_length(n: usize) -> (f: impl Fn(&FigValue) -> FigtreeResult<()>)
    ensures
        forall|v: &FigValue| f.requires((v,)),
        forall|v: &FigValue, r: FigtreeResult<()>| f.ensures((v,), r) ==> list_not_length_verdict(n, v@, r),
{
    move |value: &FigValue| -> (r: FigtreeResult<()>)
        ensures
            list_not_length_verdict(n, value@, r),
    {
        check_list_not_length(n, value)
    }
}

/// Message text: `head`, the decimal `n`, `tail`.
fn text_quoted_num(head: &str, n: usize, tail: &str) -> (r: String)
    ensures
        r@ == head@ + decimal(n as int) + tail@,
{
    let mut m = owned(head);
    push_unsigned(&mut m, n as u128);
    push_str(&mut m, tail);
    m
}

fn list_has(v: &Vec<String>, item: &String) -> (r: bool)
    ensures
        r == seq_view(v@).contains(item@),
{
    let mut i: usize = 0;
    while i < v.len()
        invariant
            i <= v@.len(),
            forall|j: int| 0 <= j < i ==> v@[j]@ != item@,
        decreases v@.len() - i,
    {
        if crate::text::same_text(v[i].as_str(), item.as_str()) {
            assert(seq_view(v@)[i as int] == item@);
            return true;
        }
        i += 1;
    }
    assert(!seq_view(v@).contains(item@)) by {
        if seq_view(v@).contains(item@) {
            let j = choose|j: int| 0 <= j < seq_view(v@).len() && seq_view(v@)[j] == item@;
            assert(v@[j]@ == item@);
        }
    }
    false
}

pub open spec fn list_contains_verdict(item: Seq<char>, v: ValueView, r: FigtreeResult<()>) -> bool {
    match v {
        ValueView::ListString(s) => verdict(r, s.contains(item), "list must contain '"@ + item + "'"@),
        v => verdict(r, false, wrong_type_msg("ListString"@, v)),
    }
}

/// The verdict of `assure_list_contains` on a value.
pub fn check_list_contains(item: &String, value: &FigValue) -> (r: FigtreeResult<()>)
    ensures
        list_contains_verdict(item@, value@, r),
{
    match value {
        FigValue::ListString(v) => if list_has(v, item) { Ok(()) } else {
            reject(text_quoted("list must contain '", item.as_str(), "'"))
        },
        _ => reject_wrong_type("ListString", value),
    }
}

/// Rejects ListString values that do not contain `item`.
pub fn assure_list_contains(item: &str) -> (f: impl Fn(&FigValue) -> FigtreeResult<()>)
    ensures
        forall|v: &FigValue| f.requires((v,)),
        forall|v: &FigValue, r: FigtreeResult<()>| f.ensures((v,), r) ==> list_contains_verdict(item@, v@, r),
{
    let item = item.to_string();
    move |value: &FigValue| -> (r: FigtreeResult<()>)
        ensures
            list_contains_verdict(item@, value@, r),
    {
        check_list_contains(&item, value)
    }
}

pub open spec fn list_not_contains_verdict(item: Seq<char>, v: ValueView, r: FigtreeResult<()>) -> bool {
    match v {
        ValueView::ListString(s) => verdict(r, !s.contains(item), "list must not contain '"@ + item + "'"@),
        v => verdict(r, false, wrong_type_msg("ListString"@, v)),
    }
}

/// The verdict of `assure_list_not_contains` on a value.
pub fn check_list_not_contains(item: &String, value: &FigValue) -> (r: FigtreeResult<()>)
    ensures
        list_not_contains_verdict(item@, value@, r),
{
    match value {
        FigValue::ListString(v) => if !list_has(v, item) { Ok(()) } else {
            reject(text_quoted("list must not contain '", item.as_str(), "'"))
        },
        _ => reject_wrong_type("ListString", value),
    }
}

/// Rejects ListString values that contain `item`.
pub fn assure_list_not_contains(item: &str) -> (f: impl Fn(&FigValue) -> FigtreeResult<()>)
    ensures
        forall|v: &FigValue| f.requires((v,)),
        forall|v: &FigValue, r: FigtreeResult<()>| f.ensures((v,), r) ==> list_not_contains_verdict(item@, v@, r),
{
    let item = item.to_string();
    move |value: &FigValue| -> (r: FigtreeResult<()>)
        ensures
            list_not_contains_verdict(item@, value@, r),
    {
        check_list_not_contains(&item, value)
    }
}

// ── Map validators ────────────────────────────────────────────────────────────

/// The number of keys of a map value, or `None` for other types.
pub open spec fn map_len(v: ValueView) -> Option<usize> {
    match v {
        ValueView::MapString(m) => Some(m.len() as usize),
        ValueView::MapInt(m) => Some(m.len() as usize),
        ValueView::MapInt64(m) => Some(m.len() as usize),
        ValueView::MapInt128(m) => Some(m.len() as usize),
        ValueView::MapFloat64(m) => Some(m.len() as usize),
        ValueView::MapFloat128(m) => Some(m.len() as usize),
        ValueView::MapBool(m) => Some(m.len() as usize),
        _ => None,
    }
}

fn map_length(value: &FigValue) -> (r: Option<usize>)
    ensures
        match map_len(value@) {
            Some(n) => r == Some(n),
            None => r is None,
        },
{
    match value {
        FigValue::MapString(m) => Some(m.len()),
        FigValue::MapInt(m) => Some(m.len()),
        FigValue::MapInt64(m) => Some(m.len()),
        FigValue::MapInt128(m) => Some(m.len()),
        FigValue::MapFloat64(m) => Some(m.len()),
        FigValue::MapFloat128(m) => Some(m.len()),
        FigValue::MapBool(m) => Some(m.len()),
        _ => None,
    }
}

/// Rejects any Map variant that is empty.
pub fn assure_map_not_empty(value: &FigValue) -> (r: FigtreeResult<()>)
    ensures
        match map_len(value@) {
            Some(n) => verdict(r, n > 0, "map must not be empty"@),
            None => verdict(r, false, wrong_type_msg("a Map variant"@, value@)),
        },
{
    match map_length(value) {
        Some(n) => if n == 0 { reject(owned("map must not be empty")) } else { Ok(()) },
        None => reject_wrong_type("a Map variant", value),
    }
}

pub open spec fn map_length_verdict(n: usize, v: ValueView, r: FigtreeResult<()>) -> bool {
    match map_len(v) {
        Some(len) => verdict(r, len == n,
            "map must have exactly "@ + decimal(n as int) + " entries, got "@ + decimal(len as int)),
        None => verdict(r, false, wrong_type_msg("a Map variant"@, v)),
    }
}

/// The verdict of `assure_map_length` on a value.
pub fn check_map_length(n: usize, value: &FigValue) -> (r: FigtreeResult<()>)
    ensures
        map_length_verdict(n, value@, r),
{
    match map_length(value) {
        Some(len) => if len == n { Ok(()) } else {
            reject(text_num2("map must have exactly ", n as i128, " entries, got ", len as i128))
        },
        None => reject_wrong_type("a Map variant", value),
    }
}

/// Rejects any Map variant whose length is not exactly `n`.
pub fn assure_map_length(n: usize) -> (f: impl Fn(&FigValue) -> FigtreeResult<()>)
    ensures
        forall|v: &FigValue| f.requires((v,)),
        forall|v: &FigValue, r: FigtreeResult<()>| f.ensures((v,), r) ==> map_length_verdict(n, v@, r),
{
    move |value: &FigValue| -> (r: FigtreeResult<()>)
        ensures
            map_length_verdict(n, value@, r),
    {
        check_map_length(n, value)
    }
}

pub open spec fn map_not_length_verdict(n: usize, v: ValueView, r: FigtreeResult<()>) -> bool {
    match map_len(v) {
        Some(len) => verdict(r, len != n, "map must not have exactly "@ + decimal(n as int) + " entries"@),
        None => verdict(r, false, wrong_type_msg("a Map variant"@, v)),
    }
}

/// The verdict of `assure_map_not_length` on a value.
pub fn check_map_not_length(n: usize, value: &FigValue) -> (r: FigtreeResult<()>)
    ensures
        map_not_length_verdict(n, value@, r),
{
    match map_length(value) {
        Some(len) => if len != n { Ok(()) } else {
            reject(text_quoted_num("map must not have exactly ", n, " entries"))
        },
        None => reject_wrong_type("a Map variant", value),
    }
}

/// Rejects any Map variant whose length is exactly `n`.
pub fn assure_map_not_length(n: usize) -> (f: impl Fn(&FigValue) -> FigtreeResult<()>)
    ensures
        forall|v: &FigValue| f.requires((v,)),
        forall|v: &FigValue, r: FigtreeResult<()>| f.ensures((v,), r) ==> map_not_length_verdict(n, v@, r),
{
    move |value: &FigValue| -> (r: FigtreeResult<()>)
        ensures
            map_not_length_verdict(n, value@, r),
    {
        check_map_not_length(n, value)
    }
}

pub open spec fn map_has_key_verdict(k: Seq<char>, v: ValueView, r: FigtreeResult<()>) -> bool {
    match v {
        ValueView::MapString(m) => verdict(r, m.contains_key(k), "map must contain key '"@ + k + "'"@),
        v => verdict(r, false, wrong_type_msg("MapString"@, v)),
    }
}

/// The verdict of `assure_map_has_key` on a value.
pub fn check_map_has_key(k: &String, value: &FigValue) -> (r: FigtreeResult<()>)
    ensures
        map_has_key_verdict(k@, value@, r),
{
    match value {
        FigValue::MapString(m) => if m.contains_key(k.as_str()) { Ok(()) } else {
            reject(text_quoted("map must contain key '", k.as_str(), "'"))
        },
        _ => reject_wrong_type("MapString", value),
    }
}

/// Rejects MapString values that do not contain `key`.
pub fn assure_map_has_key(key: &str) -> (f: impl Fn(&FigValue) -> FigtreeResult<()>)
    ensures
        forall|v: &FigValue| f.requires((v,)),
        forall|v: &FigValue, r: FigtreeResult<()>| f.ensures((v,), r) ==> map_has_key_verdict(key@, v@, r),
{
    let key = key.to_string();
    move |value: &FigValue| -> (r: FigtreeResult<()>)
        ensures
            map_has_key_verdict(key@, value@, r),
    {
        check_map_has_key(&key, value)
    }
}

/// The index of the first key in `ks` that `m` lacks (`ks.len()` when
/// there is none).
pub open spec fn first_missing_key(ks: Seq<Seq<char>>, m: Map<Seq<char>, Seq<char>>) -> nat
    decreases ks.len(),
{
    if ks.len() == 0 {
        0
    } else if !m.contains_key(ks[0]) {
        0
    } else {
        1 + first_missing_key(ks.drop_first(), m)
    }
}

pub open spec fn map_has_keys_verdict(ks: Seq<Seq<char>>, v: ValueView, r: FigtreeResult<()>) -> bool {
    match v {
        ValueView::MapString(m) => {
            let i = first_missing_key(ks, m);
            verdict(r, i == ks.len(), "map must contain key '"@ + ks[i as int] + "'"@)
        },
        v => verdict(r, false, wrong_type_msg("MapString"@, v)),
    }
}

/// The verdict of `assure_map_has_keys` on a value.
pub fn check_map_has_keys(keys: &Vec<String>, value: &FigValue) -> (r: FigtreeResult<()>)
    ensures
        map_has_keys_verdict(seq_view(keys@), value@, r),
{
    match value {
        FigValue::MapString(m) => {
            let ghost kv = seq_view(keys@);
            let mut i: usize = 0;
            assert(kv.skip(0) =~= kv);
            while i < keys.len()
                invariant
                    kv == seq_view(keys@),
                    value@ == ValueView::MapString(m@),
                    i <= keys@.len(),
                    first_missing_key(kv, m@) == i + first_missing_key(kv.skip(i as int), m@),
                decreases keys@.len() - i,
            {
                assert(kv.skip(i as int)[0] == keys@[i as int]@);
                if !m.contains_key(keys[i].as_str()) {
                    assert(first_missing_key(kv.skip(i as int), m@) == 0);
                    assert(kv[i as int] == keys@[i as int]@);
                    assert(kv.len() == keys@.len());
                    assert(first_missing_key(kv, m@) == i);
                    return reject(text_quoted("map must contain key '", keys[i].as_str(), "'"));
                }
                assert(kv.skip(i as int).drop_first() =~= kv.skip(i + 1));
                i += 1;
            }
            Ok(())
        },
        _ => reject_wrong_type("MapString", value),
    }
}

/// Rejects MapString values that do not contain all of `keys`.
pub fn assure_map_has_keys(keys: Vec<String>) -> (f: impl Fn(&FigValue) -> FigtreeResult<()>)
    ensures
        forall|v: &FigValue| f.requires((v,)),
        forall|v: &FigValue, r: FigtreeResult<()>| f.ensures((v,), r) ==> map_has_keys_verdict(seq_view(keys@), v@, r),
{
    move |value: &FigValue| -> (r: FigtreeResult<()>)
        ensures
            map_has_keys_verdict(seq_view(keys@), value@, r),
    {
        check_map_has_keys(&keys, value)
    }
}

pub open spec fn map_value_matches_verdict(k: Seq<char>, e: Seq<char>, v: ValueView, r: FigtreeResult<()>) -> bool {
    match v {
        ValueView::MapString(m) => if m.contains_key(k) {
            verdict(r, m[k] == e, "map key '"@ + k + "' must equal '"@ + e + "', got '"@ + m[k] + "'"@)
        } else {
            verdict(r, false, "map must contain key '"@ + k + "'"@)
        },
        v => verdict(r, false, wrong_type_msg("MapString"@, v)),
    }
}

/// The verdict of `assure_map_value_matches` on a value.
pub fn check_map_value_matches(k: &String, e: &String, value: &FigValue) -> (r: FigtreeResult<()>)
    ensures
        map_value_matches_verdict(k@, e@, value@, r),
{
    match value {
        FigValue::MapString(m) => match m.get(k.as_str()) {
            Some(v) => if crate::text::same_text(v.as_str(), e.as_str()) { Ok(()) } else {
                let mut msg = owned("map key '");
                push_str(&mut msg, k.as_str());
                push_str(&mut msg, "' must equal '");
                push_str(&mut msg, e.as_str());
                push_str(&mut msg, "', got '");
                push_str(&mut msg, v.as_str());
                push_str(&mut msg, "'");
                reject(msg)
            },
            None => reject(text_quoted("map must contain key '", k.as_str(), "'")),
        },
        _ => reject_wrong_type("MapString", value),
    }
}

/// Rejects MapString values where `key` does not map to `expected`.
pub fn assure_map_value_matches(key: &str, expected: &str) -> (f: impl Fn(&FigValue) -> FigtreeResult<()>)
    ensures
        forall|v: &FigValue| f.requires((v,)),
        forall|v: &FigValue, r: FigtreeResult<()>| f.ensures((v,), r) ==> map_value_matches_verdict(key@, expected@, v@, r),
{
    let key = key.to_string();
    let expected = expected.to_string();
    move |value: &FigValue| -> (r: FigtreeResult<()>)
        ensures
            map_value_matches_verdict(key@, expected@, value@, r),
    {
        check_map_value_matches(&key, &expected, value)
    }
}

}
