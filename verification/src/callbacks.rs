//! Callbacks: user closures that fire at points in a key's lifecycle.
use vstd::prelude::*;
use crate::error::{FigtreeError, FigtreeResult};
use crate::text::owned;
use crate::value::{FigValue, ValueView};

verus! {

/// Identifies at which point in a Fig's lifecycle a callback fires.
#[derive(Debug, Clone, Copy, PartialEq, Eq, Structural)]
pub enum CallbackPhase {
    /// Fires after validation passes during parse() or load().
    AfterVerify,
    /// Fires every time the getter for this key is called.
    AfterRead,
    /// Fires after a successful store() changes this key's value.
    AfterChange,
}

/// The name of a phase, as `Display` would print it.
pub open spec fn phase_name(p: CallbackPhase) -> Seq<char> {
    match p {
        CallbackPhase::AfterVerify => "AfterVerify"@,
        CallbackPhase::AfterRead => "AfterRead"@,
        CallbackPhase::AfterChange => "AfterChange"@,
    }
}

impl CallbackPhase {
    /// The phase's name (what `to_string` gives).
    pub fn name(&self) -> (r: String)
        ensures
            r@ == phase_name(*self),
    {
        match self {
            CallbackPhase::AfterVerify => owned("AfterVerify"),
            CallbackPhase::AfterRead => owned("AfterRead"),
            CallbackPhase::AfterChange => owned("AfterChange"),
        }
    }
}

/// A boxed user function on a value.
#[verifier::external_body]
pub struct BoxedHook {
    func: Box<dyn Fn(&FigValue) -> FigtreeResult<()> + Send + Sync>,
}

/// Boxes a user function (`Box::new`).
#[verifier::external_body]
fn boxed<F>(func: F) -> BoxedHook
    where F: Fn(&FigValue) -> FigtreeResult<()> + Send + Sync + 'static,
{
    BoxedHook { func: Box::new(func) }
}

/// What a user function on a value may return: the relation its own
/// contract states between (the view of) the value and the outcome.
pub type HookSpec = spec_fn(ValueView, FigtreeResult<()>) -> bool;

/// A user function run on a value: a validator or a callback. It is user
/// code, held as a boxed closure, together with what its contract says
/// it may return.
pub struct ValueHook {
    func: BoxedHook,
    allows: Ghost<HookSpec>,
}

impl ValueHook {
    /// What the function may return for a value.
    pub closed spec fn allows(&self) -> HookSpec {
        self.allows@
    }

    /// Wraps a user function that accepts every value.
    pub(crate) fn new<F>(func: F) -> (r: Self)
        where F: Fn(&FigValue) -> FigtreeResult<()> + Send + Sync + 'static,
        requires
            forall|v: &FigValue| #[trigger] func.requires((v,)),
        ensures
            forall|v: ValueView, out: FigtreeResult<()>| #[trigger] (r.allows())(v, out)
                == exists|x: FigValue| x@ == v && #[trigger] func.ensures((&x,), out),
    {
        ValueHook {
            func: boxed(func),
            allows: Ghost(|v: ValueView, out: FigtreeResult<()>| exists|x: FigValue| x@ == v && #[trigger] func.ensures((&x,), out)),
        }
    }

    /// Calls the boxed user function on `value` (the one `new` was given)
    /// and returns what it returns: an outcome its contract allows.
    #[verifier::external_body]
    pub(crate) fn call(&self, value: &FigValue) -> (r: FigtreeResult<()>)
        ensures
            (self.allows())(value@, r),
    {
        (self.func.func)(value)
    }
}

/// A single registered callback — a phase and the function to call.
pub struct Callback {
    /// Which lifecycle phase triggers this callback.
    pub phase: CallbackPhase,
    /// The function to invoke.
    pub func: ValueHook,
}

impl Callback {
    /// Creates a new Callback from a phase and a closure that accepts
    /// every value.
    pub fn new<F>(phase: CallbackPhase, func: F) -> (r: Self)
        where F: Fn(&FigValue) -> FigtreeResult<()> + Send + Sync + 'static,
        requires
            forall|v: &FigValue| #[trigger] func.requires((v,)),
        ensures
            r.phase == phase,
            forall|v: ValueView, out: FigtreeResult<()>| #[trigger] (r.func.allows())(v, out)
                == exists|x: FigValue| x@ == v && #[trigger] func.ensures((&x,), out),
    {
        Callback { phase, func: ValueHook::new(func) }
    }

    /// Invokes the callback with the given value and returns what it
    /// returns (the callback is user code): an outcome its contract allows.
    pub fn invoke(&self, value: &FigValue) -> (r: FigtreeResult<()>)
        ensures
            (self.func.allows())(value@, r),
    {
        self.func.call(value)
    }
}

/// An ordered collection of callbacks for a single Fig. Callbacks fire
/// in registration order within each phase; the first failure halts
/// the chain.
pub struct CallbackRegistry {
    callbacks: Vec<Callback>,
}

/// The phases of a registry's callbacks, in registration order.
pub closed spec fn registry_phases(r: CallbackRegistry) -> Seq<CallbackPhase> {
    r.callbacks@.map_values(|c: Callback| c.phase)
}

/// The callbacks of a registry, in registration order, each as its phase
/// and what it may return.
pub closed spec fn registry_hooks(r: CallbackRegistry) -> Seq<(CallbackPhase, HookSpec)> {
    r.callbacks@.map_values(|c: Callback| (c.phase, c.func.allows()))
}

/// What firing, in order, the `phase` callbacks of `cbs` on `v` may
/// return: each runs in turn while the ones before it succeed, and the
/// first failure is the outcome; with every one succeeding, success.
pub open spec fn phase_outcome(cbs: Seq<(CallbackPhase, HookSpec)>, phase: CallbackPhase, v: ValueView, r: FigtreeResult<()>) -> bool
    decreases cbs.len(),
{
    if cbs.len() == 0 {
        r is Ok
    } else if cbs[0].0 != phase {
        phase_outcome(cbs.drop_first(), phase, v, r)
    } else {
        ||| r is Err && (cbs[0].1)(v, r)
        ||| (cbs[0].1)(v, Ok(())) && phase_outcome(cbs.drop_first(), phase, v, r)
    }
}

/// The phases of a registry are those of its callbacks.
pub proof fn lemma_hooks_phases(r: CallbackRegistry)
    ensures
        registry_hooks(r).len() == registry_phases(r).len(),
        forall|i: int| 0 <= i < registry_phases(r).len() ==> #[trigger] registry_hooks(r)[i].0 == registry_phases(r)[i],
{
}

/// With no callback for `phase` in `cbs`, firing the phase succeeds.
pub proof fn lemma_phase_absent(cbs: Seq<(CallbackPhase, HookSpec)>, phase: CallbackPhase, v: ValueView, r: FigtreeResult<()>)
    requires
        forall|i: int| 0 <= i < cbs.len() ==> (#[trigger] cbs[i]).0 != phase,
        phase_outcome(cbs, phase, v, r),
    ensures
        r is Ok,
    decreases cbs.len(),
{
    if cbs.len() > 0 {
        assert(cbs[0].0 != phase);
        assert forall|i: int| 0 <= i < cbs.drop_first().len() implies (#[trigger] cbs.drop_first()[i]).0 != phase by {
            assert(cbs.drop_first()[i] == cbs[i + 1]);
        }
        lemma_phase_absent(cbs.drop_first(), phase, v, r);
    }
}

/// How many entries of `s` are `p`.
pub open spec fn count_phase(s: Seq<CallbackPhase>, p: CallbackPhase) -> nat
    decreases s.len(),
{
    if s.len() == 0 {
        0
    } else {
        count_phase(s.drop_last(), p) + if s.last() == p { 1nat } else { 0nat }
    }
}

/// A phase that occurs in `s` is counted.
pub proof fn lemma_count_phase_occurs(s: Seq<CallbackPhase>, p: CallbackPhase, i: int)
    requires
        0 <= i < s.len(),
        s[i] == p,
    ensures
        count_phase(s, p) > 0,
    decreases s.len(),
{
    if i < s.len() - 1 {
        lemma_count_phase_occurs(s.drop_last(), p, i);
    }
}

impl CallbackRegistry {
    /// Creates an empty registry.
    pub fn new() -> (r: Self)
        ensures
            registry_phases(r) == Seq::<CallbackPhase>::empty(),
            registry_hooks(r) == Seq::<(CallbackPhase, HookSpec)>::empty(),
    {
        let r = CallbackRegistry { callbacks: Vec::new() };
        assert(registry_phases(r) =~= Seq::<CallbackPhase>::empty());
        assert(registry_hooks(r) =~= Seq::<(CallbackPhase, HookSpec)>::empty());
        r
    }

    /// Registers a callback for `phase`, one that accepts every value,
    /// after those already present.
    pub fn register<F>(&mut self, phase: CallbackPhase, func: F)
        where F: Fn(&FigValue) -> FigtreeResult<()> + Send + Sync + 'static,
        requires
            forall|v: &FigValue| #[trigger] func.requires((v,)),
        ensures
            registry_phases(*final(self)) == registry_phases(*old(self)).push(phase),
            registry_hooks(*final(self)).len() == registry_hooks(*old(self)).len() + 1,
            registry_hooks(*final(self)).drop_last() == registry_hooks(*old(self)),
            registry_hooks(*final(self)).last().0 == phase,
            forall|v: ValueView, out: FigtreeResult<()>| #[trigger] (registry_hooks(*final(self)).last().1)(v, out)
                == exists|x: FigValue| x@ == v && #[trigger] func.ensures((&x,), out),
    {
        let c = Callback::new(phase, func);
        self.callbacks.push(c);
        assert(registry_phases(*self) =~= registry_phases(*old(self)).push(phase));
        assert(registry_hooks(*self).drop_last() =~= registry_hooks(*old(self)));
    }

    /// Invokes, in registration order, every callback registered for
    /// `phase`, stopping at the first error, which is returned. With none
    /// registered for the phase it succeeds; otherwise it returns what the
    /// callbacks' contracts allow of such a run (`phase_outcome`).
    pub fn invoke_phase(&self, phase: &CallbackPhase, value: &FigValue) -> (r: FigtreeResult<()>)
        ensures
            count_phase(registry_phases(*self), *phase) == 0 ==> r is Ok,
            r is Err ==> count_phase(registry_phases(*self), *phase) > 0,
            phase_outcome(registry_hooks(*self), *phase, value@, r),
    {
        let ghost hooks = registry_hooks(*self);
        let mut i: usize = 0;
        assert(hooks.skip(0) =~= hooks);
        while i < self.callbacks.len()
            invariant
                i <= self.callbacks@.len(),
                hooks == registry_hooks(*self),
                hooks.len() == self.callbacks@.len(),
                forall|x: FigtreeResult<()>| phase_outcome(#[trigger] hooks.skip(i as int), *phase, value@, x)
                    ==> phase_outcome(hooks, *phase, value@, x),
            decreases self.callbacks@.len() - i,
        {
            let c = &self.callbacks[i];
            let ghost here = hooks.skip(i as int);
            assert(here.len() > 0);
            assert(here[0] == hooks[i as int]);
            assert(hooks[i as int] == (c.phase, c.func.allows()));
            assert(here.drop_first() =~= hooks.skip(i + 1));
            if c.phase == *phase {
                let out = c.invoke(value);
                match out {
                    Ok(()) => {
                        let ghost u: () = out->Ok_0;
                        assert(out == Ok::<(), FigtreeError>(u));
                        assert((here[0].1)(value@, Ok::<(), FigtreeError>(())));
                        assert forall|x: FigtreeResult<()>| phase_outcome(#[trigger] hooks.skip(i + 1), *phase, value@, x)
                            implies phase_outcome(hooks, *phase, value@, x) by {
                            assert(phase_outcome(here.drop_first(), *phase, value@, x));
                            assert(phase_outcome(here, *phase, value@, x));
                        }
                    },
                    Err(e) => {
                        proof {
                            assert(registry_phases(*self)[i as int] == *phase);
                            lemma_count_phase_occurs(registry_phases(*self), *phase, i as int);
                            assert(phase_outcome(here, *phase, value@, Err::<(), FigtreeError>(e)));
                        }
                        return Err(e);
                    },
                }
            } else {
                assert(here[0].0 != *phase);
                assert forall|x: FigtreeResult<()>| phase_outcome(#[trigger] hooks.skip(i + 1), *phase, value@, x)
                    implies phase_outcome(hooks, *phase, value@, x) by {
                    assert(phase_outcome(here, *phase, value@, x) == phase_outcome(here.drop_first(), *phase, value@, x));
                }
            }
            i += 1;
        }
        assert(hooks.skip(i as int) =~= Seq::<(CallbackPhase, HookSpec)>::empty());
        assert(phase_outcome(hooks.skip(i as int), *phase, value@, Ok::<(), FigtreeError>(())));
        Ok(())
    }

    /// Returns the number of callbacks registered across all phases.
    pub fn len(&self) -> (r: usize)
        ensures
            r == registry_phases(*self).len(),
    {
        self.callbacks.len()
    }

    /// The phase of the callback registered `i`-th.
    pub fn phase_at(&self, i: usize) -> (r: CallbackPhase)
        requires
            i < registry_phases(*self).len(),
        ensures
            r == registry_phases(*self)[i as int],
    {
        self.callbacks[i].phase
    }

    /// Returns true if no callbacks are registered.
    pub fn is_empty(&self) -> (r: bool)
        ensures
            r == (registry_phases(*self).len() == 0),
    {
        self.len() == 0
    }

    /// Returns the number of callbacks registered for a specific phase.
    pub fn count_for_phase(&self, phase: &CallbackPhase) -> (r: usize)
        ensures
            r == count_phase(registry_phases(*self), *phase),
    {
        let n = self.len();
        let ghost s = registry_phases(*self);
        let mut count: usize = 0;
        let mut i: usize = 0;
        while i < n
            invariant
                n == s.len(),
                s == registry_phases(*self),
                i <= n,
                count == count_phase(s.take(i as int), *phase),
                count <= i,
            decreases n - i,
        {
            assert(s.take(i + 1).drop_last() =~= s.take(i as int));
            if self.phase_at(i) == *phase {
                count += 1;
            }
            i += 1;
        }
        assert(s.take(n as int) =~= s);
        count
    }

    /// Returns true if any callback is registered for the given phase.
    pub fn has_phase(&self, phase: &CallbackPhase) -> (r: bool)
        ensures
            r == (count_phase(registry_phases(*self), *phase) > 0),
    {
        self.count_for_phase(phase) > 0
    }
}

}
