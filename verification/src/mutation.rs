//! Outbound change notifications: `Mutation` and the channel that carries
//! them from a Tree to its consumers.
use vstd::prelude::*;
use std::sync::mpsc::{Receiver, Sender};
use std::time::SystemTime;
use crate::clock::now;
use crate::fig::FigSource;
use crate::value::FigValue;

verus! {

// ── Mutation ──────────────────────────────────────────────────────────────────

/// A Mutation represents a single observed change to a Fig's value.
///
/// Mutations are emitted by the Tree into the MutationReceiver channel
/// whenever a Fig's value changes and tracking is enabled. They are
/// distinct from history entries — history lives inside the Fig and
/// records everything including rejections. Mutations are outbound
/// notifications intended for consumers who want to react to changes.
///
/// A Mutation is only emitted when a change actually occurs —
/// unchanged sets, validation rejections, and rule blocks do not
/// produce Mutations.
#[derive(Debug, Clone)]
pub struct Mutation {
    /// The key of the Fig that changed.
    pub key: String,
    /// The value before the change.
    /// None if this is the first resolution — the Fig had no prior value.
    pub old: Option<FigValue>,
    /// The value after the change.
    pub new: FigValue,
    /// Which source caused the change.
    pub source: FigSource,
    /// When the change occurred.
    pub when: SystemTime,
}

impl Mutation {
    /// Creates a Mutation for a first resolution — old value is None.
    pub fn first(key: &str, new: FigValue, source: FigSource) -> (r: Self)
        ensures
            r.key@ == key@,
            r.old is None,
            r.new == new,
            r.source == source,
    {
        Mutation { key: key.to_string(), old: None, new, source, when: now() }
    }

    /// Creates a Mutation for a subsequent change — old value is known.
    pub fn changed(key: &str, old: FigValue, new: FigValue, source: FigSource) -> (r: Self)
        ensures
            r.key@ == key@,
            r.old == Some(old),
            r.new == new,
            r.source == source,
    {
        Mutation { key: key.to_string(), old: Some(old), new, source, when: now() }
    }

    /// Returns true if this Mutation represents a first resolution
    /// rather than a change from a prior value.
    pub fn is_first_resolution(&self) -> (r: bool)
        ensures
            r == (self.old is None),
    {
        self.old.is_none()
    }
}

// ── the channel ───────────────────────────────────────────────────────────────

/// `std::sync::mpsc::Sender`, carried opaquely.
#[verifier::external_type_specification]
#[verifier::external_body]
#[verifier::reject_recursive_types(T)]
pub struct ExSender<T>(Sender<T>);

/// `std::sync::mpsc::Receiver`, carried opaquely.
#[verifier::external_type_specification]
#[verifier::external_body]
#[verifier::reject_recursive_types(T)]
pub struct ExReceiver<T>(Receiver<T>);

/// `std::sync::mpsc::channel`: a linked sender and receiver.
#[verifier::external_body]
fn open_channel() -> (Sender<Mutation>, Receiver<Mutation>) {
    std::sync::mpsc::channel()
}

/// `Sender::send`, with a disconnected receiver's error dropped.
#[verifier::external_body]
fn send_on(tx: &Sender<Mutation>, mutation: Mutation) {
    let _ = tx.send(mutation);
}

/// `Receiver::recv`, with a closed channel read as `None`. What arrives
/// depends on the other end of the channel: nothing is promised of it.
#[verifier::external_body]
fn recv_on(rx: &Receiver<Mutation>) -> Option<Mutation> {
    rx.recv().ok()
}

/// `Receiver::try_recv`, with an empty or closed channel read as `None`.
/// What arrives depends on the other end of the channel.
#[verifier::external_body]
fn try_recv_on(rx: &Receiver<Mutation>) -> Option<Mutation> {
    rx.try_recv().ok()
}

/// `Receiver::iter`, drained until the channel closes.
#[verifier::external_body]
fn drain_on(rx: &Receiver<Mutation>) -> Vec<Mutation> {
    rx.iter().collect()
}

/// The sending half of the mutation channel.
///
/// Held by the Tree internally. If no receiver is listening the send is
/// a no-op — the Tree never blocks on mutation delivery.
pub struct MutationSender {
    inner: Sender<Mutation>,
}

impl MutationSender {
    /// Sends a mutation to the receiver. Silently drops the mutation
    /// if the receiver has been dropped — nobody listening is no error.
    pub fn send(&self, mutation: Mutation) {
        send_on(&self.inner, mutation);
    }
}

/// The receiving half of the mutation channel.
///
/// Obtained by calling Tree::mutations(). Consumers read received
/// Mutations to react to configuration changes at runtime.
pub struct MutationReceiver {
    inner: Receiver<Mutation>,
}

impl MutationReceiver {
    /// Blocks until a Mutation is available or the channel closes.
    /// Returns None when the sender has been dropped and no more
    /// Mutations will be sent.
    pub fn recv(&self) -> Option<Mutation> {
        recv_on(&self.inner)
    }

    /// Returns a Mutation if one is immediately available, otherwise
    /// returns None. Never blocks.
    pub fn try_recv(&self) -> Option<Mutation> {
        try_recv_on(&self.inner)
    }

    /// Collects the Mutations as they arrive, until the channel closes.
    pub fn iter(&self) -> Vec<Mutation> {
        drain_on(&self.inner)
    }
}

/// Creates a linked MutationSender and MutationReceiver pair.
pub fn mutation_channel() -> (MutationSender, MutationReceiver) {
    let (tx, rx) = open_channel();
    (MutationSender { inner: tx }, MutationReceiver { inner: rx })
}

}
