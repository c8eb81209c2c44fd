//! Live subscriptions, by their identifier.
//!
//! A subscription is a push channel towards one connection. The manager hands
//! out fresh identifiers, remembers which connection each live subscription
//! pushes to, and turns a pushed value into the notification to write.

use vstd::prelude::*;
use fnv::FnvHashMap;
use crate::types::{Call, Params, ServerError, Value};

verus! {

/// `fnv::FnvHasher`, the hasher of the registry. Nothing is said of it: it
/// only has to be named for the registry's type.
#[verifier::external_type_specification]
#[verifier::external_body]
pub struct ExFnvHasher(fnv::FnvHasher);

/// `core::hash::BuildHasherDefault`, which makes the hashers of the
/// registry. Nothing is said of it either.
#[verifier::external_type_specification]
#[verifier::external_body]
#[verifier::reject_recursive_types(H)]
pub struct ExBuildHasherDefault<H>(core::hash::BuildHasherDefault<H>);

/// The map from the identifier of a live subscription to its connection.
pub type Registry = FnvHashMap<u64, u64>;

/// No live subscription at all.
pub open spec fn no_subscriptions() -> Map<u64, u64> {
    Map::empty()
}

/// `HashMap::insert` on an `FnvHashMap`: afterwards the map holds `value`
/// under `key` and is otherwise unchanged; the value that stood under `key`
/// before, if any, is handed back.
#[verifier::external_body]
fn registry_insert(registry: &mut Registry, key: u64, value: u64) -> (previous: Option<
    u64,
>)
    ensures
        final(registry)@ == old(registry)@.insert(key, value),
        previous == if old(registry)@.contains_key(key) {
            Some(old(registry)@[key])
        } else {
            None::<u64>
        },
{
    registry.insert(key, value)
}

/// `HashMap::remove` on an `FnvHashMap`: afterwards the map holds nothing
/// under `key` and is otherwise unchanged; the value that stood under `key`
/// before, if any, is handed back.
#[verifier::external_body]
fn registry_remove(registry: &mut Registry, key: u64) -> (previous: Option<u64>)
    ensures
        final(registry)@ == old(registry)@.remove(key),
        previous == if old(registry)@.contains_key(key) {
            Some(old(registry)@[key])
        } else {
            None::<u64>
        },
{
    registry.remove(&key)
}

/// `HashMap::get` on an `FnvHashMap`: the value that stands under `key`, if
/// any.
#[verifier::external_body]
fn registry_get(registry: &Registry, key: u64) -> (found: Option<u64>)
    ensures
        found == if registry@.contains_key(key) {
            Some(registry@[key])
        } else {
            None::<u64>
        },
{
    registry.get(&key).copied()
}

/// Whether a subscription of `owner` outlives the closing of `connection`.
fn survives(owner: u64, connection: u64) -> (r: bool)
    ensures
        r == (owner != connection),
{
    owner != connection
}

/// `HashMap::retain` on an `FnvHashMap`: afterwards the map holds exactly
/// the entries of before whose value is not `connection`.
#[verifier::external_body]
fn registry_drop_connection(registry: &mut Registry, connection: u64)
    ensures
        final(registry)@ == without_connection(old(registry)@, connection),
{
    registry.retain(|_, owner| survives(*owner, connection))
}

/// The live subscriptions that do not push to `connection`.
pub open spec fn without_connection(live: Map<u64, u64>, connection: u64) -> Map<u64, u64> {
    Map::new(|id: u64| live.contains_key(id) && live[id] != connection, |id: u64| live[id])
}

/// A live push channel towards one connection.
#[derive(Debug, Clone, Copy, PartialEq, Eq, Structural)]
pub struct Subscription {
    /// The identifier that the server gave to the subscription.
    pub id: u64,
    /// The connection that pushes are written to.
    pub connection: u64,
}

/// One message to write to a connection outside of any request.
#[derive(Debug, PartialEq, Eq)]
pub struct Push {
    /// The connection to write to.
    pub connection: u64,
    /// The notification to write.
    pub message: Call,
}

/// Whether `message` is the notification that carries `value` for the
/// subscription `id`: its method is `subscription`, and its parameters are
/// the subscription's identifier under `subscription` and the value under
/// `result`, in this order.
pub open spec fn is_push_message(message: Call, id: u64, value: Value) -> bool {
    &&& message matches Call::Notification { method, params }
    &&& method@ == "subscription"@
    &&& params matches Params::Named(entries)
    &&& entries@.len() == 2
    &&& entries@[0].0@ == "subscription"@
    &&& entries@[0].1 == Value::Unsigned(id)
    &&& entries@[1].0@ == "result"@
    &&& entries@[1].1 == value
}

/// What a [`SubscriptionManager`] is, as a mathematical value.
pub struct SubscriptionsView {
    /// The connection of every live subscription, by its identifier.
    pub live: Map<u64, u64>,
    /// The identifier that the next subscription gets.
    pub next: u64,
}

impl SubscriptionsView {
    /// Whether the subscription `id` is live.
    pub open spec fn is_live(self, id: u64) -> bool {
        self.live.contains_key(id)
    }

    /// No live subscription has an identifier that is still to be given out.
    pub open spec fn wf(self) -> bool {
        forall|id: u64| self.live.contains_key(id) ==> id < self.next
    }
}

/// The registry of live subscriptions.
pub struct SubscriptionManager {
    live: Registry,
    next: u64,
}

impl View for SubscriptionManager {
    type V = SubscriptionsView;

    closed spec fn view(&self) -> SubscriptionsView {
        SubscriptionsView { live: self.live@, next: self.next }
    }
}

impl SubscriptionManager {
    /// A manager without subscriptions.
    pub fn new() -> (r: Self)
        ensures
            r@ == (SubscriptionsView { live: no_subscriptions(), next: 0 }),
            r@.wf(),
    {
        SubscriptionManager { live: FnvHashMap::default(), next: 0 }
    }

    /// Whether a further subscription can be opened: the identifiers are
    /// not used up.
    pub fn has_room(&self) -> (r: bool)
        ensures
            r == (self@.next < u64::MAX),
    {
        self.next < u64::MAX
    }

    /// Opens a subscription that pushes to `connection`, under an identifier
    /// that no subscription had before. Nothing is opened once the
    /// identifiers are used up.
    pub fn subscribe(&mut self, connection: u64) -> (r: Option<Subscription>)
        requires
            old(self)@.wf(),
        ensures
            final(self)@.wf(),
            match r {
                Some(subscription) => {
                    &&& old(self)@.next < u64::MAX
                    &&& subscription == (Subscription { id: old(self)@.next, connection })
                    &&& !old(self)@.is_live(subscription.id)
                    &&& final(self)@ == (SubscriptionsView {
                        live: old(self)@.live.insert(subscription.id, connection),
                        next: (old(self)@.next + 1) as u64,
                    })
                },
                None => old(self)@.next == u64::MAX && final(self)@ == old(self)@,
            },
    {
        if self.next == u64::MAX {
            return None;
        }
        let id = self.next;
        registry_insert(&mut self.live, id, connection);
        self.next = id + 1;
        Some(Subscription { id, connection })
    }

    /// Whether the subscription `id` is live.
    pub fn is_live(&self, id: u64) -> (r: bool)
        ensures
            r == self@.is_live(id),
    {
        registry_get(&self.live, id).is_some()
    }

    /// Wraps `value` as the notification to write for the subscription `id`.
    /// A subscription that is not live, or no longer, is unknown.
    pub fn push(&self, id: u64, value: Value) -> (r: Result<Push, ServerError>)
        ensures
            match r {
                Ok(push) => {
                    &&& self@.is_live(id)
                    &&& push.connection == self@.live[id]
                    &&& is_push_message(push.message, id, value)
                },
                Err(error) => !self@.is_live(id) && error == ServerError::UnknownSubscription,
            },
    {
        match registry_get(&self.live, id) {
            None => Err(ServerError::UnknownSubscription),
            Some(connection) => Ok(Push { connection, message: push_message(id, value) }),
        }
    }

    /// Ends the subscription `id`; further pushes to it fail. Says whether
    /// it was live.
    pub fn unsubscribe(&mut self, id: u64) -> (r: bool)
        requires
            old(self)@.wf(),
        ensures
            final(self)@.wf(),
            r == old(self)@.is_live(id),
            final(self)@ == (SubscriptionsView {
                live: old(self)@.live.remove(id),
                next: old(self)@.next,
            }),
    {
        let previous = registry_remove(&mut self.live, id);
        proof {
            assert forall|k: u64| self@.live.contains_key(k) implies k < self@.next by {
                assert(old(self)@.live.contains_key(k));
            }
        }
        previous.is_some()
    }

    /// Ends every subscription.
    pub fn clear(&mut self)
        ensures
            final(self)@.wf(),
            final(self)@ == (SubscriptionsView {
                live: no_subscriptions(),
                next: old(self)@.next,
            }),
    {
        self.live.clear();
    }

    /// Ends every subscription that pushes to `connection`.
    pub fn close_connection(&mut self, connection: u64)
        requires
            old(self)@.wf(),
        ensures
            final(self)@.wf(),
            final(self)@ == (SubscriptionsView {
                live: without_connection(old(self)@.live, connection),
                next: old(self)@.next,
            }),
    {
        registry_drop_connection(&mut self.live, connection);
    }
}

/// The notification that carries `value` for the subscription `id`.
pub fn push_message(id: u64, value: Value) -> (r: Call)
    ensures
        is_push_message(r, id, value),
{
    let mut entries: Vec<(String, Value)> = Vec::new();
    entries.push(("subscription".to_owned(), Value::Unsigned(id)));
    entries.push(("result".to_owned(), value));
    Call::Notification { method: "subscription".to_owned(), params: Params::Named(entries) }
}

} // verus!
