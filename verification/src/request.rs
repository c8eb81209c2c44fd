//! The handle that stands for one call of a physical request.

use vstd::prelude::*;
use crate::params::ServerRequestParams;
use crate::types::{Call, Id};

verus! {

/// One call, handed to the application to be answered, kept for later, turned
/// into a subscription or given up: exactly one of these, once.
///
/// The handle owns its call. It names the physical request that the call came
/// with and the call's place in it; the bookkeeping of that request stays with
/// the server.
#[derive(Debug, PartialEq, Eq)]
pub struct ServerRq {
    envelope: usize,
    index: usize,
    connection: u64,
    call: Call,
}

impl ServerRq {
    /// The physical request that the call came with.
    pub closed spec fn spec_envelope(&self) -> usize {
        self.envelope
    }

    /// The place of the call in its physical request.
    pub closed spec fn spec_index(&self) -> usize {
        self.index
    }

    /// The connection that the call came over.
    pub closed spec fn spec_connection(&self) -> u64 {
        self.connection
    }

    /// The call itself.
    pub closed spec fn spec_call(&self) -> &Call {
        &self.call
    }

    /// The handle for the call at `index` of the physical request `envelope`
    /// that came over `connection`.
    pub closed spec fn issued(envelope: usize, index: usize, connection: u64, call: Call) -> ServerRq {
        ServerRq { envelope, index, connection, call }
    }

    /// A handle is what it was issued for, and nothing more.
    pub proof fn lemma_issued(envelope: usize, index: usize, connection: u64, call: Call)
        ensures
            Self::issued(envelope, index, connection, call).spec_envelope() == envelope,
            Self::issued(envelope, index, connection, call).spec_index() == index,
            Self::issued(envelope, index, connection, call).spec_connection() == connection,
            Self::issued(envelope, index, connection, call).call() == call,
    {
    }

    /// Issues the handle for one call.
    pub(crate) fn issue(envelope: usize, index: usize, connection: u64, call: Call) -> (r: ServerRq)
        ensures
            r == Self::issued(envelope, index, connection, call),
    {
        ServerRq { envelope, index, connection, call }
    }

    /// The call itself.
    #[verifier::when_used_as_spec(spec_call)]
    pub fn call(&self) -> (r: &Call)
        ensures
            r == self.spec_call(),
    {
        &self.call
    }

    /// The physical request that the call came with.
    pub fn envelope(&self) -> (r: usize)
        ensures
            r == self.spec_envelope(),
    {
        self.envelope
    }

    /// The place of the call in its physical request.
    pub fn index(&self) -> (r: usize)
        ensures
            r == self.spec_index(),
    {
        self.index
    }

    /// The connection that the call came over.
    pub fn connection(&self) -> (r: u64)
        ensures
            r == self.spec_connection(),
    {
        self.connection
    }

    /// Whether the call is a notification, which is never answered.
    pub fn is_notification(&self) -> (r: bool)
        ensures
            r == (self.call() is Notification),
    {
        self.call.is_notification()
    }

    /// Whether the call is well formed. A malformed call has no method and
    /// no parameters: all that is left to do with it is to answer it with an
    /// error.
    pub fn is_valid(&self) -> (r: bool)
        ensures
            r == !(self.call() is Invalid),
    {
        self.call.is_valid()
    }

    /// Whether the call can be kept for later under its identifier.
    pub fn is_deferrable(&self) -> (r: bool)
        ensures
            r == self.call().spec_deferrable(),
    {
        self.call.is_deferrable()
    }

    /// The identifier of the call: none for a notification, and the
    /// identifier to echo, which may be `null`, for every other call.
    pub fn id(&self) -> (r: Option<&Id>)
        ensures
            r is None <==> self.call() is Notification,
            match r {
                Some(id) => self.call().spec_id() == Some(*id),
                None => self.call().spec_id() is None,
            },
    {
        self.call.id()
    }

    /// The name of the method that the call asks for.
    pub fn method(&self) -> (r: &str)
        requires
            !(self.call() is Invalid),
        ensures
            self.call().spec_method() matches Some(name) && r@ == name@,
    {
        match &self.call {
            Call::MethodCall { method, .. } => method.as_str(),
            Call::Notification { method, .. } => method.as_str(),
            Call::Invalid { .. } => vstd::pervasive::unreached(),
        }
    }

    /// Read-only access to the parameters of the call. A malformed call has
    /// none.
    pub fn params(&self) -> (r: ServerRequestParams<'_>)
        ensures
            r.params() == self.call().spec_params(),
    {
        match &self.call {
            Call::MethodCall { params, .. } => ServerRequestParams::from(params),
            Call::Notification { params, .. } => ServerRequestParams::from(params),
            Call::Invalid { .. } => ServerRequestParams::absent(),
        }
    }
}

} // verus!
