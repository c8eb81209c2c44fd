//! A transport-agnostic JSON-RPC 2.0 server engine.
//!
//! The engine sits between a transport and the application's handlers. It
//! splits each physical request, a single call or a batch, into calls, hands
//! every call to the application as a [`ServerRq`], keeps track of the calls
//! of each physical request that are still open, and says when the one
//! response of a physical request is due and what it holds.
//!
//! The engine performs no I/O and is not concurrent by itself: it is a state
//! machine that the owner of the transport drives, under a lock where calls
//! are answered from several tasks.

pub mod batch;
pub mod batch_laws;
pub mod params;
pub mod pending;
pub mod request;
pub mod server;
pub mod server_laws;
pub mod subscription;
pub mod types;

pub use crate::batch::{BatchEnvelope, Completion};
pub use crate::params::{ParamError, ServerRequestParams, ServerRequestParamsIter};
pub use crate::pending::{PendingEntry, PendingKey, PendingRequestStore, PendingTicket};
pub use crate::request::ServerRq;
pub use crate::server::{Accepted, Deferred, Flush, NextRequest, Refused, Server, Subscribed};
pub use crate::subscription::{Push, Subscription, SubscriptionManager};
pub use crate::types::{Call, Id, Output, Params, Request, Response, RpcError, ServerError, Value};
