//! The protocol's data: identifiers, values, calls, outputs and responses.
//!
//! Values that the engine builds itself (identifiers it copies, the standard
//! error objects, the assembled response) have a mathematical view, and the
//! contracts speak of that view. A [`Value`] is never inspected by the engine:
//! it is carried from the caller to the wire unchanged.

use vstd::prelude::*;

verus! {

/// Parse error: the payload is not valid JSON.
pub const PARSE_ERROR: i64 = -32700;

/// Invalid Request: the payload is not a valid call object.
pub const INVALID_REQUEST: i64 = -32600;

/// Method not found.
pub const METHOD_NOT_FOUND: i64 = -32601;

/// Invalid params.
pub const INVALID_PARAMS: i64 = -32602;

/// Internal error.
pub const INTERNAL_ERROR: i64 = -32603;

/// Server error: the call's handle was given up without an answer.
pub const ABANDONED: i64 = -32000;

/// Server error: the call's connection went away before it was answered.
pub const CONNECTION_CLOSED: i64 = -32001;

/// The identifier that correlates a call with its output.
#[derive(Debug, PartialEq, Eq)]
pub enum Id {
    /// A numeric identifier.
    Num(u64),
    /// A textual identifier.
    Str(String),
    /// The JSON `null` identifier.
    Null,
}

/// What an [`Id`] is, as a mathematical value.
pub enum IdView {
    Num(u64),
    Str(Seq<char>),
    Null,
}

impl View for Id {
    type V = IdView;

    open spec fn view(&self) -> IdView {
        match self {
            Id::Num(n) => IdView::Num(*n),
            Id::Str(s) => IdView::Str(s@),
            Id::Null => IdView::Null,
        }
    }
}

impl Id {
    /// An independent copy of this identifier.
    pub fn duplicate(&self) -> (r: Id)
        ensures
            r == *self,
    {
        match self {
            Id::Num(n) => Id::Num(*n),
            Id::Str(s) => Id::Str(s.clone()),
            Id::Null => Id::Null,
        }
    }

    /// Whether two identifiers denote the same value.
    pub fn same(&self, other: &Id) -> (r: bool)
        ensures
            r == (self@ == other@),
    {
        match (self, other) {
            (Id::Num(a), Id::Num(b)) => *a == *b,
            (Id::Str(a), Id::Str(b)) => *a == *b,
            (Id::Null, Id::Null) => true,
            _ => false,
        }
    }
}

/// A JSON value. The engine moves values; it does not look inside them.
#[derive(Debug, PartialEq, Eq)]
pub enum Value {
    Null,
    Bool(bool),
    Signed(i64),
    Unsigned(u64),
    Text(String),
    Array(Vec<Value>),
    Object(Vec<(String, Value)>),
}

/// The parameters of a call: absent, positional or named.
#[derive(Debug, PartialEq, Eq)]
pub enum Params {
    /// The call carries no parameters.
    Absent,
    /// Positional parameters, in the client's order.
    Positional(Vec<Value>),
    /// Named parameters, in the client's order.
    Named(Vec<(String, Value)>),
}

/// One logical unit of a request.
#[derive(Debug, PartialEq, Eq)]
pub enum Call {
    /// A call that expects an output.
    MethodCall { id: Id, method: String, params: Params },
    /// A call that must not be answered.
    Notification { method: String, params: Params },
    /// A malformed call; `id` is what could be recovered of its identifier.
    Invalid { id: Id },
}

impl Call {
    /// The identifier to echo in this call's output, if it gets one.
    pub open spec fn spec_id(&self) -> Option<Id> {
        match self {
            Call::MethodCall { id, .. } => Some(*id),
            Call::Notification { .. } => None,
            Call::Invalid { id } => Some(*id),
        }
    }

    /// The method's name, if the call has one.
    pub open spec fn spec_method(&self) -> Option<String> {
        match self {
            Call::MethodCall { method, .. } => Some(*method),
            Call::Notification { method, .. } => Some(*method),
            Call::Invalid { .. } => None,
        }
    }

    /// The parameters; a malformed call has none.
    pub open spec fn spec_params(&self) -> Params {
        match self {
            Call::MethodCall { params, .. } => *params,
            Call::Notification { params, .. } => *params,
            Call::Invalid { .. } => Params::Absent,
        }
    }

    /// A call can be kept for later under its identifier unless it is a
    /// notification or a malformed call whose identifier is `null`.
    pub open spec fn spec_deferrable(&self) -> bool {
        match self {
            Call::MethodCall { .. } => true,
            Call::Notification { .. } => false,
            Call::Invalid { id } => !(id is Null),
        }
    }

    /// The identifier to echo in this call's output: none for a notification.
    pub fn id(&self) -> (r: Option<&Id>)
        ensures
            r is None <==> self is Notification,
            match r {
                Some(id) => self.spec_id() == Some(*id),
                None => self.spec_id() is None,
            },
    {
        match self {
            Call::MethodCall { id, .. } => Some(id),
            Call::Notification { .. } => None,
            Call::Invalid { id } => Some(id),
        }
    }

    /// Whether this call is a notification.
    pub fn is_notification(&self) -> (r: bool)
        ensures
            r == (self is Notification),
    {
        match self {
            Call::Notification { .. } => true,
            _ => false,
        }
    }

    /// Whether this call is well formed, that is, has a method.
    pub fn is_valid(&self) -> (r: bool)
        ensures
            r == !(self is Invalid),
    {
        match self {
            Call::Invalid { .. } => false,
            _ => true,
        }
    }

    /// Whether this call can be kept for later under its identifier.
    pub fn is_deferrable(&self) -> (r: bool)
        ensures
            r == self.spec_deferrable(),
    {
        match self {
            Call::MethodCall { .. } => true,
            Call::Notification { .. } => false,
            Call::Invalid { id } => match id {
                Id::Null => false,
                _ => true,
            },
        }
    }
}

/// The error object of a failed call.
#[derive(Debug, PartialEq, Eq)]
pub struct RpcError {
    pub code: i64,
    pub message: String,
    pub data: Option<Value>,
}

/// What an [`RpcError`] is, as a mathematical value.
pub struct RpcErrorView {
    pub code: i64,
    pub message: Seq<char>,
    pub data: Option<Value>,
}

impl View for RpcError {
    type V = RpcErrorView;

    open spec fn view(&self) -> RpcErrorView {
        RpcErrorView { code: self.code, message: self.message@, data: self.data }
    }
}

/// The error object without data that carries `code` and `message`.
pub open spec fn plain_error(code: i64, message: Seq<char>) -> RpcErrorView {
    RpcErrorView { code, message, data: None }
}

/// The error that answers a call whose handle was given up.
pub open spec fn abandoned_error() -> RpcErrorView {
    plain_error(ABANDONED, "Request abandoned"@)
}

/// The error that answers a call whose connection went away.
pub open spec fn connection_closed_error() -> RpcErrorView {
    plain_error(CONNECTION_CLOSED, "Connection closed"@)
}

impl RpcError {
    /// The standard error for a payload that is not valid JSON.
    pub fn parse_error() -> (r: RpcError)
        ensures
            r@ == plain_error(PARSE_ERROR, "Parse error"@),
    {
        RpcError { code: PARSE_ERROR, message: "Parse error".to_owned(), data: None }
    }

    /// The standard error for a payload that is not a valid call object.
    pub fn invalid_request() -> (r: RpcError)
        ensures
            r@ == plain_error(INVALID_REQUEST, "Invalid Request"@),
    {
        RpcError { code: INVALID_REQUEST, message: "Invalid Request".to_owned(), data: None }
    }

    /// The standard error for an unknown method.
    pub fn method_not_found() -> (r: RpcError)
        ensures
            r@ == plain_error(METHOD_NOT_FOUND, "Method not found"@),
    {
        RpcError { code: METHOD_NOT_FOUND, message: "Method not found".to_owned(), data: None }
    }

    /// The standard error for parameters of the wrong shape.
    pub fn invalid_params() -> (r: RpcError)
        ensures
            r@ == plain_error(INVALID_PARAMS, "Invalid params"@),
    {
        RpcError { code: INVALID_PARAMS, message: "Invalid params".to_owned(), data: None }
    }

    /// The standard error for a failure inside the server.
    pub fn internal_error() -> (r: RpcError)
        ensures
            r@ == plain_error(INTERNAL_ERROR, "Internal error"@),
    {
        RpcError { code: INTERNAL_ERROR, message: "Internal error".to_owned(), data: None }
    }

    /// The error that answers a call whose handle was given up.
    pub fn abandoned() -> (r: RpcError)
        ensures
            r@ == abandoned_error(),
    {
        RpcError { code: ABANDONED, message: "Request abandoned".to_owned(), data: None }
    }

    /// The error that answers a call whose connection went away.
    pub fn connection_closed() -> (r: RpcError)
        ensures
            r@ == connection_closed_error(),
    {
        RpcError { code: CONNECTION_CLOSED, message: "Connection closed".to_owned(), data: None }
    }
}

/// The finished answer to one call.
#[derive(Debug, PartialEq, Eq)]
pub enum Output {
    Success { id: Id, result: Value },
    Failure { id: Id, error: RpcError },
}

/// What an [`Output`] is, as a mathematical value.
pub enum OutputView {
    Success { id: IdView, result: Value },
    Failure { id: IdView, error: RpcErrorView },
}

impl View for Output {
    type V = OutputView;

    open spec fn view(&self) -> OutputView {
        match self {
            Output::Success { id, result } => OutputView::Success { id: id@, result: *result },
            Output::Failure { id, error } => OutputView::Failure { id: id@, error: error@ },
        }
    }
}

/// What a handler hands back for one call, as a mathematical value.
pub open spec fn outcome_view(outcome: Result<Value, RpcError>) -> Result<Value, RpcErrorView> {
    match outcome {
        Ok(value) => Ok(value),
        Err(error) => Err(error@),
    }
}

/// The output that carries `outcome` under the identifier `id`.
pub open spec fn output_of(outcome: Result<Value, RpcErrorView>, id: IdView) -> OutputView {
    match outcome {
        Ok(result) => OutputView::Success { id, result },
        Err(error) => OutputView::Failure { id, error },
    }
}

impl OutputView {
    /// The identifier that the output echoes.
    pub open spec fn id(self) -> IdView {
        match self {
            OutputView::Success { id, .. } => id,
            OutputView::Failure { id, .. } => id,
        }
    }
}

impl Output {
    /// Wraps a handler's outcome as the output for the call identified by `id`.
    pub fn from_outcome(outcome: Result<Value, RpcError>, id: Id) -> (r: Output)
        ensures
            r@ == output_of(outcome_view(outcome), id@),
    {
        match outcome {
            Ok(result) => Output::Success { id, result },
            Err(error) => Output::Failure { id, error },
        }
    }

    /// The identifier that this output echoes.
    pub fn id(&self) -> (r: &Id)
        ensures
            r@ == self@.id(),
    {
        match self {
            Output::Success { id, .. } => id,
            Output::Failure { id, .. } => id,
        }
    }
}

/// One physical request: a lone call, or a batch of calls.
#[derive(Debug, PartialEq, Eq)]
pub enum Request {
    Single(Call),
    Batch(Vec<Call>),
}

impl Request {
    /// The calls of the request, in the client's order.
    pub open spec fn calls(&self) -> Seq<Call> {
        match self {
            Request::Single(call) => seq![*call],
            Request::Batch(calls) => calls@,
        }
    }
}

/// What is written back for one physical request.
#[derive(Debug, PartialEq, Eq)]
pub enum Response {
    Single(Output),
    Batch(Vec<Output>),
}

/// What a [`Response`] is, as a mathematical value.
pub enum ResponseView {
    Single(OutputView),
    Batch(Seq<OutputView>),
}

/// The views of a sequence of outputs, in the same order.
pub open spec fn output_views(outputs: Seq<Output>) -> Seq<OutputView> {
    outputs.map_values(|o: Output| o@)
}

impl View for Response {
    type V = ResponseView;

    open spec fn view(&self) -> ResponseView {
        match self {
            Response::Single(output) => ResponseView::Single(output@),
            Response::Batch(outputs) => ResponseView::Batch(output_views(outputs@)),
        }
    }
}

/// Why an operation of the engine was refused.
#[derive(Debug, Clone, Copy, PartialEq, Eq, Structural)]
pub enum ServerError {
    /// The transport has ended; no further request will arrive.
    TransportClosed,
    /// One read of the transport failed; the stream goes on.
    TransportFault,
    /// The call is a notification, which has no output.
    NotRespondable,
    /// The call has no identifier to keep it under.
    NotDeferrable,
    /// The call was resolved before: it was abandoned, or its connection closed.
    AlreadyResolved,
    /// No live subscription has this identifier.
    UnknownSubscription,
    /// Every subscription identifier has been given out.
    OutOfSubscriptions,
}

} // verus!
