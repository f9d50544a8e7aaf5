//! The bridge's request handling: admission by the token guard, routing of
//! invocations through the dispatch table, and the shape of its replies.
use crate::auth::{admits, Credentials, Endpoint, TokenGuard};
use crate::dispatch::{
    decode_command, decodes_to, dispatch_error_text, same_command, Command, DispatchError, InvokeArgs,
};
use vstd::prelude::*;

verus! {

pub const STATUS_OK: u16 = 200;

pub const STATUS_UNAUTHORIZED: u16 = 401;

pub const STATUS_SERVER_ERROR: u16 = 500;

/// The body of an invocation reply: `{ok, data, error}`.
pub struct InvokeReply<T> {
    pub ok: bool,
    pub data: Option<T>,
    pub error: Option<String>,
}

/// The reply body for the result of an operation.
pub open spec fn reply_for<T>(r: Result<T, String>) -> InvokeReply<T> {
    match r {
        Ok(d) => InvokeReply { ok: true, data: Some(d), error: None },
        Err(e) => InvokeReply { ok: false, data: None, error: Some(e) },
    }
}

/// The result a client reads back from a reply body, if it is well formed.
pub open spec fn reply_outcome<T>(rep: InvokeReply<T>) -> Option<Result<T, String>> {
    if rep.ok {
        match rep.data {
            Some(d) => Some(Ok(d)),
            None => None,
        }
    } else {
        match rep.error {
            Some(e) => Some(Err(e)),
            None => None,
        }
    }
}

/// The reply to an invocation. An operation's own failure is a normal reply
/// with `ok` false; only a failure of the bridge itself to run the operation
/// (`Err` outside) is a server error.
pub fn invoke_response<T>(outcome: Result<Result<T, String>, String>) -> (r: (u16, InvokeReply<T>))
    ensures
        match outcome {
            Ok(res) => r.0 == STATUS_OK && r.1 == reply_for(res),
            Err(detail) => r.0 == STATUS_SERVER_ERROR && !r.1.ok && r.1.data is None && (r.1.error matches Some(
                e,
            ) && e@ == "Bridge task failed: "@ + detail@),
        },
{
    match outcome {
        Ok(Ok(d)) => (STATUS_OK, InvokeReply { ok: true, data: Some(d), error: None }),
        Ok(Err(e)) => (STATUS_OK, InvokeReply { ok: false, data: None, error: Some(e) }),
        Err(detail) => (
            STATUS_SERVER_ERROR,
            InvokeReply {
                ok: false,
                data: None,
                error: Some(String::from_str("Bridge task failed: ").concat(detail.as_str())),
            },
        ),
    }
}

/// The reply to an invocation that the guard refused.
pub fn unauthorized_reply<T>() -> (r: (u16, InvokeReply<T>))
    ensures
        r.0 == STATUS_UNAUTHORIZED,
        !r.1.ok,
        r.1.data is None,
        r.1.error matches Some(e) && e@ == "Unauthorized"@,
{
    (STATUS_UNAUTHORIZED, InvokeReply { ok: false, data: None, error: Some(String::from_str("Unauthorized")) })
}

/// The status and `ok` flag of the health and auth-verify endpoints.
pub fn probe_response(guard: &TokenGuard, endpoint: Endpoint, c: &Credentials) -> (r: (u16, bool))
    ensures
        r.1 == admits(guard.token(), endpoint, *c),
        r.0 == if r.1 { STATUS_OK } else { STATUS_UNAUTHORIZED },
{
    if guard.admits(endpoint, c) {
        (STATUS_OK, true)
    } else {
        (STATUS_UNAUTHORIZED, false)
    }
}

/// What the bridge does with an invocation.
pub enum InvokePlan {
    /// The guard refused it: nothing is decoded or run.
    Refused,
    /// The dispatch table's decoding of it, to be run or reported.
    Decoded(Result<Command, DispatchError>),
}

/// Admits an invocation and routes it through the same decoding the local
/// path uses.
pub fn plan_invoke(guard: &TokenGuard, c: &Credentials, name: &str, args: &InvokeArgs) -> (r: InvokePlan)
    ensures
        match r {
            InvokePlan::Refused => !admits(guard.token(), Endpoint::Invoke, *c),
            InvokePlan::Decoded(d) => admits(guard.token(), Endpoint::Invoke, *c) && decodes_to(d, name@, *args),
        },
{
    if !guard.admits(Endpoint::Invoke, c) {
        return InvokePlan::Refused;
    }
    InvokePlan::Decoded(decode_command(name, args))
}

/// What the local path gives back for an invocation: the decoding, as is.
pub fn dispatch_local(name: &str, args: &InvokeArgs) -> (r: Result<Command, DispatchError>)
    ensures
        decodes_to(r, name@, *args),
{
    decode_command(name, args)
}

/// An admitted invocation is decoded as the local path decodes it, and the
/// result of the operation comes back through the bridge's reply unchanged.
pub proof fn lemma_bridge_matches_local<T>(
    token: Seq<char>,
    c: Credentials,
    name: Seq<char>,
    args: InvokeArgs,
    local: Result<Command, DispatchError>,
    bridged: InvokePlan,
    result: Result<T, String>,
)
    requires
        admits(token, Endpoint::Invoke, c),
        decodes_to(local, name, args),
        match bridged {
            InvokePlan::Refused => !admits(token, Endpoint::Invoke, c),
            InvokePlan::Decoded(d) => admits(token, Endpoint::Invoke, c) && decodes_to(d, name, args),
        },
    ensures
        bridged matches InvokePlan::Decoded(d) && (d is Ok <==> local is Ok) && (d is Ok ==> same_command(
            d->Ok_0,
            local->Ok_0,
        )) && (d is Err ==> dispatch_error_text(d->Err_0) == dispatch_error_text(local->Err_0)),
        reply_outcome(reply_for(result)) == Some(result),
{
}

/// A request that the guard refuses is never decoded, so it runs nothing.
pub proof fn lemma_refused_runs_nothing(
    token: Seq<char>,
    c: Credentials,
    name: Seq<char>,
    args: InvokeArgs,
    plan: InvokePlan,
)
    requires
        !admits(token, Endpoint::Invoke, c),
        match plan {
            InvokePlan::Refused => !admits(token, Endpoint::Invoke, c),
            InvokePlan::Decoded(d) => admits(token, Endpoint::Invoke, c) && decodes_to(d, name, args),
        },
    ensures
        plan is Refused,
{
}

} // verus!
