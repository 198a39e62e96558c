//! What a plugin answers when it does not answer by itself: every request,
//! response and message is let through as it is, and nothing is watched.

use vstd::prelude::*;
use crate::message::{HttpAction, JsHttpAction, JsRequest, JsResponse};
use crate::scope::Scope;
use crate::ws::{JsMessage, JsWsAction, WsAction};

verus! {

/// The server side of a plugin.
#[derive(Clone, Debug)]
pub struct Server {
    pub id: String,
}

impl Server {
    pub fn new(id: String) -> (r: Self)
        ensures
            r.id == id,
    {
        Server { id }
    }

    /// A request is released as it is.
    pub fn on_request(&self, req: JsRequest, _scope: &Scope) -> (r: JsHttpAction)
        ensures
            r.action == HttpAction::Release(req),
    {
        JsHttpAction::release(req)
    }

    /// A response goes back as it is.
    pub fn on_response(&self, res: JsResponse, _scope: &Scope) -> (r: JsResponse)
        ensures
            r == res,
    {
        res
    }

    /// A message is released as it is.
    pub fn on_message(&self, msg: JsMessage, _scope: &Scope) -> (r: JsWsAction)
        ensures
            r.action == WsAction::Release(msg),
    {
        JsWsAction::release(msg)
    }

    /// The script for a dynamic link: a comment.
    pub fn dynamic_script(&self, _link: &str, _scope: &Scope) -> (r: &'static str)
        ensures
            r@ == "//dynamic_script"@,
    {
        "//dynamic_script"
    }
}

/// What decision logic said of a request, or that it failed.
pub enum Verdict<T> {
    /// The hook gave this.
    Given(T),
    /// The plugin has no such hook.
    NoHook,
    /// The hook failed.
    Failed,
}

/// The verdict on a request that the engine goes by: that of the hook, or a
/// release of the request where the plugin has no hook or the hook failed.
/// Traffic is never dropped because a plugin misbehaves.
pub fn request_verdict(hook: Verdict<JsHttpAction>, req: JsRequest) -> (r: JsHttpAction)
    ensures
        r.action == (match hook {
            Verdict::Given(a) => a.action,
            _ => HttpAction::Release(req),
        }),
{
    match hook {
        Verdict::Given(a) => a,
        _ => JsHttpAction::release(req),
    }
}

/// The response that the engine goes by: that of the hook, or the response
/// as it came where the plugin has no hook or the hook failed.
pub fn response_verdict(hook: Verdict<JsResponse>, res: JsResponse) -> (r: JsResponse)
    ensures
        r == (match hook {
            Verdict::Given(a) => a,
            _ => res,
        }),
{
    match hook {
        Verdict::Given(a) => a,
        _ => res,
    }
}

/// The verdict on a message that the engine goes by: that of the hook, or a
/// release of the message where the plugin has no hook or the hook failed.
pub fn message_verdict(hook: Verdict<JsWsAction>, msg: JsMessage) -> (r: JsWsAction)
    ensures
        r.action == (match hook {
            Verdict::Given(a) => a.action,
            _ => WsAction::Release(msg),
        }),
{
    match hook {
        Verdict::Given(a) => a,
        _ => JsWsAction::release(msg),
    }
}

/// Without a verdict of its own the engine never rejects and never answers
/// by itself: it releases.
pub proof fn lemma_failure_releases(hook: Verdict<JsHttpAction>, req: JsRequest, r: JsHttpAction)
    requires
        !(hook is Given),
        r.action == (match hook {
            Verdict::Given(a) => a.action,
            _ => HttpAction::Release(req),
        }),
    ensures
        r.action == HttpAction::Release(req),
{
}

} // verus!
