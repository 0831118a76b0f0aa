//! How the server handles one request: where it is forwarded (or the answer
//! given at once), what body goes back for the upstream reply, and which
//! event is logged.

use crate::matcher::{find_match, law_no_match_iff_nothing_applies, rule_applies, spec_find_match};
use crate::proxy::{
    build_target_url, spec_injected_body, spec_response_body, spec_target_path, spec_target_url,
    target_url_for_path,
};
use crate::types::{Config, LogEvent};
use vstd::prelude::*;
use vstd::string::StringExecFns;

verus! {

broadcast use vstd::string::group_string_axioms;

/// An answer given without an upstream reply, and the event that records it.
pub struct RouteOutcome {
    /// HTTP status code of the response
    pub status: u16,
    /// Body of the response
    pub body: String,
    /// What is logged about the request
    pub event: LogEvent,
}

/// What to do with a request.
pub enum RouteAction {
    /// Forward the request to `url`; put `inject` into an HTML reply; log
    /// the request as proxied to `proxy_path`.
    Forward { url: String, inject: Option<String>, proxy_path: String },
    /// Answer at once.
    Reply(RouteOutcome),
}

/// Where a request for `path` goes: the target, the path requested from it,
/// and the content to inject into an HTML reply. A matched location gives
/// its target, its rewritten path and its injection; without a match the
/// request goes to the default target, with its own path and no injection.
pub open spec fn spec_route_target(config: Config, path: Seq<char>) -> (
    Seq<char>,
    Seq<char>,
    Option<String>,
) {
    match spec_find_match(config.locations@, path) {
        Some(i) => {
            let loc = config.locations@[i];
            (loc.target@, spec_target_path(loc, path), loc.inject)
        },
        None => (config.default_target@, path, None),
    }
}

/// The URL a request for `path` is forwarded to, if one can be built.
pub open spec fn spec_route_url(config: Config, path: Seq<char>) -> Option<Seq<char>> {
    let (target, upstream_path, _) = spec_route_target(config, path);
    match spec_target_url(target, upstream_path) {
        Ok(url) => Some(url),
        Err(_) => None,
    }
}

/// `out` is the answer to a request for `path` at `timestamp` that ends with
/// `status`, `body`, the event named `event` and the logged `proxy_path`.
pub open spec fn outcome_is(
    out: RouteOutcome,
    status: u16,
    body: Seq<char>,
    event: Seq<char>,
    path: Seq<char>,
    proxy_path: Seq<char>,
    timestamp: Seq<char>,
) -> bool {
    &&& out.status == status
    &&& out.body@ == body
    &&& out.event.event@ == event
    &&& out.event.req_path@ == path
    &&& out.event.proxy_path@ == proxy_path
    &&& out.event.timestamp@ == timestamp
    &&& out.event.status == status
}

/// What is done with a request for `path`: it is forwarded to the URL built
/// for it, or, where none can be built, answered with 500.
pub open spec fn action_is_correct(a: RouteAction, config: Config, path: Seq<char>, timestamp: Seq<char>) -> bool {
    let (target, _, inject) = spec_route_target(config, path);
    match spec_route_url(config, path) {
        Some(u) => match a {
            RouteAction::Forward { url, inject: i, proxy_path } => url@ == u && i == inject
                && proxy_path@ == target + path,
            RouteAction::Reply(_) => false,
        },
        None => match a {
            RouteAction::Forward { .. } => false,
            RouteAction::Reply(out) => outcome_is(
                out,
                500,
                "Failed to proxy request"@,
                "error"@,
                path,
                Seq::empty(),
                timestamp,
            ),
        },
    }
}

fn outcome(status: u16, body: &str, event: &str, req_path: &str, proxy_path: String, timestamp: String) -> (out: RouteOutcome)
    ensures
        outcome_is(out, status, body@, event@, req_path@, proxy_path@, timestamp@),
{
    RouteOutcome {
        status,
        body: body.to_owned(),
        event: LogEvent {
            timestamp,
            event: event.to_owned(),
            req_path: req_path.to_owned(),
            proxy_path,
            status,
        },
    }
}

fn failed(req_path: &str, timestamp: String) -> (a: RouteAction)
    ensures
        a matches RouteAction::Reply(out) && outcome_is(
            out,
            500,
            "Failed to proxy request"@,
            "error"@,
            req_path@,
            Seq::empty(),
            timestamp@,
        ),
{
    RouteAction::Reply(outcome(500, "Failed to proxy request", "error", req_path, String::new(), timestamp))
}

fn forward(url: String, inject: Option<String>, target: &str, req_path: &str) -> (a: RouteAction)
    ensures
        a matches RouteAction::Forward { url: u, inject: i, proxy_path } && u == url && i == inject
            && proxy_path@ == target@ + req_path@,
{
    let mut proxy_path = target.to_owned();
    proxy_path.append(req_path);
    RouteAction::Forward { url, inject, proxy_path }
}

/// Decides what to do with a request for `req_path`: forward it to the
/// target URL of the matched location (or of the default target when no
/// location matches), or answer 500 where that URL cannot be built.
pub fn route_request(config: &Config, req_path: &str, timestamp: String) -> (a: RouteAction)
    ensures
        action_is_correct(a, *config, req_path@, timestamp@),
{
    match find_match(config.locations.as_slice(), req_path) {
        Some(location) => {
            match build_target_url(location, req_path) {
                Ok(url) => {
                    let inject = match &location.inject {
                        Some(s) => Some(s.clone()),
                        None => None,
                    };
                    forward(url, inject, location.target.as_str(), req_path)
                },
                Err(_) => failed(req_path, timestamp),
            }
        },
        None => {
            let target = config.default_target.as_str();
            match target_url_for_path(target, req_path) {
                Ok(url) => forward(url, None, target, req_path),
                Err(_) => failed(req_path, timestamp),
            }
        },
    }
}

/// The event that records a request forwarded to `proxy_path`, whose
/// upstream reply had `status`.
pub fn proxied_event(req_path: &str, proxy_path: &str, status: u16, timestamp: String) -> (e: LogEvent)
    ensures
        e.event@ == "proxy"@,
        e.req_path@ == req_path@,
        e.proxy_path@ == proxy_path@,
        e.status == status,
        e.timestamp@ == timestamp@,
{
    LogEvent {
        timestamp,
        event: "proxy".to_owned(),
        req_path: req_path.to_owned(),
        proxy_path: proxy_path.to_owned(),
        status,
    }
}

/// The answer when the upstream of a request forwarded to `proxy_path`
/// cannot be reached: 502.
pub fn upstream_failure(req_path: &str, proxy_path: &str, timestamp: String) -> (out: RouteOutcome)
    ensures
        outcome_is(out, 502, "Bad gateway"@, "error"@, req_path@, proxy_path@, timestamp@),
{
    outcome(502, "Bad gateway", "error", req_path, proxy_path.to_owned(), timestamp)
}

/// A request for a path that no location's rule applies to is forwarded to
/// the default target with its own path, without injection, wherever that
/// URL can be built.
pub proof fn law_unmatched_goes_to_default_target(
    a: RouteAction,
    config: Config,
    path: Seq<char>,
    timestamp: Seq<char>,
)
    requires
        forall|j: int|
            0 <= j < config.locations@.len() ==> !rule_applies(#[trigger] config.locations@[j], path),
        spec_target_url(config.default_target@, path) is Ok,
        action_is_correct(a, config, path, timestamp),
    ensures
        a matches RouteAction::Forward { url, inject, proxy_path } && url@ == spec_target_url(
            config.default_target@,
            path,
        )->Ok_0 && inject is None && proxy_path@ == config.default_target@ + path,
{
    law_no_match_iff_nothing_applies(config.locations@, path);
}

/// A request routed to a location is forwarded with that location's
/// injection, so the body sent back for the upstream reply is the reply with
/// the injection placed into it when it is HTML, and the reply unchanged otherwise.
pub proof fn law_forwarded_reply_gets_location_injection(
    a: RouteAction,
    config: Config,
    path: Seq<char>,
    timestamp: Seq<char>,
    content_type: Option<&str>,
    body: Seq<char>,
)
    requires
        spec_find_match(config.locations@, path) is Some,
        action_is_correct(a, config, path, timestamp),
        a is Forward,
    ensures
        a matches RouteAction::Forward { inject, .. } && spec_injected_body(inject, content_type, body)
            == spec_response_body(
            config.locations@[spec_find_match(config.locations@, path)->0],
            content_type,
            body,
        ),
{
}

} // verus!
