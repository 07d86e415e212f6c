//! The decisions of one exchange between the outside steps that carry it
//! out (reading the request, calling upstream, waiting out a drop): what to
//! log for each direction, and what to do next.
use vstd::prelude::*;
use crate::colors::Colors;
use crate::packet::{request_side, PacketType};
use crate::rpc::{get_rpc_modules_override, is_rpc_modules_request, modules_reply, string_views};
use crate::suppress::{lemma_dropped_logged_in_full, log_plan, planned, suppress_log, suppression, SuppressRules};

verus! {

/// The configuration shared by every exchange: the suppression rules, the
/// modules that `rpc_modules` is answered with locally (if it is), whether
/// headers are logged, and the colors of the log.
pub struct ProxyConfig {
    pub rules: SuppressRules,
    pub override_rpc: Option<Vec<String>>,
    pub log_headers: bool,
    pub colors: Colors,
}

/// The modules answered locally: those given, else `eth`, `net` and `web3`
/// when the override is asked for without a list, else none.
pub open spec fn override_list(fix_attach: bool, modules: Option<Seq<Seq<char>>>) -> Option<Seq<Seq<char>>> {
    match modules {
        Some(ms) => Some(ms),
        None => if fix_attach {
            Some(seq!["eth"@, "net"@, "web3"@])
        } else {
            None
        },
    }
}

/// The modules that `rpc_modules` is answered with locally, if any.
pub fn override_modules(fix_attach: bool, modules: Option<Vec<String>>) -> (r: Option<Vec<String>>)
    ensures
        match r {
            Some(v) => override_list(fix_attach, match modules { Some(m) => Some(string_views(m@)), None => None })
                == Some(string_views(v@)),
            None => override_list(fix_attach, match modules { Some(m) => Some(string_views(m@)), None => None })
                is None,
        },
{
    match modules {
        Some(m) => Some(m),
        None => {
            if fix_attach {
                let v = vec![String::from_str("eth"), String::from_str("net"), String::from_str("web3")];
                assert(string_views(v@) =~= seq!["eth"@, "net"@, "web3"@]);
                Some(v)
            } else {
                None
            }
        },
    }
}

/// The characters of an optional string.
pub open spec fn opt_view(o: Option<&str>) -> Option<Seq<char>> {
    match o {
        Some(s) => Some(s@),
        None => None,
    }
}

/// What follows the request's log entry.
pub enum RequestStep {
    /// Wait this many milliseconds, then fail the exchange unanswered.
    Drop(u64),
    /// Answer locally with this body, without calling upstream.
    Override(String),
    /// Send the request upstream.
    Forward,
}

/// What follows the response's log entry.
pub enum ResponseStep {
    /// Wait this many milliseconds, then fail the exchange unanswered.
    Drop(u64),
    /// Hand the response to the caller.
    Deliver,
}

/// The step after the request is logged: a dropped request fails after its
/// delay; a call of `rpc_modules`, when overridden, is answered locally;
/// anything else goes upstream.
pub fn request_step(config: &ProxyConfig, request_type: PacketType, rpc_method: Option<&str>) -> (r: RequestStep)
    ensures
        request_type matches PacketType::RequestDropped(d) ==> r == RequestStep::Drop(d),
        !(request_type is RequestDropped) && config.override_rpc is Some
            && (rpc_method matches Some(m) && m@ == "rpc_modules"@)
            ==> (r matches RequestStep::Override(body)
                && body@ == modules_reply(string_views(config.override_rpc->0@))),
        !(request_type is RequestDropped) && !(config.override_rpc is Some
            && (rpc_method matches Some(m) && m@ == "rpc_modules"@)) ==> r is Forward,
{
    if let PacketType::RequestDropped(delay) = request_type {
        return RequestStep::Drop(delay);
    }
    match &config.override_rpc {
        Some(modules) => {
            if is_rpc_modules_request(rpc_method) {
                RequestStep::Override(get_rpc_modules_override(modules))
            } else {
                RequestStep::Forward
            }
        },
        None => RequestStep::Forward,
    }
}

/// The step after the response is logged: a dropped response fails after
/// its delay; any other is delivered.
pub fn response_step(response_type: PacketType) -> (r: ResponseStep)
    ensures
        response_type matches PacketType::ResponseDropped(d) ==> r == ResponseStep::Drop(d),
        !(response_type is ResponseDropped) ==> r is Deliver,
{
    match response_type {
        PacketType::ResponseDropped(delay) => ResponseStep::Drop(delay),
        _ => ResponseStep::Deliver,
    }
}

/// What to log of one direction of an exchange (`message_type` is
/// `Request` or `Response`): the body and label, or `None` for nothing. A
/// dropped exchange is logged in full.
pub fn plan_entry(
    config: &ProxyConfig,
    message_type: PacketType,
    rpc_method: Option<&str>,
    request_path: &str,
    request_type: PacketType,
    response_type: PacketType,
    json: &str,
) -> (r: Option<(String, String)>)
    ensures
        ({
            let decision = suppression(
                message_type,
                opt_view(rpc_method),
                request_path@,
                request_type,
                response_type,
                config.rules,
            );
            match r {
                Some((body, label)) => planned(message_type, decision, json@, request_path@) == Some((body@, label@)),
                None => planned(message_type, decision, json@, request_path@) is None,
            }
        }),
        request_type.dropped() || response_type.dropped() ==> (r matches Some((body, label))
            && body@ == json@
            && label@ == if request_side(message_type) { request_path@ } else { Seq::<char>::empty() }),
{
    let decision = suppress_log(message_type, rpc_method, request_path, request_type, response_type, &config.rules);
    proof {
        if request_type.dropped() || response_type.dropped() {
            lemma_dropped_logged_in_full(
                message_type,
                opt_view(rpc_method),
                request_path@,
                request_type,
                response_type,
                config.rules,
                json@,
            );
        }
    }
    log_plan(message_type, decision, json, request_path)
}

} // verus!
