//! The request forwarder's decision logic: whether to forward at all, the
//! exact outbound URL, which inbound headers travel along, and the metric
//! that each possible outcome leaves behind. The outbound call itself is
//! outside work done by the embedding layer; everything it acts on is
//! decided here under contract.

use crate::config::{header_view, ProxyConfig, SharedConfig};
use crate::metrics::{RequestMetric, SharedMetrics};
use vstd::prelude::*;
use vstd::string::{StrSliceExecFns, StringExecFns};

verus! {

/// What the forwarder does with one inbound request.
pub enum ProxyDecision {
    /// Proxy mode is off: answer locally (status 200 for metrics purposes).
    Disabled,
    /// Proxy mode is on but no target is configured: answer 502 locally,
    /// attempting no network call.
    NoTarget,
    /// Forward the request to this outbound URL.
    Forward {
        /// The target base (trailing slashes stripped) followed by the
        /// inbound path-and-query.
        url: String,
    },
}

/// A sequence of characters without its trailing slashes.
pub open spec fn strip_trailing_slashes(s: Seq<char>) -> Seq<char>
    decreases s.len(),
{
    if s.len() > 0 && s.last() == '/' {
        strip_trailing_slashes(s.drop_last())
    } else {
        s
    }
}

/// The outbound URL of a forwarded request: the target base, trailing
/// slashes stripped, followed by the inbound path-and-query verbatim.
pub open spec fn proxied_url_of(target: Seq<char>, path_and_query: Seq<char>) -> Seq<char> {
    strip_trailing_slashes(target) + path_and_query
}

/// A copy of `s` without its trailing slashes.
fn trim_trailing_slashes(s: &str) -> (r: String)
    ensures
        r@ == strip_trailing_slashes(s@),
{
    let mut end = s.unicode_len();
    proof {
        assert(s@.take(s@.len() as int) =~= s@);
    }
    while end > 0 && s.get_char(end - 1) == '/'
        invariant
            end <= s@.len(),
            strip_trailing_slashes(s@) == strip_trailing_slashes(s@.take(end as int)),
        decreases end,
    {
        proof {
            assert(s@.take(end as int).last() == s@[end as int - 1]);
            assert(s@.take(end as int).drop_last() =~= s@.take(end as int - 1));
        }
        end = end - 1;
    }
    let r = s.substring_char(0, end).to_owned();
    proof {
        assert(s@.subrange(0, end as int) =~= s@.take(end as int));
        if end > 0 {
            assert(s@.take(end as int).last() == s@[end as int - 1]);
        }
    }
    r
}

/// Builds the outbound URL for a forwarded request.
pub fn build_proxied_url(target: &str, path_and_query: &str) -> (r: String)
    ensures
        r@ == proxied_url_of(target@, path_and_query@),
{
    let mut r = trim_trailing_slashes(target);
    r.append(path_and_query);
    r
}

/// Decides what to do with one inbound request under the given proxy
/// configuration: answer locally when proxying is off, answer 502 locally
/// when no target is configured, and otherwise forward to the target base
/// (trailing slashes stripped) joined with the inbound path-and-query.
pub fn plan_proxy(proxy: &ProxyConfig, path_and_query: &str) -> (d: ProxyDecision)
    ensures
        match d {
            ProxyDecision::Disabled => !proxy@.enabled,
            ProxyDecision::NoTarget => proxy@.enabled && proxy@.target is None,
            ProxyDecision::Forward { url } => proxy@.enabled && (proxy@.target matches Some(t)
                && url@ == proxied_url_of(t, path_and_query@)),
        },
{
    if !proxy.enabled {
        return ProxyDecision::Disabled;
    }
    match &proxy.target {
        None => ProxyDecision::NoTarget,
        Some(t) => ProxyDecision::Forward { url: build_proxied_url(t.as_str(), path_and_query) },
    }
}

/// Whether a header name is `Host`, compared without regard to ASCII case
/// (HTTP header names are case-insensitive).
pub open spec fn is_host_name(s: Seq<char>) -> bool {
    &&& s.len() == 4
    &&& (s[0] == 'h' || s[0] == 'H')
    &&& (s[1] == 'o' || s[1] == 'O')
    &&& (s[2] == 's' || s[2] == 'S')
    &&& (s[3] == 't' || s[3] == 'T')
}

/// Whether a header name is `Host`, in any ASCII case.
pub fn is_host_header(name: &str) -> (r: bool)
    ensures
        r == is_host_name(name@),
{
    if name.unicode_len() != 4 {
        return false;
    }
    let c0 = name.get_char(0);
    let c1 = name.get_char(1);
    let c2 = name.get_char(2);
    let c3 = name.get_char(3);
    (c0 == 'h' || c0 == 'H') && (c1 == 'o' || c1 == 'O') && (c2 == 's' || c2 == 'S') && (c3 == 't'
        || c3 == 'T')
}

/// The headers that travel with a forwarded request: all inbound headers,
/// in order, except `Host`.
pub open spec fn non_host_headers(hs: Seq<(Seq<char>, Seq<char>)>) -> Seq<(Seq<char>, Seq<char>)>
    decreases hs.len(),
{
    if hs.len() == 0 {
        Seq::empty()
    } else {
        let prefix = non_host_headers(hs.drop_last());
        if is_host_name(hs.last().0) {
            prefix
        } else {
            prefix.push(hs.last())
        }
    }
}

/// Copies all inbound headers except `Host`, keeping their order (and any
/// duplicates) for the outbound request.
pub fn forward_headers(headers: &Vec<(String, String)>) -> (r: Vec<(String, String)>)
    ensures
        r@.map_values(|p: (String, String)| header_view(p)) == non_host_headers(
            headers@.map_values(|p: (String, String)| header_view(p)),
        ),
{
    let ghost hs = headers@.map_values(|p: (String, String)| header_view(p));
    let mut r: Vec<(String, String)> = Vec::new();
    let mut i: usize = 0;
    proof {
        assert(r@.map_values(|p: (String, String)| header_view(p)) =~= non_host_headers(
            hs.take(0),
        ));
    }
    while i < headers.len()
        invariant
            i <= headers@.len(),
            hs == headers@.map_values(|p: (String, String)| header_view(p)),
            hs.len() == headers@.len(),
            r@.map_values(|p: (String, String)| header_view(p)) == non_host_headers(
                hs.take(i as int),
            ),
        decreases headers@.len() - i,
    {
        proof {
            assert(hs.take(i as int + 1).drop_last() =~= hs.take(i as int));
            assert(hs.take(i as int + 1).last() == hs[i as int]);
            assert(hs[i as int] == header_view(headers@[i as int]));
        }
        let ghost prior = r@;
        if !is_host_header(headers[i].0.as_str()) {
            let name = headers[i].0.clone();
            let value = headers[i].1.clone();
            r.push((name, value));
            proof {
                assert(r@.map_values(|p: (String, String)| header_view(p)) =~= prior.map_values(
                    |p: (String, String)| header_view(p),
                ).push(hs[i as int]));
            }
        }
        i += 1;
    }
    proof {
        assert(hs.take(hs.len() as int) =~= hs);
    }
    r
}

/// The metric of a request answered locally because proxy mode is off:
/// status 200, not proxied.
pub fn disabled_metric(method: String, path: String, latency_ms: u64) -> (m: RequestMetric)
    ensures
        m@.method == method@,
        m@.path == path@,
        m@.status_code == Some(200u16),
        m@.latency_ms == latency_ms,
        m@.proxied == false,
{
    RequestMetric::new(method, path).with_status(200).with_latency(latency_ms).with_proxied(false)
}

/// The metric of a request refused because no proxy target is configured:
/// status 502, not proxied.
pub fn no_target_metric(method: String, path: String, latency_ms: u64) -> (m: RequestMetric)
    ensures
        m@.method == method@,
        m@.path == path@,
        m@.status_code == Some(502u16),
        m@.latency_ms == latency_ms,
        m@.proxied == false,
{
    RequestMetric::new(method, path).with_status(502).with_latency(latency_ms).with_proxied(false)
}

/// The metric of a forwarded request that got an upstream response: the real
/// status, proxied.
pub fn forwarded_metric(method: String, path: String, status: u16, latency_ms: u64) -> (m:
    RequestMetric)
    ensures
        m@.method == method@,
        m@.path == path@,
        m@.status_code == Some(status),
        m@.latency_ms == latency_ms,
        m@.proxied == true,
{
    RequestMetric::new(method, path).with_status(status).with_latency(latency_ms).with_proxied(true)
}

/// The metric of a forwarded request whose transport failed (timeout,
/// connection or name-resolution error): status 502, proxied.
pub fn forward_error_metric(method: String, path: String, latency_ms: u64) -> (m: RequestMetric)
    ensures
        m@.method == method@,
        m@.path == path@,
        m@.status_code == Some(502u16),
        m@.latency_ms == latency_ms,
        m@.proxied == true,
{
    RequestMetric::new(method, path).with_status(502).with_latency(latency_ms).with_proxied(true)
}

/// The body of the synthesized Bad Gateway answer after a transport failure:
/// it names the error.
pub fn proxy_error_body(error: &str) -> (r: String)
    ensures
        r@ == "Proxy error: "@ + error@,
{
    let mut r = "Proxy error: ".to_owned();
    r.append(error);
    r
}

/// What the forwarder works with: the shared configuration it consults per
/// request and the store it records every outcome into. The HTTP client that
/// performs the outbound calls belongs to the embedding layer.
pub struct ProxyState {
    /// Shared configuration (read per request).
    pub config: SharedConfig,
    /// Shared metrics store (one record appended per inbound request).
    pub metrics: SharedMetrics,
}

impl ProxyState {
    /// A new forwarder state over the shared configuration and store.
    pub fn new(config: SharedConfig, metrics: SharedMetrics) -> Self {
        ProxyState { config, metrics }
    }
}

} // verus!
