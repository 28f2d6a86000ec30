//! The forwarder: turns an inbound request under the API prefix into the request
//! sent upstream, and the upstream's answer into the client's reply.
use vstd::prelude::*;
use crate::headers::{
    HeaderField, fields_of, request_headers_of, response_headers_of, forward_request_headers,
    relay_response_headers,
};
use crate::response::{ClientResponse, allow_origin_field, allows_any_origin, allow_any_origin, bad_gateway, BAD_GATEWAY};

verus! {

/// Settings fixed at startup: the upstream base URL and the path prefix that
/// marks a request for forwarding.
pub struct ProxyConfig {
    pub upstream: String,
    pub prefix: String,
}

/// A request as it arrived: method, path, raw query string (without `?`),
/// header lines and body.
pub struct InboundRequest {
    pub method: String,
    pub path: String,
    pub query: Option<String>,
    pub headers: Vec<HeaderField>,
    pub body: Vec<u8>,
}

/// The request to send upstream. `body` is `None` when nothing is to be attached.
pub struct OutboundRequest {
    pub method: String,
    pub url: String,
    pub headers: Vec<HeaderField>,
    pub body: Option<Vec<u8>>,
}

/// What the upstream answered.
pub struct UpstreamResponse {
    pub status: u16,
    pub headers: Vec<HeaderField>,
    pub body: Vec<u8>,
}

/// Whether `p` begins with `pre`.
pub open spec fn has_prefix(p: Seq<char>, pre: Seq<char>) -> bool {
    pre.len() <= p.len() && p.subrange(0, pre.len() as int) == pre
}

/// The characters of an optional string.
pub open spec fn opt_view(q: Option<String>) -> Option<Seq<char>> {
    match q {
        Some(s) => Some(s@),
        None => None,
    }
}

/// What follows the path in the upstream URL: `?` and the query, if there is one.
pub open spec fn query_suffix(q: Option<Seq<char>>) -> Seq<char> {
    match q {
        Some(s) => seq!['?'] + s,
        None => Seq::empty(),
    }
}

/// The path with the prefix taken off.
pub open spec fn rest_of(path: Seq<char>, prefix: Seq<char>) -> Seq<char> {
    path.subrange(prefix.len() as int, path.len() as int)
}

/// The upstream URL for a path under the prefix: the base URL, the rest of the
/// path, and the query string verbatim.
pub open spec fn upstream_url_of(
    base: Seq<char>,
    prefix: Seq<char>,
    path: Seq<char>,
    query: Option<Seq<char>>,
) -> Seq<char> {
    base + rest_of(path, prefix) + query_suffix(query)
}

/// The forwarded request for `req` under `cfg`.
pub open spec fn outbound_matches(cfg: ProxyConfig, req: InboundRequest, out: OutboundRequest) -> bool {
    &&& out.method@ == req.method@
    &&& out.url@ == upstream_url_of(cfg.upstream@, cfg.prefix@, req.path@, opt_view(req.query))
    &&& fields_of(out.headers@) == request_headers_of(fields_of(req.headers@))
    &&& (req.body@.len() == 0 ==> out.body is None)
    &&& (req.body@.len() != 0 ==> out.body == Some(req.body))
}

/// The reply relayed from an upstream answer, or Bad Gateway when there was none.
pub open spec fn relayed(upstream: Option<UpstreamResponse>, r: ClientResponse) -> bool {
    match upstream {
        Some(u) => {
            &&& r.status == u.status
            &&& r.body@ == u.body@
            &&& fields_of(r.headers@) == response_headers_of(fields_of(u.headers@)).push(
                allow_origin_field(),
            )
        },
        None => {
            &&& r.status == BAD_GATEWAY
            &&& r.body@.len() == 0
            &&& fields_of(r.headers@) == seq![allow_origin_field()]
        },
    }
}

impl ProxyConfig {
    /// A configuration that forwards paths under `/api` to `upstream`.
    pub fn new(upstream: String) -> (r: ProxyConfig)
        ensures
            r.upstream@ == upstream@,
            r.prefix@ == "/api"@,
    {
        ProxyConfig { upstream, prefix: String::from_str("/api") }
    }

    /// A configuration that forwards paths under `prefix` to `upstream`.
    pub fn with_prefix(upstream: String, prefix: String) -> (r: ProxyConfig)
        ensures
            r.upstream@ == upstream@,
            r.prefix@ == prefix@,
    {
        ProxyConfig { upstream, prefix }
    }
}

/// Whether `path` begins with `prefix`.
pub fn starts_with(path: &str, prefix: &str) -> (r: bool)
    ensures
        r == has_prefix(path@, prefix@),
{
    let n = prefix.unicode_len();
    let m = path.unicode_len();
    if n > m {
        return false;
    }
    let mut i: usize = 0;
    while i < n
        invariant
            n == prefix@.len(),
            m == path@.len(),
            n <= m,
            i <= n,
            forall|j: int| 0 <= j < i ==> path@[j] == prefix@[j],
        decreases n - i,
    {
        if path.get_char(i) != prefix.get_char(i) {
            assert(path@.subrange(0, n as int)[i as int] != prefix@[i as int]);
            return false;
        }
        i = i + 1;
    }
    assert(path@.subrange(0, n as int) =~= prefix@);
    true
}

/// The URL a request under the prefix is sent to: the upstream base URL, the
/// path without the prefix, and `?` with the query string as it came.
pub fn upstream_url(cfg: &ProxyConfig, path: &str, query: &Option<String>) -> (r: String)
    requires
        has_prefix(path@, cfg.prefix@),
    ensures
        r@ == upstream_url_of(cfg.upstream@, cfg.prefix@, path@, opt_view(*query)),
{
    let n = cfg.prefix.as_str().unicode_len();
    let m = path.unicode_len();
    let rest = path.substring_char(n, m);
    let mut url = cfg.upstream.clone();
    url.append(rest);
    match query {
        Some(q) => {
            url.append("?");
            url.append(q.as_str());
            proof {
                reveal_strlit("?");
            }
            assert(url@ =~= upstream_url_of(cfg.upstream@, cfg.prefix@, path@, opt_view(*query)));
        },
        None => {
            assert(url@ =~= upstream_url_of(cfg.upstream@, cfg.prefix@, path@, opt_view(*query)));
        },
    }
    url
}

/// The request to send upstream for an inbound request under the prefix: same
/// method; the URL of `upstream_url`; the inbound header lines but `host`,
/// `content-length` and those that cannot travel; the body only if it is not empty.
pub fn plan_outbound(cfg: &ProxyConfig, req: InboundRequest) -> (out: OutboundRequest)
    requires
        has_prefix(req.path@, cfg.prefix@),
    ensures
        outbound_matches(*cfg, req, out),
{
    let url = upstream_url(cfg, req.path.as_str(), &req.query);
    let headers = forward_request_headers(&req.headers);
    let InboundRequest { method, path: _, query: _, headers: _, body } = req;
    let body = if body.len() == 0 {
        None
    } else {
        Some(body)
    };
    OutboundRequest { method, url, headers, body }
}

/// The client's reply to a forwarded request: with an upstream answer, its status,
/// its header lines but those that cannot travel, and its body; without one
/// (the upstream could not be reached), Bad Gateway with an empty body. Either
/// way the cross-origin line comes last.
pub fn relay(upstream: Option<UpstreamResponse>) -> (r: ClientResponse)
    ensures
        relayed(upstream, r),
        allows_any_origin(r),
{
    match upstream {
        Some(u) => {
            let mut headers = relay_response_headers(&u.headers);
            let ghost kept = fields_of(headers@);
            headers.push(allow_any_origin());
            assert(fields_of(headers@) =~= kept.push(allow_origin_field()));
            assert(fields_of(headers@)[kept.len() as int] == allow_origin_field());
            ClientResponse { status: u.status, headers, body: u.body }
        },
        None => bad_gateway(),
    }
}

} // verus!
