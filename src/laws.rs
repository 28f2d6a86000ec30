//! Properties of the edge as a whole, stated over the contracts of `handle`,
//! `relay` and `serve_static`.
use vstd::prelude::*;
use crate::edge::{Action, handled};
use crate::headers::{fields_of, forwarded, regenerated};
use crate::proxy::{
    ProxyConfig, InboundRequest, UpstreamResponse, has_prefix, rest_of, relayed,
};
use crate::response::{ClientResponse, allow_origin_field, allows_any_origin};

verus! {

broadcast use vstd::seq_lib::group_filter_ensures;

/// A request whose path begins with the prefix is forwarded, and its URL begins
/// with the upstream base URL followed by the path with the prefix removed.
pub proof fn lemma_forwarded_path(
    cfg: ProxyConfig,
    files: Map<Seq<char>, Seq<u8>>,
    req: InboundRequest,
    a: Action,
)
    requires
        handled(cfg, files, req, a),
        has_prefix(req.path@, cfg.prefix@),
    ensures
        a matches Action::Forward(out) && {
            let target = cfg.upstream@ + rest_of(req.path@, cfg.prefix@);
            &&& target.len() <= out.url@.len()
            &&& out.url@.subrange(0, target.len() as int) == target
            &&& req.query is None ==> out.url@ == target
        },
{
    if let Action::Forward(out) = a {
        let target = cfg.upstream@ + rest_of(req.path@, cfg.prefix@);
        assert(out.url@.subrange(0, target.len() as int) =~= target);
        if req.query is None {
            assert(out.url@ =~= target);
        }
    }
}

/// The query string of a forwarded request ends its URL byte for byte, after a `?`.
pub proof fn lemma_query_verbatim(
    cfg: ProxyConfig,
    files: Map<Seq<char>, Seq<u8>>,
    req: InboundRequest,
    a: Action,
    q: String,
)
    requires
        handled(cfg, files, req, a),
        has_prefix(req.path@, cfg.prefix@),
        req.query == Some(q),
    ensures
        a matches Action::Forward(out) && {
            let n = out.url@.len();
            &&& q@.len() < n
            &&& out.url@[n - q@.len() - 1] == '?'
            &&& out.url@.subrange(n - q@.len(), n as int) == q@
        },
{
    if let Action::Forward(out) = a {
        let n = out.url@.len();
        assert(out.url@.subrange(n - q@.len(), n as int) =~= q@);
    }
}

/// Every inbound header line but `host` and `content-length` (in any case) is on
/// the forwarded request with the same name and value, provided the line can be
/// written on the wire; and no `host` or `content-length` line is.
pub proof fn lemma_headers_copied(
    cfg: ProxyConfig,
    files: Map<Seq<char>, Seq<u8>>,
    req: InboundRequest,
    a: Action,
)
    requires
        handled(cfg, files, req, a),
        has_prefix(req.path@, cfg.prefix@),
    ensures
        a matches Action::Forward(out) && {
            &&& forall|i: int|
                0 <= i < req.headers@.len() && forwarded(#[trigger] req.headers@[i]@)
                    ==> fields_of(out.headers@).contains(req.headers@[i]@)
            &&& forall|j: int|
                0 <= j < out.headers@.len() ==> !regenerated(#[trigger] out.headers@[j].name@)
        },
{
    if let Action::Forward(out) = a {
        let keep = |h: (Seq<char>, Seq<u8>)| forwarded(h);
        let inbound = fields_of(req.headers@);
        assert(fields_of(out.headers@) == inbound.filter(keep));
        assert forall|i: int|
            0 <= i < req.headers@.len() && forwarded(#[trigger] req.headers@[i]@)
                implies fields_of(out.headers@).contains(req.headers@[i]@) by {
            assert(inbound[i] == req.headers@[i]@);
            assert(keep(inbound[i]));
            assert(inbound.filter(keep).contains(inbound[i]));
        }
        assert forall|j: int| 0 <= j < out.headers@.len() implies !regenerated(
            #[trigger] out.headers@[j].name@,
        ) by {
            assert(fields_of(out.headers@)[j] == out.headers@[j]@);
            assert(keep(inbound.filter(keep)[j]));
        }
    }
}

/// An empty inbound body is not attached to the forwarded request; any other is
/// attached byte for byte.
pub proof fn lemma_body_presence(
    cfg: ProxyConfig,
    files: Map<Seq<char>, Seq<u8>>,
    req: InboundRequest,
    a: Action,
)
    requires
        handled(cfg, files, req, a),
        has_prefix(req.path@, cfg.prefix@),
    ensures
        a matches Action::Forward(out) && {
            &&& (req.body@.len() == 0 <==> out.body is None)
            &&& (out.body matches Some(b) ==> b@ == req.body@)
        },
{
}

/// When the upstream cannot be reached the client gets exactly Bad Gateway and an
/// empty body.
pub proof fn lemma_unreachable_is_bad_gateway(r: ClientResponse)
    requires
        relayed(None, r),
    ensures
        r.status == 502,
        r.body@.len() == 0,
{
}

/// An upstream answer reaches the client with its status and body unchanged.
pub proof fn lemma_answer_relayed(u: UpstreamResponse, r: ClientResponse)
    requires
        relayed(Some(u), r),
    ensures
        r.status == u.status,
        r.body@ == u.body@,
{
}

/// Every reply that `handle` gives directly, from the bundled files, lets a page
/// of any origin read it.
pub proof fn lemma_replies_allow_any_origin(
    cfg: ProxyConfig,
    files: Map<Seq<char>, Seq<u8>>,
    req: InboundRequest,
    a: Action,
)
    requires
        handled(cfg, files, req, a),
    ensures
        a matches Action::Reply(r) ==> allows_any_origin(r),
{
    if let Action::Reply(r) = a {
        let hs = fields_of(r.headers@);
        assert(hs[hs.len() - 1] == allow_origin_field());
    }
}

/// Every reply to a forwarded request, relayed or Bad Gateway, lets a page of any
/// origin read it.
pub proof fn lemma_relayed_allows_any_origin(upstream: Option<UpstreamResponse>, r: ClientResponse)
    requires
        relayed(upstream, r),
    ensures
        allows_any_origin(r),
{
    let hs = fields_of(r.headers@);
    assert(hs[hs.len() - 1] == allow_origin_field());
}

} // verus!
