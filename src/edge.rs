//! The dispatch of one inbound request: forward it, or answer it from the
//! bundled files.
use vstd::prelude::*;
use crate::assets::{bundled_files, served, serve_static};
use crate::proxy::{ProxyConfig, InboundRequest, OutboundRequest, has_prefix, outbound_matches, starts_with, plan_outbound};
use crate::response::ClientResponse;

verus! {

/// What to do with an inbound request.
pub enum Action {
    /// Send this request upstream, then hand the outcome to `relay`.
    Forward(OutboundRequest),
    /// Send this reply to the client.
    Reply(ClientResponse),
}

/// The action for `req`: forwarding when its path begins with the prefix, else
/// the reply from the bundled files `files`.
pub open spec fn handled(
    cfg: ProxyConfig,
    files: Map<Seq<char>, Seq<u8>>,
    req: InboundRequest,
    a: Action,
) -> bool {
    if has_prefix(req.path@, cfg.prefix@) {
        a matches Action::Forward(out) && outbound_matches(cfg, req, out)
    } else {
        a matches Action::Reply(r) && served(files, req.path@, r)
    }
}

/// Decides what to do with an inbound request: a path that begins with the
/// configured prefix is forwarded (see `plan_outbound`); any other is answered
/// from the bundled files (see `serve_static`).
pub fn handle(cfg: &ProxyConfig, assets: &include_dir::Dir<'static>, req: InboundRequest) -> (a: Action)
    ensures
        handled(*cfg, bundled_files(*assets), req, a),
{
    if starts_with(req.path.as_str(), cfg.prefix.as_str()) {
        Action::Forward(plan_outbound(cfg, req))
    } else {
        Action::Reply(serve_static(assets, req.path.as_str()))
    }
}

} // verus!
