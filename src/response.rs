//! What the client is sent back, and the cross-origin policy every reply carries.
use vstd::prelude::*;
use crate::headers::{HeaderField, fields_of};

verus! {

/// A reply to the client: status code, header lines in order, and body bytes.
pub struct ClientResponse {
    pub status: u16,
    pub headers: Vec<HeaderField>,
    pub body: Vec<u8>,
}

pub const OK: u16 = 200;

pub const NOT_FOUND: u16 = 404;

pub const BAD_GATEWAY: u16 = 502;

/// The header line that lets a page of any origin read a reply.
pub open spec fn allow_origin_field() -> (Seq<char>, Seq<u8>) {
    ("access-control-allow-origin"@, seq![42u8])
}

/// Whether a reply lets a page of any origin read it.
pub open spec fn allows_any_origin(r: ClientResponse) -> bool {
    fields_of(r.headers@).contains(allow_origin_field())
}

/// The header line `access-control-allow-origin: *`.
pub fn allow_any_origin() -> (r: HeaderField)
    ensures
        r@ == allow_origin_field(),
{
    let value: Vec<u8> = vec![42u8];
    assert(value@ =~= seq![42u8]);
    HeaderField { name: String::from_str("access-control-allow-origin"), value }
}

/// A reply with the given status, no body, and only the cross-origin line.
pub fn empty_reply(status: u16) -> (r: ClientResponse)
    ensures
        r.status == status,
        r.body@.len() == 0,
        fields_of(r.headers@) == seq![allow_origin_field()],
        allows_any_origin(r),
{
    let mut headers: Vec<HeaderField> = Vec::new();
    headers.push(allow_any_origin());
    let r = ClientResponse { status, headers, body: Vec::new() };
    assert(fields_of(r.headers@) =~= seq![allow_origin_field()]);
    assert(fields_of(r.headers@)[0] == allow_origin_field());
    r
}

/// The reply when the upstream cannot be reached: Bad Gateway with an empty body.
pub fn bad_gateway() -> (r: ClientResponse)
    ensures
        r.status == BAD_GATEWAY,
        r.body@.len() == 0,
        fields_of(r.headers@) == seq![allow_origin_field()],
        allows_any_origin(r),
{
    empty_reply(BAD_GATEWAY)
}

/// The reply for a path that names no static file: Not Found with an empty body.
pub fn not_found() -> (r: ClientResponse)
    ensures
        r.status == NOT_FOUND,
        r.body@.len() == 0,
        fields_of(r.headers@) == seq![allow_origin_field()],
        allows_any_origin(r),
{
    empty_reply(NOT_FOUND)
}

} // verus!
