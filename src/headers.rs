//! Header fields and the rules that decide which of them travel.
use vstd::prelude::*;

verus! {

/// One header line: a name and the raw bytes of its value.
pub struct HeaderField {
    pub name: String,
    pub value: Vec<u8>,
}

impl View for HeaderField {
    type V = (Seq<char>, Seq<u8>);

    open spec fn view(&self) -> (Seq<char>, Seq<u8>) {
        (self.name@, self.value@)
    }
}

/// The header lines of a message, as name and value pairs in their order.
pub open spec fn fields_of(hs: Seq<HeaderField>) -> Seq<(Seq<char>, Seq<u8>)> {
    hs.map_values(|h: HeaderField| h@)
}

/// Whether the bytes of `name` form a header name that the wire format accepts.
pub uninterp spec fn header_name_accepts(name: Seq<char>) -> bool;

/// A byte that may stand in a header value: visible ASCII, obs-text or a tab.
pub open spec fn value_byte_ok(b: u8) -> bool {
    (b >= 32 && b != 127) || b == 9
}

/// Whether every byte of a header value may travel on the wire.
pub open spec fn value_ok(v: Seq<u8>) -> bool {
    forall|i: int| 0 <= i < v.len() ==> value_byte_ok(#[trigger] v[i])
}

/// Whether a header line can be written on the wire as it stands.
pub open spec fn transmissible(h: (Seq<char>, Seq<u8>)) -> bool {
    header_name_accepts(h.0) && value_ok(h.1)
}

/// ASCII letters folded to lower case, as code points.
pub open spec fn fold_char(c: char) -> u32 {
    if 65 <= (c as u32) && (c as u32) <= 90 {
        (c as u32 + 32) as u32
    } else {
        c as u32
    }
}

/// Equality of two names up to ASCII case.
pub open spec fn same_ignoring_case(a: Seq<char>, b: Seq<char>) -> bool {
    a.len() == b.len() && forall|i: int| 0 <= i < a.len() ==> fold_char(#[trigger] a[i]) == fold_char(b[i])
}

pub open spec fn host_name() -> Seq<char> {
    seq!['h', 'o', 's', 't']
}

pub open spec fn content_length_name() -> Seq<char> {
    seq!['c', 'o', 'n', 't', 'e', 'n', 't', '-', 'l', 'e', 'n', 'g', 't', 'h']
}

/// Headers that the outbound transport writes itself, and that are therefore
/// never copied onto a forwarded request.
pub open spec fn regenerated(name: Seq<char>) -> bool {
    same_ignoring_case(name, host_name()) || same_ignoring_case(name, content_length_name())
}

/// Whether an inbound header line is copied onto the forwarded request.
pub open spec fn forwarded(h: (Seq<char>, Seq<u8>)) -> bool {
    !regenerated(h.0) && transmissible(h)
}

/// The header lines of a forwarded request, in their inbound order.
pub open spec fn request_headers_of(hs: Seq<(Seq<char>, Seq<u8>)>) -> Seq<(Seq<char>, Seq<u8>)> {
    hs.filter(|h: (Seq<char>, Seq<u8>)| forwarded(h))
}

/// The header lines relayed back to a client, in their upstream order.
pub open spec fn response_headers_of(hs: Seq<(Seq<char>, Seq<u8>)>) -> Seq<(Seq<char>, Seq<u8>)> {
    hs.filter(|h: (Seq<char>, Seq<u8>)| transmissible(h))
}

/// Relies on http's `HeaderName::from_bytes`: whether it accepts the bytes of the name.
#[verifier::external_body]
fn name_is_valid(name: &str) -> (r: bool)
    ensures
        r == header_name_accepts(name@),
{
    axum::http::HeaderName::from_bytes(name.as_bytes()).is_ok()
}

/// Relies on http's `HeaderValue::from_bytes`: it refuses a value exactly when one
/// of its bytes is a control character other than a tab.
#[verifier::external_body]
fn value_is_valid(value: &[u8]) -> (r: bool)
    ensures
        r == value_ok(value@),
{
    axum::http::HeaderValue::from_bytes(value).is_ok()
}

/// Whether a header line can be written on the wire as it stands.
pub fn is_transmissible(h: &HeaderField) -> (r: bool)
    ensures
        r == transmissible(h@),
{
    name_is_valid(h.name.as_str()) && value_is_valid(h.value.as_slice())
}

/// Whether two names are equal up to ASCII case.
pub fn eq_ignoring_case(a: &str, b: &str) -> (r: bool)
    ensures
        r == same_ignoring_case(a@, b@),
{
    let n = a.unicode_len();
    if n != b.unicode_len() {
        return false;
    }
    let mut i: usize = 0;
    while i < n
        invariant
            n == a@.len(),
            n == b@.len(),
            i <= n,
            forall|j: int| 0 <= j < i ==> fold_char(#[trigger] a@[j]) == fold_char(b@[j]),
        decreases n - i,
    {
        let x = a.get_char(i) as u32;
        let y = b.get_char(i) as u32;
        let fx: u32 = if 65 <= x && x <= 90 { x + 32 } else { x };
        let fy: u32 = if 65 <= y && y <= 90 { y + 32 } else { y };
        if fx != fy {
            assert(fold_char(a@[i as int]) != fold_char(b@[i as int]));
            return false;
        }
        i = i + 1;
    }
    true
}

/// Whether a header is one that the outbound transport writes itself
/// (`host` or `content-length`, in any case).
pub fn is_regenerated(name: &str) -> (r: bool)
    ensures
        r == regenerated(name@),
{
    let host = "host";
    let length = "content-length";
    proof {
        reveal_strlit("host");
        reveal_strlit("content-length");
        assert(host@ =~= host_name());
        assert(length@ =~= content_length_name());
    }
    eq_ignoring_case(name, host) || eq_ignoring_case(name, length)
}

/// A copy of a header line.
pub fn copy_field(h: &HeaderField) -> (r: HeaderField)
    ensures
        r@ == h@,
{
    let value = h.value.clone();
    assert(value@ =~= h.value@);
    HeaderField { name: h.name.clone(), value }
}

proof fn lemma_filter_step(
    hs: Seq<(Seq<char>, Seq<u8>)>,
    i: int,
    keep: spec_fn((Seq<char>, Seq<u8>)) -> bool,
)
    requires
        0 <= i < hs.len(),
    ensures
        hs.subrange(0, i + 1).filter(keep) == if keep(hs[i]) {
            hs.subrange(0, i).filter(keep).push(hs[i])
        } else {
            hs.subrange(0, i).filter(keep)
        },
{
    reveal(Seq::filter);
    assert(hs.subrange(0, i + 1).drop_last() =~= hs.subrange(0, i));
}

/// The header lines copied onto a forwarded request: every inbound line in its
/// order, but for `host`, `content-length` and lines that cannot travel.
pub fn forward_request_headers(hs: &Vec<HeaderField>) -> (r: Vec<HeaderField>)
    ensures
        fields_of(r@) == request_headers_of(fields_of(hs@)),
{
    let ghost keep = |h: (Seq<char>, Seq<u8>)| forwarded(h);
    let ghost all = fields_of(hs@);
    let mut out: Vec<HeaderField> = Vec::new();
    let mut i: usize = 0;
    while i < hs.len()
        invariant
            i <= hs@.len(),
            all == fields_of(hs@),
            keep == (|h: (Seq<char>, Seq<u8>)| forwarded(h)),
            fields_of(out@) == all.subrange(0, i as int).filter(keep),
        decreases hs@.len() - i,
    {
        let h = &hs[i];
        proof {
            lemma_filter_step(all, i as int, keep);
        }
        assert(all[i as int] == h@);
        let kept = !is_regenerated(h.name.as_str()) && is_transmissible(h);
        assert(kept == keep(all[i as int]));
        if kept {
            let c = copy_field(h);
            out.push(c);
            assert(fields_of(out@) =~= all.subrange(0, i as int).filter(keep).push(all[i as int]));
        }
        i = i + 1;
    }
    assert(all.subrange(0, hs@.len() as int) =~= all);
    out
}

/// The header lines relayed back to a client: every upstream line in its order,
/// but for lines that cannot travel.
pub fn relay_response_headers(hs: &Vec<HeaderField>) -> (r: Vec<HeaderField>)
    ensures
        fields_of(r@) == response_headers_of(fields_of(hs@)),
{
    let ghost keep = |h: (Seq<char>, Seq<u8>)| transmissible(h);
    let ghost all = fields_of(hs@);
    let mut out: Vec<HeaderField> = Vec::new();
    let mut i: usize = 0;
    while i < hs.len()
        invariant
            i <= hs@.len(),
            all == fields_of(hs@),
            keep == (|h: (Seq<char>, Seq<u8>)| transmissible(h)),
            fields_of(out@) == all.subrange(0, i as int).filter(keep),
        decreases hs@.len() - i,
    {
        let h = &hs[i];
        proof {
            lemma_filter_step(all, i as int, keep);
        }
        assert(all[i as int] == h@);
        let kept = is_transmissible(h);
        assert(kept == keep(all[i as int]));
        if kept {
            let c = copy_field(h);
            out.push(c);
            assert(fields_of(out@) =~= all.subrange(0, i as int).filter(keep).push(all[i as int]));
        }
        i = i + 1;
    }
    assert(all.subrange(0, hs@.len() as int) =~= all);
    out
}

} // verus!
