//! The static server: answers every path outside the API prefix from a bundled,
//! read-only set of files.
use vstd::prelude::*;
use crate::headers::{HeaderField, fields_of};
use crate::response::{ClientResponse, allow_origin_field, allows_any_origin, allow_any_origin, not_found, OK, NOT_FOUND};

verus! {

#[verifier::external_type_specification]
#[verifier::external_body]
pub struct ExDir<'a>(include_dir::Dir<'a>);

/// The files of a bundled directory: for each path that `get_file` finds, the
/// bytes of that file.
pub uninterp spec fn bundled_files(d: include_dir::Dir<'static>) -> Map<Seq<char>, Seq<u8>>;

/// The content type that the file name's extension suggests (plain text when it
/// suggests none), as bytes.
pub uninterp spec fn content_type_of(path: Seq<char>) -> Seq<u8>;

/// The name of the document served for the empty path.
pub open spec fn index_name() -> Seq<char> {
    "index.html"@
}

/// The key a request path is looked up under: one leading `/` taken off, and the
/// index document for what is then empty.
pub open spec fn asset_key_of(path: Seq<char>) -> Seq<char> {
    let p = if path.len() > 0 && path[0] == '/' {
        path.drop_first()
    } else {
        path
    };
    if p.len() == 0 {
        index_name()
    } else {
        p
    }
}

/// The header line that names the content type of a served file.
pub open spec fn content_type_field(key: Seq<char>) -> (Seq<char>, Seq<u8>) {
    ("content-type"@, content_type_of(key))
}

/// The reply for `path` from the files `files`.
pub open spec fn served(files: Map<Seq<char>, Seq<u8>>, path: Seq<char>, r: ClientResponse) -> bool {
    let key = asset_key_of(path);
    if files.contains_key(key) {
        &&& r.status == OK
        &&& r.body@ == files[key]
        &&& fields_of(r.headers@) == seq![content_type_field(key), allow_origin_field()]
    } else {
        &&& r.status == NOT_FOUND
        &&& r.body@.len() == 0
        &&& fields_of(r.headers@) == seq![allow_origin_field()]
    }
}

/// Relies on include_dir's `Dir::get_file`: the file found under `key`, if any,
/// with its contents copied out.
#[verifier::external_body]
fn find_file(assets: &include_dir::Dir<'static>, key: &str) -> (r: Option<Vec<u8>>)
    ensures
        r is Some <==> bundled_files(*assets).contains_key(key@),
        r matches Some(b) ==> b@ == bundled_files(*assets)[key@],
{
    assets.get_file(key).map(|f| f.contents().to_vec())
}

/// Relies on mime_guess's `from_path(..).first_or_text_plain()`: the content type
/// guessed from the extension of `path`.
#[verifier::external_body]
fn guess_content_type(path: &str) -> (r: Vec<u8>)
    ensures
        r@ == content_type_of(path@),
{
    mime_guess::from_path(path).first_or_text_plain().as_ref().as_bytes().to_vec()
}

/// The key a request path is looked up under: one leading `/` taken off, and
/// `index.html` for what is then empty.
pub fn asset_key(path: &str) -> (r: String)
    ensures
        r@ == asset_key_of(path@),
{
    let n = path.unicode_len();
    let rest = if n > 0 && path.get_char(0) == '/' {
        path.substring_char(1, n)
    } else {
        path
    };
    assert(path@.len() > 0 && path@[0] == '/' ==> rest@ =~= path@.drop_first());
    if rest.unicode_len() == 0 {
        String::from_str("index.html")
    } else {
        String::from_str(rest)
    }
}

/// Answers `path` from the bundled files: the file under `asset_key(path)` with
/// status OK and its content type, or Not Found with an empty body.
pub fn serve_static(assets: &include_dir::Dir<'static>, path: &str) -> (r: ClientResponse)
    ensures
        served(bundled_files(*assets), path@, r),
        allows_any_origin(r),
{
    let key = asset_key(path);
    match find_file(assets, key.as_str()) {
        Some(body) => {
            let content_type = HeaderField {
                name: String::from_str("content-type"),
                value: guess_content_type(key.as_str()),
            };
            let mut headers: Vec<HeaderField> = Vec::new();
            headers.push(content_type);
            headers.push(allow_any_origin());
            let r = ClientResponse { status: OK, headers, body };
            assert(fields_of(r.headers@) =~= seq![content_type_field(key@), allow_origin_field()]);
            assert(fields_of(r.headers@)[1] == allow_origin_field());
            r
        },
        None => not_found(),
    }
}

} // verus!
