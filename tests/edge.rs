use include_dir::{Dir, DirEntry, File};
use rustbackend::assets::{asset_key, serve_static};
use rustbackend::edge::{handle, Action};
use rustbackend::headers::{
    eq_ignoring_case, forward_request_headers, is_regenerated, is_transmissible,
    relay_response_headers, HeaderField,
};
use rustbackend::proxy::{
    plan_outbound, relay, starts_with, upstream_url, InboundRequest, OutboundRequest, ProxyConfig,
    UpstreamResponse,
};
use rustbackend::response::{bad_gateway, not_found, ClientResponse};

fn field(name: &str, value: &[u8]) -> HeaderField {
    HeaderField { name: name.to_string(), value: value.to_vec() }
}

fn pairs(hs: &[HeaderField]) -> Vec<(String, Vec<u8>)> {
    hs.iter().map(|h| (h.name.clone(), h.value.clone())).collect()
}

fn config() -> ProxyConfig {
    ProxyConfig::new("http://localhost:8080".to_string())
}

fn request(method: &str, path: &str, query: Option<&str>, headers: Vec<HeaderField>, body: &[u8]) -> InboundRequest {
    InboundRequest {
        method: method.to_string(),
        path: path.to_string(),
        query: query.map(|q| q.to_string()),
        headers,
        body: body.to_vec(),
    }
}

fn site() -> Dir<'static> {
    let entries: Vec<DirEntry<'static>> = vec![
        DirEntry::File(File::new("index.html", b"<h1>home</h1>")),
        DirEntry::File(File::new("app.js", b"console.log(1);")),
        DirEntry::Dir(Dir::new(
            "css",
            Box::leak(vec![DirEntry::File(File::new("css/site.css", b"body{}"))].into_boxed_slice()),
        )),
    ];
    Dir::new("", Box::leak(entries.into_boxed_slice()))
}

fn forwarded(a: Action) -> OutboundRequest {
    match a {
        Action::Forward(out) => out,
        Action::Reply(_) => panic!("expected the request to be forwarded"),
    }
}

fn replied(a: Action) -> ClientResponse {
    match a {
        Action::Reply(r) => r,
        Action::Forward(_) => panic!("expected a reply from the static files"),
    }
}

fn allows_any_origin(r: &ClientResponse) -> bool {
    r.headers.iter().any(|h| h.name == "access-control-allow-origin" && h.value == b"*".to_vec())
}

#[test]
fn prefix_is_stripped_from_upstream_path() {
    let out = forwarded(handle(&config(), &site(), request("GET", "/api/races/5", None, vec![], b"")));
    assert_eq!(out.url, "http://localhost:8080/races/5");
    assert_eq!(out.method, "GET");
}

#[test]
fn bare_prefix_forwards_to_base_url() {
    let out = forwarded(handle(&config(), &site(), request("GET", "/api", None, vec![], b"")));
    assert_eq!(out.url, "http://localhost:8080");
}

#[test]
fn prefix_is_removed_once() {
    let out = forwarded(handle(&config(), &site(), request("GET", "/api/api/x", None, vec![], b"")));
    assert_eq!(out.url, "http://localhost:8080/api/x");
}

#[test]
fn custom_prefix_is_honoured() {
    let cfg = ProxyConfig::with_prefix("https://up.example".to_string(), "/v2".to_string());
    let out = forwarded(handle(&cfg, &site(), request("DELETE", "/v2/items/9", None, vec![], b"")));
    assert_eq!(out.url, "https://up.example/items/9");
    assert_eq!(out.method, "DELETE");
}

#[test]
fn query_string_passes_verbatim() {
    let q = "a=1&b=%20x&c=%zz&&d";
    let out = forwarded(handle(&config(), &site(), request("GET", "/api/laps", Some(q), vec![], b"")));
    assert_eq!(out.url, format!("http://localhost:8080/laps?{}", q));
    assert!(out.url.ends_with(q));
}

#[test]
fn empty_query_keeps_question_mark() {
    let url = upstream_url(&config(), "/api/laps", &Some(String::new()));
    assert_eq!(url, "http://localhost:8080/laps?");
}

#[test]
fn headers_are_copied_except_host_and_content_length() {
    let headers = vec![
        field("Host", b"localhost:3000"),
        field("authorization", b"Bearer abc"),
        field("CONTENT-LENGTH", b"12"),
        field("x-custom", b"one"),
        field("x-custom", b"two"),
        field("accept", b"application/json"),
    ];
    let out = forwarded(handle(&config(), &site(), request("POST", "/api/x", None, headers, b"{}")));
    assert_eq!(
        pairs(&out.headers),
        vec![
            ("authorization".to_string(), b"Bearer abc".to_vec()),
            ("x-custom".to_string(), b"one".to_vec()),
            ("x-custom".to_string(), b"two".to_vec()),
            ("accept".to_string(), b"application/json".to_vec()),
        ]
    );
}

#[test]
fn header_with_control_byte_is_skipped() {
    let headers = vec![field("x-bad", b"a\x01b"), field("x-tab", b"a\tb"), field("x-high", &[0x80, 0xff])];
    let kept = forward_request_headers(&headers);
    assert_eq!(
        pairs(&kept),
        vec![("x-tab".to_string(), b"a\tb".to_vec()), ("x-high".to_string(), vec![0x80, 0xff])]
    );
}

#[test]
fn header_with_invalid_name_is_skipped() {
    let headers = vec![field("bad name", b"v"), field("", b"v"), field("good", b"v")];
    assert_eq!(pairs(&forward_request_headers(&headers)), vec![("good".to_string(), b"v".to_vec())]);
}

#[test]
fn transmissible_checks_name_and_value() {
    assert!(is_transmissible(&field("x-ok", b"fine value")));
    assert!(!is_transmissible(&field("x-ok", b"line\nbreak")));
    assert!(!is_transmissible(&field("x-ok", &[127])));
    assert!(!is_transmissible(&field("x(y)", b"v")));
}

#[test]
fn regenerated_names_match_in_any_case() {
    assert!(is_regenerated("host"));
    assert!(is_regenerated("HoSt"));
    assert!(is_regenerated("Content-Length"));
    assert!(!is_regenerated("hosts"));
    assert!(!is_regenerated("content-type"));
    assert!(!is_regenerated(""));
}

#[test]
fn case_insensitive_equality() {
    assert!(eq_ignoring_case("ABC-def", "abc-DEF"));
    assert!(!eq_ignoring_case("abc", "abd"));
    assert!(!eq_ignoring_case("abc", "ab"));
    assert!(!eq_ignoring_case("[", "{"));
}

#[test]
fn empty_body_is_not_attached() {
    let out = plan_outbound(&config(), request("POST", "/api/x", None, vec![], b""));
    assert!(out.body.is_none());
}

#[test]
fn non_empty_body_is_attached_unchanged() {
    let body = b"{\"lap\":\x00\x01\xff}";
    let out = plan_outbound(&config(), request("PUT", "/api/x", None, vec![], body));
    assert_eq!(out.body, Some(body.to_vec()));
    assert_eq!(out.method, "PUT");
}

#[test]
fn unreachable_upstream_gives_bad_gateway() {
    let r = relay(None);
    assert_eq!(r.status, 502);
    assert!(r.body.is_empty());
    assert!(allows_any_origin(&r));
    assert_eq!(bad_gateway().status, 502);
}

#[test]
fn upstream_json_answer_is_relayed() {
    let upstream = UpstreamResponse {
        status: 200,
        headers: vec![field("content-type", b"application/json")],
        body: b"{\"ok\":true}".to_vec(),
    };
    let r = relay(Some(upstream));
    assert_eq!(r.status, 200);
    assert_eq!(r.body, b"{\"ok\":true}".to_vec());
    assert_eq!(
        pairs(&r.headers),
        vec![
            ("content-type".to_string(), b"application/json".to_vec()),
            ("access-control-allow-origin".to_string(), b"*".to_vec()),
        ]
    );
}

#[test]
fn upstream_error_status_and_all_header_lines_are_relayed() {
    let upstream = UpstreamResponse {
        status: 418,
        headers: vec![
            field("set-cookie", b"a=1"),
            field("set-cookie", b"b=2"),
            field("x-broken", b"bad\rvalue"),
            field("content-length", b"4"),
        ],
        body: b"teap".to_vec(),
    };
    let r = relay(Some(upstream));
    assert_eq!(r.status, 418);
    assert_eq!(r.body, b"teap".to_vec());
    assert_eq!(
        pairs(&r.headers),
        vec![
            ("set-cookie".to_string(), b"a=1".to_vec()),
            ("set-cookie".to_string(), b"b=2".to_vec()),
            ("content-length".to_string(), b"4".to_vec()),
            ("access-control-allow-origin".to_string(), b"*".to_vec()),
        ]
    );
}

#[test]
fn response_header_filter_keeps_order() {
    let hs = vec![field("b", b"2"), field("a", b"1"), field("a b", b"x")];
    assert_eq!(
        pairs(&relay_response_headers(&hs)),
        vec![("b".to_string(), b"2".to_vec()), ("a".to_string(), b"1".to_vec())]
    );
}

#[test]
fn root_serves_index_document() {
    let r = replied(handle(&config(), &site(), request("GET", "/", None, vec![], b"")));
    assert_eq!(r.status, 200);
    assert_eq!(r.body, b"<h1>home</h1>".to_vec());
    assert_eq!(
        pairs(&r.headers),
        vec![
            ("content-type".to_string(), b"text/html".to_vec()),
            ("access-control-allow-origin".to_string(), b"*".to_vec()),
        ]
    );
}

#[test]
fn empty_path_serves_index_document() {
    let r = serve_static(&site(), "");
    assert_eq!(r.status, 200);
    assert_eq!(r.body, b"<h1>home</h1>".to_vec());
}

#[test]
fn script_gets_its_content_type() {
    let r = serve_static(&site(), "/app.js");
    assert_eq!(r.status, 200);
    assert_eq!(r.body, b"console.log(1);".to_vec());
    assert_eq!(r.headers[0].name, "content-type");
    assert_eq!(r.headers[0].value, b"text/javascript".to_vec());
}

#[test]
fn nested_file_is_found() {
    let r = serve_static(&site(), "/css/site.css");
    assert_eq!(r.status, 200);
    assert_eq!(r.body, b"body{}".to_vec());
    assert_eq!(r.headers[0].value, b"text/css".to_vec());
}

#[test]
fn missing_path_is_not_found() {
    let r = replied(handle(&config(), &site(), request("GET", "/does-not-exist", None, vec![], b"")));
    assert_eq!(r.status, 404);
    assert!(r.body.is_empty());
    assert!(allows_any_origin(&r));
    assert_eq!(not_found().status, 404);
}

#[test]
fn path_near_prefix_is_static() {
    let r = replied(handle(&config(), &site(), request("GET", "/ap", None, vec![], b"")));
    assert_eq!(r.status, 404);
}

#[test]
fn only_one_leading_slash_is_stripped() {
    assert_eq!(asset_key("/"), "index.html");
    assert_eq!(asset_key(""), "index.html");
    assert_eq!(asset_key("/app.js"), "app.js");
    assert_eq!(asset_key("//app.js"), "/app.js");
    assert_eq!(asset_key("app.js"), "app.js");
}

#[test]
fn prefix_test() {
    assert!(starts_with("/api/x", "/api"));
    assert!(starts_with("/api", "/api"));
    assert!(!starts_with("/ap", "/api"));
    assert!(!starts_with("/API/x", "/api"));
    assert!(starts_with("anything", ""));
}

#[test]
fn every_reply_allows_any_origin() {
    let served = replied(handle(&config(), &site(), request("GET", "/index.html", None, vec![], b"")));
    assert!(allows_any_origin(&served));
    let missing = serve_static(&site(), "/nope");
    assert!(allows_any_origin(&missing));
    let relayed = relay(Some(UpstreamResponse { status: 204, headers: vec![], body: vec![] }));
    assert!(allows_any_origin(&relayed));
    assert!(allows_any_origin(&relay(None)));
}
