use fluffer::{App, Static, AsGemtext, StreamErr, GemBytes};
use fluffer::app::{keypair_action, parse_domains, request_line, MAX_REQUEST};
use fluffer::text::{split_text, trim_text};
use fluffer::as_gemtext::gemtext_link_line;
use fluffer::err::AppErr;

fn demo_app() -> App<(), Static<&'static str>> {
    let app: App<(), Static<&'static str>> = Default::default();
    app.route("/", Static("Hello :>"))
        .route("/page/:p", Static("a page"))
        .route("/a b", Static("spaced"))
}

#[test]
fn default_app_uses_the_loopback_address() {
    let app: App<(), Static<&'static str>> = Default::default();
    assert_eq!(app.address, "127.0.0.1:1965".to_string());
    assert_eq!(app.not_found, "Page not found.".to_string());
    assert_eq!(app.cert, "cert.pem".to_string());
    assert_eq!(app.key, "key.pem".to_string());
}

#[test]
fn replacing_state_keeps_the_configuration() {
    let app: App<(), Static<&'static str>> = Default::default();
    let app = app.state(5u8);
    assert_eq!(app.state, 5u8);
    assert_eq!(app.address, "127.0.0.1:1965".to_string());
}

#[test]
fn matched_routes_answer_with_the_handler_bytes() {
    let app = demo_app();
    let r = app
        .handle_request(b"gemini://localhost/\r\n", None, "127.0.0.1:9".to_string())
        .unwrap();
    assert_eq!(r, b"20 text/gemini\r\nHello :>".to_vec());
}

#[test]
fn unmatched_routes_answer_with_exactly_the_not_found_line() {
    let app = demo_app();
    let r = app
        .handle_request(b"gemini://localhost/missing\r\n", None, "127.0.0.1:9".to_string())
        .unwrap();
    assert_eq!(r, b"51 Page not found.\r\n".to_vec());
}

#[test]
fn percent_encoded_paths_are_decoded_before_routing() {
    let app = demo_app();
    let r = app
        .handle_request(b"gemini://localhost/a%20b\r\n", None, "127.0.0.1:9".to_string())
        .unwrap();
    assert_eq!(r, b"20 text/gemini\r\nspaced".to_vec());
}

#[test]
fn request_lines_lose_their_terminator() {
    assert_eq!(request_line(b"gemini://x/\r\n").unwrap(), b"gemini://x/".to_vec());
    assert_eq!(request_line(b"\r\n").unwrap(), b"".to_vec());
}

#[test]
fn malformed_request_lines_are_stream_errors() {
    assert_eq!(request_line(b"no terminator"), Err(StreamErr::Malformed));
    assert_eq!(request_line(b"x"), Err(StreamErr::Malformed));
    assert_eq!(request_line(b"half\r"), Err(StreamErr::Malformed));
}

#[test]
fn a_request_of_exactly_the_maximum_length_parses() {
    let mut raw = vec![b'a'; 1024];
    raw.extend_from_slice(b"\r\n");
    assert_eq!(raw.len(), MAX_REQUEST);
    let line = request_line(&raw).unwrap();
    assert_eq!(line.len(), 1024);
}

#[test]
fn one_byte_over_the_maximum_is_rejected_before_routing() {
    let mut raw = vec![b'a'; 1025];
    raw.extend_from_slice(b"\r\n");
    assert_eq!(request_line(&raw), Err(StreamErr::Malformed));

    // end to end: the same oversized request never reaches the router
    let mut url = b"gemini://localhost/".to_vec();
    url.extend(vec![b'a'; 1025 - url.len()]);
    url.extend_from_slice(b"\r\n");
    let app = demo_app();
    let r = app.handle_request(&url, None, "127.0.0.1:9".to_string());
    assert_eq!(r, Err(StreamErr::Malformed));
}

#[test]
fn a_maximum_length_request_reaches_routing() {
    let mut url = b"gemini://localhost/".to_vec();
    url.extend(vec![b'a'; 1024 - url.len()]);
    url.extend_from_slice(b"\r\n");
    let app = demo_app();
    let r = app.handle_request(&url, None, "127.0.0.1:9".to_string()).unwrap();
    assert_eq!(r, b"51 Page not found.\r\n".to_vec());
}

#[test]
fn undecodable_request_bytes_are_utf8_errors() {
    let app = demo_app();
    let r = app.handle_request(b"\xff\xfe\r\n", None, "127.0.0.1:9".to_string());
    assert_eq!(r, Err(StreamErr::Utf8));
}

#[test]
fn unparseable_urls_are_stream_errors() {
    let app = demo_app();
    let r = app.handle_request(b"not a url\r\n", None, "127.0.0.1:9".to_string());
    assert!(matches!(r, Err(StreamErr::UrlParse(_))));
}

#[test]
fn errors_describe_themselves() {
    assert_eq!(StreamErr::Malformed.message(), "Malformed request line.".to_string());
    assert_eq!(
        StreamErr::Read("broken pipe".to_string()).message(),
        "Reading stream: broken pipe".to_string(),
    );
    assert_eq!(
        AppErr::Bind("address in use".to_string()).message(),
        "Failed to bind address: address in use".to_string(),
    );
    assert_eq!(
        AppErr::RcGenStop.message(),
        "Certificate generation stopped.".to_string(),
    );
}

#[test]
fn domain_lists_are_split_trimmed_and_ordered() {
    let (subject, alts) = parse_domains("localhost, *.localhost , sub.example.com\n").unwrap();
    assert_eq!(subject, "localhost".to_string());
    assert_eq!(
        alts,
        vec!["sub.example.com".to_string(), "*.localhost".to_string()],
    );
    let (subject, alts) = parse_domains("solo\n").unwrap();
    assert_eq!(subject, "solo".to_string());
    assert!(alts.is_empty());
    let (subject, alts) = parse_domains(", second").unwrap();
    assert_eq!(subject, "".to_string());
    assert_eq!(alts, vec!["second".to_string()]);
}

#[test]
fn empty_domain_lists_are_fatal() {
    assert_eq!(parse_domains(""), Err(AppErr::RcGenNoDomains));
    assert_eq!(parse_domains(" , ,\n"), Err(AppErr::RcGenNoDomains));
}

#[test]
fn text_splitting_and_trimming_behave_like_their_specs() {
    assert_eq!(trim_text("  spaced\tout \r\n"), "spaced\tout".to_string());
    assert_eq!(trim_text(""), "".to_string());
    assert_eq!(trim_text(" \t "), "".to_string());
    assert_eq!(split_text("a,b,,c", ','), vec![
        "a".to_string(),
        "b".to_string(),
        "".to_string(),
        "c".to_string(),
    ]);
    assert_eq!(split_text("", ','), vec!["".to_string()]);
}

#[test]
fn link_lines_repeat_the_target_as_label() {
    assert_eq!(
        gemtext_link_line("gemini://localhost/x"),
        "=> gemini://localhost/x gemini://localhost/x".to_string(),
    );
}

#[test]
fn half_present_keypairs_are_fatal() {
    assert_eq!(keypair_action(true, true), Ok(false));
    assert_eq!(keypair_action(false, false), Ok(true));
    assert_eq!(keypair_action(true, false), Err(AppErr::RcGenStop));
    assert_eq!(keypair_action(false, true), Err(AppErr::RcGenStop));
}

#[test]
fn gemtext_extraction_returns_the_body_of_a_text_response() {
    let doc = b"20 text/gemini\r\n# Hello\nworld".to_vec();
    assert_eq!(doc.as_gemtext(), "# Hello\nworld".to_string());
}

#[test]
fn gemtext_extraction_fences_other_status_lines() {
    let doc = b"51 nope\r\nsome body".to_vec();
    assert_eq!(doc.as_gemtext(), "```\n51 nope\n```".to_string());
    let doc = b"20 text/plain\r\nbody".to_vec();
    assert_eq!(doc.as_gemtext(), "```\n20 text/plain\n```".to_string());
}

#[test]
fn gemtext_extraction_reports_malformed_responses() {
    let doc = b"no status line here".to_vec();
    assert_eq!(doc.as_gemtext(), "```\ninvalid gemini response\n```".to_string());
    let doc = vec![0xffu8, 0xfe, 13, 10];
    assert_eq!(doc.as_gemtext(), "```\ninvalid utf8\n```".to_string());
}

#[test]
fn gemtext_roundtrips_through_the_encoder() {
    assert_eq!("hi".gem_bytes().as_gemtext(), "hi".to_string());
}

#[test]
fn urls_render_as_link_lines() {
    let url = url::Url::parse("gemini://localhost/dir/page.gmi").unwrap();
    assert_eq!(
        url.as_gemtext(),
        "=> gemini://localhost/dir/page.gmi gemini://localhost/dir/page.gmi".to_string(),
    );
}
