use fluffer::Client;
use fluffer::client::expired_given;
use std::cmp::Ordering;
use fluffer::client::decode_query;

fn test_url(s: &str) -> url::Url {
    url::Url::parse(s).unwrap()
}

fn self_signed_pem() -> String {
    rcgen::generate_simple_self_signed(vec!["localhost".to_string()])
        .unwrap()
        .serialize_pem()
        .unwrap()
}

fn client_with_cert(pem: &str) -> Client<()> {
    Client::new(
        (),
        test_url("gemini://localhost/"),
        Some(pem.as_bytes().to_vec()),
        Vec::new(),
        "127.0.0.1:9".to_string(),
    )
}

fn anonymous_client() -> Client<()> {
    Client::new(
        (),
        test_url("gemini://localhost/"),
        None,
        Vec::new(),
        "127.0.0.1:9".to_string(),
    )
}

#[test]
fn a_missing_certificate_counts_as_expired() {
    assert_eq!(anonymous_client().ident_expired(), true);
}

#[test]
fn a_missing_certificate_has_no_name_and_no_pem() {
    let c = anonymous_client();
    assert_eq!(c.ident_name(), None);
    assert_eq!(c.ident_get(), None);
}

#[test]
fn a_missing_certificate_never_verifies() {
    let pem = self_signed_pem();
    assert_eq!(anonymous_client().ident_verify(&pem), false);
}

#[test]
fn a_fresh_certificate_is_not_expired() {
    let c = client_with_cert(&self_signed_pem());
    assert_eq!(c.ident_expired(), false);
}

#[test]
fn the_subject_name_is_the_first_entry() {
    let c = client_with_cert(&self_signed_pem());
    assert_eq!(c.ident_name(), Some("rcgen self signed cert".to_string()));
}

#[test]
fn the_pem_roundtrips_through_the_client() {
    let pem = self_signed_pem();
    let c = client_with_cert(&pem);
    let got = c.ident_get().unwrap();
    assert_eq!(got, pem);
    assert!(got.starts_with("-----BEGIN CERTIFICATE-----"));
    let reparsed = openssl::x509::X509::from_pem(got.as_bytes());
    assert!(reparsed.is_ok());
}

#[test]
fn a_garbage_certificate_has_no_name_and_never_verifies() {
    let c = client_with_cert("not a certificate at all");
    assert_eq!(c.ident_name(), None);
    assert_eq!(c.ident_verify(&self_signed_pem()), false);
    assert_eq!(c.ident_expired(), true);
}

#[test]
fn the_expiry_decision_is_fail_closed() {
    assert_eq!(expired_given(Some(Ordering::Less)), true);
    assert_eq!(expired_given(Some(Ordering::Equal)), true);
    assert_eq!(expired_given(Some(Ordering::Greater)), false);
    assert_eq!(expired_given(None), true);
}

#[test]
fn a_certificate_verifies_against_its_own_key_only() {
    let pem = self_signed_pem();
    let c = client_with_cert(&pem);
    assert_eq!(c.ident_verify(&pem), true);
    let other = self_signed_pem();
    assert_eq!(c.ident_verify(&other), false);
    assert_eq!(c.ident_verify("not a certificate"), false);
}

#[test]
fn parameters_answer_by_name() {
    let c = Client::new(
        (),
        test_url("gemini://localhost/page/3"),
        None,
        vec![("p".to_string(), "3".to_string())],
        "127.0.0.1:9".to_string(),
    );
    assert_eq!(c.parameter("p"), "3".to_string());
}

#[test]
fn input_is_the_decoded_query() {
    let c = Client::new(
        (),
        test_url("gemini://localhost/ask?two%20words"),
        None,
        Vec::new(),
        "127.0.0.1:9".to_string(),
    );
    assert_eq!(c.input(), Some("two words".to_string()));
}

#[test]
fn input_is_nothing_without_a_query() {
    let c = anonymous_client();
    assert_eq!(c.input(), None);
}

#[test]
fn queries_decode_per_the_specification() {
    assert_eq!(decode_query("a%20b"), Some("a b".to_string()));
    assert_eq!(decode_query("plain"), Some("plain".to_string()));
    assert_eq!(decode_query("%ff"), None);
}

#[test]
fn the_client_reports_its_peer_address() {
    let c = anonymous_client();
    assert_eq!(c.ip(), &"127.0.0.1:9".to_string());
}

#[test]
fn the_client_carries_its_state_copy() {
    let c = Client::new(
        41u64,
        test_url("gemini://localhost/"),
        None,
        Vec::new(),
        "127.0.0.1:9".to_string(),
    );
    assert_eq!(c.state, 41u64);
}
