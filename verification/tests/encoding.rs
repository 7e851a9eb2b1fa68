use fluffer::GemBytes;
use fluffer::Fluff;
use fluffer::fluff::{FileOutcome, FileRead, encode_file_outcome, file_outcome, static_file_path};
use fluffer::proxy::{
    encode_proxy_transport_error, encode_error_message, proxy_head, proxy_finish,
    encode_proxied_response,
};

#[test]
fn triple_encodes_to_exact_wire_bytes() {
    let r = (20u8, "text/gemini".to_string(), "X".to_string()).gem_bytes();
    assert_eq!(r, b"20 text/gemini\r\nX".to_vec());
}

#[test]
fn borrowed_triple_encodes_to_exact_wire_bytes() {
    let r = (20u8, "text/gemini", "X").gem_bytes();
    assert_eq!(r, b"20 text/gemini\r\nX".to_vec());
}

#[test]
fn pair_encodes_status_line_only() {
    let r = (51u8, "nope".to_string()).gem_bytes();
    assert_eq!(r, b"51 nope\r\n".to_vec());
    let r = (10u8, "Enter your name").gem_bytes();
    assert_eq!(r, b"10 Enter your name\r\n".to_vec());
}

#[test]
fn wire_form_bytes_pass_through_unchanged() {
    let raw = b"20 text/gemini\r\nalready encoded".to_vec();
    assert_eq!(raw.clone().gem_bytes(), raw);
    let odd = vec![0u8, 255u8, 13u8, 10u8, 7u8];
    assert_eq!(odd.clone().gem_bytes(), odd);
}

#[test]
fn absent_option_encodes_to_forty_none() {
    assert_eq!(None::<String>.gem_bytes(), b"40 None.\r\n".to_vec());
    assert_eq!(None::<bool>.gem_bytes(), b"40 None.\r\n".to_vec());
    assert_eq!(None::<Vec<u8>>.gem_bytes(), b"40 None.\r\n".to_vec());
}

#[test]
fn present_option_encodes_its_value() {
    assert_eq!(Some("hi").gem_bytes(), b"20 text/gemini\r\nhi".to_vec());
}

#[test]
fn booleans_encode_as_true_text_or_forty_false() {
    assert_eq!(true.gem_bytes(), b"20 text/gemini\r\nTrue.".to_vec());
    assert_eq!(false.gem_bytes(), b"40 False.\r\n".to_vec());
}

#[test]
fn unit_encodes_as_nothing_yet() {
    assert_eq!(().gem_bytes(), b"40 This route returns nothing yet.\r\n".to_vec());
}

#[test]
fn text_encodes_as_gemtext_document() {
    assert_eq!("hello".gem_bytes(), b"20 text/gemini\r\nhello".to_vec());
    assert_eq!("hello".to_string().gem_bytes(), b"20 text/gemini\r\nhello".to_vec());
    assert_eq!("".gem_bytes(), b"20 text/gemini\r\n".to_vec());
}

#[test]
fn text_bodies_carry_their_utf8_bytes() {
    let r = "h\u{e9}llo \u{1f98a}".gem_bytes();
    let mut expected = b"20 text/gemini\r\n".to_vec();
    expected.extend_from_slice("h\u{e9}llo \u{1f98a}".as_bytes());
    assert_eq!(r, expected);
}

#[test]
fn numbers_encode_in_decimal() {
    assert_eq!(0u32.gem_bytes(), b"20 text/gemini\r\n0".to_vec());
    assert_eq!(42u32.gem_bytes(), b"20 text/gemini\r\n42".to_vec());
    assert_eq!(4294967295u32.gem_bytes(), b"20 text/gemini\r\n4294967295".to_vec());
}

#[test]
fn results_encode_whichever_arm_is_present() {
    let ok: Result<&str, bool> = Ok("fine");
    assert_eq!(ok.gem_bytes(), b"20 text/gemini\r\nfine".to_vec());
    let err: Result<&str, bool> = Err(false);
    assert_eq!(err.gem_bytes(), b"40 False.\r\n".to_vec());
}

#[test]
fn wrappers_compose_without_special_cases() {
    let v: Option<Result<&str, bool>> = Some(Err(false));
    assert_eq!(v.gem_bytes(), b"40 False.\r\n".to_vec());
    let v: Result<Option<&str>, bool> = Ok(None);
    assert_eq!(v.gem_bytes(), b"40 None.\r\n".to_vec());
}

#[test]
fn fluff_variants_encode_to_their_fixed_statuses() {
    assert_eq!(
        Fluff::Input("Name?".to_string()).gem_bytes(),
        b"10 Name?\r\n".to_vec(),
    );
    assert_eq!(
        Fluff::NotFound("gone".to_string()).gem_bytes(),
        b"51 gone\r\n".to_vec(),
    );
    assert_eq!(
        Fluff::RedirectTemporary("/new".to_string()).gem_bytes(),
        b"30 /new\r\n".to_vec(),
    );
    assert_eq!(
        Fluff::RedirectPermanent("/new".to_string()).gem_bytes(),
        b"31 /new\r\n".to_vec(),
    );
    assert_eq!(
        Fluff::FailureTemporary("later".to_string()).gem_bytes(),
        b"40 later\r\n".to_vec(),
    );
    assert_eq!(
        Fluff::FailurePermanent("never".to_string()).gem_bytes(),
        b"50 never\r\n".to_vec(),
    );
    assert_eq!(Fluff::GoUp.gem_bytes(), b"30 ..\r\n".to_vec());
}

#[test]
fn fluff_documents_carry_meta_and_body() {
    assert_eq!(
        Fluff::Lang { lang: "en".to_string(), body: "# Hi".to_string() }.gem_bytes(),
        b"20 text/gemini; lang=en\r\n# Hi".to_vec(),
    );
    assert_eq!(
        Fluff::Document { mime: "text/plain".to_string(), body: "plain".to_string() }.gem_bytes(),
        b"20 text/plain\r\nplain".to_vec(),
    );
    assert_eq!(
        Fluff::Text("# Title".to_string()).gem_bytes(),
        b"20 text/gemini\r\n# Title".to_vec(),
    );
}

#[test]
fn file_outcomes_encode_per_the_table() {
    assert_eq!(
        encode_file_outcome(FileOutcome::Missing),
        b"51 File not found.\r\n".to_vec(),
    );
    assert_eq!(
        encode_file_outcome(FileOutcome::UnknownMime),
        b"51 File mimetype could not be guessed.\r\n".to_vec(),
    );
    assert_eq!(
        encode_file_outcome(FileOutcome::ReadFailed),
        b"51 File read error.\r\n".to_vec(),
    );
    assert_eq!(
        encode_file_outcome(FileOutcome::Loaded("image/png".to_string(), vec![1, 2, 3])),
        [b"20 image/png\r\n".to_vec(), vec![1, 2, 3]].concat(),
    );
}

#[test]
fn static_paths_are_sandboxed() {
    assert_eq!(static_file_path("photo.png"), "static/photo.png".to_string());
    for name in ["../../secret", "..\\..\\secret", "a/b\\c", "..", "...."] {
        let safe = static_file_path(name);
        assert!(safe.starts_with("static/"));
        let part = &safe["static/".len()..];
        assert!(!part.contains('/'));
        assert!(!part.contains('\\'));
        assert_ne!(part, "..");
    }
}

#[test]
fn file_lookups_classify_by_read_and_mime() {
    assert!(matches!(
        file_outcome("static/photo.png", FileRead::Missing),
        FileOutcome::Missing,
    ));
    assert!(matches!(
        file_outcome("static/strange.zzznoext", FileRead::Contents(vec![1])),
        FileOutcome::UnknownMime,
    ));
    assert!(matches!(
        file_outcome("static/photo.png", FileRead::Failed),
        FileOutcome::ReadFailed,
    ));
    match file_outcome("static/photo.png", FileRead::Contents(vec![1, 2])) {
        FileOutcome::Loaded(mime, bytes) => {
            assert_eq!(mime, "image/png".to_string());
            assert_eq!(bytes, vec![1, 2]);
        }
        _ => panic!("expected a loaded file"),
    }
    match file_outcome("static/notes.txt", FileRead::Contents(Vec::new())) {
        FileOutcome::Loaded(mime, bytes) => {
            assert_eq!(mime, "text/plain".to_string());
            assert!(bytes.is_empty());
        }
        _ => panic!("expected a loaded file"),
    }
}

#[test]
fn proxy_transport_errors_report_status_43() {
    assert_eq!(
        encode_proxy_transport_error("connection refused"),
        b"43 http error :: connection refused\r\n".to_vec(),
    );
}

#[test]
fn prototype_errors_report_status_40() {
    assert_eq!(encode_error_message("oops"), b"40 oops\r\n".to_vec());
}

#[test]
fn proxy_heads_follow_the_upstream_reply() {
    assert_eq!(
        proxy_head(false, "404 Not Found", None),
        Err(b"43 http: 404 Not Found\r\n".to_vec()),
    );
    assert_eq!(
        proxy_head(true, "200 OK", None),
        Err(b"43 http: invalid content type.\r\n".to_vec()),
    );
    assert_eq!(
        proxy_head(true, "200 OK", Some(None)),
        Err(b"43 http: content type corrupted.\r\n".to_vec()),
    );
    assert_eq!(
        proxy_head(true, "200 OK", Some(Some("text/html".to_string()))),
        Ok(b"20 text/html\r\n".to_vec()),
    );
}

#[test]
fn proxy_bodies_append_or_report_the_failure() {
    assert_eq!(
        proxy_finish(b"20 text/html\r\n".to_vec(), Ok(b"<p>hi</p>".to_vec())),
        b"20 text/html\r\n<p>hi</p>".to_vec(),
    );
    assert_eq!(
        proxy_finish(b"20 text/html\r\n".to_vec(), Err("timed out".to_string())),
        b"43 http: timed out\r\n".to_vec(),
    );
}

#[test]
fn proxied_responses_reencode_verbatim() {
    assert_eq!(
        encode_proxied_response(20, "text/gemini", b"hi".to_vec()),
        b"20 text/gemini\r\nhi".to_vec(),
    );
    assert_eq!(
        encode_proxied_response(44, "slow down", Vec::new()),
        b"44 slow down\r\n".to_vec(),
    );
}
