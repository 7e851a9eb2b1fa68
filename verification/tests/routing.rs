use fluffer::router::{Router, parse_template, split_bytes, SLASH};
use fluffer::text::percent_decode;

fn segments(path: &str) -> Vec<Vec<u8>> {
    split_bytes(path.as_bytes(), SLASH)
}

fn capture_pairs(caps: &[(Vec<u8>, Vec<u8>)]) -> Vec<(String, String)> {
    caps.iter()
        .map(|(k, v)| {
            (
                String::from_utf8(k.clone()).unwrap(),
                String::from_utf8(v.clone()).unwrap(),
            )
        })
        .collect()
}

#[test]
fn capture_route_binds_the_path_segment() {
    let mut router: Router<u32> = Router::new();
    router.insert(&parse_template(b"/page/:p"), 7).unwrap();
    let (h, caps) = router.resolve(&segments("/page/3")).unwrap();
    assert_eq!(*h, 7);
    assert_eq!(capture_pairs(&caps), vec![("p".to_string(), "3".to_string())]);
}

#[test]
fn captures_cover_exactly_the_template_names() {
    let mut router: Router<u32> = Router::new();
    router.insert(&parse_template(b"/a/:x/b/:y"), 1).unwrap();
    let (h, caps) = router.resolve(&segments("/a/one/b/two")).unwrap();
    assert_eq!(*h, 1);
    assert_eq!(
        capture_pairs(&caps),
        vec![
            ("x".to_string(), "one".to_string()),
            ("y".to_string(), "two".to_string()),
        ],
    );
}

#[test]
fn literal_route_wins_over_capture_route() {
    let mut router: Router<u32> = Router::new();
    router.insert(&parse_template(b"/a/:x"), 1).unwrap();
    router.insert(&parse_template(b"/a/lit"), 2).unwrap();
    let (h, caps) = router.resolve(&segments("/a/lit")).unwrap();
    assert_eq!(*h, 2);
    assert!(caps.is_empty());
    let (h, caps) = router.resolve(&segments("/a/other")).unwrap();
    assert_eq!(*h, 1);
    assert_eq!(capture_pairs(&caps), vec![("x".to_string(), "other".to_string())]);
}

#[test]
fn duplicate_template_insertion_fails() {
    let mut router: Router<u32> = Router::new();
    assert!(router.insert(&parse_template(b"/a/:x"), 1).is_ok());
    assert!(router.insert(&parse_template(b"/a/:x"), 2).is_err());
    assert!(router.insert(&parse_template(b"/lit"), 3).is_ok());
    assert!(router.insert(&parse_template(b"/lit"), 4).is_err());
    // the first registrations still answer
    let (h, _) = router.resolve(&segments("/a/z")).unwrap();
    assert_eq!(*h, 1);
    let (h, _) = router.resolve(&segments("/lit")).unwrap();
    assert_eq!(*h, 3);
}

#[test]
fn conflicting_capture_names_fail() {
    let mut router: Router<u32> = Router::new();
    assert!(router.insert(&parse_template(b"/a/:x"), 1).is_ok());
    assert!(router.insert(&parse_template(b"/a/:y"), 2).is_err());
}

#[test]
fn unregistered_paths_resolve_to_nothing() {
    let mut router: Router<u32> = Router::new();
    router.insert(&parse_template(b"/a"), 1).unwrap();
    assert!(router.resolve(&segments("/missing")).is_none());
    assert!(router.resolve(&segments("/a/deeper")).is_none());
    assert!(router.resolve(&segments("/")).is_none());
}

#[test]
fn captures_do_not_match_empty_segments() {
    let mut router: Router<u32> = Router::new();
    router.insert(&parse_template(b"/a/:x"), 1).unwrap();
    assert!(router.resolve(&segments("/a/")).is_none());
}

#[test]
fn resolution_backtracks_from_a_dead_literal_branch() {
    let mut router: Router<u32> = Router::new();
    router.insert(&parse_template(b"/a/lit/x"), 1).unwrap();
    router.insert(&parse_template(b"/a/:c/y"), 2).unwrap();
    let (h, caps) = router.resolve(&segments("/a/lit/y")).unwrap();
    assert_eq!(*h, 2);
    assert_eq!(capture_pairs(&caps), vec![("c".to_string(), "lit".to_string())]);
    let (h, caps) = router.resolve(&segments("/a/lit/x")).unwrap();
    assert_eq!(*h, 1);
    assert!(caps.is_empty());
}

#[test]
fn root_template_matches_root_path() {
    let mut router: Router<u32> = Router::new();
    router.insert(&parse_template(b"/"), 9).unwrap();
    let (h, caps) = router.resolve(&segments("/")).unwrap();
    assert_eq!(*h, 9);
    assert!(caps.is_empty());
    assert!(router.resolve(&segments("/a")).is_none());
}

#[test]
fn percent_decoding_matches_its_specification_cases() {
    assert_eq!(percent_decode(b"a%20b"), b"a b".to_vec());
    assert_eq!(percent_decode(b"%e2%82%ac"), "\u{20ac}".as_bytes().to_vec());
    assert_eq!(percent_decode(b"plain"), b"plain".to_vec());
    assert_eq!(percent_decode(b""), b"".to_vec());
    // malformed escapes stay literal, the way the scan resumes matters
    assert_eq!(percent_decode(b"%zz"), b"%zz".to_vec());
    assert_eq!(percent_decode(b"%4"), b"%4".to_vec());
    assert_eq!(percent_decode(b"%"), b"%".to_vec());
    assert_eq!(percent_decode(b"%%34"), b"%4".to_vec());
    assert_eq!(percent_decode(b"%a%20"), b"%a ".to_vec());
    assert_eq!(percent_decode(b"100%"), b"100%".to_vec());
}

#[test]
fn percent_decoding_agrees_with_the_urlencoding_crate() {
    let samples: Vec<&[u8]> = vec![
        b"hello",
        b"a%20b%20c",
        b"%41%42%43",
        b"%e2%82%ac and %E2%82%AC",
        b"%",
        b"%2",
        b"%%",
        b"%%20",
        b"%g0",
        b"%0g",
        b"%0%20",
        b"a+b",
        b"/path/with%2Fslash",
        b"%ff%fe",
        b"trailing%",
        b"trailing%a",
    ];
    for s in samples {
        let ours = percent_decode(s);
        let theirs = urlencoding::decode_binary(s).into_owned();
        assert_eq!(ours, theirs, "decoding {:?}", s);
    }
}

fn matchit_template(template: &str) -> String {
    template
        .split('/')
        .map(|seg| {
            if let Some(name) = seg.strip_prefix(':') {
                format!("{{{name}}}")
            } else {
                seg.to_string()
            }
        })
        .collect::<Vec<_>>()
        .join("/")
}

#[test]
fn resolution_agrees_with_the_matchit_crate() {
    let routes = vec!["/", "/page/:p", "/a/:x", "/a/lit", "/a/lit/x", "/a/:x/y", "/files/:name"];
    let mut ours: Router<usize> = Router::new();
    let mut theirs: matchit::Router<usize> = matchit::Router::new();
    for (i, r) in routes.iter().enumerate() {
        ours.insert(&parse_template(r.as_bytes()), i).unwrap();
        theirs.insert(matchit_template(r), i).unwrap();
    }
    let paths = vec![
        "/", "/page/3", "/a/lit", "/a/other", "/a/lit/y", "/a/lit/x", "/missing", "/page/",
        "/files/photo.png", "/a/lit/x/deeper",
    ];
    for p in paths {
        let mine = ours
            .resolve(&segments(p))
            .map(|(h, caps)| (*h, capture_pairs(&caps)));
        let other = theirs.at(p).ok().map(|m| {
            let params: Vec<(String, String)> = m
                .params
                .iter()
                .map(|(k, v)| (k.to_string(), v.to_string()))
                .collect();
            (*m.value, params)
        });
        assert_eq!(mine, other, "path {p}");
    }
}
