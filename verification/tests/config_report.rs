use tracer::config::{
    CaptureHeaderConfig, CaptureHeaderFileConfig, Config, ConfigError, DefaultsConfig, FileConfig,
    FileTestConfig, PayloadConfig, TestConfig,
};
use tracer::report::{calculate_header_size, extract_configured_headers, hash_body, to_hex, TestReport};

fn h(k: &str, v: &str) -> (String, String) {
    (k.to_string(), v.to_string())
}

fn bare_test(name: &str, url: Option<&str>) -> FileTestConfig {
    FileTestConfig {
        name: name.to_string(),
        url: url.map(|u| u.to_string()),
        method: None,
        headers: None,
        payload: None,
        capture_headers: None,
    }
}

#[test]
fn single_names_after_url() {
    let c = Config::single(
        "https://example.com/".to_string(),
        "GET".to_string(),
        vec![h("accept", "text/plain")],
        None,
        CaptureHeaderConfig::empty(),
    );
    assert_eq!(c.tests.len(), 1);
    assert_eq!(c.tests[0].name, "https://example.com/");
    assert_eq!(c.tests[0].url, "https://example.com/");
    assert_eq!(c.tests[0].method, "GET");
}

#[test]
fn fill_defaults_applies_defaults() {
    let file = FileConfig {
        defaults: Some(DefaultsConfig {
            url: Some("https://fallback.example/".to_string()),
            method: Some("POST".to_string()),
            headers: Some(vec![h("x-common", "1")]),
            capture_headers: None,
        }),
        tests: vec![
            bare_test("first", None),
            FileTestConfig {
                name: "second".to_string(),
                url: Some("https://second.example/".to_string()),
                method: None,
                headers: Some(vec![h("x-own", "2")]),
                payload: Some(PayloadConfig::File { file: "body.txt".to_string() }),
                capture_headers: Some(CaptureHeaderFileConfig {
                    all: Some(true),
                    list: None,
                }),
            },
        ],
    };
    let config = Config::fill_defaults(file, "/etc/tracer").unwrap();
    assert_eq!(config.tests.len(), 2);
    let first = &config.tests[0];
    assert_eq!(first.url, "https://fallback.example/");
    assert_eq!(first.method, "POST");
    assert_eq!(first.headers, vec![h("x-common", "1")]);
    assert!(matches!(&first.capture_headers, CaptureHeaderConfig::List(l) if l.is_empty()));
    assert!(first.payload.is_none());
    let second = &config.tests[1];
    assert_eq!(second.url, "https://second.example/");
    assert_eq!(second.method, "POST");
    assert_eq!(second.headers, vec![h("x-own", "2")]);
    assert!(matches!(&second.capture_headers, CaptureHeaderConfig::All));
    match &second.payload {
        Some(PayloadConfig::File { file }) => assert_eq!(file, "/etc/tracer/body.txt"),
        other => panic!("unexpected payload {:?}", other),
    }
}

#[test]
fn fill_defaults_leaves_absolute_paths() {
    let file = FileConfig {
        defaults: None,
        tests: vec![FileTestConfig {
            payload: Some(PayloadConfig::File { file: "/abs/body.txt".to_string() }),
            ..bare_test("t", Some("http://x/"))
        }],
    };
    let config = Config::fill_defaults(file, "/etc").unwrap();
    match &config.tests[0].payload {
        Some(PayloadConfig::File { file }) => assert_eq!(file, "/abs/body.txt"),
        other => panic!("unexpected payload {:?}", other),
    }
    // and with no defaults section the method falls back to GET
    assert_eq!(config.tests[0].method, "GET");
}

#[test]
fn fill_defaults_missing_url() {
    let file = FileConfig {
        defaults: None,
        tests: vec![bare_test("has-url", Some("http://a/")), bare_test("lacks-url", None)],
    };
    match Config::fill_defaults(file, "/") {
        Err(ConfigError::MissingUrl(name)) => assert_eq!(name, "lacks-url"),
        other => panic!("expected a missing-url error, got {:?}", other),
    }
}

#[test]
fn capture_list_matches_case_insensitively() {
    let conf = CaptureHeaderConfig::list(&vec!["Content-Type".to_string()]);
    let headers = vec![
        h("content-type", "text/plain"),
        h("CONTENT-LENGTH", "5"),
        h("x-other", "1"),
    ];
    let captured = extract_configured_headers(&conf, &headers);
    assert_eq!(captured, vec![h("content-type", "text/plain")]);
    let all = extract_configured_headers(&CaptureHeaderConfig::all(), &headers);
    assert_eq!(all.len(), 3);
    let none = extract_configured_headers(&CaptureHeaderConfig::empty(), &headers);
    assert!(none.is_empty());
}

#[test]
fn header_size_counts_canonical_form() {
    // name + ": " + value + "\r\n" per header
    let headers = vec![h("content-type", "text/plain"), h("a", "b")];
    // (12 + 10 + 4) + (1 + 1 + 4)
    assert_eq!(calculate_header_size(&headers), 32);
    assert_eq!(calculate_header_size(&Vec::new()), 0);
}

#[test]
fn sha256_known_vectors() {
    assert_eq!(
        hash_body(&Vec::new()),
        "e3b0c44298fc1c149afbf4c8996fb92427ae41e4649b934ca495991b7852b855"
    );
    assert_eq!(
        hash_body(&b"hello".to_vec()),
        "2cf24dba5fb0a30e26e83b2ac5b9e29e1b161e5c1fa7425e73043362938b9824"
    );
}

#[test]
fn hex_encodes_bytes() {
    assert_eq!(to_hex(&vec![0x00, 0x0f, 0xa5, 0xff]), "000fa5ff");
    assert_eq!(to_hex(&Vec::new()), "");
}

#[test]
fn report_captures_configured_headers() {
    let config = TestConfig {
        name: "t".to_string(),
        url: "https://example.com/".to_string(),
        method: "GET".to_string(),
        headers: Vec::new(),
        payload: None,
        capture_headers: CaptureHeaderConfig::list(&vec!["Server".to_string()]),
    };
    let response_headers = vec![h("server", "unit"), h("content-length", "5")];
    let report = TestReport::new(
        config,
        Vec::new(),
        200,
        response_headers,
        hash_body(&b"hello".to_vec()),
    );
    assert_eq!(report.status, 200);
    assert_eq!(report.captured_headers, vec![h("server", "unit")]);
    assert!(report.body_hash.starts_with("2cf24dba"));
    let config = report.take_config();
    assert_eq!(config.name, "t");
}
