use workorder::signer::AliyunSigner;
use workorder::signer::{hmac_sha256_hex, sha256_hex};

#[test]
fn percent_encode_passes_unreserved_and_escapes_the_rest() {
    assert_eq!(AliyunSigner::percent_encode("a b=c"), "a%20b%3Dc");
    assert_eq!(
        AliyunSigner::percent_encode("AZaz09-_.~"),
        "AZaz09-_.~"
    );
    assert_eq!(AliyunSigner::percent_encode("/"), "%2F");
    assert_eq!(AliyunSigner::percent_encode(""), "");
    // Multi-byte characters are escaped byte by byte, upper-case hex.
    assert_eq!(AliyunSigner::percent_encode("带"), "%E5%B8%A6");
}

#[test]
fn sha256_hex_known_vectors() {
    assert_eq!(
        sha256_hex(""),
        "e3b0c44298fc1c149afbf4c8996fb92427ae41e4649b934ca495991b7852b855"
    );
    assert_eq!(
        sha256_hex("abc"),
        "ba7816bf8f01cfea414140de5dae2223b00361a396177a9cb410ff61f20015ad"
    );
}

#[test]
fn hmac_sha256_hex_known_vector() {
    assert_eq!(
        hmac_sha256_hex("key", "The quick brown fox jumps over the lazy dog"),
        "f7bc83f430538424b13298e6aa6fb143ef4d59a14946175997479dbc2d1a3cd8"
    );
}

#[test]
fn canonical_query_string_sorts_and_encodes() {
    let params = vec![
        ("b".to_string(), "2".to_string()),
        ("a".to_string(), "1 x".to_string()),
    ];
    assert_eq!(
        AliyunSigner::build_canonical_query_string(&params),
        "a=1%20x&b=2"
    );
}

#[test]
fn canonical_query_string_later_binding_wins() {
    let params = vec![
        ("a".to_string(), "1".to_string()),
        ("a".to_string(), "2".to_string()),
    ];
    assert_eq!(AliyunSigner::build_canonical_query_string(&params), "a=2");
}

#[test]
fn canonical_query_string_empty() {
    let params: Vec<(String, String)> = Vec::new();
    assert_eq!(AliyunSigner::build_canonical_query_string(&params), "");
}

fn sample_headers() -> Vec<(String, String)> {
    vec![
        ("Host".to_string(), "workorder.aliyuncs.com".to_string()),
        ("X-Acs-Action".to_string(), "ListProducts".to_string()),
        ("X-Custom-Other".to_string(), "ignored".to_string()),
    ]
}

#[test]
fn sign_selects_and_lowercases_headers() {
    // A header named X-Custom-Other is excluded; one named X-Acs-Action is
    // included under its lower-case name.
    let signer = AliyunSigner::new("AKID".to_string(), "testsecret".to_string());
    let params = vec![("Language".to_string(), "zh".to_string())];
    let auth = signer.sign("GET", &params, &sample_headers(), "").unwrap();
    let prefix = "ACS3-HMAC-SHA256 Credential=AKID,SignedHeaders=host;x-acs-action,Signature=";
    assert!(auth.starts_with(prefix), "unexpected authorization: {auth}");
    let signature = &auth[prefix.len()..];
    assert_eq!(signature.len(), 64);
    assert!(signature.chars().all(|c| c.is_ascii_hexdigit() && !c.is_ascii_uppercase()));
}

#[test]
fn header_selection_includes_the_provider_prefix_only() {
    // X-Custom-Other is excluded; X-Acs-Foo is included under x-acs-foo.
    let signer = AliyunSigner::new("AKID".to_string(), "testsecret".to_string());
    let headers = vec![
        ("X-Custom-Other".to_string(), "zzz".to_string()),
        ("X-Acs-Foo".to_string(), "bar".to_string()),
    ];
    let params: Vec<(String, String)> = Vec::new();
    let auth = signer.sign("GET", &params, &headers, "").unwrap();
    assert!(auth.contains(",SignedHeaders=x-acs-foo,"), "got: {auth}");
    assert!(!auth.contains("x-custom-other"));
}

#[test]
fn sign_is_deterministic() {
    let signer1 = AliyunSigner::new("AKID".to_string(), "testsecret".to_string());
    let signer2 = AliyunSigner::new("AKID".to_string(), "testsecret".to_string());
    let params = vec![("Language".to_string(), "zh".to_string())];
    let a1 = signer1.sign("GET", &params, &sample_headers(), "").unwrap();
    let a2 = signer2.sign("GET", &params, &sample_headers(), "").unwrap();
    assert_eq!(a1, a2);
}

#[test]
fn sign_trims_header_values() {
    let signer = AliyunSigner::new("AKID".to_string(), "testsecret".to_string());
    let params: Vec<(String, String)> = Vec::new();
    let h1 = vec![("Host".to_string(), "example.com".to_string())];
    let h2 = vec![("Host".to_string(), "  example.com\t".to_string())];
    let h3 = vec![("Host".to_string(), "other.example.com".to_string())];
    let a1 = signer.sign("GET", &params, &h1, "").unwrap();
    let a2 = signer.sign("GET", &params, &h2, "").unwrap();
    let a3 = signer.sign("GET", &params, &h3, "").unwrap();
    assert_eq!(a1, a2);
    assert_ne!(a1, a3);
}

#[test]
fn sign_depends_on_body_and_params() {
    let signer = AliyunSigner::new("AKID".to_string(), "testsecret".to_string());
    let headers = sample_headers();
    let p1 = vec![("a".to_string(), "1".to_string())];
    let p2 = vec![("a".to_string(), "2".to_string())];
    let a1 = signer.sign("GET", &p1, &headers, "").unwrap();
    let a2 = signer.sign("GET", &p2, &headers, "").unwrap();
    let a3 = signer.sign("GET", &p1, &headers, "body").unwrap();
    assert_ne!(a1, a2);
    assert_ne!(a1, a3);
}

#[test]
fn sign_ignores_parameter_order() {
    let signer = AliyunSigner::new("AKID".to_string(), "testsecret".to_string());
    let headers = sample_headers();
    let p1 = vec![
        ("a".to_string(), "1".to_string()),
        ("b".to_string(), "2".to_string()),
    ];
    let p2 = vec![
        ("b".to_string(), "2".to_string()),
        ("a".to_string(), "1".to_string()),
    ];
    let a1 = signer.sign("GET", &p1, &headers, "").unwrap();
    let a2 = signer.sign("GET", &p2, &headers, "").unwrap();
    assert_eq!(a1, a2);
}
