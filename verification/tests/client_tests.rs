use workorder::client::{
    build_api_request, check_transport, plan_create_ticket, plan_list_categories,
    plan_list_products, prepare_request, resolve_category, resolve_product, submit_plan, ApiError,
    Category, Envelope, Product, ProductDirectory,
};
use workorder::signer::AliyunSigner;

fn product(name: Option<&str>, id: Option<u64>) -> Product {
    Product {
        product_id: id,
        product_name: name.map(|s| s.to_string()),
    }
}

fn directory(name: &str, products: Vec<Product>) -> ProductDirectory {
    ProductDirectory {
        directory_id: Some(1),
        directory_name: Some(name.to_string()),
        product_list: Some(products),
    }
}

fn category(name: &str, id: Option<u64>) -> Category {
    Category {
        category_id: id,
        category_name: Some(name.to_string()),
    }
}

#[test]
fn resolve_product_finds_the_domain_marker() {
    let dirs = vec![
        directory("计算", vec![product(Some("云服务器ECS"), Some(1))]),
        directory(
            "轻量",
            vec![
                product(Some("对象存储OSS"), Some(2)),
                product(Some("轻量应用服务器"), Some(3)),
            ],
        ),
    ];
    assert!(matches!(resolve_product(&dirs), Ok(3)));
}

#[test]
fn resolve_product_finds_the_english_marker_case_insensitively() {
    let dirs = vec![directory(
        "lightweight",
        vec![product(Some("SIMPLE APPLICATION SERVER"), Some(5))],
    )];
    assert!(matches!(resolve_product(&dirs), Ok(5)));
}

#[test]
fn resolve_product_failure_enumerates_every_scanned_product() {
    let dirs = vec![
        directory("计算", vec![product(Some("云服务器ECS"), Some(1))]),
        directory("存储", vec![product(Some("对象存储OSS"), Some(2)), product(None, None)]),
    ];
    match resolve_product(&dirs) {
        Err(ApiError::ProductNotFound(listing)) => {
            assert_eq!(listing.len(), 3);
            let err = ApiError::ProductNotFound(listing);
            let msg = err.message();
            assert!(msg.contains("云服务器ECS"));
            assert!(msg.contains("对象存储OSS"));
            assert!(msg.contains("未知"));
            assert!(msg.contains("(ProductId: 0)"));
        }
        other => panic!("expected the scan listing, got {:?}", other.is_ok()),
    }
}

#[test]
fn resolve_product_skips_directories_without_listings() {
    let empty_dir = ProductDirectory {
        directory_id: Some(9),
        directory_name: None,
        product_list: None,
    };
    let dirs = vec![
        empty_dir,
        directory("轻量", vec![product(Some("轻量应用服务器"), Some(3))]),
    ];
    assert!(matches!(resolve_product(&dirs), Ok(3)));
}

#[test]
fn resolve_product_missing_id_is_its_own_error() {
    let dirs = vec![directory("轻量", vec![product(Some("轻量应用服务器"), None)])];
    assert!(matches!(resolve_product(&dirs), Err(ApiError::ProductIdMissing)));
}

#[test]
fn resolve_category_picks_first_keyword_match_in_list_order() {
    let cats = vec![
        category("杂项", Some(1)),
        category("网络带宽问题", Some(2)),
        category("其他", Some(3)),
    ];
    let choice = resolve_category(&cats).unwrap();
    assert_eq!(choice.category_id, 2);
    assert_eq!(choice.category_name.as_deref(), Some("网络带宽问题"));
    assert!(!choice.fallback);
}

#[test]
fn resolve_category_earlier_keyword_wins_over_list_position() {
    // The first category matches only the second keyword; the second category
    // matches the first keyword, so it wins.
    let cats = vec![category("网络监控", Some(1)), category("带宽调整", Some(2))];
    let choice = resolve_category(&cats).unwrap();
    assert_eq!(choice.category_id, 2);
}

#[test]
fn resolve_category_matches_english_keywords_case_insensitively() {
    let cats = vec![category("Other", Some(1)), category("Bandwidth limits", Some(2))];
    let choice = resolve_category(&cats).unwrap();
    assert_eq!(choice.category_id, 2);
    assert!(!choice.fallback);
}

#[test]
fn resolve_category_falls_back_to_the_first_listed() {
    let cats = vec![category("账单", Some(4)), category("备案", Some(5))];
    let choice = resolve_category(&cats).unwrap();
    assert_eq!(choice.category_id, 4);
    assert!(choice.fallback);
}

#[test]
fn resolve_category_empty_listing_fails() {
    let cats: Vec<Category> = Vec::new();
    assert!(matches!(resolve_category(&cats), Err(ApiError::CategoriesEmpty)));
}

#[test]
fn envelope_success_flag_is_authoritative() {
    let ok = Envelope::<String> {
        code: Some(200),
        message: None,
        success: Some(true),
        data: Some("ticket-1".to_string()),
        request_id: Some("r".to_string()),
    };
    assert_eq!(ok.into_data().unwrap(), "ticket-1");

    // Data alone is not evidence of success.
    let not_ok = Envelope::<String> {
        code: Some(200),
        message: Some("denied".to_string()),
        success: Some(false),
        data: Some("ticket-1".to_string()),
        request_id: None,
    };
    match not_ok.into_data() {
        Err(ApiError::Upstream(m)) => assert_eq!(m, "denied"),
        _ => panic!("a false success flag must fail"),
    }

    let absent = Envelope::<String> {
        code: None,
        message: None,
        success: None,
        data: Some("ticket-1".to_string()),
        request_id: None,
    };
    match absent.into_data() {
        Err(ApiError::Upstream(m)) => assert_eq!(m, ""),
        _ => panic!("an absent success flag must fail"),
    }

    let empty = Envelope::<String> {
        code: None,
        message: None,
        success: Some(true),
        data: None,
        request_id: None,
    };
    assert!(matches!(empty.into_data(), Err(ApiError::MissingData)));
}

#[test]
fn transport_check_accepts_2xx_only() {
    assert_eq!(check_transport(200, "body".to_string()).unwrap(), "body");
    assert_eq!(check_transport(204, "".to_string()).unwrap(), "");
    match check_transport(404, "missing".to_string()) {
        Err(ApiError::HttpStatus(status, body)) => {
            assert_eq!(status, 404);
            assert_eq!(body, "missing");
            let msg = ApiError::HttpStatus(status, body).message();
            assert_eq!(msg, "API 返回错误 (HTTP 404): missing");
        }
        _ => panic!("a 404 must fail"),
    }
}

#[test]
fn submit_plan_skips_configured_identifiers() {
    let both = submit_plan(7, 9);
    assert!(!both.resolve_product && !both.resolve_category);
    let none = submit_plan(0, 0);
    assert!(none.resolve_product && none.resolve_category);
    let product_only = submit_plan(7, 0);
    assert!(!product_only.resolve_product && product_only.resolve_category);
    let category_only = submit_plan(0, 9);
    assert!(category_only.resolve_product && !category_only.resolve_category);
}

#[test]
fn built_request_carries_the_required_headers() {
    let signer = AliyunSigner::new("AKID".to_string(), "testsecret".to_string());
    let endpoint = "workorder.aliyuncs.com".to_string();
    let version = "2021-06-10".to_string();
    let action = "ListProducts".to_string();
    let params = plan_list_products();
    let req = build_api_request(
        &signer,
        &endpoint,
        &version,
        &action,
        params,
        "2024-01-02T03:04:05Z".to_string(),
        "nonce-1".to_string(),
    )
    .unwrap();
    assert_eq!(req.url, "https://workorder.aliyuncs.com/");
    assert_eq!(req.query, vec![("Language".to_string(), "zh".to_string())]);
    let names: Vec<&str> = req.headers.iter().map(|h| h.0.as_str()).collect();
    assert_eq!(
        names,
        vec![
            "host",
            "x-acs-action",
            "x-acs-version",
            "x-acs-date",
            "x-acs-signature-nonce",
            "x-acs-content-sha256",
            "Authorization",
        ]
    );
    assert_eq!(req.headers[0].1, "workorder.aliyuncs.com");
    assert_eq!(req.headers[1].1, "ListProducts");
    assert_eq!(req.headers[2].1, "2021-06-10");
    assert_eq!(req.headers[3].1, "2024-01-02T03:04:05Z");
    assert_eq!(req.headers[4].1, "nonce-1");
    // The hash of the empty GET body.
    assert_eq!(
        req.headers[5].1,
        "e3b0c44298fc1c149afbf4c8996fb92427ae41e4649b934ca495991b7852b855"
    );
    assert!(req.headers[6].1.starts_with("ACS3-HMAC-SHA256 Credential=AKID,SignedHeaders="));
}

#[test]
fn prepared_request_draws_fresh_call_identifiers() {
    let signer = AliyunSigner::new("AKID".to_string(), "testsecret".to_string());
    let endpoint = "workorder.aliyuncs.com".to_string();
    let version = "2021-06-10".to_string();
    let action = "ListProducts".to_string();
    let r1 = prepare_request(&signer, &endpoint, &version, &action, plan_list_products()).unwrap();
    let r2 = prepare_request(&signer, &endpoint, &version, &action, plan_list_products()).unwrap();
    // The nonce is fresh per call.
    assert_ne!(r1.headers[4].1, r2.headers[4].1);
    assert_eq!(r1.headers[4].1.len(), 36);
}

#[test]
fn call_plans_carry_the_exact_parameters() {
    assert_eq!(
        plan_list_products(),
        vec![("Language".to_string(), "zh".to_string())]
    );
    assert_eq!(
        plan_list_categories(42),
        vec![
            ("ProductId".to_string(), "42".to_string()),
            ("Language".to_string(), "zh".to_string()),
        ]
    );
    let title = "帮忙看看".to_string();
    let description = "谢谢".to_string();
    assert_eq!(
        plan_create_ticket(9, &title, &description),
        vec![
            ("CategoryId".to_string(), "9".to_string()),
            ("Severity".to_string(), "2".to_string()),
            ("Title".to_string(), "帮忙看看".to_string()),
            ("Description".to_string(), "谢谢".to_string()),
        ]
    );
}
