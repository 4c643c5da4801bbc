use appscreener_pattern_sync::api::{
    api_root_for, bearer_value, describe_status, endpoint_url, limited_response_body, normalize_base_url,
    pattern_action, pattern_endpoint, rule_info_endpoint, rule_patterns_endpoint, UrlError, UrlParts,
};
use appscreener_pattern_sync::logging::{default_filter, default_level};

#[test]
fn appends_default_api_path() {
    let result = normalize_base_url("http://appscreener.local").unwrap();

    assert_eq!(result, "http://appscreener.local/app/api/v1");
}

#[test]
fn preserves_explicit_api_path() {
    let result = normalize_base_url("https://appscreener.local/app/api/v1/").unwrap();

    assert_eq!(result, "https://appscreener.local/app/api/v1");
}

#[test]
fn rejects_query_parameters() {
    assert!(normalize_base_url("https://appscreener.local?token=secret").is_err());
}

#[test]
fn completes_app_path() {
    let result = normalize_base_url("  http://appscreener.local/app//  ").unwrap();

    assert_eq!(result, "http://appscreener.local/app/api/v1");
}

#[test]
fn refuses_bad_base_urls() {
    assert!(matches!(normalize_base_url("  / "), Err(UrlError::Empty)));
    assert!(matches!(
        normalize_base_url("not a url"),
        Err(UrlError::Invalid { .. })
    ));
    assert!(matches!(
        normalize_base_url("ftp://appscreener.local"),
        Err(UrlError::UnsupportedScheme)
    ));
    assert!(matches!(
        normalize_base_url("http://appscreener.local#part"),
        Err(UrlError::HasFragment)
    ));
    assert!(matches!(
        normalize_base_url("https://appscreener.local?token=secret"),
        Err(UrlError::HasQuery)
    ));
    assert_eq!(
        UrlError::HasQuery.message(),
        "--base-url must not contain query parameters"
    );
}

#[test]
fn limits_long_bodies() {
    assert_eq!(limited_response_body(""), "<empty body>");
    assert_eq!(limited_response_body("short"), "short");

    let exact = "é".repeat(4096);
    assert_eq!(limited_response_body(&exact), exact);

    let long = "x".repeat(4097);
    let limited = limited_response_body(&long);
    assert_eq!(limited, format!("{}…<truncated>", "x".repeat(4096)));
}

#[test]
fn describes_auth_failures() {
    assert_eq!(
        describe_status(401, "denied".to_owned()),
        "denied; check APPSCREENER_TOKEN"
    );
    assert_eq!(
        describe_status(403, "denied".to_owned()),
        "denied; token has no permission to modify this rule"
    );
    assert_eq!(describe_status(500, "boom".to_owned()), "boom");
}

#[test]
fn builds_endpoints_and_headers() {
    assert_eq!(bearer_value("abc.def"), "Bearer abc.def");
    assert_eq!(rule_info_endpoint("r-1"), "/rules/custom/r-1/info");
    assert_eq!(rule_patterns_endpoint("r-1"), "/rules/custom/r-1/patterns");
    assert_eq!(
        endpoint_url("http://host/app/api/v1", pattern_endpoint()),
        "http://host/app/api/v1/patterns/pattern"
    );
}

#[test]
fn names_pattern_requests_with_quoted_names() {
    assert_eq!(pattern_action("create", "P003"), "create pattern \"P003\"");
    assert_eq!(
        pattern_action("delete", "say \"hi\"\n"),
        "delete pattern \"say \\\"hi\\\"\\n\""
    );
}

#[test]
fn default_log_filter_follows_verbosity() {
    assert_eq!(default_level(0, false), "info");
    assert_eq!(default_level(1, false), "debug");
    assert_eq!(default_level(5, false), "trace");
    assert_eq!(default_level(0, true), "error");
    assert_eq!(
        default_filter(0, false),
        "appscreener_pattern_sync=info,reqwest=warn,hyper=warn,rustls=warn"
    );
    assert_eq!(
        default_filter(2, false),
        "appscreener_pattern_sync=trace,reqwest=warn,hyper=warn,rustls=warn"
    );
}

fn parts(scheme: &str, host: Option<&str>, path: &str) -> UrlParts {
    UrlParts {
        scheme: scheme.to_owned(),
        host: host.map(str::to_owned),
        path: path.to_owned(),
        query: None,
        fragment: None,
    }
}

#[test]
fn api_root_follows_the_parsed_parts() {
    let base = "http://host".to_owned();
    assert_eq!(
        api_root_for(base.clone(), Ok(parts("http", Some("host"), "/"))).unwrap(),
        "http://host/app/api/v1"
    );
    assert_eq!(
        api_root_for("https://host/app".to_owned(), Ok(parts("https", Some("host"), "/app")))
            .unwrap(),
        "https://host/app/api/v1"
    );
    assert_eq!(
        api_root_for(
            "https://host/x/api/v2".to_owned(),
            Ok(parts("https", Some("host"), "/x/api/v2"))
        )
        .unwrap(),
        "https://host/x/api/v2"
    );
    assert!(matches!(
        api_root_for(base.clone(), Ok(parts("ftp", Some("host"), "/"))),
        Err(UrlError::UnsupportedScheme)
    ));
    assert!(matches!(
        api_root_for(base.clone(), Ok(parts("http", None, "/"))),
        Err(UrlError::MissingHost)
    ));
    let mut with_fragment = parts("http", Some("host"), "/");
    with_fragment.fragment = Some("top".to_owned());
    assert!(matches!(
        api_root_for(base.clone(), Ok(with_fragment)),
        Err(UrlError::HasFragment)
    ));
    match api_root_for(base, Err("relative URL without a base".to_owned())) {
        Err(UrlError::Invalid { cause }) => assert_eq!(cause, "relative URL without a base"),
        other => panic!("expected a parse failure, got {other:?}"),
    }
}
