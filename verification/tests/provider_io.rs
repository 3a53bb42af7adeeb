use tradex::provider_io::{
    allowed_path, trading212_order_read_error, valid_t212_history_path, ProviderEndpoint,
    ProviderHttpMethod, Trading212ReadEndpoint,
};

#[test]
fn order_posts_are_restricted_to_the_two_demo_routes() {
    assert_eq!(
        ProviderEndpoint::Trading212Demo.base_url(),
        "https://demo.trading212.com"
    );
    for path in [
        "/api/v0/equity/orders/market",
        "/api/v0/equity/orders/limit",
    ] {
        assert!(ProviderEndpoint::Trading212Demo.allows_method(ProviderHttpMethod::Post, path));
        assert!(!ProviderEndpoint::Trading212Live.allows_method(ProviderHttpMethod::Post, path));
    }
    assert!(
        !ProviderEndpoint::Trading212Demo
            .allows_method(ProviderHttpMethod::Post, "/api/v0/equity/orders")
    );
    assert!(
        !ProviderEndpoint::Trading212Demo
            .allows_method(ProviderHttpMethod::Delete, "/api/v0/equity/orders/1")
    );
    assert!(ProviderEndpoint::Trading212Demo.allows("/api/v0/equity/orders"));
    assert!(ProviderEndpoint::Trading212Demo.allows("/api/v0/equity/orders/9007199254740995"));
    assert!(ProviderEndpoint::Trading212Demo
        .allows("/api/v0/equity/history/orders?limit=50&cursor=1760346100000"));
    assert!(!ProviderEndpoint::Trading212Live
        .allows("/api/v0/equity/history/orders?limit=50&cursor=1760346100000"));
    for path in [
        "/api/v0/equity/orders/0",
        "/api/v0/equity/orders/9007199254740995?x=1",
        "/api/v0/equity/history/orders?limit=500",
        "/api/v0/equity/history/orders?limit=50&cursor=1&cursor=2",
        "/api/v0/equity/history/orders?limit=50&next=https://evil.test",
        "/api/v0/equity/history/orders/../orders?limit=50",
    ] {
        assert!(!ProviderEndpoint::Trading212Demo.allows(path), "{path}");
    }
    assert!(valid_t212_history_path(
        "/api/v0/equity/history/orders?cursor=1760346100000&limit=50"
    ));
}

#[test]
fn trading212_order_reads_classify_client_and_server_errors_separately() {
    assert_eq!(
        trading212_order_read_error(418, Trading212ReadEndpoint::PendingOrders).code,
        "PROVIDER_RESPONSE_INVALID"
    );
    assert_eq!(
        trading212_order_read_error(503, Trading212ReadEndpoint::PendingOrders).code,
        "PROVIDER_UNAVAILABLE"
    );
    assert_eq!(
        trading212_order_read_error(404, Trading212ReadEndpoint::OrderDetail).code,
        "ORDER_STATUS_UNKNOWN"
    );
}

#[test]
fn read_errors_cover_every_status_class() {
    let code = |s| trading212_order_read_error(s, Trading212ReadEndpoint::History).code;
    assert_eq!(code(401), "PROVIDER_AUTH_FAILED");
    assert_eq!(code(403), "PROVIDER_PERMISSION_BLOCKED");
    assert_eq!(code(404), "PROVIDER_RESPONSE_INVALID");
    assert_eq!(code(429), "PROVIDER_RATE_LIMITED");
    assert_eq!(code(408), "PROVIDER_UNAVAILABLE");
    assert_eq!(code(302), "PROVIDER_DATA_INCOMPLETE");
}

#[test]
fn paper_routes_accept_only_known_shapes() {
    let id = "18c65e3e-feb0-4576-99e2-36e6f047d84d";
    assert!(allowed_path("/v2/account"));
    assert!(allowed_path(&format!("/v2/orders/{id}")));
    assert!(!allowed_path("/v2/orders/not-a-uuid"));
    assert!(allowed_path("/v2/assets/BRK.B"));
    assert!(!allowed_path("/v2/assets/brk"));
    assert!(!allowed_path("/v2/assets/..."));
    assert!(allowed_path(
        "/v2/account/activities/FILL?page_size=100&direction=desc&page_token=abc:1"
    ));
    assert!(ProviderEndpoint::AlpacaPaper
        .allows_method(ProviderHttpMethod::Delete, &format!("/v2/orders/{id}")));
    assert!(ProviderEndpoint::AlpacaPaper.allows_method(ProviderHttpMethod::Post, "/v2/orders"));
    assert!(!ProviderEndpoint::AlpacaPaper.allows_method(ProviderHttpMethod::Post, "/v2/account"));
    assert!(!ProviderEndpoint::Trading212Demo.allows("/api/v0/equity/orders/9223372036854775808"));
    assert!(ProviderEndpoint::Trading212Demo.allows("/api/v0/equity/orders/9223372036854775807"));
}

#[test]
fn decimal_differences_are_exact_and_refuse_malformed_text() {
    assert_eq!(tradex::provider_io::decimal_subtract("2.50", "1").unwrap(), "1.5");
    assert_eq!(tradex::provider_io::decimal_subtract("1", "1.000").unwrap(), "0");
    for (left, right) in [("abc", "1"), ("1", "1e3"), ("1", "2"), ("-1", "0")] {
        assert_eq!(
            tradex::provider_io::decimal_subtract(left, right).unwrap_err().code,
            "PROVIDER_RESPONSE_INVALID"
        );
    }
}
