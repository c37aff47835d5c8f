use resilience_core::endpoint::{is_custom_endpoint, EndpointOverrideInterceptor};

#[test]
fn test_detects_custom_endpoint() {
    let interceptor = EndpointOverrideInterceptor::new();
    let url = "https://custom.example.com";
    let record = interceptor.should_record_override(Some(url.as_bytes()));
    assert_eq!(record, true);
    assert!(is_custom_endpoint(url.as_bytes()));
}

#[test]
fn test_ignores_default_endpoint() {
    let interceptor = EndpointOverrideInterceptor::new();
    let url = "https://service.amazonaws.com";
    let record = interceptor.should_record_override(Some(url.as_bytes()));
    assert_eq!(record, false);
}

#[test]
fn test_no_endpoint_url_configured() {
    let interceptor = EndpointOverrideInterceptor::new();
    // No endpoint URL configured
    let record = interceptor.should_record_override(None);
    assert_eq!(record, false);
}

#[test]
fn test_ignores_china_region_endpoint() {
    let interceptor = EndpointOverrideInterceptor::new();
    let url = "https://service.amazonaws.com.cn";
    let record = interceptor.should_record_override(Some(url.as_bytes()));
    assert_eq!(record, false);
}

#[test]
fn test_detects_localhost_endpoint() {
    assert!(is_custom_endpoint("http://localhost:9000".as_bytes()));
}
