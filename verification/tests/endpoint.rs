use kiro_rs::endpoint::{
    default_is_bearer_token_invalid, is_quota_exceeded, Config, KiroCredentials, KiroEndpoint,
    RequestContext,
};

#[test]
fn test_is_quota_exceeded_detects_default_keyword() {
    let body = r#"{"message":"You have reached the limit.","reason":"MONTHLY_REQUEST_COUNT"}"#;
    let keywords = vec!["MONTHLY_REQUEST_COUNT".to_string()];
    assert!(is_quota_exceeded(body, &keywords));
}

#[test]
fn test_is_quota_exceeded_detects_custom_keyword() {
    let body = r#"{"message":"You have reached the limit for overages.","reason":"OVERAGE_REQUEST_LIMIT_EXCEEDED"}"#;
    let keywords = vec![
        "MONTHLY_REQUEST_COUNT".to_string(),
        "OVERAGE_REQUEST_LIMIT_EXCEEDED".to_string(),
    ];
    assert!(is_quota_exceeded(body, &keywords));
}

#[test]
fn test_is_quota_exceeded_false_when_no_match() {
    let body = r#"{"message":"nope","reason":"DAILY_REQUEST_COUNT"}"#;
    let keywords = vec!["MONTHLY_REQUEST_COUNT".to_string()];
    assert!(!is_quota_exceeded(body, &keywords));
}

#[test]
fn test_is_quota_exceeded_empty_keywords_never_matches() {
    let body = r#"{"reason":"MONTHLY_REQUEST_COUNT"}"#;
    assert!(!is_quota_exceeded(body, &[]));
}

#[test]
fn test_default_bearer_token_invalid() {
    assert!(default_is_bearer_token_invalid(
        "The bearer token included in the request is invalid"
    ));
    assert!(!default_is_bearer_token_invalid("unrelated error"));
}

#[test]
fn an_empty_keyword_matches_nothing() {
    assert!(!is_quota_exceeded("anything", &["".to_string()]));
    assert!(is_quota_exceeded("anything", &["".to_string(), "thing".to_string()]));
}

#[test]
fn keywords_are_case_sensitive() {
    assert!(!is_quota_exceeded("monthly_request_count", &["MONTHLY_REQUEST_COUNT".to_string()]));
}

#[test]
fn a_keyword_longer_than_the_body_does_not_match() {
    assert!(!is_quota_exceeded("ab", &["abc".to_string()]));
    assert!(!is_quota_exceeded("", &["a".to_string()]));
}

#[test]
fn a_token_message_inside_a_body_is_found() {
    assert!(default_is_bearer_token_invalid(
        r#"{"message":"The bearer token included in the request is invalid."}"#
    ));
    assert!(!default_is_bearer_token_invalid(
        "the bearer token included in the request is invalid"
    ));
}

struct Plain;

impl KiroEndpoint for Plain {
    fn name(&self) -> &'static str {
        "plain"
    }
    fn api_url(&self, ctx: &RequestContext<'_>) -> String {
        format!("https://api/{}", ctx.machine_id)
    }
    fn mcp_url(&self, _ctx: &RequestContext<'_>) -> String {
        "https://mcp".to_string()
    }
    fn decorate_api(
        &self,
        req: reqwest::RequestBuilder,
        ctx: &RequestContext<'_>,
    ) -> reqwest::RequestBuilder {
        req.header("authorization", format!("Bearer {}", ctx.token))
    }
    fn decorate_mcp(
        &self,
        req: reqwest::RequestBuilder,
        _ctx: &RequestContext<'_>,
    ) -> reqwest::RequestBuilder {
        req.header("x-mcp", "1")
    }
    fn transform_api_body(&self, body: &str, ctx: &RequestContext<'_>) -> String {
        format!("{}{}", ctx.token, body)
    }
}

#[test]
fn an_endpoint_decorates_its_requests() {
    let credentials = KiroCredentials { endpoint: Some("plain".to_string()) };
    let config = Config {
        default_endpoint: "plain".to_string(),
        quota_exceeded_keywords: vec![],
    };
    let ctx = RequestContext {
        credentials: &credentials,
        token: "t",
        machine_id: "m",
        config: &config,
    };
    let client = reqwest::Client::new();
    let api = Plain.decorate_api(client.post("http://localhost/"), &ctx).build().unwrap();
    assert_eq!(api.headers().get("authorization").unwrap(), "Bearer t");
    let mcp = Plain.decorate_mcp(client.post("http://localhost/"), &ctx).build().unwrap();
    assert_eq!(mcp.headers().get("x-mcp").unwrap(), "1");
}

#[test]
fn a_match_survives_more_text_and_more_keywords() {
    let one = ["QUOTA".to_string()];
    let two = ["OTHER".to_string(), "QUOTA".to_string()];
    assert!(is_quota_exceeded("QUOTA", &one));
    assert!(is_quota_exceeded("before QUOTA behind", &one));
    assert!(is_quota_exceeded("QUOTA", &two));
}

#[test]
fn the_default_methods_of_an_endpoint() {
    let credentials = KiroCredentials { endpoint: None };
    let config = Config {
        default_endpoint: "plain".to_string(),
        quota_exceeded_keywords: vec!["MONTHLY_REQUEST_COUNT".to_string()],
    };
    let ctx = RequestContext {
        credentials: &credentials,
        token: "t",
        machine_id: "m",
        config: &config,
    };
    assert_eq!(Plain.name(), "plain");
    assert_eq!(Plain.api_url(&ctx), "https://api/m");
    assert_eq!(Plain.transform_api_body("{}", &ctx), "t{}");
    assert_eq!(Plain.transform_mcp_body("{\"a\":1}", &ctx), "{\"a\":1}");
    assert!(Plain.is_bearer_token_invalid("The bearer token included in the request is invalid"));
    assert!(!Plain.is_bearer_token_invalid("expired"));
}
