use kiro_rs::cache_sim::{CacheShares, CacheTtl};
use kiro_rs::json::{Json, JsonObject};
use kiro_rs::types::{Message, MessagesRequest, Tool};
use kiro_rs::websearch::base64::base64_encode;
use kiro_rs::websearch::mcp::{
    check_mcp_response, create_mcp_request, mcp_request, search_results_text, McpContent, McpError,
    McpResponse, McpResult, WebSearchResult, WebSearchResults,
};
use kiro_rs::websearch::page_age::{page_age_at, relative_page_age, words_for_age};
use kiro_rs::websearch::query::{extract_search_query, has_web_search_tool, latest_user_text};
use kiro_rs::websearch::response::{
    create_reply, create_websearch_message, generate_websearch_events, tokens_fit,
    websearch_events, websearch_message, WebSearchReply,
};
use kiro_rs::websearch::content::{build_search_result_content, search_result_block};
use kiro_rs::websearch::summary::{answer_context, generate_search_summary};
use kiro_rs::clock::UtcTime;

fn request(messages: Vec<Message>, tools: Option<Vec<Tool>>) -> MessagesRequest {
    MessagesRequest {
        model: "sonnet-4".to_string(),
        max_tokens: 1024,
        messages,
        stream: true,
        system: None,
        tools,
        tool_choice: None,
        thinking: None,
        output_config: None,
        metadata: None,
    }
}

fn message(role: &str, content: Json) -> Message {
    Message { role: role.to_string(), content }
}

fn text_block(text: &str) -> Json {
    Json::Object(
        JsonObject::new().with("type", Json::text("text")).with("text", Json::text(text)),
    )
}

fn image_block() -> Json {
    Json::Object(JsonObject::new().with("type", Json::text("image")))
}

fn search_tool() -> Tool {
    Tool {
        tool_type: Some("web_search_20250305".to_string()),
        name: "web_search".to_string(),
        description: String::new(),
        input_schema: Default::default(),
        max_uses: Some(8),
    }
}

fn other_tool() -> Tool {
    Tool {
        tool_type: None,
        name: "other_tool".to_string(),
        description: "Other tool".to_string(),
        input_schema: Default::default(),
        max_uses: None,
    }
}

fn page(title: &str, url: &str, snippet: Option<&str>) -> WebSearchResult {
    WebSearchResult {
        title: title.to_string(),
        url: url.to_string(),
        snippet: snippet.map(|s| s.to_string()),
        published_date: None,
        id: None,
        domain: None,
        max_verbatim_word_limit: None,
        public_domain: None,
    }
}

fn found(results: Vec<WebSearchResult>) -> Option<WebSearchResults> {
    Some(WebSearchResults { results, total_results: Some(1), query: None, error: None })
}

fn at<'a>(v: &'a Json, path: &[&str]) -> &'a Json {
    let mut at = v;
    for key in path {
        at = at.get(key).unwrap();
    }
    at
}

fn str_at<'a>(v: &'a Json, path: &[&str]) -> &'a str {
    at(v, path).as_str().unwrap()
}

fn int_at(v: &Json, path: &[&str]) -> i64 {
    match at(v, path) {
        Json::Int(n) => *n,
        _ => panic!("no number at {:?}", path),
    }
}

#[test]
fn test_has_web_search_tool_only_one() {
    let req = request(vec![message("user", Json::text("test"))], Some(vec![search_tool()]));
    assert!(has_web_search_tool(&req));
}

#[test]
fn test_has_web_search_tool_multiple_tools() {
    let req = request(
        vec![message("user", Json::text("test"))],
        Some(vec![search_tool(), other_tool()]),
    );
    assert!(!has_web_search_tool(&req));
}

#[test]
fn other_tools_are_no_web_search() {
    assert!(!has_web_search_tool(&request(vec![], None)));
    assert!(!has_web_search_tool(&request(vec![], Some(vec![]))));
    assert!(!has_web_search_tool(&request(vec![], Some(vec![other_tool()]))));
}

#[test]
fn test_extract_search_query_with_prefix() {
    let req = request(
        vec![message(
            "user",
            Json::Array(vec![text_block(
                "Perform a web search for the query: rust latest version 2026",
            )]),
        )],
        None,
    );
    let query = extract_search_query(&req);
    assert_eq!(query, Some("rust latest version 2026".to_string()));
}

#[test]
fn test_extract_search_query_plain_text() {
    let req = request(vec![message("user", Json::text("What is the weather today?"))], None);
    let query = extract_search_query(&req);
    assert_eq!(query, Some("What is the weather today?".to_string()));
}

#[test]
fn no_query_without_text() {
    assert_eq!(extract_search_query(&request(vec![], None)), None);
    let none = |content: Json| extract_search_query(&request(vec![message("user", content)], None));
    assert_eq!(none(Json::Null), None);
    assert_eq!(none(Json::text("")), None);
    assert_eq!(none(Json::Array(vec![])), None);
    assert_eq!(none(Json::Array(vec![image_block(), text_block("a")])), None);
    assert_eq!(none(Json::text("Perform a web search for the query: ")), None);
    let untyped = Json::Object(JsonObject::new().with("text", Json::text("a")));
    assert_eq!(none(Json::Array(vec![untyped])), None);
    let textless = Json::Object(JsonObject::new().with("type", Json::text("text")));
    assert_eq!(none(Json::Array(vec![textless])), None);
}

#[test]
fn a_query_keeps_the_white_space_around_it() {
    let req = request(vec![message("assistant", Json::text(" a "))], None);
    assert_eq!(extract_search_query(&req), Some(" a ".to_string()));
}

#[test]
fn the_last_message_of_the_user_decides() {
    let req = request(
        vec![
            message("user", Json::text("first")),
            message("assistant", Json::text("reply")),
            message(
                "user",
                Json::Array(vec![
                    image_block(),
                    text_block("  Perform a web search for the query: second \n"),
                    text_block("third"),
                ]),
            ),
            message("user", Json::text(" \u{3000}\n")),
            message("assistant", Json::text("more")),
        ],
        None,
    );
    assert_eq!(latest_user_text(&req), Some("second".to_string()));
}

#[test]
fn the_first_message_stands_in_where_no_user_speaks() {
    let req = request(
        vec![message("assistant", Json::text("Perform a web search for the query: a"))],
        None,
    );
    assert_eq!(latest_user_text(&req), Some("a".to_string()));
    assert_eq!(latest_user_text(&request(vec![], None)), None);
    let blank = request(vec![message("user", Json::text(""))], None);
    assert_eq!(latest_user_text(&blank), None);
}

#[test]
fn an_intent_is_never_empty() {
    // Trimmed, the prefix alone is no prefix any more.
    let req =
        request(vec![message("user", Json::text("Perform a web search for the query: "))], None);
    assert_eq!(
        latest_user_text(&req),
        Some("Perform a web search for the query:".to_string())
    );
}

#[test]
fn test_create_mcp_request() {
    let (tool_use_id, request) = create_mcp_request("test query");
    assert!(tool_use_id.starts_with("srvtoolu_01"));
    let suffix = &tool_use_id["srvtoolu_".len()..];
    assert_eq!(suffix.len(), 24);
    assert!(suffix.chars().all(|c| c.is_ascii_alphanumeric()));
    assert_eq!(request.jsonrpc, "2.0");
    assert_eq!(request.method, "tools/call");
    assert_eq!(request.params.name, "web_search");
    assert_eq!(request.params.arguments.query, "test query");
    assert!(request.id.starts_with("web_search_tooluse_"));
}

#[test]
fn test_mcp_request_id_format() {
    let (_, request) = create_mcp_request("test");
    let id = &request.id;
    assert!(id.starts_with("web_search_tooluse_"));
    let suffix = &id["web_search_tooluse_".len()..];
    let parts: Vec<&str> = suffix.split('_').collect();
    assert_eq!(parts.len(), 3, "应该有3个部分: 22位随机_时间戳_8位随机");
    assert_eq!(parts[0].len(), 22);
    assert!(parts[0].chars().all(|c| c.is_ascii_alphanumeric()));
    assert!(parts[1].parse::<i64>().is_ok());
    assert_eq!(parts[2].len(), 8);
    assert!(parts[2].chars().all(|c| c.is_ascii_lowercase() || c.is_ascii_digit()));
}

#[test]
fn two_requests_differ() {
    let (a_use, a) = create_mcp_request("q");
    let (b_use, b) = create_mcp_request("q");
    assert_ne!(a_use, b_use);
    assert_ne!(a.id, b.id);
}

#[test]
fn the_time_of_a_request_is_now() {
    let before = chrono::Utc::now().timestamp_millis();
    let (_, request) = create_mcp_request("q");
    let after = chrono::Utc::now().timestamp_millis();
    let millis: i64 = request.id.split('_').nth(4).unwrap().parse().unwrap();
    assert!(before <= millis && millis <= after);
}

#[test]
fn a_request_with_given_parts() {
    let (tool_use_id, request) = mcp_request("q", "AAA", -12, "bbb", "CCC");
    assert_eq!(tool_use_id, "srvtoolu_01CCC");
    assert_eq!(request.id, "web_search_tooluse_AAA_-12_bbb");
    let (_, request) = mcp_request("q", "AAA", i64::MIN, "bbb", "CCC");
    assert_eq!(request.id, "web_search_tooluse_AAA_-9223372036854775808_bbb");
}

fn response(error: Option<McpError>, content: Option<Vec<McpContent>>) -> McpResponse {
    McpResponse {
        error,
        id: "test_id".to_string(),
        jsonrpc: "2.0".to_string(),
        result: content.map(|content| McpResult { content, is_error: false }),
    }
}

fn piece(content_type: &str, text: &str) -> McpContent {
    McpContent { content_type: content_type.to_string(), text: text.to_string() }
}

#[test]
fn test_parse_search_results() {
    let response = response(
        None,
        Some(vec![piece(
            "text",
            r#"{"results":[{"title":"Test","url":"https://example.com","snippet":"Test snippet"}],"totalResults":1}"#,
        )]),
    );
    let text = search_results_text(&response);
    assert!(text.is_some());
    let results: serde_json::Value = serde_json::from_str(text.unwrap()).unwrap();
    assert_eq!(results["results"].as_array().unwrap().len(), 1);
    assert_eq!(results["results"][0]["title"], "Test");
}

#[test]
fn results_are_read_from_the_first_piece_of_text_only() {
    assert_eq!(search_results_text(&response(None, None)), None);
    assert_eq!(search_results_text(&response(None, Some(vec![]))), None);
    let image = response(None, Some(vec![piece("image", "a"), piece("text", "b")]));
    assert_eq!(search_results_text(&image), None);
    let text = response(None, Some(vec![piece("text", "b"), piece("text", "c")]));
    assert_eq!(search_results_text(&text), Some("b"));
}

#[test]
fn a_response_with_an_error_is_refused() {
    let full = McpError { code: Some(-32600), message: Some("bad".to_string()) };
    assert_eq!(
        check_mcp_response(response(Some(full), None)).unwrap_err(),
        "MCP error: -32600 - bad"
    );
    let bare = McpError { code: None, message: None };
    assert_eq!(
        check_mcp_response(response(Some(bare), None)).unwrap_err(),
        "MCP error: -1 - Unknown error"
    );
    let fine = check_mcp_response(response(None, Some(vec![piece("text", "b")]))).unwrap();
    assert_eq!(search_results_text(&fine), Some("b"));
}

#[test]
fn test_base64_encode() {
    assert_eq!(base64_encode(b""), "");
    assert_eq!(base64_encode(b"f"), "Zg==");
    assert_eq!(base64_encode(b"fo"), "Zm8=");
    assert_eq!(base64_encode(b"foo"), "Zm9v");
    assert_eq!(base64_encode(b"foobar"), "Zm9vYmFy");
}

#[test]
fn base64_of_all_kinds_of_bytes() {
    assert_eq!(base64_encode(&[0xFB, 0xFF, 0xBF]), "+/+/");
    assert_eq!(base64_encode(&[0, 0, 0]), "AAAA");
    assert_eq!(base64_encode("中文".as_bytes()), "5Lit5paH");
}

#[test]
fn test_relative_page_age() {
    let now = chrono::Utc::now();
    let two_hours_ago = (now - chrono::Duration::hours(2)).timestamp_millis();
    assert_eq!(relative_page_age(two_hours_ago).as_deref(), Some("2 hours ago"));

    let three_days_ago = (now - chrono::Duration::days(3)).timestamp_millis();
    assert_eq!(relative_page_age(three_days_ago).as_deref(), Some("3 days ago"));

    let two_weeks_ago = (now - chrono::Duration::days(14)).timestamp_millis();
    assert_eq!(relative_page_age(two_weeks_ago).as_deref(), Some("2 weeks ago"));
}

#[test]
fn ages_in_words() {
    assert_eq!(words_for_age(0).as_deref(), Some("just now"));
    assert_eq!(words_for_age(59).as_deref(), Some("just now"));
    assert_eq!(words_for_age(60).as_deref(), Some("1 minute ago"));
    assert_eq!(words_for_age(119).as_deref(), Some("1 minute ago"));
    assert_eq!(words_for_age(120).as_deref(), Some("2 minutes ago"));
    assert_eq!(words_for_age(3_599).as_deref(), Some("59 minutes ago"));
    assert_eq!(words_for_age(3_600).as_deref(), Some("1 hour ago"));
    assert_eq!(words_for_age(86_399).as_deref(), Some("23 hours ago"));
    assert_eq!(words_for_age(86_400).as_deref(), Some("1 day ago"));
    assert_eq!(words_for_age(604_800).as_deref(), Some("1 week ago"));
    assert_eq!(words_for_age(3_023_999).as_deref(), Some("4 weeks ago"));
    assert_eq!(words_for_age(3_024_000), None);
    assert_eq!(words_for_age(-1), None);
}

#[test]
fn far_pages_are_given_their_date() {
    let now = UtcTime { secs: 1_000_000_000, nanos: 0 };
    assert_eq!(page_age_at(0, now).as_deref(), Some("January 1, 1970"));
    assert_eq!(page_age_at(1_000_000_001_000, now).as_deref(), Some("September 9, 2001"));
    assert_eq!(relative_page_age(-3_024_000_000).as_deref(), Some("November 27, 1969"));
    assert_eq!(page_age_at(-86_400_000, now).as_deref(), Some("December 31, 1969"));
    // Less than a second ahead is not ahead.
    assert_eq!(page_age_at(1_000_000_000_999, now).as_deref(), Some("just now"));
}

#[test]
fn the_parts_of_a_second_count() {
    let now = UtcTime { secs: 1_000_000_060, nanos: 499_999_999 };
    assert_eq!(page_age_at(1_000_000_000_500, now).as_deref(), Some("just now"));
    let now = UtcTime { secs: 1_000_000_060, nanos: 500_000_000 };
    assert_eq!(page_age_at(1_000_000_000_500, now).as_deref(), Some("1 minute ago"));
}

#[test]
fn dates_outside_the_calendar_have_no_age() {
    let now = UtcTime { secs: 1_000_000_000, nanos: 0 };
    assert_eq!(page_age_at(i64::MAX, now), None);
    assert_eq!(page_age_at(i64::MIN, now), None);
    assert_eq!(page_age_at(8_210_266_876_800_000, now), None);
    assert!(page_age_at(8_210_266_876_799_999, now).is_some());
    assert_eq!(page_age_at(-8_334_601_228_800_001, now), None);
    assert!(page_age_at(-8_334_601_228_800_000, now).is_some());
    assert_eq!(relative_page_age(i64::MAX), None);
}

#[test]
fn test_generate_search_summary() {
    let results = WebSearchResults {
        results: vec![page(
            "Test Result",
            "https://example.com",
            Some("This is a test snippet"),
        )],
        total_results: Some(1),
        query: Some("test".to_string()),
        error: None,
    };
    let summary = generate_search_summary("test", &Some(results));
    assert!(summary.contains("Test Result"));
    assert!(summary.contains("https://example.com"));
    assert!(summary.contains("This is a test snippet"));
}

#[test]
fn the_whole_of_a_summary() {
    let note = "\nPlease note that these are web search results and may not be fully accurate or up-to-date.";
    let results = found(vec![page("A", "https://a", Some("one")), page("B", "https://b", None)]);
    assert_eq!(
        generate_search_summary("q", &results),
        format!(
            "Here are the search results for \"q\":\n\n1. **A**\n   one\n   Source: https://a\n\n2. **B**\n   Source: https://b\n\n{note}"
        )
    );
    assert_eq!(
        generate_search_summary("q", &None),
        format!("Here are the search results for \"q\":\n\nNo results found.\n{note}")
    );
    assert_eq!(
        generate_search_summary("q", &found(vec![])),
        format!("Here are the search results for \"q\":\n\n{note}")
    );
}

#[test]
fn long_snippets_are_cut() {
    let exact = "é".repeat(200);
    let summary = generate_search_summary("q", &found(vec![page("A", "u", Some(&exact))]));
    assert!(summary.contains(&format!("   {exact}\n")));
    let long = "é".repeat(201);
    let summary = generate_search_summary("q", &found(vec![page("A", "u", Some(&long))]));
    assert!(summary.contains(&format!("   {exact}...\n")));

    let long = "é".repeat(501);
    let context = answer_context(&found(vec![page("A", "u", Some(&long)), page("B", "v", None)]));
    assert_eq!(context, format!("[1] A\nu\n{}\n\n[2] B\nv\n\n", "é".repeat(500)));
}

#[test]
fn there_is_no_context_without_pages() {
    assert_eq!(answer_context(&None), "");
    assert_eq!(answer_context(&found(vec![])), "");
}

#[test]
fn test_create_websearch_message() {
    let results = WebSearchResults {
        results: vec![page(
            "Test Result",
            "https://example.com",
            Some("This is a test snippet"),
        )],
        total_results: Some(1),
        query: Some("today news".to_string()),
        error: None,
    };
    let msg = create_websearch_message(
        "sonnet-4-6",
        "today news",
        "srvtoolu_01abcdefghijklmnopqrstuv",
        &Some(results),
        "综合答案：今天的新闻包含 Test Result。",
        42,
        &None,
    );

    assert_eq!(str_at(&msg, &["type"]), "message");
    assert_eq!(str_at(&msg, &["role"]), "assistant");
    assert_eq!(str_at(&msg, &["model"]), "sonnet-4-6");
    assert_eq!(str_at(&msg, &["stop_reason"]), "end_turn");

    let id = str_at(&msg, &["id"]);
    assert!(id.starts_with("msg_01"));
    assert_eq!(id["msg_".len()..].len(), 24);
    assert!(id["msg_".len()..].chars().all(|c| c.is_ascii_alphanumeric()));

    let content = at(&msg, &["content"]).as_array().unwrap();
    assert_eq!(content.len(), 3);
    assert_eq!(str_at(&content[0], &["type"]), "server_tool_use");
    assert_eq!(str_at(&content[0], &["name"]), "web_search");
    assert_eq!(str_at(&content[0], &["id"]), "srvtoolu_01abcdefghijklmnopqrstuv");
    assert_eq!(str_at(&content[0], &["input", "query"]), "today news");
    assert_eq!(str_at(&content[1], &["type"]), "web_search_tool_result");
    assert_eq!(str_at(&content[1], &["tool_use_id"]), "srvtoolu_01abcdefghijklmnopqrstuv");
    assert_eq!(str_at(&content[1], &["caller", "type"]), "direct");
    let pages = at(&content[1], &["content"]).as_array().unwrap();
    assert_eq!(str_at(&pages[0], &["type"]), "web_search_result");
    assert_eq!(str_at(&pages[0], &["title"]), "Test Result");
    assert_eq!(
        str_at(&pages[0], &["encrypted_content"]),
        base64_encode("This is a test snippet".as_bytes())
    );
    assert_eq!(str_at(&content[2], &["type"]), "text");
    assert!(str_at(&content[2], &["text"]).contains("Test Result"));

    assert_eq!(int_at(&msg, &["usage", "input_tokens"]), 42);
    assert_eq!(int_at(&msg, &["usage", "server_tool_use", "web_search_requests"]), 1);
    assert_eq!(int_at(&msg, &["usage", "server_tool_use", "web_fetch_requests"]), 0);
    assert!(at(&msg, &["usage"]).get("cache_creation_input_tokens").is_none());
}

/// The shares of 1000 tokens for a creation ratio of 0.2, a hit ratio of 0.7 and a cacheable
/// ratio of 1.0.
fn wanted_shares() -> CacheShares {
    let (creation_ratio, hit_ratio, cacheable_ratio) = (0.2, 0.7, 1.0);
    let base = (1000.0f64 * cacheable_ratio).round().min(999.0);
    let creation: f64 = (base * creation_ratio).round();
    let read: f64 = (base * hit_ratio).round();
    CacheShares {
        enabled: true,
        base: base as i32,
        creation: creation as i32,
        read: read as i32,
    }
}

#[test]
fn test_websearch_message_with_cache_sim() {
    let ctx = Some((wanted_shares(), CacheTtl::FiveMin));
    let msg = create_websearch_message(
        "sonnet-4-6",
        "q",
        "srvtoolu_01abcdefghijklmnopqrstuv",
        &None,
        "ans",
        1000,
        &ctx,
    );
    assert_eq!(int_at(&msg, &["usage", "input_tokens"]), 101);
    assert_eq!(int_at(&msg, &["usage", "cache_creation_input_tokens"]), 200);
    assert_eq!(int_at(&msg, &["usage", "cache_read_input_tokens"]), 699);
    assert_eq!(
        int_at(&msg, &["usage", "cache_creation", "ephemeral_5m_input_tokens"]),
        200
    );
}

#[test]
fn a_stream_begins_with_the_split_of_the_input() {
    let ctx = Some((wanted_shares(), CacheTtl::OneHour));
    let events = generate_websearch_events("m", "q", "t", None, "ans", 1000, &ctx);
    let usage = at(&events[0].data, &["message", "usage"]);
    assert_eq!(int_at(usage, &["input_tokens"]), 101);
    assert_eq!(int_at(usage, &["cache_creation_input_tokens"]), 200);
    assert_eq!(int_at(usage, &["cache_read_input_tokens"]), 699);
    assert_eq!(int_at(usage, &["cache_creation", "ephemeral_1h_input_tokens"]), 200);
    assert_eq!(int_at(usage, &["output_tokens"]), 0);

    let events = generate_websearch_events("m", "q", "t", None, "ans", 1000, &None);
    let usage = at(&events[0].data, &["message", "usage"]);
    assert_eq!(int_at(usage, &["input_tokens"]), 1000);
    assert_eq!(int_at(usage, &["cache_creation_input_tokens"]), 0);
    assert_eq!(int_at(usage, &["cache_read_input_tokens"]), 0);
    assert!(usage.get("cache_creation").is_none());
}

#[test]
fn test_generate_websearch_events_format() {
    let events = generate_websearch_events(
        "sonnet-4-6",
        "today news",
        "srvtoolu_01abcdefghijklmnopqrstuv",
        None,
        "answer text",
        42,
        &None,
    );

    assert_eq!(events.first().unwrap().event, "message_start");
    assert_eq!(events.last().unwrap().event, "message_stop");

    let of_type = |kind: &str| {
        events
            .iter()
            .find(|e| {
                e.data
                    .get("content_block")
                    .and_then(|b| b.get("type"))
                    .and_then(|t| t.as_str())
                    == Some(kind)
            })
            .unwrap()
    };
    let stu = of_type("server_tool_use");
    assert_eq!(int_at(&stu.data, &["index"]), 0);
    assert_eq!(
        str_at(&stu.data, &["content_block", "id"]),
        "srvtoolu_01abcdefghijklmnopqrstuv"
    );

    let wstr = of_type("web_search_tool_result");
    assert_eq!(
        str_at(&wstr.data, &["content_block", "tool_use_id"]),
        "srvtoolu_01abcdefghijklmnopqrstuv"
    );
    assert_eq!(str_at(&wstr.data, &["content_block", "caller", "type"]), "direct");
}

#[test]
fn the_order_of_a_stream() {
    let answer = "字".repeat(250);
    let events = websearch_events("id", "m", "q", "t", vec![], &answer, 7, &None);
    let names: Vec<&str> = events.iter().map(|e| e.event.as_str()).collect();
    assert_eq!(
        names,
        vec![
            "message_start",
            "content_block_start",
            "content_block_stop",
            "content_block_start",
            "content_block_stop",
            "content_block_start",
            "content_block_delta",
            "content_block_delta",
            "content_block_delta",
            "content_block_stop",
            "message_delta",
            "message_stop",
        ]
    );
    for e in &events {
        assert_eq!(str_at(&e.data, &["type"]), e.event);
    }
    let indices: Vec<i64> = events[1..10].iter().map(|e| int_at(&e.data, &["index"])).collect();
    assert_eq!(indices, vec![0, 0, 1, 1, 2, 2, 2, 2, 2]);
    let pieces: Vec<&str> =
        events[6..9].iter().map(|e| str_at(&e.data, &["delta", "text"])).collect();
    assert_eq!(pieces[0].chars().count(), 100);
    assert_eq!(pieces[1].chars().count(), 100);
    assert_eq!(pieces[2].chars().count(), 50);
    assert_eq!(pieces.concat(), answer);
    assert_eq!(str_at(&events[6].data, &["delta", "type"]), "text_delta");
    assert_eq!(str_at(&events[5].data, &["content_block", "text"]), "");
    assert_eq!(int_at(&events[10].data, &["usage", "output_tokens"]), 188);
    assert_eq!(str_at(&events[10].data, &["delta", "stop_reason"]), "end_turn");
}

#[test]
fn an_answer_of_full_pieces_or_none() {
    assert_eq!(websearch_events("id", "m", "q", "t", vec![], "", 7, &None).len(), 9);
    let full = "a".repeat(100);
    assert_eq!(websearch_events("id", "m", "q", "t", vec![], &full, 7, &None).len(), 10);
    let more = "a".repeat(101);
    assert_eq!(websearch_events("id", "m", "q", "t", vec![], &more, 7, &None).len(), 11);
}

#[test]
fn a_stream_says_what_the_message_says() {
    let blocks = || vec![search_result_block(&page("A", "u", Some("s")), Some("1 day ago".to_string()))];
    let events = websearch_events("id", "m", "q", "t", blocks(), "answer", 7, &None);
    let whole = websearch_message("id", "m", "q", "t", blocks(), "answer", 7, &None);
    let begun = at(&events[0].data, &["message"]);
    for key in ["id", "type", "role", "model"] {
        assert_eq!(str_at(begun, &[key]), str_at(&whole, &[key]));
    }
    assert_eq!(str_at(begun, &["id"]), "id");
    assert_eq!(at(begun, &["content"]).as_array().unwrap().len(), 0);
    assert!(matches!(at(begun, &["stop_reason"]), Json::Null));
    assert!(matches!(at(&whole, &["stop_sequence"]), Json::Null));
    let content = at(&whole, &["content"]).as_array().unwrap();
    assert_eq!(
        format!("{:?}", at(&events[1].data, &["content_block"])),
        format!("{:?}", content[0])
    );
    assert_eq!(
        format!("{:?}", at(&events[3].data, &["content_block"])),
        format!("{:?}", content[1])
    );
    assert_eq!(str_at(&events[6].data, &["delta", "text"]), str_at(&content[2], &["text"]));
    assert_eq!(
        int_at(&events[8].data, &["usage", "output_tokens"]),
        int_at(&whole, &["usage", "output_tokens"])
    );
    assert_eq!(int_at(&whole, &["usage", "output_tokens"]), 2);
    assert_eq!(int_at(&events[8].data, &["usage", "server_tool_use", "web_search_requests"]), 1);
    assert_eq!(int_at(&events[8].data, &["usage", "server_tool_use", "web_fetch_requests"]), 0);
}

#[test]
fn the_form_of_a_reply_is_the_one_asked_for() {
    match create_reply(true, "m", "q", "t", None, "a", 7, &None) {
        WebSearchReply::Stream(events) => assert_eq!(events.len(), 10),
        WebSearchReply::Message(_) => panic!("a message"),
    }
    match create_reply(false, "m", "q", "t", None, "a", 7, &None) {
        WebSearchReply::Message(whole) => assert_eq!(str_at(&whole, &["model"]), "m"),
        WebSearchReply::Stream(_) => panic!("a stream"),
    }
}

#[test]
fn pages_as_content() {
    let block = search_result_block(&page("A", "u", None), None);
    assert_eq!(str_at(&block, &["encrypted_content"]), "");
    assert_eq!(str_at(&block, &["url"]), "u");
    assert!(matches!(at(&block, &["page_age"]), Json::Null));
    let block = search_result_block(&page("A", "u", None), Some("1 day ago".to_string()));
    assert_eq!(str_at(&block, &["page_age"]), "1 day ago");

    let mut dated = page("B", "v", Some("s"));
    dated.published_date = Some(0);
    let blocks = build_search_result_content(&found(vec![page("A", "u", None), dated]));
    assert_eq!(blocks.len(), 2);
    assert_eq!(str_at(&blocks[0], &["title"]), "A");
    assert_eq!(str_at(&blocks[1], &["page_age"]), "January 1, 1970");
    assert!(build_search_result_content(&None).is_empty());
}

#[test]
fn tokens_of_ordinary_answers_can_be_estimated() {
    assert!(tokens_fit(""));
    assert!(tokens_fit("an answer"));
    let tokens = |answer: &str| {
        int_at(
            &websearch_message("id", "m", "q", "t", vec![], answer, 7, &None),
            &["usage", "output_tokens"],
        )
    };
    assert_eq!(tokens(""), 0);
    assert_eq!(tokens("a"), 1);
    assert_eq!(tokens("abcd"), 1);
    assert_eq!(tokens("abcde"), 2);
}
