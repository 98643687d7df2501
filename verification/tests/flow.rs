use kiro_rs::json::Json;
use kiro_rs::types::{Message, MessagesRequest};
use kiro_rs::websearch::flow::{begin, Action, Course, Outcome, Stage};
use kiro_rs::websearch::mcp::{
    McpContent, McpResponse, McpResult, WebSearchResult, WebSearchResults,
};
use kiro_rs::websearch::prompt::{
    answer_request, choose_answer, choose_query, completion_request, completion_text, kept_texts,
    query_request, search_query_prompt, Decoded, ANSWER_PROMPT,
};
use kiro_rs::websearch::summary::generate_search_summary;

fn payload(text: &str) -> MessagesRequest {
    let mut request = completion_request("sonnet-4-6", "", text);
    request.system = None;
    request
}

fn results(titles: &[&str]) -> WebSearchResults {
    WebSearchResults {
        results: titles
            .iter()
            .map(|title| WebSearchResult {
                title: title.to_string(),
                url: format!("https://{title}"),
                snippet: None,
                published_date: None,
                id: None,
                domain: None,
                max_verbatim_word_limit: None,
                public_domain: None,
            })
            .collect(),
        total_results: None,
        query: None,
        error: None,
    }
}

fn response(text: &str) -> McpResponse {
    McpResponse {
        error: None,
        id: "1".to_string(),
        jsonrpc: "2.0".to_string(),
        result: Some(McpResult {
            content: vec![McpContent { content_type: "text".to_string(), text: text.to_string() }],
            is_error: false,
        }),
    }
}

fn asked(action: &Action) -> (&str, &str) {
    match action {
        Action::Complete(request) => (
            request.system.as_ref().unwrap()[0].text.as_str(),
            request.messages[0].content.as_str().unwrap(),
        ),
        _ => panic!("{:?}", action),
    }
}

#[test]
fn a_course_without_failures() {
    let (course, action) = begin(&payload("what is new")).unwrap();
    let (system, user) = asked(&action);
    let today = chrono::Utc::now().format("%Y-%m-%d").to_string();
    let yesterday =
        (chrono::Utc::now() - chrono::Duration::days(1)).format("%Y-%m-%d").to_string();
    assert!(system.contains(&today) || system.contains(&yesterday));
    assert_eq!(user, "what is new");

    let (course, action) =
        course.step(Outcome::Completed(Some(" \"news today\"\nmore".to_string()))).unwrap();
    let searched = match action {
        Action::Search(request) => request.params.arguments.query,
        _ => panic!("{:?}", action),
    };
    assert_eq!(searched, "news today\"");

    let (course, action) = course.step(Outcome::Responded(Some(response("{}")))).unwrap();
    match action {
        Action::Parse(text) => assert_eq!(text, "{}"),
        _ => panic!("{:?}", action),
    }

    let (course, action) = course.step(Outcome::Parsed(Some(results(&["A"])))).unwrap();
    let (system, user) = asked(&action);
    assert_eq!(system, ANSWER_PROMPT);
    assert_eq!(user, "用户问题：what is new\n\n搜索结果：\n[1] A\nhttps://A\n\n");

    let (course, action) = course.step(Outcome::Completed(Some(" It is. ".to_string()))).unwrap();
    assert!(matches!(course.stage, Stage::Done));
    match action {
        Action::Reply(answer) => {
            assert_eq!(answer.text, " It is. ");
            assert_eq!(answer.query.text, "news today\"");
            assert!(answer.query.tool_use_id.starts_with("srvtoolu_01"));
            assert_eq!(answer.results.unwrap().results.len(), 1);
        }
        _ => panic!("{:?}", action),
    }
}

#[test]
fn a_course_where_every_call_fails() {
    let (course, _) = begin(&payload("what is new")).unwrap();
    let (course, action) = course.step(Outcome::Completed(None)).unwrap();
    match action {
        Action::Search(request) => assert_eq!(request.params.arguments.query, "what is new"),
        _ => panic!("{:?}", action),
    }
    let (course, action) = course.step(Outcome::Responded(None)).unwrap();
    assert!(matches!(course.stage, Stage::Done));
    match action {
        Action::Reply(answer) => {
            assert_eq!(answer.text, generate_search_summary("what is new", &None));
            assert_eq!(answer.query.text, "what is new");
            assert!(answer.results.is_none());
        }
        _ => panic!("{:?}", action),
    }
}

#[test]
fn a_failed_answer_is_replaced_by_a_summary() {
    for reply in [None, Some(" \n".to_string())] {
        let (course, _) = begin(&payload("q")).unwrap();
        let (course, _) = course.step(Outcome::Completed(None)).unwrap();
        let (course, _) = course.step(Outcome::Responded(Some(response("{}")))).unwrap();
        let (course, _) = course.step(Outcome::Parsed(Some(results(&["A"])))).unwrap();
        let (_, action) = course.step(Outcome::Completed(reply)).unwrap();
        match action {
            Action::Reply(answer) => assert_eq!(
                answer.text,
                generate_search_summary("q", &Some(results(&["A"])))
            ),
            _ => panic!("{:?}", action),
        }
    }
}

#[test]
fn nothing_found_is_not_asked_about() {
    for parsed in [None, Some(results(&[]))] {
        let summary = generate_search_summary("q", &parsed);
        let (course, _) = begin(&payload("q")).unwrap();
        let (course, _) = course.step(Outcome::Completed(None)).unwrap();
        let (course, _) = course.step(Outcome::Responded(Some(response("{}")))).unwrap();
        let (course, action) = course.step(Outcome::Parsed(parsed)).unwrap();
        assert!(matches!(course.stage, Stage::Done));
        match action {
            Action::Reply(answer) => assert_eq!(answer.text, summary),
            _ => panic!("{:?}", action),
        }
    }
}

#[test]
fn a_response_without_text_goes_on_without_results() {
    let (course, _) = begin(&payload("q")).unwrap();
    let (course, _) = course.step(Outcome::Completed(None)).unwrap();
    let mut empty = response("");
    empty.result = None;
    let (_, action) = course.step(Outcome::Responded(Some(empty))).unwrap();
    match action {
        Action::Reply(answer) => assert_eq!(answer.text, generate_search_summary("q", &None)),
        _ => panic!("{:?}", action),
    }
}

#[test]
fn a_request_without_intent_is_refused() {
    let refusal = begin(&payload("")).unwrap_err();
    assert_eq!(refusal.kind, "invalid_request_error");
    assert_eq!(refusal.message, "无法从消息中提取搜索意图");
}

#[test]
fn an_outcome_that_is_not_awaited_changes_nothing() {
    let (course, _) = begin(&payload("q")).unwrap();
    let course = course.step(Outcome::Responded(None)).unwrap_err();
    assert!(matches!(course.stage, Stage::Rewriting));
    assert_eq!(course.intent, "q");
    let done = Course { model: "m".to_string(), intent: "q".to_string(), stage: Stage::Done };
    let done = done.step(Outcome::Completed(Some("a".to_string()))).unwrap_err();
    assert!(matches!(done.stage, Stage::Done));
    assert_eq!(done.model, "m");
}

#[test]
fn queries_that_replies_hold() {
    let chosen = |reply: &str| choose_query("intent", &Some(reply.to_string()));
    assert_eq!(chosen("plain query"), "plain query");
    assert_eq!(chosen("  \"quoted query\"\n"), "quoted query");
    assert_eq!(chosen("first\r\nsecond"), "first");
    assert_eq!(chosen("\" first \nsecond\""), "first");
    assert_eq!(chosen(""), "intent");
    assert_eq!(chosen(" \"\" "), "intent");
    assert_eq!(chosen("\"\n\"second"), "intent");
    assert_eq!(choose_query("intent", &None), "intent");
}

#[test]
fn answers_that_are_chosen() {
    assert_eq!(choose_answer("q", &None, Some(" a ".to_string())), " a ");
    assert_eq!(choose_answer("q", &None, Some(" ".to_string())), generate_search_summary("q", &None));
    assert_eq!(choose_answer("q", &None, None), generate_search_summary("q", &None));
}

#[test]
fn a_completion_request() {
    let request = completion_request("m", "be brief", "hello");
    assert_eq!(request.model, "m");
    assert_eq!(request.max_tokens, 2048);
    assert!(!request.stream);
    assert_eq!(request.messages.len(), 1);
    assert_eq!(request.messages[0].role, "user");
    assert_eq!(request.messages[0].content.as_str(), Some("hello"));
    assert_eq!(request.system.unwrap()[0].text, "be brief");
    assert!(request.tools.is_none());
    assert!(request.metadata.is_none());
}

#[test]
fn a_reply_in_pieces_is_put_together() {
    let pieces = vec!["ab".to_string(), "".to_string(), "c".to_string()];
    assert_eq!(completion_text(&pieces), "abc");
    assert_eq!(completion_text(&vec![]), "");
}

#[test]
fn only_texts_of_the_assistant_are_kept() {
    let frames = vec![
        Decoded::Other,
        Decoded::Text("ab".to_string()),
        Decoded::Undecodable,
        Decoded::Text("".to_string()),
        Decoded::Text("c".to_string()),
        Decoded::Other,
    ];
    let kept = kept_texts(frames);
    assert_eq!(kept, vec!["ab", "", "c"]);
    assert_eq!(completion_text(&kept), "abc");
    assert!(kept_texts(vec![]).is_empty());
    assert!(kept_texts(vec![Decoded::Undecodable, Decoded::Other]).is_empty());
}

#[test]
fn the_prompts() {
    assert_eq!(
        search_query_prompt("2026-01-02"),
        "你是搜索词生成器。今天是 2026-01-02。根据用户请求，输出**一行**最优的网页搜索查询语句；\
         若涉及时效性内容请包含必要日期。只输出查询语句本身，不要解释、不要引号、不要前缀。"
    );
    assert_eq!(
        ANSWER_PROMPT,
        "你是联网搜索助手。根据下列搜索结果，用中文综合、客观地回答用户的问题，\
         分点陈述，注明来源标题。不要编造搜索结果之外的信息。"
    );
    let request = answer_request("m", "why", "context");
    assert_eq!(
        request.messages[0].content.as_str(),
        Some("用户问题：why\n\n搜索结果：\ncontext")
    );
    let request = query_request("m", "why");
    assert_eq!(request.messages[0].content.as_str(), Some("why"));
}

#[test]
fn messages_of_others_are_not_the_intent() {
    let mut request = payload("mine");
    request.messages.push(Message {
        role: "assistant".to_string(),
        content: Json::text("not mine"),
    });
    let (course, _) = begin(&request).unwrap();
    assert_eq!(course.intent, "mine");
}
