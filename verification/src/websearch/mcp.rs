//! The MCP request that performs a search, and its response.
use vstd::prelude::*;

use crate::clock::{may_be_now, utc_now, UtcTime};
use crate::random::{
    drawn_from, generate_random_id_22, generate_random_id_8, lemma_zero_one_and_drawn,
    ALPHANUMERIC, LOWER_ALPHANUMERIC,
};
use crate::text::{
    append_signed, begins_with, lemma_signed_decimal_injective, same_text, signed_decimal,
};

verus! {

/// A JSON-RPC request to the MCP service.
#[derive(Debug)]
pub struct McpRequest {
    /// The identifier of the request.
    pub id: String,
    /// The version of JSON-RPC.
    pub jsonrpc: String,
    /// The method that is called.
    pub method: String,
    /// The parameters of the call.
    pub params: McpParams,
}

/// The parameters of an MCP call.
#[derive(Debug)]
pub struct McpParams {
    /// The name of the tool.
    pub name: String,
    /// The arguments of the tool.
    pub arguments: McpArguments,
}

/// The arguments of the search tool.
#[derive(Debug)]
pub struct McpArguments {
    /// What is searched for.
    pub query: String,
}

/// A response of the MCP service.
#[derive(Debug)]
pub struct McpResponse {
    /// The error, where the call failed.
    pub error: Option<McpError>,
    /// The identifier of the request.
    pub id: String,
    /// The version of JSON-RPC.
    pub jsonrpc: String,
    /// The result, where there is one.
    pub result: Option<McpResult>,
}

/// An error of the MCP service.
#[derive(Debug)]
pub struct McpError {
    /// The code of the error.
    pub code: Option<i32>,
    /// What went wrong.
    pub message: Option<String>,
}

/// The result of an MCP call.
#[derive(Debug)]
pub struct McpResult {
    /// The pieces of content.
    pub content: Vec<McpContent>,
    /// Whether the tool reports an error.
    pub is_error: bool,
}

/// One piece of content of an MCP result.
#[derive(Debug)]
pub struct McpContent {
    /// The kind of content.
    pub content_type: String,
    /// The content itself.
    pub text: String,
}

/// The results of a search.
#[derive(Debug)]
pub struct WebSearchResults {
    /// The pages found.
    pub results: Vec<WebSearchResult>,
    /// How many pages there are in all.
    pub total_results: Option<i32>,
    /// What was searched for.
    pub query: Option<String>,
    /// The error, where the search failed.
    pub error: Option<String>,
}

/// One page that a search found.
#[derive(Debug, Clone)]
pub struct WebSearchResult {
    /// The title of the page.
    pub title: String,
    /// The address of the page.
    pub url: String,
    /// A piece of its text.
    pub snippet: Option<String>,
    /// When the page was published, in milliseconds since 1970.
    pub published_date: Option<i64>,
    /// The identifier of the page.
    pub id: Option<String>,
    /// The domain of the page.
    pub domain: Option<String>,
    /// How many words may be quoted.
    pub max_verbatim_word_limit: Option<i32>,
    /// Whether the page is in the public domain.
    pub public_domain: Option<bool>,
}

/// The identifier of a request: a random part, a time in milliseconds, and another random part.
pub open spec fn request_id(random_22: Seq<char>, millis: int, random_8: Seq<char>) -> Seq<char> {
    "web_search_tooluse_"@ + random_22 + "_"@ + signed_decimal(millis) + "_"@ + random_8
}

/// The identifier of a use of a server tool: `srvtoolu_` and 24 letters and digits, of which the
/// first two are `01`.
pub open spec fn tool_use_id(random_22: Seq<char>) -> Seq<char> {
    "srvtoolu_01"@ + random_22
}

/// Whether the request has the identifier `id` and calls the tool `web_search` for `query`.
pub open spec fn searches_for(request: McpRequest, id: Seq<char>, query: Seq<char>) -> bool {
    &&& request.id@ == id
    &&& request.jsonrpc@ == "2.0"@
    &&& request.method@ == "tools/call"@
    &&& request.params.name@ == "web_search"@
    &&& request.params.arguments.query@ == query
}

/// Whether `id` is a request identifier with some random parts and some time.
pub open spec fn some_request_id(id: Seq<char>) -> bool {
    exists|random_22: Seq<char>, now: UtcTime, random_8: Seq<char>|
        drawn_from(random_22, 22, ALPHANUMERIC@) && may_be_now(now) && drawn_from(
            random_8,
            8,
            LOWER_ALPHANUMERIC@,
        ) && id == #[trigger] request_id(random_22, now.millis(), random_8)
}

/// Whether `id` is a tool use identifier with some random part.
pub open spec fn some_tool_use_id(id: Seq<char>) -> bool {
    exists|random_22: Seq<char>|
        drawn_from(random_22, 22, ALPHANUMERIC@) && id == #[trigger] tool_use_id(random_22)
}

/// The tool use identifier and the request that performs a search, with the given random parts
/// and time.
pub fn mcp_request(
    query: &str,
    random_22: &str,
    millis: i64,
    random_8: &str,
    tool_use_22: &str,
) -> (r: (String, McpRequest))
    ensures
        r.0@ == tool_use_id(tool_use_22@),
        searches_for(r.1, request_id(random_22@, millis as int, random_8@), query@),
{
    let mut id = "web_search_tooluse_".to_owned();
    id.append(random_22);
    id.append("_");
    append_signed(&mut id, millis);
    id.append("_");
    id.append(random_8);
    let mut use_id = "srvtoolu_01".to_owned();
    use_id.append(tool_use_22);
    let request = McpRequest {
        id,
        jsonrpc: "2.0".to_owned(),
        method: "tools/call".to_owned(),
        params: McpParams {
            name: "web_search".to_owned(),
            arguments: McpArguments { query: query.to_owned() },
        },
    };
    (use_id, request)
}

/// A new tool use identifier and the request that performs a search for `query`.
pub fn create_mcp_request(query: &str) -> (r: (String, McpRequest))
    ensures
        some_tool_use_id(r.0@),
        some_request_id(r.1.id@),
        searches_for(r.1, r.1.id@, query@),
{
    let random_22 = generate_random_id_22();
    let now = utc_now();
    let random_8 = generate_random_id_8();
    let tool_use_22 = generate_random_id_22();
    let millis: i64 = now.timestamp_millis();
    let r = mcp_request(
        query,
        random_22.as_str(),
        millis,
        random_8.as_str(),
        tool_use_22.as_str(),
    );
    assert(r.0@ == tool_use_id(tool_use_22@));
    assert(r.1.id@ == request_id(random_22@, now.millis(), random_8@));
    r
}

/// What is said of an error of the MCP service.
pub open spec fn mcp_error_text(error: McpError) -> Seq<char> {
    "MCP error: "@ + signed_decimal(
        match error.code {
            Some(code) => code as int,
            None => -1,
        },
    ) + " - "@ + (match error.message {
        Some(message) => message@,
        None => "Unknown error"@,
    })
}

/// Refuses a response that reports an error, with a text that says which; any other is given
/// back as it is.
pub fn check_mcp_response(response: McpResponse) -> (r: Result<McpResponse, String>)
    ensures
        match response.error {
            Some(error) => r matches Err(text) && text@ == mcp_error_text(error),
            None => r == Ok::<McpResponse, String>(response),
        },
{
    match &response.error {
        Some(error) => {
            let code: i64 = match error.code {
                Some(code) => code as i64,
                None => -1,
            };
            let mut text = "MCP error: ".to_owned();
            append_signed(&mut text, code);
            text.append(" - ");
            match &error.message {
                Some(message) => {
                    text.append(message.as_str());
                },
                None => {
                    text.append("Unknown error");
                },
            }
            return Err(text);
        },
        None => {},
    }
    Ok(response)
}

/// The text that holds the results of a search: the first piece of content of the response,
/// where it is of type `text`.
pub open spec fn results_text(response: McpResponse) -> Option<Seq<char>> {
    match response.result {
        Some(result) => if result.content@.len() > 0 && result.content@[0].content_type@
            == "text"@ {
            Some(result.content@[0].text@)
        } else {
            None
        },
        None => None,
    }
}

/// Computes [`results_text`].
pub fn search_results_text(response: &McpResponse) -> (r: Option<&str>)
    ensures
        match r {
            Some(t) => results_text(*response) == Some(t@),
            None => results_text(*response) is None,
        },
{
    match &response.result {
        Some(result) => if result.content.len() > 0 && same_text(
            result.content[0].content_type.as_str(),
            "text",
        ) {
            Some(result.content[0].text.as_str())
        } else {
            None
        },
        None => None,
    }
}

/// The parts of a request identifier can be told apart: identifiers are the same only where
/// their parts are.
pub proof fn law_request_id_keeps_its_parts(
    a_22: Seq<char>,
    a_millis: int,
    a_8: Seq<char>,
    b_22: Seq<char>,
    b_millis: int,
    b_8: Seq<char>,
)
    requires
        drawn_from(a_22, 22, ALPHANUMERIC@),
        drawn_from(a_8, 8, LOWER_ALPHANUMERIC@),
        drawn_from(b_22, 22, ALPHANUMERIC@),
        drawn_from(b_8, 8, LOWER_ALPHANUMERIC@),
        request_id(a_22, a_millis, a_8) == request_id(b_22, b_millis, b_8),
    ensures
        a_22 == b_22,
        a_millis == b_millis,
        a_8 == b_8,
{
    let a = request_id(a_22, a_millis, a_8);
    let b = request_id(b_22, b_millis, b_8);
    let head = "web_search_tooluse_"@.len() as int;
    reveal_strlit("_");
    let n = a.len() as int;
    assert(a_22 =~= a.subrange(head, head + 22));
    assert(b_22 =~= b.subrange(head, head + 22));
    assert(a_8 =~= a.subrange(n - 8, n));
    assert(b_8 =~= b.subrange(n - 8, n));
    assert(signed_decimal(a_millis) =~= a.subrange(head + 23, n - 9));
    assert(signed_decimal(b_millis) =~= b.subrange(head + 23, n - 9));
    lemma_signed_decimal_injective(a_millis, b_millis);
}

/// A tool use identifier is `srvtoolu_` and 24 letters and digits, of which the first two are
/// `01`.
pub proof fn law_tool_use_id_shape(id: Seq<char>)
    requires
        some_tool_use_id(id),
    ensures
        id.len() == 33,
        begins_with(id, "srvtoolu_01"@),
        drawn_from(id.skip("srvtoolu_"@.len() as int), 24, ALPHANUMERIC@),
{
    let random_22 = choose|random_22: Seq<char>|
        drawn_from(random_22, 22, ALPHANUMERIC@) && id == #[trigger] tool_use_id(random_22);
    reveal_strlit("srvtoolu_01");
    reveal_strlit("srvtoolu_");
    assert(id.take("srvtoolu_01"@.len() as int) =~= "srvtoolu_01"@);
    lemma_zero_one_and_drawn(random_22);
    assert(id.skip("srvtoolu_"@.len() as int) =~= seq!['0', '1'] + random_22);
}

/// A request identifier is made of its parts, whole and in their order, between fixed words; and so
/// is a tool use identifier.
pub proof fn law_identifiers_hold_their_parts(random_22: Seq<char>, millis: int, random_8: Seq<char>)
    ensures
        ({
            let id = request_id(random_22, millis, random_8);
            let time = signed_decimal(millis);
            &&& begins_with(id, "web_search_tooluse_"@ + random_22 + "_"@ + time)
            &&& id.skip(("web_search_tooluse_"@ + random_22 + "_"@ + time).len() as int) == "_"@
                + random_8
        }),
        tool_use_id(random_22) == "srvtoolu_01"@ + random_22,
{
    let id = request_id(random_22, millis, random_8);
    let head = "web_search_tooluse_"@ + random_22 + "_"@ + signed_decimal(millis);
    assert(id =~= head + ("_"@ + random_8));
    assert(id.take(head.len() as int) =~= head);
    assert(id.skip(head.len() as int) =~= "_"@ + random_8);
}

/// The results are read from the first piece of content, whole, where it is text; nothing else in
/// the response matters for them.
pub proof fn law_results_are_the_first_text(response: McpResponse)
    ensures
        response.result is None ==> results_text(response) is None,
        response.result matches Some(result) && result.content@.len() == 0 ==> results_text(
            response,
        ) is None,
        response.result matches Some(result) && result.content@.len() > 0
            && result.content@[0].content_type@ == "text"@ ==> results_text(response) == Some(
            response.result->0.content@[0].text@,
        ),
        response.result matches Some(result) && result.content@.len() > 0
            && result.content@[0].content_type@ != "text"@ ==> results_text(response) is None,
{
}

/// What is said of an error gives its code and its message, whole, or what stands in for them.
pub proof fn law_error_text_gives_code_and_message(code: i32, message: String)
    ensures
        mcp_error_text(McpError { code: Some(code), message: Some(message) }) == "MCP error: "@
            + signed_decimal(code as int) + " - "@ + message@,
        mcp_error_text(McpError { code: None, message: Some(message) }) == "MCP error: "@
            + signed_decimal(-1) + " - "@ + message@,
        mcp_error_text(McpError { code: Some(code), message: None }) == "MCP error: "@
            + signed_decimal(code as int) + " - "@ + "Unknown error"@,
        mcp_error_text(McpError { code: None, message: None }) == "MCP error: "@ + signed_decimal(
            -1,
        ) + " - "@ + "Unknown error"@,
{
}

/// A request that searches for a query carries it whole.
pub proof fn law_request_carries_the_query(request: McpRequest, id: Seq<char>, query: Seq<char>)
    requires
        searches_for(request, id, query),
    ensures
        request.id@ == id,
        request.jsonrpc@ == "2.0"@,
        request.method@ == "tools/call"@,
        request.params.name@ == "web_search"@,
        request.params.arguments.query@ == query,
{
}

} // verus!
