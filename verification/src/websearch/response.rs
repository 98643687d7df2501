//! The reply to a web search request, streamed or whole.
use vstd::prelude::*;
use vstd::utf8::encode_utf8;

use crate::cache_sim::{
    split, split_in_range, split_of, CacheShares, CacheTtl, CacheUsage,
};
use crate::json::{lemma_array, views, Json, JsonObject, JsonView};
use crate::random::generate_message_id;
use crate::sse::{event_views, SseEvent, SseEventView};
use crate::text::{chars_of, text_of};
use crate::websearch::content::build_search_result_content;
use crate::websearch::mcp::WebSearchResults;
use crate::websearch::reply::{
    answers, block_start, block_stop, chunks, estimated_tokens, message_delta, message_start,
    message_stop, server_tool_use, text_block, text_delta, tokens_in_range, tool_result_block,
    tool_use_block, with_cache, wrapped, Reply, CHUNK,
};

verus! {

/// Decides whether the tokens of the answer can be estimated.
pub fn tokens_fit(answer: &str) -> (r: bool)
    ensures
        r == tokens_in_range(encode_utf8(answer@).len() as int),
{
    wrapped_len(answer) + 3 <= i32::MAX as i64
}

/// The number of bytes of the text, kept in 32 bits.
fn wrapped_len(s: &str) -> (r: i64)
    ensures
        r == wrapped(encode_utf8(s@).len() as int),
        -0x8000_0000 <= r < 0x8000_0000,
{
    let bytes: u64 = s.as_bytes().len() as u64;
    let m: u64 = bytes % 0x1_0000_0000;
    if m < 0x8000_0000 {
        m as i64
    } else {
        m as i64 - 0x1_0000_0000
    }
}

/// Computes [`estimated_tokens`].
fn estimate_tokens(answer: &str) -> (r: i64)
    requires
        tokens_in_range(encode_utf8(answer@).len() as int),
    ensures
        r == estimated_tokens(encode_utf8(answer@).len() as int),
{
    let n: i64 = wrapped_len(answer) + 3;
    if n >= 0 {
        n / 4
    } else {
        -((-n) / 4)
    }
}

/// Writes the cache fields into the `usage`, where there are any.
fn put_cache(usage: Json, cache: &Option<CacheUsage>) -> (r: Json)
    ensures
        r@ == with_cache(usage@, *cache),
{
    let mut usage = usage;
    if let Some(cache) = cache {
        cache.apply_to_usage(&mut usage);
    }
    usage
}

/// Computes [`server_tool_use`].
fn new_server_tool_use() -> (r: Json)
    ensures
        r@ == server_tool_use(),
{
    Json::Object(
        JsonObject::new().with("web_search_requests", Json::Int(1)).with(
            "web_fetch_requests",
            Json::Int(0),
        ),
    )
}

/// Computes [`tool_use_block`].
fn new_tool_use_block(tool_use_id: &str, query: &str) -> (r: Json)
    ensures
        r@ == tool_use_block(tool_use_id@, query@),
{
    Json::Object(
        JsonObject::new().with("id", Json::text(tool_use_id)).with(
            "type",
            Json::text("server_tool_use"),
        ).with("name", Json::text("web_search")).with(
            "input",
            Json::Object(JsonObject::new().with("query", Json::text(query))),
        ),
    )
}

/// Computes [`tool_result_block`].
fn new_tool_result_block(tool_use_id: &str, content: Vec<Json>) -> (r: Json)
    ensures
        r@ == tool_result_block(tool_use_id@, views(content@)),
{
    let content = Json::Array(content);
    proof {
        lemma_array(content);
    }
    Json::Object(
        JsonObject::new().with("type", Json::text("web_search_tool_result")).with(
            "tool_use_id",
            Json::text(tool_use_id),
        ).with("content", content).with(
            "caller",
            Json::Object(JsonObject::new().with("type", Json::text("direct"))),
        ),
    )
}

/// Computes [`text_block`].
fn new_text_block(text: &str) -> (r: Json)
    ensures
        r@ == text_block(text@),
{
    Json::Object(
        JsonObject::new().with("type", Json::text("text")).with("text", Json::text(text)),
    )
}

/// Computes [`message_start`].
fn new_message_start(id: &str, model: &str, usage: Json) -> (r: SseEvent)
    ensures
        r@ == message_start(id@, model@, usage@),
{
    let empty = Json::Array(Vec::new());
    proof {
        lemma_array(empty);
        assert(views(empty->Array_0@) =~= Seq::<JsonView>::empty());
    }
    let message = JsonObject::new().with("id", Json::text(id)).with(
        "type",
        Json::text("message"),
    ).with("role", Json::text("assistant")).with("model", Json::text(model)).with(
        "content",
        empty,
    ).with("stop_reason", Json::Null).with("usage", usage);
    SseEvent::new(
        "message_start",
        Json::Object(
            JsonObject::new().with("type", Json::text("message_start")).with(
                "message",
                Json::Object(message),
            ),
        ),
    )
}

/// Computes [`block_start`].
fn new_block_start(index: i64, block: Json) -> (r: SseEvent)
    ensures
        r@ == block_start(index as int, block@),
{
    SseEvent::new(
        "content_block_start",
        Json::Object(
            JsonObject::new().with("type", Json::text("content_block_start")).with(
                "index",
                Json::Int(index),
            ).with("content_block", block),
        ),
    )
}

/// Computes [`block_stop`].
fn new_block_stop(index: i64) -> (r: SseEvent)
    ensures
        r@ == block_stop(index as int),
{
    SseEvent::new(
        "content_block_stop",
        Json::Object(
            JsonObject::new().with("type", Json::text("content_block_stop")).with(
                "index",
                Json::Int(index),
            ),
        ),
    )
}

/// Computes [`text_delta`].
fn new_text_delta(text: &str) -> (r: SseEvent)
    ensures
        r@ == text_delta(text@),
{
    let delta = JsonObject::new().with("type", Json::text("text_delta")).with(
        "text",
        Json::text(text),
    );
    SseEvent::new(
        "content_block_delta",
        Json::Object(
            JsonObject::new().with("type", Json::text("content_block_delta")).with(
                "index",
                Json::Int(2),
            ).with("delta", Json::Object(delta)),
        ),
    )
}

/// Computes [`message_delta`].
fn new_message_delta(output_tokens: i64) -> (r: SseEvent)
    ensures
        r@ == message_delta(output_tokens as int),
{
    let delta = JsonObject::new().with("stop_reason", Json::text("end_turn"));
    let usage = JsonObject::new().with("output_tokens", Json::Int(output_tokens)).with(
        "server_tool_use",
        new_server_tool_use(),
    );
    SseEvent::new(
        "message_delta",
        Json::Object(
            JsonObject::new().with("type", Json::text("message_delta")).with(
                "delta",
                Json::Object(delta),
            ).with("usage", Json::Object(usage)),
        ),
    )
}

/// Computes [`message_stop`].
fn new_message_stop() -> (r: SseEvent)
    ensures
        r@ == message_stop(),
{
    SseEvent::new(
        "message_stop",
        Json::Object(JsonObject::new().with("type", Json::text("message_stop"))),
    )
}

/// Appends the events that carry the answer.
fn push_deltas(events: &mut Vec<SseEvent>, answer: &str)
    ensures
        event_views(final(events)@) == event_views(old(events)@) + chunks(answer@).map_values(
            |c: Seq<char>| text_delta(c),
        ),
{
    let ghost before = event_views(events@);
    let ghost f = |c: Seq<char>| text_delta(c);
    let chars = chars_of(answer);
    let n: usize = chars.len();
    let mut i: usize = 0;
    assert(chars@.skip(0) == chars@);
    assert(before + chunks(chars@).map_values(f) == event_views(events@) + chunks(
        chars@.skip(0),
    ).map_values(f));
    while i < n
        invariant
            n == chars@.len(),
            i <= n,
            before + chunks(chars@).map_values(f) == event_views(events@) + chunks(
                chars@.skip(i as int),
            ).map_values(f),
            f == (|c: Seq<char>| text_delta(c)),
        decreases n - i,
    {
        let ghost sent = event_views(events@);
        let ghost rest = chars@.skip(i as int);
        let end: usize = if n - i <= CHUNK {
            n
        } else {
            i + CHUNK
        };
        let piece = text_of(&chars, i, end);
        events.push(new_text_delta(piece.as_str()));
        proof {
            assert(event_views(events@) == sent.push(f(piece@)));
            if end == n {
                assert(piece@ == rest);
                assert(chars@.skip(end as int) == Seq::<char>::empty());
                assert(chunks(rest).map_values(f) == seq![f(piece@)]);
                assert(chunks(chars@.skip(end as int)).map_values(f)
                    == Seq::<SseEventView>::empty());
            } else {
                assert(piece@ == rest.take(CHUNK as int));
                assert(rest.skip(CHUNK as int) == chars@.skip(end as int));
                assert(chunks(rest).map_values(f) == seq![f(piece@)] + chunks(
                    chars@.skip(end as int),
                ).map_values(f));
            }
            assert(event_views(events@) + chunks(chars@.skip(end as int)).map_values(f) == sent
                + chunks(rest).map_values(f));
        }
        i = end;
    }
    assert(chunks(chars@.skip(n as int)).map_values(f) == Seq::<SseEventView>::empty());
}

/// The events of a streamed reply with the given identifier, of which `search_content` is what
/// was found.
pub fn websearch_events(
    id: &str,
    model: &str,
    query: &str,
    tool_use_id: &str,
    search_content: Vec<Json>,
    answer: &str,
    input_tokens: i32,
    cache: &Option<CacheUsage>,
) -> (r: Vec<SseEvent>)
    requires
        tokens_in_range(encode_utf8(answer@).len() as int),
    ensures
        event_views(r@) == (Reply {
            id: id@,
            model: model@,
            query: query@,
            tool_use_id: tool_use_id@,
            content: views(search_content@),
            answer: answer@,
            input_tokens: input_tokens as int,
            cache: *cache,
        }).events(),
{
    let ghost reply = Reply {
        id: id@,
        model: model@,
        query: query@,
        tool_use_id: tool_use_id@,
        content: views(search_content@),
        answer: answer@,
        input_tokens: input_tokens as int,
        cache: *cache,
    };
    let usage = Json::Object(
        JsonObject::new().with("input_tokens", Json::Int(input_tokens as i64)).with(
            "output_tokens",
            Json::Int(0),
        ).with("cache_creation_input_tokens", Json::Int(0)).with(
            "cache_read_input_tokens",
            Json::Int(0),
        ),
    );
    let usage = put_cache(usage, cache);
    let mut events: Vec<SseEvent> = Vec::new();
    events.push(new_message_start(id, model, usage));
    events.push(new_block_start(0, new_tool_use_block(tool_use_id, query)));
    events.push(new_block_stop(0));
    events.push(new_block_start(1, new_tool_result_block(tool_use_id, search_content)));
    events.push(new_block_stop(1));
    events.push(new_block_start(2, new_text_block("")));
    assert(event_views(events@) =~= reply.opening());
    push_deltas(&mut events, answer);
    let ghost sent = event_views(events@);
    events.push(new_block_stop(2));
    events.push(new_message_delta(estimate_tokens(answer)));
    events.push(new_message_stop());
    assert(event_views(events@) =~= sent + reply.closing());
    events
}

/// The whole message of a reply with the given identifier, of which `search_content` is what was
/// found.
pub fn websearch_message(
    id: &str,
    model: &str,
    query: &str,
    tool_use_id: &str,
    search_content: Vec<Json>,
    answer: &str,
    input_tokens: i32,
    cache: &Option<CacheUsage>,
) -> (r: Json)
    requires
        tokens_in_range(encode_utf8(answer@).len() as int),
    ensures
        r@ == (Reply {
            id: id@,
            model: model@,
            query: query@,
            tool_use_id: tool_use_id@,
            content: views(search_content@),
            answer: answer@,
            input_tokens: input_tokens as int,
            cache: *cache,
        }).message(),
{
    let usage = Json::Object(
        JsonObject::new().with("input_tokens", Json::Int(input_tokens as i64)).with(
            "output_tokens",
            Json::Int(estimate_tokens(answer)),
        ).with("server_tool_use", new_server_tool_use()),
    );
    let usage = put_cache(usage, cache);
    let mut blocks: Vec<Json> = Vec::new();
    blocks.push(new_tool_use_block(tool_use_id, query));
    let ghost found = views(search_content@);
    blocks.push(new_tool_result_block(tool_use_id, search_content));
    blocks.push(new_text_block(answer));
    let ghost shown = views(blocks@);
    assert(shown =~= seq![
        tool_use_block(tool_use_id@, query@),
        tool_result_block(tool_use_id@, found),
        text_block(answer@),
    ]);
    let content = Json::Array(blocks);
    proof {
        lemma_array(content);
    }
    Json::Object(
        JsonObject::new().with("id", Json::text(id)).with("type", Json::text("message")).with(
            "role",
            Json::text("assistant"),
        ).with("model", Json::text(model)).with("content", content).with(
            "stop_reason",
            Json::text("end_turn"),
        ).with("stop_sequence", Json::Null).with("usage", usage),
    )
}

/// The events of a new streamed reply.
pub fn generate_websearch_events(
    model: &str,
    query: &str,
    tool_use_id: &str,
    search_results: Option<WebSearchResults>,
    answer: &str,
    input_tokens: i32,
    cache_sim_ctx: &Option<(CacheShares, CacheTtl)>,
) -> (r: Vec<SseEvent>)
    requires
        tokens_in_range(encode_utf8(answer@).len() as int),
        split_in_range(*cache_sim_ctx, input_tokens as int),
    ensures
        exists|reply: Reply|
            answers(
                reply,
                model@,
                query@,
                tool_use_id@,
                search_results,
                answer@,
                input_tokens as int,
                split_of(*cache_sim_ctx, input_tokens as int),
            ) && event_views(r@) == #[trigger] reply.events(),
{
    let id = generate_message_id();
    let search_content = build_search_result_content(&search_results);
    let cache = split(cache_sim_ctx, input_tokens);
    let ghost reply = Reply {
        id: id@,
        model: model@,
        query: query@,
        tool_use_id: tool_use_id@,
        content: views(search_content@),
        answer: answer@,
        input_tokens: input_tokens as int,
        cache,
    };
    let events = websearch_events(
        id.as_str(),
        model,
        query,
        tool_use_id,
        search_content,
        answer,
        input_tokens,
        &cache,
    );
    assert(event_views(events@) == reply.events());
    events
}

/// The whole message of a new reply.
pub fn create_websearch_message(
    model: &str,
    query: &str,
    tool_use_id: &str,
    search_results: &Option<WebSearchResults>,
    answer: &str,
    input_tokens: i32,
    cache_sim_ctx: &Option<(CacheShares, CacheTtl)>,
) -> (r: Json)
    requires
        tokens_in_range(encode_utf8(answer@).len() as int),
        split_in_range(*cache_sim_ctx, input_tokens as int),
    ensures
        exists|reply: Reply|
            answers(
                reply,
                model@,
                query@,
                tool_use_id@,
                *search_results,
                answer@,
                input_tokens as int,
                split_of(*cache_sim_ctx, input_tokens as int),
            ) && r@ == #[trigger] reply.message(),
{
    let id = generate_message_id();
    let search_content = build_search_result_content(search_results);
    let cache = split(cache_sim_ctx, input_tokens);
    let ghost reply = Reply {
        id: id@,
        model: model@,
        query: query@,
        tool_use_id: tool_use_id@,
        content: views(search_content@),
        answer: answer@,
        input_tokens: input_tokens as int,
        cache,
    };
    let message = websearch_message(
        id.as_str(),
        model,
        query,
        tool_use_id,
        search_content,
        answer,
        input_tokens,
        &cache,
    );
    assert(message@ == reply.message());
    message
}

/// A reply in the form that the request asks for.
#[derive(Debug)]
pub enum WebSearchReply {
    /// The events of a streamed reply.
    Stream(Vec<SseEvent>),
    /// The whole message.
    Message(Json),
}

/// Whether `given` is the reply, in the form that the request asks for.
pub open spec fn gives(given: WebSearchReply, reply: Reply, stream: bool) -> bool {
    match given {
        WebSearchReply::Stream(events) => stream && event_views(events@) == reply.events(),
        WebSearchReply::Message(message) => !stream && message@ == reply.message(),
    }
}

/// A new reply: events where the request asks for a stream, else a whole message.
pub fn create_reply(
    stream: bool,
    model: &str,
    query: &str,
    tool_use_id: &str,
    search_results: Option<WebSearchResults>,
    answer: &str,
    input_tokens: i32,
    cache_sim_ctx: &Option<(CacheShares, CacheTtl)>,
) -> (r: WebSearchReply)
    requires
        tokens_in_range(encode_utf8(answer@).len() as int),
        split_in_range(*cache_sim_ctx, input_tokens as int),
    ensures
        exists|reply: Reply|
            answers(
                reply,
                model@,
                query@,
                tool_use_id@,
                search_results,
                answer@,
                input_tokens as int,
                split_of(*cache_sim_ctx, input_tokens as int),
            ) && #[trigger] gives(r, reply, stream),
{
    if stream {
        let events = generate_websearch_events(
            model,
            query,
            tool_use_id,
            search_results,
            answer,
            input_tokens,
            cache_sim_ctx,
        );
        let ghost reply = choose|reply: Reply|
            answers(
                reply,
                model@,
                query@,
                tool_use_id@,
                search_results,
                answer@,
                input_tokens as int,
                split_of(*cache_sim_ctx, input_tokens as int),
            ) && event_views(events@) == #[trigger] reply.events();
        let given = WebSearchReply::Stream(events);
        assert(gives(given, reply, stream));
        given
    } else {
        let message = create_websearch_message(
            model,
            query,
            tool_use_id,
            &search_results,
            answer,
            input_tokens,
            cache_sim_ctx,
        );
        let ghost reply = choose|reply: Reply|
            answers(
                reply,
                model@,
                query@,
                tool_use_id@,
                search_results,
                answer@,
                input_tokens as int,
                split_of(*cache_sim_ctx, input_tokens as int),
            ) && message@ == #[trigger] reply.message();
        let given = WebSearchReply::Message(message);
        assert(gives(given, reply, stream));
        given
    }
}

/// A reply that is given is the reply itself, whole: all of its events where a stream was asked
/// for, else its whole message.
pub proof fn law_given_reply_is_whole(given: WebSearchReply, reply: Reply, stream: bool)
    requires
        gives(given, reply, stream),
    ensures
        given is Stream <==> stream,
        given matches WebSearchReply::Stream(events) ==> events@.len() == reply.events().len()
            && forall|i: int|
            0 <= i < events@.len() ==> (#[trigger] events@[i])@ == reply.events()[i],
        given matches WebSearchReply::Message(message) ==> message@ == reply.message(),
{
    if let WebSearchReply::Stream(events) = given {
        assert(event_views(events@).len() == events@.len());
        assert forall|i: int| 0 <= i < events@.len() implies (#[trigger] events@[i])@
            == reply.events()[i] by {
            assert(event_views(events@)[i] == events@[i]@);
        }
    }
}

} // verus!
