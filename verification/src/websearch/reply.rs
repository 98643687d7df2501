//! What a reply to a web search request is made of, and what holds of every such reply.
use vstd::prelude::*;
use vstd::utf8::encode_utf8;

use crate::cache_sim::{
    law_cache_fields_are_all_that_changes, law_lifetimes_hold_the_creation, law_split_adds_up,
    split_in_range, split_of, with_cache_fields, CacheShares, CacheTtl, CacheUsage,
};
use crate::json::JsonView;
use crate::random::some_message_id;
use crate::sse::SseEventView;
use crate::websearch::content::{law_every_page_is_shown, shows_results, tells_of};
use crate::websearch::mcp::WebSearchResults;

verus! {

/// How many characters of the answer one event of a stream carries.
pub const CHUNK: usize = 100;

/// What a number becomes when it is kept in 32 bits, with a sign.
pub open spec fn wrapped(n: int) -> int {
    let m = n % 0x1_0000_0000;
    if m < 0x8000_0000 {
        m
    } else {
        m - 0x1_0000_0000
    }
}

/// Whether the tokens of an answer of so many bytes can be estimated in 32 bits.
pub open spec fn tokens_in_range(bytes: int) -> bool {
    wrapped(bytes) + 3 <= i32::MAX
}

/// The estimated number of tokens of an answer of so many bytes: a token for every four bytes
/// begun. The number of bytes is kept in 32 bits.
pub open spec fn estimated_tokens(bytes: int) -> int {
    let n = wrapped(bytes) + 3;
    if n >= 0 {
        n / 4
    } else {
        -((-n) / 4)
    }
}

/// The estimate is a token for every four bytes, rounded up, for all answers of less than two
/// gigabytes but for the last three lengths.
pub proof fn law_tokens_are_a_quarter_of_the_bytes(bytes: int)
    requires
        0 <= bytes < 0x7FFF_FFFD,
    ensures
        tokens_in_range(bytes),
        4 * estimated_tokens(bytes) - 4 < bytes <= 4 * estimated_tokens(bytes),
{
}

/// A `usage` with the cache fields in it, where there are any.
pub open spec fn with_cache(usage: JsonView, cache: Option<CacheUsage>) -> JsonView {
    match cache {
        Some(cache) => with_cache_fields(cache, usage),
        None => usage,
    }
}

/// How often the server tools were used: one search.
pub open spec fn server_tool_use() -> JsonView {
    JsonView::Object(
        Map::empty().insert("web_search_requests"@, JsonView::Int(1)).insert(
            "web_fetch_requests"@,
            JsonView::Int(0),
        ),
    )
}

/// The content block that says what was searched for.
pub open spec fn tool_use_block(tool_use_id: Seq<char>, query: Seq<char>) -> JsonView {
    JsonView::Object(
        Map::empty().insert("id"@, JsonView::Str(tool_use_id)).insert(
            "type"@,
            JsonView::Str("server_tool_use"@),
        ).insert("name"@, JsonView::Str("web_search"@)).insert(
            "input"@,
            JsonView::Object(Map::empty().insert("query"@, JsonView::Str(query))),
        ),
    )
}

/// The content block that holds what was found.
pub open spec fn tool_result_block(tool_use_id: Seq<char>, content: Seq<JsonView>) -> JsonView {
    JsonView::Object(
        Map::empty().insert("type"@, JsonView::Str("web_search_tool_result"@)).insert(
            "tool_use_id"@,
            JsonView::Str(tool_use_id),
        ).insert("content"@, JsonView::Array(content)).insert(
            "caller"@,
            JsonView::Object(Map::empty().insert("type"@, JsonView::Str("direct"@))),
        ),
    )
}

/// A content block with a text.
pub open spec fn text_block(text: Seq<char>) -> JsonView {
    JsonView::Object(
        Map::empty().insert("type"@, JsonView::Str("text"@)).insert("text"@, JsonView::Str(text)),
    )
}

/// The event `message_start`.
pub open spec fn message_start(id: Seq<char>, model: Seq<char>, usage: JsonView) -> SseEventView {
    SseEventView {
        event: "message_start"@,
        data: JsonView::Object(
            Map::empty().insert("type"@, JsonView::Str("message_start"@)).insert(
                "message"@,
                JsonView::Object(
                    Map::empty().insert("id"@, JsonView::Str(id)).insert(
                        "type"@,
                        JsonView::Str("message"@),
                    ).insert("role"@, JsonView::Str("assistant"@)).insert(
                        "model"@,
                        JsonView::Str(model),
                    ).insert("content"@, JsonView::Array(Seq::empty())).insert(
                        "stop_reason"@,
                        JsonView::Null,
                    ).insert("usage"@, usage),
                ),
            ),
        ),
    }
}

/// The event that begins the content block `index`.
pub open spec fn block_start(index: int, block: JsonView) -> SseEventView {
    SseEventView {
        event: "content_block_start"@,
        data: JsonView::Object(
            Map::empty().insert("type"@, JsonView::Str("content_block_start"@)).insert(
                "index"@,
                JsonView::Int(index),
            ).insert("content_block"@, block),
        ),
    }
}

/// The event that ends the content block `index`.
pub open spec fn block_stop(index: int) -> SseEventView {
    SseEventView {
        event: "content_block_stop"@,
        data: JsonView::Object(
            Map::empty().insert("type"@, JsonView::Str("content_block_stop"@)).insert(
                "index"@,
                JsonView::Int(index),
            ),
        ),
    }
}

/// The event that carries a piece of the answer.
pub open spec fn text_delta(text: Seq<char>) -> SseEventView {
    SseEventView {
        event: "content_block_delta"@,
        data: JsonView::Object(
            Map::empty().insert("type"@, JsonView::Str("content_block_delta"@)).insert(
                "index"@,
                JsonView::Int(2),
            ).insert(
                "delta"@,
                JsonView::Object(
                    Map::empty().insert("type"@, JsonView::Str("text_delta"@)).insert(
                        "text"@,
                        JsonView::Str(text),
                    ),
                ),
            ),
        ),
    }
}

/// The event `message_delta`, with the number of output tokens.
pub open spec fn message_delta(output_tokens: int) -> SseEventView {
    SseEventView {
        event: "message_delta"@,
        data: JsonView::Object(
            Map::empty().insert("type"@, JsonView::Str("message_delta"@)).insert(
                "delta"@,
                JsonView::Object(
                    Map::empty().insert("stop_reason"@, JsonView::Str("end_turn"@)),
                ),
            ).insert(
                "usage"@,
                JsonView::Object(
                    Map::empty().insert("output_tokens"@, JsonView::Int(output_tokens)).insert(
                        "server_tool_use"@,
                        server_tool_use(),
                    ),
                ),
            ),
        ),
    }
}

/// The event `message_stop`.
pub open spec fn message_stop() -> SseEventView {
    SseEventView {
        event: "message_stop"@,
        data: JsonView::Object(Map::empty().insert("type"@, JsonView::Str("message_stop"@))),
    }
}

/// The `usage` at the start of a stream.
pub open spec fn start_usage(input_tokens: int) -> JsonView {
    JsonView::Object(
        Map::empty().insert("input_tokens"@, JsonView::Int(input_tokens)).insert(
            "output_tokens"@,
            JsonView::Int(0),
        ).insert("cache_creation_input_tokens"@, JsonView::Int(0)).insert(
            "cache_read_input_tokens"@,
            JsonView::Int(0),
        ),
    )
}

/// The `usage` of a whole message.
pub open spec fn message_usage(input_tokens: int, output_tokens: int) -> JsonView {
    JsonView::Object(
        Map::empty().insert("input_tokens"@, JsonView::Int(input_tokens)).insert(
            "output_tokens"@,
            JsonView::Int(output_tokens),
        ).insert("server_tool_use"@, server_tool_use()),
    )
}

/// The pieces of a text, each of [`CHUNK`] characters but for the last one, which may be shorter.
pub open spec fn chunks(text: Seq<char>) -> Seq<Seq<char>>
    decreases text.len(),
{
    if text.len() == 0 {
        seq![]
    } else if text.len() <= CHUNK {
        seq![text]
    } else {
        seq![text.take(CHUNK as int)] + chunks(text.skip(CHUNK as int))
    }
}

/// What a reply is made of.
pub struct Reply {
    /// The identifier of the message.
    pub id: Seq<char>,
    /// The model that is said to answer.
    pub model: Seq<char>,
    /// What was searched for.
    pub query: Seq<char>,
    /// The identifier of the use of the search tool.
    pub tool_use_id: Seq<char>,
    /// What was found.
    pub content: Seq<JsonView>,
    /// The answer.
    pub answer: Seq<char>,
    /// The number of input tokens.
    pub input_tokens: int,
    /// How the input tokens are split, where a cache is simulated.
    pub cache: Option<CacheUsage>,
}

impl Reply {
    /// The estimated number of output tokens.
    pub open spec fn output_tokens(self) -> int {
        estimated_tokens(encode_utf8(self.answer).len() as int)
    }

    /// The events before the answer.
    pub open spec fn opening(self) -> Seq<SseEventView> {
        seq![
            message_start(
                self.id,
                self.model,
                with_cache(start_usage(self.input_tokens), self.cache),
            ),
            block_start(0, tool_use_block(self.tool_use_id, self.query)),
            block_stop(0),
            block_start(1, tool_result_block(self.tool_use_id, self.content)),
            block_stop(1),
            block_start(2, text_block(""@)),
        ]
    }

    /// The events that carry the answer.
    pub open spec fn deltas(self) -> Seq<SseEventView> {
        chunks(self.answer).map_values(|c: Seq<char>| text_delta(c))
    }

    /// The events behind the answer.
    pub open spec fn closing(self) -> Seq<SseEventView> {
        seq![block_stop(2), message_delta(self.output_tokens()), message_stop()]
    }

    /// The events of the streamed reply.
    pub open spec fn events(self) -> Seq<SseEventView> {
        self.opening() + self.deltas() + self.closing()
    }

    /// The whole message.
    pub open spec fn message(self) -> JsonView {
        JsonView::Object(
            Map::empty().insert("id"@, JsonView::Str(self.id)).insert(
                "type"@,
                JsonView::Str("message"@),
            ).insert("role"@, JsonView::Str("assistant"@)).insert(
                "model"@,
                JsonView::Str(self.model),
            ).insert(
                "content"@,
                JsonView::Array(
                    seq![
                        tool_use_block(self.tool_use_id, self.query),
                        tool_result_block(self.tool_use_id, self.content),
                        text_block(self.answer),
                    ],
                ),
            ).insert("stop_reason"@, JsonView::Str("end_turn"@)).insert(
                "stop_sequence"@,
                JsonView::Null,
            ).insert(
                "usage"@,
                with_cache(
                    message_usage(self.input_tokens, self.output_tokens()),
                    self.cache,
                ),
            ),
        )
    }
}

/// Whether the reply answers a search with the given outcome, under some message identifier and
/// with some ages of the pages.
pub open spec fn answers(
    reply: Reply,
    model: Seq<char>,
    query: Seq<char>,
    tool_use_id: Seq<char>,
    search_results: Option<WebSearchResults>,
    answer: Seq<char>,
    input_tokens: int,
    cache: Option<CacheUsage>,
) -> bool {
    &&& some_message_id(reply.id)
    &&& reply.model == model
    &&& reply.query == query
    &&& reply.tool_use_id == tool_use_id
    &&& shows_results(reply.content, search_results)
    &&& reply.answer == answer
    &&& reply.input_tokens == input_tokens
    &&& reply.cache == cache
}

/// The text that an event carries as a piece of the answer.
pub open spec fn delta_text(event: SseEventView) -> Seq<char> {
    match event.data.get("delta"@) {
        Some(delta) => match delta.get("text"@) {
            Some(JsonView::Str(text)) => text,
            _ => seq![],
        },
        None => seq![],
    }
}

/// The pieces of a text, put together again, are the text; none of them is empty or longer than
/// 100 characters, and all but the last one are of that length.
pub proof fn law_chunks_make_up_the_text(text: Seq<char>)
    ensures
        chunks(text).flatten() == text,
        forall|i: int|
            0 <= i < chunks(text).len() ==> 0 < (#[trigger] chunks(text)[i]).len() <= 100,
        forall|i: int|
            0 <= i < chunks(text).len() - 1 ==> (#[trigger] chunks(text)[i]).len() == 100,
    decreases text.len(),
{
    if text.len() == 0 {
        assert(chunks(text).flatten() =~= text);
    } else if text.len() <= CHUNK {
        assert(chunks(text).drop_first() =~= Seq::<Seq<char>>::empty());
        reveal_with_fuel(Seq::flatten, 2);
        assert(chunks(text).flatten() =~= text);
    } else {
        let rest = text.skip(CHUNK as int);
        law_chunks_make_up_the_text(rest);
        let all = chunks(text);
        assert(all.drop_first() =~= chunks(rest));
        assert(all.flatten() =~= text);
        assert forall|i: int| 0 <= i < all.len() implies 0 < (#[trigger] all[i]).len()
            <= CHUNK by {
            if i > 0 {
                assert(all[i] == chunks(rest)[i - 1]);
            }
        }
        assert forall|i: int| 0 <= i < all.len() - 1 implies (#[trigger] all[i]).len()
            == CHUNK by {
            if i > 0 {
                assert(all[i] == chunks(rest)[i - 1]);
            }
        }
    }
}

/// A streamed reply begins with `message_start` and ends with `message_delta` and
/// `message_stop`. In between stand three content blocks, one behind the other, each begun and
/// ended under its index; the pieces of the answer stand in the last one.
pub proof fn law_stream_is_in_order(reply: Reply)
    ensures
        ({
            let events = reply.events();
            let n = events.len() as int;
            &&& n == 9 + chunks(reply.answer).len()
            &&& events[0].event == "message_start"@
            &&& events[1] == block_start(0, tool_use_block(reply.tool_use_id, reply.query))
            &&& events[2] == block_stop(0)
            &&& events[3] == block_start(1, tool_result_block(reply.tool_use_id, reply.content))
            &&& events[4] == block_stop(1)
            &&& events[5] == block_start(2, text_block(""@))
            &&& forall|i: int|
                6 <= i < n - 3 ==> #[trigger] events[i] == text_delta(chunks(reply.answer)[i - 6])
            &&& events[n - 3] == block_stop(2)
            &&& events[n - 2].event == "message_delta"@
            &&& events[n - 1].event == "message_stop"@
        }),
{
}

/// Each event of a streamed reply names its own kind in its data.
pub proof fn law_events_name_their_kind(reply: Reply, i: int)
    requires
        0 <= i < reply.events().len(),
    ensures
        reply.events()[i].data.get("type"@) == Some(JsonView::Str(reply.events()[i].event)),
{
    lemma_keys_differ();
    law_stream_is_in_order(reply);
}

/// The texts of the pieces that a streamed reply carries, put together, are the answer.
pub proof fn law_stream_carries_the_answer(reply: Reply)
    ensures
        reply.events().subrange(6, reply.events().len() - 3).map_values(
            |e: SseEventView| delta_text(e),
        ).flatten() == reply.answer,
{
    lemma_keys_differ();
    law_chunks_make_up_the_text(reply.answer);
    let pieces = reply.events().subrange(6, reply.events().len() - 3);
    assert(pieces =~= reply.deltas());
    assert(pieces.map_values(|e: SseEventView| delta_text(e)) =~= chunks(reply.answer));
}

/// A streamed reply and a whole one say the same: the message that is begun has the identifier,
/// role and model of the whole one; the blocks of the search, the reason to stop, the number of
/// output tokens and the use of server tools are the same, and so are the input tokens.
pub proof fn law_stream_says_what_the_message_says(reply: Reply)
    ensures
        ({
            let events = reply.events();
            let n = events.len() as int;
            let whole = reply.message();
            let begun = events[0].data.get("message"@)->0;
            let ended = events[n - 2].data;
            let blocks = whole.get("content"@)->0->Array_0;
            &&& begun.get("id"@) is Some && begun.get("id"@) == whole.get("id"@)
            &&& begun.get("type"@) is Some && begun.get("type"@) == whole.get("type"@)
            &&& begun.get("role"@) is Some && begun.get("role"@) == whole.get("role"@)
            &&& begun.get("model"@) is Some && begun.get("model"@) == whole.get("model"@)
            &&& blocks.len() == 3
            &&& events[1].data.get("content_block"@) == Some(blocks[0])
            &&& events[3].data.get("content_block"@) == Some(blocks[1])
            &&& blocks[2] == text_block(reply.answer)
            &&& whole.get("stop_reason"@) is Some
            &&& ended.get("delta"@)->0.get("stop_reason"@) == whole.get("stop_reason"@)
            &&& whole.get("usage"@)->0.get("output_tokens"@) is Some
            &&& ended.get("usage"@)->0.get("output_tokens"@) == whole.get("usage"@)->0.get(
                "output_tokens"@,
            )
            &&& whole.get("usage"@)->0.get("server_tool_use"@) is Some
            &&& ended.get("usage"@)->0.get("server_tool_use"@) == whole.get("usage"@)->0.get(
                "server_tool_use"@,
            )
            &&& whole.get("usage"@)->0.get("input_tokens"@) is Some
            &&& begun.get("usage"@)->0.get("input_tokens"@) == whole.get("usage"@)->0.get(
                "input_tokens"@,
            )
        }),
{
    lemma_keys_differ();
    law_stream_is_in_order(reply);
}

/// The keys of events and messages are told apart.
proof fn lemma_keys_differ()
    ensures
        "id"@.len() == 2,
        "type"@.len() == 4 && "type"@[0] == 't' && "type"@[1] == 'y',
        "text"@.len() == 4 && "text"@[1] == 'e',
        "role"@.len() == 4 && "role"@[0] == 'r',
        "model"@.len() == 5 && "model"@[0] == 'm',
        "delta"@.len() == 5 && "delta"@[0] == 'd',
        "index"@.len() == 5 && "index"@[0] == 'i',
        "usage"@.len() == 5 && "usage"@[0] == 'u',
        "content"@.len() == 7 && "content"@[0] == 'c',
        "message"@.len() == 7 && "message"@[0] == 'm',
        "stop_reason"@.len() == 11,
        "input_tokens"@.len() == 12,
        "output_tokens"@.len() == 13 && "output_tokens"@[0] == 'o',
        "stop_sequence"@.len() == 13 && "stop_sequence"@[0] == 's',
        "content_block"@.len() == 13 && "content_block"@[0] == 'c',
        "cache_creation"@.len() == 14,
        "server_tool_use"@.len() == 15,
        "cache_read_input_tokens"@.len() == 23,
        "cache_creation_input_tokens"@.len() == 27,
{
    reveal_strlit("id");
    reveal_strlit("type");
    reveal_strlit("text");
    reveal_strlit("role");
    reveal_strlit("model");
    reveal_strlit("delta");
    reveal_strlit("index");
    reveal_strlit("usage");
    reveal_strlit("content");
    reveal_strlit("message");
    reveal_strlit("stop_reason");
    reveal_strlit("input_tokens");
    reveal_strlit("output_tokens");
    reveal_strlit("stop_sequence");
    reveal_strlit("content_block");
    reveal_strlit("cache_creation");
    reveal_strlit("server_tool_use");
    reveal_strlit("cache_read_input_tokens");
    reveal_strlit("cache_creation_input_tokens");
}

/// The number under a key of an object; zero where there is none.
pub open spec fn count_of(usage: JsonView, key: Seq<char>) -> int {
    match usage.get(key) {
        Some(JsonView::Int(n)) => n,
        _ => 0,
    }
}

/// The input tokens that a `usage` accounts for: fresh ones, and those that count as written to
/// the cache or read from it.
pub open spec fn accounted_tokens(usage: JsonView) -> int {
    count_of(usage, "input_tokens"@) + count_of(usage, "cache_creation_input_tokens"@) + count_of(
        usage,
        "cache_read_input_tokens"@,
    )
}

/// The `usage` of a reply, streamed or whole, accounts for all input tokens of the request,
/// whether a cache is simulated or not; where none is, a whole message has no cache fields.
pub proof fn law_usage_accounts_for_the_input(
    reply: Reply,
    ctx: Option<(CacheShares, CacheTtl)>,
    input_tokens: i32,
)
    requires
        split_in_range(ctx, input_tokens as int),
        reply.input_tokens == input_tokens,
        reply.cache == split_of(ctx, input_tokens as int),
    ensures
        ({
            let begun = reply.events()[0].data.get("message"@)->0.get("usage"@)->0;
            let whole = reply.message().get("usage"@)->0;
            &&& accounted_tokens(begun) == input_tokens
            &&& accounted_tokens(whole) == input_tokens
            &&& reply.cache is None ==> {
                &&& whole.get("cache_creation_input_tokens"@) is None
                &&& whole.get("cache_read_input_tokens"@) is None
                &&& whole.get("cache_creation"@) is None
            }
        }),
{
    lemma_keys_differ();
    law_stream_is_in_order(reply);
    if let Some((shares, ttl)) = ctx {
        law_split_adds_up(shares, ttl, input_tokens);
    }
}

/// Whether `block` is the use of the search tool, under the identifier, for the query.
pub open spec fn is_tool_use(block: JsonView, tool_use_id: Seq<char>, query: Seq<char>) -> bool {
    &&& block.get("type"@) == Some(JsonView::Str("server_tool_use"@))
    &&& block.get("id"@) == Some(JsonView::Str(tool_use_id))
    &&& block.get("name"@) == Some(JsonView::Str("web_search"@))
    &&& block.get("input"@) matches Some(input)
    &&& input.get("query"@) == Some(JsonView::Str(query))
}

/// Whether `block` is the result of the search, under the identifier, with all of the content.
pub open spec fn is_tool_result(
    block: JsonView,
    tool_use_id: Seq<char>,
    content: Seq<JsonView>,
) -> bool {
    &&& block.get("type"@) == Some(JsonView::Str("web_search_tool_result"@))
    &&& block.get("tool_use_id"@) == Some(JsonView::Str(tool_use_id))
    &&& block.get("content"@) == Some(JsonView::Array(content))
    &&& block.get("caller"@) matches Some(caller)
    &&& caller.get("type"@) == Some(JsonView::Str("direct"@))
}

/// Whether `usage` says that one search was made, and nothing fetched.
pub open spec fn counts_one_search(usage: JsonView) -> bool {
    &&& usage.get("server_tool_use"@) matches Some(used)
    &&& used.get("web_search_requests"@) == Some(JsonView::Int(1))
    &&& used.get("web_fetch_requests"@) == Some(JsonView::Int(0))
}

/// Whether `usage` gives the input tokens, or where there is a split, all of its parts.
pub open spec fn gives_input(usage: JsonView, input_tokens: int, cache: Option<CacheUsage>) -> bool {
    match cache {
        None => usage.get("input_tokens"@) == Some(JsonView::Int(input_tokens)),
        Some(split) => {
            &&& usage.get("input_tokens"@) == Some(JsonView::Int(split.input_tokens as int))
            &&& usage.get("cache_creation_input_tokens"@) == Some(
                JsonView::Int(split.cache_creation_input_tokens as int),
            )
            &&& usage.get("cache_read_input_tokens"@) == Some(
                JsonView::Int(split.cache_read_input_tokens as int),
            )
            &&& usage.get("cache_creation"@) matches Some(creation)
            &&& creation.get("ephemeral_5m_input_tokens"@) == Some(
                JsonView::Int(
                    if split.ttl == CacheTtl::FiveMin {
                        split.cache_creation_input_tokens as int
                    } else {
                        0
                    },
                ),
            )
            &&& creation.get("ephemeral_1h_input_tokens"@) == Some(
                JsonView::Int(
                    if split.ttl == CacheTtl::OneHour {
                        split.cache_creation_input_tokens as int
                    } else {
                        0
                    },
                ),
            )
        },
    }
}

/// Whether so many tokens are a token for every four bytes begun of the text.
pub open spec fn is_quarter_of(tokens: int, text: Seq<char>) -> bool {
    4 * tokens - 4 < encode_utf8(text).len() <= 4 * tokens
}

/// More keys of blocks are told apart.
proof fn lemma_block_keys_differ()
    ensures
        "id"@.len() == 2,
        "name"@.len() == 4 && "name"@[0] == 'n',
        "type"@.len() == 4 && "type"@[0] == 't' && "type"@[1] == 'y',
        "text"@.len() == 4 && "text"@[0] == 't' && "text"@[1] == 'e',
        "input"@.len() == 5,
        "caller"@.len() == 6,
        "content"@.len() == 7,
        "tool_use_id"@.len() == 11,
        "web_search_requests"@.len() == 19,
        "web_fetch_requests"@.len() == 18,
{
    reveal_strlit("id");
    reveal_strlit("name");
    reveal_strlit("type");
    reveal_strlit("text");
    reveal_strlit("input");
    reveal_strlit("caller");
    reveal_strlit("content");
    reveal_strlit("tool_use_id");
    reveal_strlit("web_search_requests");
    reveal_strlit("web_fetch_requests");
}

/// The blocks of a reply hold what they are made of, whole.
proof fn lemma_blocks(
    tool_use_id: Seq<char>,
    query: Seq<char>,
    content: Seq<JsonView>,
    text: Seq<char>,
)
    ensures
        is_tool_use(tool_use_block(tool_use_id, query), tool_use_id, query),
        is_tool_result(tool_result_block(tool_use_id, content), tool_use_id, content),
        text_block(text).get("type"@) == Some(JsonView::Str("text"@)),
        text_block(text).get("text"@) == Some(JsonView::Str(text)),
        server_tool_use().get("web_search_requests"@) == Some(JsonView::Int(1)),
        server_tool_use().get("web_fetch_requests"@) == Some(JsonView::Int(0)),
{
    lemma_block_keys_differ();
}

/// A `usage` with the cache fields in it gives the input tokens, and keeps its other members.
proof fn lemma_usage(m: Map<Seq<char>, JsonView>, input_tokens: int, cache: Option<CacheUsage>)
    requires
        m.contains_key("input_tokens"@),
        m["input_tokens"@] == JsonView::Int(input_tokens),
    ensures
        gives_input(with_cache(JsonView::Object(m), cache), input_tokens, cache),
        with_cache(JsonView::Object(m), cache).get("output_tokens"@) == JsonView::Object(m).get(
            "output_tokens"@,
        ),
        with_cache(JsonView::Object(m), cache).get("server_tool_use"@) == JsonView::Object(m).get(
            "server_tool_use"@,
        ),
{
    lemma_keys_differ();
    if let Some(split) = cache {
        law_cache_fields_are_all_that_changes(split, m, "output_tokens"@);
        law_cache_fields_are_all_that_changes(split, m, "server_tool_use"@);
        law_lifetimes_hold_the_creation(split);
    }
}

/// What a whole message says, member for member: who answers and how it ended; the use of the
/// search tool with the query; the result with all of the content; the answer, whole; and the
/// tokens.
pub proof fn law_message_says_all(reply: Reply)
    ensures
        ({
            let m = reply.message();
            &&& m.get("id"@) == Some(JsonView::Str(reply.id))
            &&& m.get("type"@) == Some(JsonView::Str("message"@))
            &&& m.get("role"@) == Some(JsonView::Str("assistant"@))
            &&& m.get("model"@) == Some(JsonView::Str(reply.model))
            &&& m.get("stop_reason"@) == Some(JsonView::Str("end_turn"@))
            &&& m.get("stop_sequence"@) == Some(JsonView::Null)
            &&& m.get("content"@) matches Some(JsonView::Array(blocks))
            &&& blocks.len() == 3
            &&& is_tool_use(blocks[0], reply.tool_use_id, reply.query)
            &&& is_tool_result(blocks[1], reply.tool_use_id, reply.content)
            &&& blocks[2].get("type"@) == Some(JsonView::Str("text"@))
            &&& blocks[2].get("text"@) == Some(JsonView::Str(reply.answer))
            &&& m.get("usage"@) matches Some(usage)
            &&& gives_input(usage, reply.input_tokens, reply.cache)
            &&& counts_one_search(usage)
            &&& usage.get("output_tokens"@) matches Some(JsonView::Int(tokens))
            &&& encode_utf8(reply.answer).len() < 0x7FFF_FFFD ==> is_quarter_of(
                tokens,
                reply.answer,
            )
        }),
{
    lemma_keys_differ();
    lemma_blocks(reply.tool_use_id, reply.query, reply.content, reply.answer);
    let m = message_usage(reply.input_tokens, reply.output_tokens())->Object_0;
    lemma_usage(m, reply.input_tokens, reply.cache);
    if encode_utf8(reply.answer).len() < 0x7FFF_FFFD {
        law_tokens_are_a_quarter_of_the_bytes(encode_utf8(reply.answer).len() as int);
    }
}

/// What a streamed reply says, event for event: the message that is begun; the use of the search
/// tool with the query; the result with all of the content; the pieces of the answer, which make it
/// up; and how it ended.
pub proof fn law_stream_says_all(reply: Reply)
    ensures
        ({
            let e = reply.events();
            let n = e.len() as int;
            &&& n >= 9
            &&& e[0].event == "message_start"@
            &&& e[0].data.get("message"@) matches Some(begun)
            &&& begun.get("id"@) == Some(JsonView::Str(reply.id))
            &&& begun.get("type"@) == Some(JsonView::Str("message"@))
            &&& begun.get("role"@) == Some(JsonView::Str("assistant"@))
            &&& begun.get("model"@) == Some(JsonView::Str(reply.model))
            &&& begun.get("content"@) == Some(JsonView::Array(seq![]))
            &&& begun.get("stop_reason"@) == Some(JsonView::Null)
            &&& begun.get("usage"@) matches Some(usage)
            &&& gives_input(usage, reply.input_tokens, reply.cache)
            &&& usage.get("output_tokens"@) == Some(JsonView::Int(0))
            &&& begins_block(e[1], 0)
            &&& is_tool_use(
                e[1].data.get("content_block"@)->0,
                reply.tool_use_id,
                reply.query,
            )
            &&& ends_block(e[2], 0)
            &&& begins_block(e[3], 1)
            &&& is_tool_result(
                e[3].data.get("content_block"@)->0,
                reply.tool_use_id,
                reply.content,
            )
            &&& ends_block(e[4], 1)
            &&& begins_block(e[5], 2)
            &&& e[5].data.get("content_block"@)->0.get("type"@) == Some(JsonView::Str("text"@))
            &&& e[5].data.get("content_block"@)->0.get("text"@) == Some(JsonView::Str(""@))
            &&& forall|i: int| 6 <= i < n - 3 ==> carries_text(#[trigger] e[i], 2)
            &&& e.subrange(6, n - 3).map_values(|d: SseEventView| delta_text(d)).flatten()
                == reply.answer
            &&& ends_block(e[n - 3], 2)
            &&& e[n - 2].event == "message_delta"@
            &&& e[n - 2].data.get("delta"@) matches Some(delta)
            &&& delta.get("stop_reason"@) == Some(JsonView::Str("end_turn"@))
            &&& e[n - 2].data.get("usage"@) matches Some(ended)
            &&& counts_one_search(ended)
            &&& ended.get("output_tokens"@) matches Some(JsonView::Int(tokens))
            &&& encode_utf8(reply.answer).len() < 0x7FFF_FFFD ==> is_quarter_of(
                tokens,
                reply.answer,
            )
            &&& e[n - 1].event == "message_stop"@
        }),
{
    lemma_keys_differ();
    lemma_blocks(reply.tool_use_id, reply.query, reply.content, ""@);
    law_stream_is_in_order(reply);
    law_stream_carries_the_answer(reply);
    lemma_usage(start_usage(reply.input_tokens)->Object_0, reply.input_tokens, reply.cache);
    if encode_utf8(reply.answer).len() < 0x7FFF_FFFD {
        law_tokens_are_a_quarter_of_the_bytes(encode_utf8(reply.answer).len() as int);
    }
    law_chunks_make_up_the_text(reply.answer);
    let e = reply.events();
    assert forall|i: int| 6 <= i < e.len() - 3 implies carries_text(#[trigger] e[i], 2) by {
        assert(e[i] == text_delta(chunks(reply.answer)[i - 6]));
    }
}

/// Whether the event begins the content block `index`.
pub open spec fn begins_block(e: SseEventView, index: int) -> bool {
    &&& e.event == "content_block_start"@
    &&& e.data.get("index"@) == Some(JsonView::Int(index))
    &&& e.data.get("content_block"@) is Some
}

/// Whether the event ends the content block `index`.
pub open spec fn ends_block(e: SseEventView, index: int) -> bool {
    &&& e.event == "content_block_stop"@
    &&& e.data.get("index"@) == Some(JsonView::Int(index))
}

/// Whether the event carries a piece of text for the content block `index`.
pub open spec fn carries_text(e: SseEventView, index: int) -> bool {
    &&& e.event == "content_block_delta"@
    &&& e.data.get("index"@) == Some(JsonView::Int(index))
    &&& e.data.get("delta"@) matches Some(delta)
    &&& delta.get("type"@) == Some(JsonView::Str("text_delta"@))
    &&& delta.get("text"@) matches Some(JsonView::Str(text))
    &&& 0 < text.len() <= 100
}

/// A reply to a search shows what was searched and every page that was found, and gives the
/// answer, in a whole message as in a stream.
pub proof fn law_reply_shows_the_search(
    reply: Reply,
    model: Seq<char>,
    query: Seq<char>,
    tool_use_id: Seq<char>,
    search_results: Option<WebSearchResults>,
    answer: Seq<char>,
    input_tokens: int,
    cache: Option<CacheUsage>,
)
    requires
        answers(
            reply,
            model,
            query,
            tool_use_id,
            search_results,
            answer,
            input_tokens,
            cache,
        ),
    ensures
        ({
            let blocks = reply.message().get("content"@)->0->Array_0;
            let streamed = reply.events()[3].data.get("content_block"@)->0;
            &&& is_tool_use(blocks[0], tool_use_id, query)
            &&& is_tool_use(reply.events()[1].data.get("content_block"@)->0, tool_use_id, query)
            &&& blocks[1].get("tool_use_id"@) == Some(JsonView::Str(tool_use_id))
            &&& streamed.get("tool_use_id"@) == Some(JsonView::Str(tool_use_id))
            &&& blocks[1].get("content"@) matches Some(JsonView::Array(pages))
            &&& streamed.get("content"@) == Some(JsonView::Array(pages))
            &&& search_results is None ==> pages.len() == 0
            &&& search_results matches Some(found) ==> pages.len() == found.results@.len()
                && forall|i: int|
                0 <= i < pages.len() ==> tells_of(#[trigger] pages[i], found.results@[i])
            &&& blocks[2].get("text"@) == Some(JsonView::Str(answer))
            &&& reply.events().subrange(6, reply.events().len() - 3).map_values(
                |d: SseEventView| delta_text(d),
            ).flatten() == answer
            &&& reply.message().get("model"@) == Some(JsonView::Str(model))
            &&& reply.message().get("id"@) matches Some(JsonView::Str(id))
            &&& some_message_id(id)
            &&& gives_input(reply.message().get("usage"@)->0, input_tokens, cache)
            &&& gives_input(
                reply.events()[0].data.get("message"@)->0.get("usage"@)->0,
                input_tokens,
                cache,
            )
        }),
{
    law_message_says_all(reply);
    law_stream_says_all(reply);
    law_every_page_is_shown(reply.content, search_results);
}

/// A number of bytes is kept in 32 bits, with a sign, and a token is counted for every four of what
/// is kept, rounded up by the three that are added.
pub proof fn law_bytes_are_kept_in_32_bits(bytes: int)
    ensures
        -0x8000_0000 <= wrapped(bytes) < 0x8000_0000,
        (bytes - wrapped(bytes)) % 0x1_0000_0000 == 0,
        tokens_in_range(bytes) <==> wrapped(bytes) < 0x7FFF_FFFD,
        wrapped(bytes) + 3 >= 0 ==> 4 * estimated_tokens(bytes) <= wrapped(bytes) + 3 < 4
            * estimated_tokens(bytes) + 4,
        wrapped(bytes) + 3 < 0 ==> 4 * estimated_tokens(bytes) - 4 < wrapped(bytes) + 3 <= 4
            * estimated_tokens(bytes),
{
}

/// The members of a whole message and of its blocks are those that are named here, and no others.
pub proof fn law_message_has_no_other_members(reply: Reply, k: Seq<char>)
    ensures
        ({
            let m = reply.message();
            let blocks = m.get("content"@)->0->Array_0;
            &&& m.get(k) is Some ==> (k == "id"@ || k == "type"@ || k == "role"@ || k == "model"@
                || k == "content"@ || k == "stop_reason"@ || k == "stop_sequence"@ || k
                == "usage"@)
            &&& blocks[0].get(k) is Some ==> (k == "id"@ || k == "type"@ || k == "name"@ || k
                == "input"@)
            &&& blocks[0].get("input"@)->0.get(k) is Some ==> k == "query"@
            &&& blocks[1].get(k) is Some ==> (k == "type"@ || k == "tool_use_id"@ || k
                == "content"@ || k == "caller"@)
            &&& blocks[2].get(k) is Some ==> (k == "type"@ || k == "text"@)
            &&& m.get("usage"@)->0.get(k) is Some ==> (k == "input_tokens"@ || k
                == "output_tokens"@ || k == "server_tool_use"@ || (reply.cache is Some && (k
                == "cache_creation_input_tokens"@ || k == "cache_read_input_tokens"@ || k
                == "cache_creation"@)))
        }),
{
    lemma_keys_differ();
    lemma_block_keys_differ();
}

/// The members of the data of the events are those that are named here, and no others.
pub proof fn law_events_have_no_other_members(reply: Reply, i: int, k: Seq<char>)
    requires
        0 <= i < reply.events().len(),
    ensures
        ({
            let e = reply.events();
            let n = e.len() as int;
            let begun = e[0].data.get("message"@)->0;
            &&& e[i].data.get(k) is Some ==> (k == "type"@ || (i == 0 && k == "message"@) || (1 <= i
                <= n - 3 && k == "index"@) || ((i == 1 || i == 3 || i == 5) && k
                == "content_block"@) || (6 <= i < n - 3 && k == "delta"@) || (i == n - 2 && (k
                == "delta"@ || k == "usage"@)))
            &&& begun.get(k) is Some ==> (k == "id"@ || k == "type"@ || k == "role"@ || k
                == "model"@ || k == "content"@ || k == "stop_reason"@ || k == "usage"@)
            &&& reply.cache is None ==> begun.get("usage"@)->0.get("cache_creation_input_tokens"@)
                == Some(JsonView::Int(0)) && begun.get("usage"@)->0.get(
                "cache_read_input_tokens"@,
            ) == Some(JsonView::Int(0)) && begun.get("usage"@)->0.get("cache_creation"@) is None
        }),
{
    lemma_keys_differ();
    law_stream_is_in_order(reply);
    let e = reply.events();
    if 6 <= i < e.len() - 3 {
        assert(e[i] == text_delta(chunks(reply.answer)[i - 6]));
    }
}

} // verus!
