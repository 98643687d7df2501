//! What the model is asked around a search, and what is made of its replies.
use vstd::prelude::*;

use crate::clock::{format_time, formatted_time, may_be_now, utc_now, UtcTime, ISO_DATE};
use crate::json::{Json, JsonView};
use crate::text::{
    begins_with, first_line, first_line_of, is_white_space, law_first_line_ends_at_the_line_feed,
    law_quotes_alone_leave_nothing, law_trimming_keeps_the_text, law_unquoting_keeps_the_text,
    lemma_first_line_has_no_line_feed, lemma_first_line_occurs, lemma_occurs_through,
    lemma_trim_back_behind, lemma_trim_back_is_prefix, lemma_trim_front_of, lemma_trimmed_empty,
    lemma_trimmed_ends, lemma_trimmed_is_part, lemma_trimmed_occurs, lemma_unquoted_occurs,
    occurs_in, option_view, trim, trim_back, trim_front, trim_quotes, trimmed, unquoted,
};
use crate::types::{Message, MessagesRequest, SystemMessage};
use crate::websearch::mcp::WebSearchResults;
use crate::websearch::summary::{
    generate_search_summary, law_summary_is_not_blank, search_summary,
};

verus! {

/// How many tokens a reply of the model may have.
pub const COMPLETION_TOKENS: i32 = 2048;

/// What the model is told where it is to answer from search results.
pub const ANSWER_PROMPT: &'static str =
    "你是联网搜索助手。根据下列搜索结果，用中文综合、客观地回答用户的问题，分点陈述，注明来源标题。不要编造搜索结果之外的信息。";

/// What the model is told where it is to write a search query, on the day `today`.
pub open spec fn query_prompt(today: Seq<char>) -> Seq<char> {
    "你是搜索词生成器。今天是 "@ + today
        + "。根据用户请求，输出**一行**最优的网页搜索查询语句；若涉及时效性内容请包含必要日期。只输出查询语句本身，不要解释、不要引号、不要前缀。"@
}

/// Whether the request asks `model`, under the system prompt `system`, for one reply to `user`.
pub open spec fn asks(
    request: MessagesRequest,
    model: Seq<char>,
    system: Seq<char>,
    user: Seq<char>,
) -> bool {
    &&& request.model@ == model
    &&& request.max_tokens == COMPLETION_TOKENS
    &&& request.messages@.len() == 1
    &&& request.messages@[0].role@ == "user"@
    &&& request.messages@[0].content@ == JsonView::Str(user)
    &&& !request.stream
    &&& request.system matches Some(blocks) && blocks@.len() == 1 && blocks@[0].text@ == system
    &&& request.tools is None
    &&& request.tool_choice is None
    &&& request.thinking is None
    &&& request.output_config is None
    &&& request.metadata is None
}

/// A request that [`asks`] `model`.
pub fn completion_request(model: &str, system: &str, user: &str) -> (r: MessagesRequest)
    ensures
        asks(r, model@, system@, user@),
{
    let mut messages: Vec<Message> = Vec::new();
    messages.push(Message { role: "user".to_owned(), content: Json::text(user) });
    let mut blocks: Vec<SystemMessage> = Vec::new();
    blocks.push(SystemMessage { text: system.to_owned() });
    MessagesRequest {
        model: model.to_owned(),
        max_tokens: COMPLETION_TOKENS,
        messages,
        stream: false,
        system: Some(blocks),
        tools: None,
        tool_choice: None,
        thinking: None,
        output_config: None,
        metadata: None,
    }
}

/// A frame of the model's reply.
#[derive(Debug)]
pub enum Decoded {
    /// A text of the assistant.
    Text(String),
    /// An event of another kind.
    Other,
    /// A frame that cannot be decoded.
    Undecodable,
}

/// The texts of the assistant among the frames, in their order.
pub open spec fn texts_in(frames: Seq<Decoded>) -> Seq<String>
    decreases frames.len(),
{
    if frames.len() == 0 {
        seq![]
    } else {
        match frames.last() {
            Decoded::Text(text) => texts_in(frames.drop_last()).push(text),
            _ => texts_in(frames.drop_last()),
        }
    }
}

/// Computes [`texts_in`]: frames of other kinds, and those that cannot be decoded, are skipped.
pub fn kept_texts(frames: Vec<Decoded>) -> (r: Vec<String>)
    ensures
        r@ == texts_in(frames@),
{
    let mut out: Vec<String> = Vec::new();
    let mut i: usize = 0;
    while i < frames.len()
        invariant
            i <= frames@.len(),
            out@ == texts_in(frames@.take(i as int)),
        decreases frames@.len() - i,
    {
        assert(frames@.take(i + 1).drop_last() == frames@.take(i as int));
        assert(frames@.take(i + 1).last() == frames@[i as int]);
        if let Decoded::Text(text) = &frames[i] {
            out.push(text.clone());
        }
        i = i + 1;
    }
    assert(frames@.take(i as int) == frames@);
    out
}

/// The reply that the model gave piece by piece.
pub fn completion_text(pieces: &Vec<String>) -> (r: String)
    ensures
        r@ == pieces@.map_values(|p: String| p@).flatten(),
{
    let ghost f = |p: String| p@;
    let mut out = String::new();
    let mut i: usize = 0;
    while i < pieces.len()
        invariant
            f == (|p: String| p@),
            i <= pieces@.len(),
            out@ == pieces@.take(i as int).map_values(f).flatten(),
        decreases pieces@.len() - i,
    {
        let ghost before = pieces@.take(i as int).map_values(f);
        out.append(pieces[i].as_str());
        proof {
            before.lemma_flatten_push(pieces@[i as int]@);
            assert(pieces@.take(i + 1).map_values(f) =~= before.push(pieces@[i as int]@));
        }
        i = i + 1;
    }
    assert(pieces@.take(i as int) == pieces@);
    out
}

/// Computes [`query_prompt`].
pub fn search_query_prompt(today: &str) -> (r: String)
    ensures
        r@ == query_prompt(today@),
{
    let mut out = "你是搜索词生成器。今天是 ".to_owned();
    out.append(today);
    out.append(
        "。根据用户请求，输出**一行**最优的网页搜索查询语句；若涉及时效性内容请包含必要日期。只输出查询语句本身，不要解释、不要引号、不要前缀。",
    );
    out
}

/// Whether `today` is the date of some instant.
pub open spec fn some_date(today: Seq<char>) -> bool {
    exists|now: UtcTime|
        may_be_now(now) && today == #[trigger] formatted_time(
            now.secs as int,
            now.nanos as int,
            ISO_DATE@,
        )
}

/// Whether the request asks `model` for a search query for `intent`, on some day.
pub open spec fn asks_for_query(
    request: MessagesRequest,
    model: Seq<char>,
    intent: Seq<char>,
) -> bool {
    exists|today: Seq<char>|
        some_date(today) && asks(request, model, #[trigger] query_prompt(today), intent)
}

/// The date of the instant, such as `2001-07-08`.
pub fn date_of(now: UtcTime) -> (r: String)
    requires
        now.valid(),
    ensures
        r@ == formatted_time(now.secs as int, now.nanos as int, ISO_DATE@),
{
    format_time(now, ISO_DATE)
}

/// A request that asks `model` for a search query for `intent`, today.
pub fn query_request(model: &str, intent: &str) -> (r: MessagesRequest)
    ensures
        asks_for_query(r, model@, intent@),
{
    let now = utc_now();
    let today = date_of(now);
    let system = search_query_prompt(today.as_str());
    let request = completion_request(model, system.as_str(), intent);
    assert(some_date(today@));
    assert(asks(request, model@, query_prompt(today@), intent@));
    request
}

/// The query that a reply of the model holds: its first line, without the quotes around the
/// reply and without white space at its ends.
pub open spec fn query_in(reply: Seq<char>) -> Seq<char> {
    trimmed(first_line_of(unquoted(trimmed(reply))))
}

/// What is searched for: the query in the reply of the model; what the user said where the model
/// gave no reply, or none with a query in it.
pub open spec fn chosen_query(intent: Seq<char>, reply: Option<Seq<char>>) -> Seq<char> {
    match reply {
        Some(reply) => if query_in(reply).len() > 0 {
            query_in(reply)
        } else {
            intent
        },
        None => intent,
    }
}

/// Computes [`chosen_query`].
pub fn choose_query(intent: &str, reply: &Option<String>) -> (r: String)
    ensures
        r@ == chosen_query(intent@, option_view(*reply)),
{
    match reply {
        Some(reply) => {
            let bare = trim_quotes(trim(reply.as_str()).as_str());
            let query = trim(first_line(bare.as_str()).as_str());
            if query.as_str().is_empty() {
                intent.to_owned()
            } else {
                query
            }
        },
        None => intent.to_owned(),
    }
}

/// What the model is asked where it is to answer from search results.
pub open spec fn answer_question(intent: Seq<char>, context: Seq<char>) -> Seq<char> {
    "用户问题："@ + intent + "\n\n搜索结果：\n"@ + context
}

/// A request that asks `model` to answer `intent` from the search results in `context`.
pub fn answer_request(model: &str, intent: &str, context: &str) -> (r: MessagesRequest)
    ensures
        asks(r, model@, ANSWER_PROMPT@, answer_question(intent@, context@)),
{
    let mut user = "用户问题：".to_owned();
    user.append(intent);
    user.append("\n\n搜索结果：\n");
    user.append(context);
    completion_request(model, ANSWER_PROMPT, user.as_str())
}

/// The answer: the reply of the model where it says something, else a summary of what was found.
pub open spec fn chosen_answer(
    intent: Seq<char>,
    results: Option<WebSearchResults>,
    reply: Option<Seq<char>>,
) -> Seq<char> {
    match reply {
        Some(reply) => if trimmed(reply).len() > 0 {
            reply
        } else {
            search_summary(intent, results)
        },
        None => search_summary(intent, results),
    }
}

/// Computes [`chosen_answer`].
pub fn choose_answer(
    intent: &str,
    results: &Option<WebSearchResults>,
    reply: Option<String>,
) -> (r: String)
    ensures
        r@ == chosen_answer(intent@, *results, option_view(reply)),
{
    match reply {
        Some(reply) => if trim(reply.as_str()).as_str().is_empty() {
            generate_search_summary(intent, results)
        } else {
            reply
        },
        None => generate_search_summary(intent, results),
    }
}

/// Frames count one after the other, and one that holds no text of the assistant counts for
/// nothing, wherever it stands.
pub proof fn law_only_texts_count(before: Seq<Decoded>, frame: Decoded, behind: Seq<Decoded>)
    ensures
        texts_in(before + behind) == texts_in(before) + texts_in(behind),
        !(frame is Text) ==> texts_in(before.push(frame) + behind) == texts_in(before + behind),
        frame matches Decoded::Text(text) ==> texts_in(before.push(frame) + behind) == texts_in(
            before,
        ).push(text) + texts_in(behind),
{
    lemma_texts_append(before, behind);
    lemma_texts_append(before.push(frame), behind);
    assert(before.push(frame).drop_last() == before);
}

/// The texts of frames and then others are the texts of the ones and then of the others.
proof fn lemma_texts_append(before: Seq<Decoded>, behind: Seq<Decoded>)
    ensures
        texts_in(before + behind) == texts_in(before) + texts_in(behind),
    decreases behind.len(),
{
    let all = before + behind;
    if behind.len() == 0 {
        assert(all =~= before);
        assert(texts_in(before) + texts_in(behind) =~= texts_in(before));
    } else {
        assert(all.drop_last() =~= before + behind.drop_last());
        assert(all.last() == behind.last());
        lemma_texts_append(before, behind.drop_last());
        assert(texts_in(all) =~= texts_in(before) + texts_in(behind));
    }
}

/// Something is searched for, whatever the model replies.
pub proof fn law_query_is_not_empty(intent: Seq<char>, reply: Option<Seq<char>>)
    requires
        intent.len() > 0,
    ensures
        chosen_query(intent, reply).len() > 0,
{
}

/// A query that is taken from a reply is one line, without white space at its ends.
pub proof fn law_query_is_one_line(reply: Seq<char>)
    ensures
        !query_in(reply).contains('\n'),
        query_in(reply).len() > 0 ==> !is_white_space(query_in(reply)[0]) && !is_white_space(
            query_in(reply).last(),
        ),
{
    let bare = unquoted(trimmed(reply));
    lemma_first_line_has_no_line_feed(bare);
    lemma_trimmed_is_part(first_line_of(bare));
    lemma_trimmed_ends(first_line_of(bare));
}

/// A reply that is one line with nothing around it is taken as it is, and so is one that stands
/// in double quotes.
pub proof fn law_plain_query_is_kept(query: Seq<char>)
    requires
        query.len() > 0,
        !query.contains('\n'),
        !is_white_space(query[0]) && query[0] != '"',
        !is_white_space(query.last()) && query.last() != '"',
    ensures
        query_in(query) == query,
        query_in(seq!['"'] + query + seq!['"']) == query,
{
    let quote = |c: char| c == '"';
    let quoted = seq!['"'] + query + seq!['"'];
    assert(trimmed(query) == query);
    assert(unquoted(query) == query);
    assert(trimmed(quoted) == quoted);
    let rest = query.push('"');
    assert(quoted.drop_first() =~= rest);
    assert(trim_front(quoted, quote) == trim_front(rest, quote));
    assert(trim_front(rest, quote) == rest);
    assert(rest.drop_last() =~= query);
    assert(trim_back(rest, quote) == trim_back(query, quote));
}

/// The answer says something, whatever the model replies and whatever was found.
pub proof fn law_answer_is_not_blank(
    intent: Seq<char>,
    results: Option<WebSearchResults>,
    reply: Option<Seq<char>>,
)
    ensures
        trimmed(chosen_answer(intent, results, reply)).len() > 0,
{
    law_summary_is_not_blank(intent, results);
}

/// A reply of the model that says something is the answer, character for character; without one,
/// a summary of what was found is.
pub proof fn law_reply_is_the_answer(
    intent: Seq<char>,
    results: Option<WebSearchResults>,
    reply: Seq<char>,
)
    ensures
        (exists|i: int| 0 <= i < reply.len() && !is_white_space(#[trigger] reply[i]))
            ==> chosen_answer(intent, results, Some(reply)) == reply,
        (forall|i: int| 0 <= i < reply.len() ==> is_white_space(#[trigger] reply[i]))
            ==> chosen_answer(intent, results, Some(reply)) == search_summary(intent, results),
        chosen_answer(intent, results, None) == search_summary(intent, results),
{
    lemma_trimmed_empty(reply);
}

/// The query is the first line of a reply, whole: only white space and double quotes in front of
/// the reply are taken off, whatever stands on the lines behind.
pub proof fn law_query_is_the_first_line(
    intent: Seq<char>,
    lead: Seq<char>,
    open: Seq<char>,
    line: Seq<char>,
    rest: Seq<char>,
)
    requires
        forall|i: int| 0 <= i < lead.len() ==> is_white_space(#[trigger] lead[i]),
        forall|i: int| 0 <= i < open.len() ==> #[trigger] open[i] == '"',
        line.len() > 0,
        !line.contains('\n'),
        !is_white_space(line[0]) && line[0] != '"',
        !is_white_space(line.last()) && line.last() != '"',
    ensures
        chosen_query(intent, Some(lead + open + line + seq!['\n'] + rest)) == line,
{
    let white = |c: char| is_white_space(c);
    let quote = |c: char| c == '"';
    let reply = lead + open + line + seq!['\n'] + rest;
    let tail = seq!['\n'] + rest;
    let body = open + line + tail;
    assert(reply =~= lead + body);
    assert(!is_white_space('"'));
    lemma_trim_front_of(lead, body, white);
    let front = open + line;
    assert(body =~= front + tail);
    assert(front.last() == line.last());
    lemma_trim_back_behind(front, tail, white);
    let kept = trim_back(tail, white);
    assert(trimmed(reply) == front + kept);
    lemma_trim_back_is_prefix(tail, white);
    assert(front + kept =~= open + (line + kept));
    lemma_trim_front_of(open, line + kept, quote);
    lemma_trim_back_behind(line, kept, quote);
    let left = trim_back(kept, quote);
    lemma_trim_back_is_prefix(kept, quote);
    let bare = line + left;
    assert(unquoted(trimmed(reply)) == bare);
    if left.len() > 0 {
        assert(left[0] == '\n');
        assert(bare =~= line + seq!['\n'] + left.drop_first());
        assert(!is_white_space(line.last()));
        assert(is_white_space('\r'));
        law_first_line_ends_at_the_line_feed(line, left.drop_first());
    } else {
        assert(bare =~= line);
        law_first_line_ends_at_the_line_feed(line, seq![]);
    }
    law_trimming_keeps_the_text(seq![], line, seq![]);
    assert(seq![] + line + seq![] =~= line);
}

/// A reply of one line is the query, without the white space around it and the double quotes around
/// what is left.
pub proof fn law_query_is_the_only_line(
    intent: Seq<char>,
    lead: Seq<char>,
    open: Seq<char>,
    line: Seq<char>,
    close: Seq<char>,
    trail: Seq<char>,
)
    requires
        forall|i: int| 0 <= i < lead.len() ==> is_white_space(#[trigger] lead[i]),
        forall|i: int| 0 <= i < open.len() ==> #[trigger] open[i] == '"',
        line.len() > 0,
        !line.contains('\n'),
        !is_white_space(line[0]) && line[0] != '"',
        !is_white_space(line.last()) && line.last() != '"',
        forall|i: int| 0 <= i < close.len() ==> #[trigger] close[i] == '"',
        forall|i: int| 0 <= i < trail.len() ==> is_white_space(#[trigger] trail[i]),
    ensures
        chosen_query(intent, Some(lead + (open + line + close) + trail)) == line,
{
    let inner = open + line + close;
    assert(!is_white_space('"'));
    assert(inner[0] == '"' || inner[0] == line[0]);
    assert(inner.last() == '"' || inner.last() == line.last());
    law_trimming_keeps_the_text(lead, inner, trail);
    law_unquoting_keeps_the_text(open, line, close);
    law_first_line_ends_at_the_line_feed(line, seq![]);
    law_trimming_keeps_the_text(seq![], line, seq![]);
    assert(seq![] + line + seq![] =~= line);
}

/// What the user said is searched where the model gives no reply, and where there is nothing in its
/// reply but white space around double quotes.
pub proof fn law_intent_stands_in_for_the_query(
    intent: Seq<char>,
    lead: Seq<char>,
    quotes: Seq<char>,
    trail: Seq<char>,
)
    requires
        forall|i: int| 0 <= i < lead.len() ==> is_white_space(#[trigger] lead[i]),
        forall|i: int| 0 <= i < quotes.len() ==> #[trigger] quotes[i] == '"',
        forall|i: int| 0 <= i < trail.len() ==> is_white_space(#[trigger] trail[i]),
    ensures
        chosen_query(intent, None) == intent,
        chosen_query(intent, Some(lead + quotes + trail)) == intent,
{
    assert(!is_white_space('"'));
    law_trimming_keeps_the_text(lead, quotes, trail);
    law_quotes_alone_leave_nothing(quotes);
    let none = Seq::<char>::empty();
    law_first_line_ends_at_the_line_feed(none, none);
    law_trimming_keeps_the_text(none, none, none);
    assert(none + none + none =~= none);
}

/// A query from a reply stands in the reply as one piece.
pub proof fn law_query_comes_from_the_reply(reply: Seq<char>)
    ensures
        occurs_in(query_in(reply), reply),
{
    let bare = unquoted(trimmed(reply));
    let line = first_line_of(bare);
    lemma_trimmed_occurs(reply);
    lemma_unquoted_occurs(trimmed(reply));
    lemma_first_line_occurs(bare);
    lemma_trimmed_occurs(line);
    lemma_occurs_through(query_in(reply), line, bare);
    lemma_occurs_through(query_in(reply), bare, trimmed(reply));
    lemma_occurs_through(query_in(reply), trimmed(reply), reply);
}

/// A request to the model carries the texts whole: the model, the system prompt and what is asked,
/// in one message of the user; it is not streamed, and it offers no tools.
pub proof fn law_request_carries_its_texts(
    request: MessagesRequest,
    model: Seq<char>,
    system: Seq<char>,
    user: Seq<char>,
)
    requires
        asks(request, model, system, user),
    ensures
        request.model@ == model,
        request.max_tokens == 2048,
        !request.stream,
        request.messages@.len() == 1,
        request.messages@[0].role@ == "user"@,
        request.messages@[0].content@ == JsonView::Str(user),
        request.system matches Some(blocks) && blocks@.len() == 1 && blocks@[0].text@ == system,
        request.tools is None,
{
}

/// The model that is to write a query is told the date, whole, and is asked with all that the user
/// said.
pub proof fn law_query_request_tells_the_date(
    request: MessagesRequest,
    model: Seq<char>,
    intent: Seq<char>,
)
    requires
        asks_for_query(request, model, intent),
    ensures
        request.model@ == model,
        request.messages@.len() == 1,
        request.messages@[0].content@ == JsonView::Str(intent),
        exists|now: UtcTime|
            may_be_now(now) && occurs_in(
                #[trigger] formatted_time(now.secs as int, now.nanos as int, ISO_DATE@),
                request.system->0@[0].text@,
            ),
{
    let today = choose|today: Seq<char>|
        some_date(today) && asks(request, model, #[trigger] query_prompt(today), intent);
    law_date_stands_in_the_prompt(today);
    let now = choose|now: UtcTime|
        may_be_now(now) && today == #[trigger] formatted_time(
            now.secs as int,
            now.nanos as int,
            ISO_DATE@,
        );
}

/// The date stands in the prompt whole, behind the same words for every date, and with the same
/// words behind it.
pub proof fn law_date_stands_in_the_prompt(today: Seq<char>)
    ensures
        occurs_in(today, query_prompt(today)),
        begins_with(query_prompt(today), "你是搜索词生成器。今天是 "@ + today),
        query_prompt(today).len() == query_prompt(seq![]).len() + today.len(),
        query_prompt(today).skip("你是搜索词生成器。今天是 "@.len() as int + today.len()) == query_prompt(
            seq![],
        ).skip("你是搜索词生成器。今天是 "@.len() as int),
{
    let head = "你是搜索词生成器。今天是 "@;
    let n = head.len() as int;
    let whole = query_prompt(today);
    let bare = query_prompt(seq![]);
    assert(whole.subrange(n, n + today.len()) =~= today);
    assert(whole.take((head + today).len() as int) =~= head + today);
    assert(whole.skip(n + today.len()) =~= bare.skip(n));
}

/// What the model is asked about search results is what the user wants to know, whole, and then
/// the results, whole.
pub proof fn law_question_holds_intent_and_context(intent: Seq<char>, context: Seq<char>)
    ensures
        answer_question(intent, context) == "用户问题："@ + intent + "\n\n搜索结果：\n"@ + context,
        occurs_in(intent, answer_question(intent, context)),
        occurs_in(context, answer_question(intent, context)),
{
    let whole = answer_question(intent, context);
    let n = "用户问题："@.len() as int;
    assert(whole.subrange(n, n + intent.len()) =~= intent);
    let m = whole.len() - context.len();
    assert(whole.subrange(m, m + context.len()) =~= context);
}

/// The pieces of a reply are put together in their order, and nothing is added.
pub proof fn law_pieces_make_up_the_reply(pieces: Seq<String>, next: String)
    ensures
        pieces.push(next).map_values(|p: String| p@).flatten() == pieces.map_values(
            |p: String| p@,
        ).flatten() + next@,
        Seq::<String>::empty().map_values(|p: String| p@).flatten() == Seq::<char>::empty(),
{
    let f = |p: String| p@;
    pieces.map_values(f).lemma_flatten_push(next@);
    assert(pieces.push(next).map_values(f) =~= pieces.map_values(f).push(next@));
}

/// The first line of a reply with more than one is the query to its end: only white space is taken
/// off there, and quotes at its end stay where something stands on the lines behind.
pub proof fn law_query_is_the_first_line_to_its_end(
    intent: Seq<char>,
    lead: Seq<char>,
    open: Seq<char>,
    line: Seq<char>,
    pad: Seq<char>,
    more: Seq<char>,
    rest: Seq<char>,
)
    requires
        forall|i: int| 0 <= i < lead.len() ==> is_white_space(#[trigger] lead[i]),
        forall|i: int| 0 <= i < open.len() ==> #[trigger] open[i] == '"',
        line.len() > 0 ==> !is_white_space(line[0]) && line[0] != '"' && !is_white_space(
            line.last(),
        ),
        line.len() > 0 || open.len() > 0,
        forall|i: int| 0 <= i < pad.len() ==> is_white_space(#[trigger] pad[i]),
        !line.contains('\n'),
        !pad.contains('\n'),
        more.len() > 0,
        !is_white_space(more.last()) && more.last() != '"',
    ensures
        chosen_query(intent, Some(lead + open + line + pad + seq!['\n'] + more + rest)) == if line.len()
            > 0 {
            line
        } else {
            intent
        },
{
    let white = |c: char| is_white_space(c);
    let quote = |c: char| c == '"';
    let feed = seq!['\n'];
    let reply = lead + open + line + pad + feed + more + rest;
    let core = line + pad + feed + more;
    let front = open + core;
    assert(!is_white_space('"'));
    assert(reply =~= lead + (front + rest));
    assert((front + rest)[0] == '"' || (front + rest)[0] == line[0]);
    lemma_trim_front_of(lead, front + rest, white);
    assert(front.last() == more.last());
    lemma_trim_back_behind(front, rest, white);
    let kept = trim_back(rest, white);
    assert(trimmed(reply) == front + kept);
    assert(front + kept =~= open + (core + kept));
    let start = core + kept;
    assert(start[0] != '"') by {
        if line.len() == 0 {
            if pad.len() > 0 {
                assert(start[0] == pad[0]);
            } else {
                assert(start[0] == '\n');
            }
        } else {
            assert(start[0] == line[0]);
        }
    }
    lemma_trim_front_of(open, start, quote);
    assert(core.last() == more.last());
    lemma_trim_back_behind(core, kept, quote);
    let left = trim_back(kept, quote);
    let bare = core + left;
    assert(unquoted(trimmed(reply)) == bare);
    let first = line + pad;
    assert(!first.contains('\n')) by {
        if first.contains('\n') {
            let i = choose|i: int| 0 <= i < first.len() && first[i] == '\n';
            if i < line.len() {
                assert(line[i] == '\n');
            } else {
                assert(pad[i - line.len()] == '\n');
            }
        }
    }
    let none = Seq::<char>::empty();
    if pad.len() > 0 && pad.last() == '\r' {
        let short = line + pad.drop_last();
        assert(first =~= short + seq!['\r']);
        assert(bare =~= short + seq!['\r', '\n'] + (more + left));
        assert(!short.contains('\n')) by {
            if short.contains('\n') {
                let i = choose|i: int| 0 <= i < short.len() && short[i] == '\n';
                assert(first[i] == '\n');
            }
        }
        law_first_line_ends_at_the_line_feed(short, more + left);
        law_trimming_keeps_the_text(none, line, pad.drop_last());
        assert(none + line + pad.drop_last() =~= short);
    } else {
        assert(is_white_space('\r'));
        assert(first.len() == 0 || first.last() != '\r') by {
            if pad.len() == 0 && line.len() > 0 {
                assert(first.last() == line.last());
            } else if pad.len() > 0 {
                assert(first.last() == pad.last());
            }
        }
        assert(bare =~= first + feed + (more + left));
        law_first_line_ends_at_the_line_feed(first, more + left);
        law_trimming_keeps_the_text(none, line, pad);
        assert(none + line + pad =~= first);
    }
}

} // verus!
