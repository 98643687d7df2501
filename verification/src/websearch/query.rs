//! What a messages request asks to be searched.
use vstd::prelude::*;

use crate::json::{lemma_array, views, Json, JsonView};
use crate::text::{
    is_white_space, law_prefix_is_taken_off_once, law_trimming_keeps_the_text,
    lemma_trim_back_append, lemma_trimmed_ends, option_view, same_text, strip_prefix, trim,
    trim_back, trimmed, without_prefix,
};
use crate::types::{Message, MessagesRequest};

verus! {

/// What clients put in front of the text that is to be searched.
pub const SEARCH_PREFIX: &'static str = "Perform a web search for the query: ";

/// Whether the request offers one tool, and that one is `web_search`.
pub fn has_web_search_tool(req: &MessagesRequest) -> (r: bool)
    ensures
        r == (req.tools matches Some(tools) && tools@.len() == 1 && tools@[0].name@
            == "web_search"@),
{
    match &req.tools {
        Some(tools) => tools.len() == 1 && same_text(tools[0].name.as_str(), "web_search"),
        None => false,
    }
}

/// The text of a content block, where it is a block of type `text` with a text.
pub open spec fn block_text(block: JsonView) -> Option<Seq<char>> {
    if block.get("type"@) == Some(JsonView::Str("text"@)) {
        match block.get("text"@) {
            Some(t) => t.as_str(),
            None => None,
        }
    } else {
        None
    }
}

/// The text of a message whose content is a string, or whose first block is a text block.
pub open spec fn leading_text(content: JsonView) -> Option<Seq<char>> {
    match content {
        JsonView::Str(s) => Some(s),
        JsonView::Array(blocks) => if blocks.len() > 0 {
            block_text(blocks[0])
        } else {
            None
        },
        _ => None,
    }
}

/// The text of the first text block.
pub open spec fn first_block_text(blocks: Seq<JsonView>) -> Option<Seq<char>>
    decreases blocks.len(),
{
    if blocks.len() == 0 {
        None
    } else if block_text(blocks[0]) is Some {
        block_text(blocks[0])
    } else {
        first_block_text(blocks.drop_first())
    }
}

/// The text of a message whose content is a string, or one of whose blocks is a text block.
pub open spec fn any_text(content: JsonView) -> Option<Seq<char>> {
    match content {
        JsonView::Str(s) => Some(s),
        JsonView::Array(blocks) => first_block_text(blocks),
        _ => None,
    }
}

/// The query that the first message of a conversation holds: its leading text without
/// [`SEARCH_PREFIX`], where that is not empty.
pub open spec fn search_query(messages: Seq<Message>) -> Option<Seq<char>> {
    if messages.len() == 0 {
        None
    } else {
        match leading_text(messages[0].content@) {
            Some(t) => {
                let q = without_prefix(t, SEARCH_PREFIX@);
                if q.len() == 0 {
                    None
                } else {
                    Some(q)
                }
            },
            None => None,
        }
    }
}

/// The text of a message that is the user's and says something, without white space around it.
pub open spec fn user_text(message: Message) -> Option<Seq<char>> {
    match any_text(message.content@) {
        Some(t) => if message.role@ == "user"@ && trimmed(t).len() > 0 {
            Some(trimmed(t))
        } else {
            None
        },
        None => None,
    }
}

/// The text of the last message that is the user's and says something, without
/// [`SEARCH_PREFIX`].
pub open spec fn last_user_text(messages: Seq<Message>) -> Option<Seq<char>>
    decreases messages.len(),
{
    if messages.len() == 0 {
        None
    } else {
        match user_text(messages.last()) {
            Some(t) => Some(without_prefix(t, SEARCH_PREFIX@)),
            None => last_user_text(messages.drop_last()),
        }
    }
}

/// What the user wants searched: [`last_user_text`], or else [`search_query`].
pub open spec fn search_intent(messages: Seq<Message>) -> Option<Seq<char>> {
    match last_user_text(messages) {
        Some(t) => Some(t),
        None => search_query(messages),
    }
}

/// Computes [`block_text`].
fn text_of_block(block: &Json) -> (r: Option<String>)
    ensures
        option_view(r) == block_text(block@),
{
    match block.get("type") {
        Some(t) => match t.as_str() {
            Some(kind) => if same_text(kind, "text") {
                match block.get("text") {
                    Some(t) => match t.as_str() {
                        Some(s) => Some(s.to_owned()),
                        None => None,
                    },
                    None => None,
                }
            } else {
                None
            },
            None => None,
        },
        None => None,
    }
}

/// The query that the first message of the request holds: its first content block, without
/// [`SEARCH_PREFIX`].
pub fn extract_search_query(req: &MessagesRequest) -> (r: Option<String>)
    ensures
        option_view(r) == search_query(req.messages@),
{
    if req.messages.len() == 0 {
        return None;
    }
    let text = match &req.messages[0].content {
        Json::Str(s) => Some(s.clone()),
        Json::Array(blocks) => {
            proof {
                lemma_array(req.messages@[0].content);
            }
            if blocks.len() > 0 {
                text_of_block(&blocks[0])
            } else {
                None
            }
        },
        _ => None,
    };
    match text {
        Some(t) => {
            let query = strip_prefix(t.as_str(), SEARCH_PREFIX);
            if query.as_str().is_empty() {
                None
            } else {
                Some(query)
            }
        },
        None => None,
    }
}

/// Computes [`any_text`].
fn text_of_content(content: &Json) -> (r: Option<String>)
    ensures
        option_view(r) == any_text(content@),
{
    match content {
        Json::Str(s) => Some(s.clone()),
        Json::Array(blocks) => {
            let ghost all = content@->Array_0;
            proof {
                lemma_array(*content);
                assert(all.skip(0) == all);
            }
            let mut i: usize = 0;
            while i < blocks.len()
                invariant
                    content@ == JsonView::Array(all),
                    all == views(blocks@),
                    i <= blocks@.len(),
                    first_block_text(all.skip(i as int)) == first_block_text(all),
                decreases blocks@.len() - i,
            {
                let t = text_of_block(&blocks[i]);
                if t.is_some() {
                    return t;
                }
                assert(all.skip(i as int).drop_first() == all.skip(i + 1));
                i = i + 1;
            }
            None
        },
        _ => None,
    }
}

/// What the user wants searched: the text of the last message that is the user's and says
/// something; where there is none, what [`extract_search_query`] finds.
pub fn latest_user_text(req: &MessagesRequest) -> (r: Option<String>)
    ensures
        option_view(r) == search_intent(req.messages@),
{
    let ghost all = req.messages@;
    let mut n: usize = req.messages.len();
    assert(all.take(n as int) == all);
    while n > 0
        invariant
            n <= req.messages@.len(),
            all == req.messages@,
            last_user_text(all.take(n as int)) == last_user_text(all),
        decreases n,
    {
        let message = &req.messages[n - 1];
        assert(all.take(n as int).last() == message);
        assert(all.take(n as int).drop_last() == all.take(n - 1));
        n = n - 1;
        if !same_text(message.role.as_str(), "user") {
            continue;
        }
        if let Some(t) = text_of_content(&message.content) {
            let t = trim(t.as_str());
            if !t.as_str().is_empty() {
                return Some(strip_prefix(t.as_str(), SEARCH_PREFIX));
            }
        }
    }
    extract_search_query(req)
}

/// A search intent is never empty: what is searched for says something.
pub proof fn law_search_intent_is_not_empty(messages: Seq<Message>)
    ensures
        search_intent(messages) matches Some(t) ==> t.len() > 0,
    decreases messages.len(),
{
    if messages.len() > 0 {
        match user_text(messages.last()) {
            Some(t) => {
                let source = any_text(messages.last().content@)->0;
                lemma_trimmed_ends(source);
                reveal_strlit("Perform a web search for the query: ");
                if without_prefix(t, SEARCH_PREFIX@).len() == 0 {
                    assert(t.take(SEARCH_PREFIX@.len() as int) == t);
                    assert(t.last() == ' ');
                }
            },
            None => {
                if last_user_text(messages.drop_last()) is Some {
                    law_search_intent_is_not_empty(messages.drop_last());
                }
            },
        }
    }
}

/// The prefix that clients put in front of a query is taken off: a first message that reads
/// [`SEARCH_PREFIX`] and then `q` holds the query `q`.
pub proof fn law_prefix_is_taken_off(messages: Seq<Message>, q: Seq<char>)
    requires
        messages.len() > 0,
        leading_text(messages[0].content@) == Some(SEARCH_PREFIX@ + q),
        q.len() > 0,
    ensures
        search_query(messages) == Some(q),
{
    let t = SEARCH_PREFIX@ + q;
    assert(t.take(SEARCH_PREFIX@.len() as int) == SEARCH_PREFIX@);
    assert(t.skip(SEARCH_PREFIX@.len() as int) == q);
}

/// Where the last message is the user's and reads [`SEARCH_PREFIX`] and then a `q` that says
/// something, the intent is `q` without the white space behind it.
pub proof fn law_prefix_of_the_last_message(messages: Seq<Message>, q: Seq<char>)
    requires
        messages.len() > 0,
        messages.last().role@ == "user"@,
        any_text(messages.last().content@) == Some(SEARCH_PREFIX@ + q),
        trimmed(q).len() > 0,
    ensures
        search_intent(messages) == Some(trim_back(q, |c: char| is_white_space(c))),
{
    let p = |c: char| is_white_space(c);
    let t = SEARCH_PREFIX@ + q;
    reveal_strlit("Perform a web search for the query: ");
    lemma_trim_back_append(SEARCH_PREFIX@, q);
    assert(trimmed(t) == SEARCH_PREFIX@ + trim_back(q, p)) by {
        assert(t[0] == 'P');
    }
    let kept = trimmed(t);
    assert(kept.take(SEARCH_PREFIX@.len() as int) == SEARCH_PREFIX@);
    assert(kept.skip(SEARCH_PREFIX@.len() as int) == trim_back(q, p));
}

/// The last message of the user that says something decides, whatever stood before it; messages
/// behind it that are not the user's, or say nothing, change nothing.
pub proof fn law_last_user_message_decides(messages: Seq<Message>, next: Message)
    ensures
        user_text(next) matches Some(t) ==> search_intent(messages.push(next)) == Some(
            without_prefix(t, SEARCH_PREFIX@),
        ),
        user_text(next) is None ==> last_user_text(messages.push(next)) == last_user_text(messages),
{
    assert(messages.push(next).drop_last() == messages);
    assert(messages.push(next).last() == next);
}

/// Whether the JSON value is an object whose `type` is `text` and whose `text` is the string `s`.
pub open spec fn is_text_block(block: JsonView, s: Seq<char>) -> bool {
    &&& block is Object
    &&& block->Object_0.contains_key("type"@)
    &&& block->Object_0["type"@] == JsonView::Str("text"@)
    &&& block->Object_0.contains_key("text"@)
    &&& block->Object_0["text"@] == JsonView::Str(s)
}

/// Whether the JSON content of a message says `s`: it is the string, or an array of which the
/// first text block has it as its text.
pub open spec fn content_says(content: JsonView, s: Seq<char>) -> bool {
    ||| content == JsonView::Str(s)
    ||| content is Array && exists|i: int|
        0 <= i < content->Array_0.len() && is_text_block(#[trigger] content->Array_0[i], s) && (
        forall|j: int, t: Seq<char>|
            0 <= j < i ==> !#[trigger] is_text_block(content->Array_0[j], t))
}

/// The text of the first text block is found, however many blocks stand before it.
proof fn lemma_first_block(blocks: Seq<JsonView>, i: int, s: Seq<char>)
    requires
        0 <= i < blocks.len(),
        is_text_block(blocks[i], s),
        forall|j: int, t: Seq<char>| 0 <= j < i ==> !#[trigger] is_text_block(blocks[j], t),
    ensures
        first_block_text(blocks) == Some(s),
    decreases i,
{
    if i > 0 {
        if let Some(t) = block_text(blocks[0]) {
            assert(is_text_block(blocks[0], t));
        }
        let rest = blocks.drop_first();
        assert(rest[i - 1] == blocks[i]);
        assert forall|j: int, t: Seq<char>| 0 <= j < i - 1 implies !#[trigger] is_text_block(
            rest[j],
            t,
        ) by {
            assert(!is_text_block(blocks[j + 1], t));
        }
        lemma_first_block(rest, i - 1, s);
    }
}

/// Where a text of a block is found, some block is the first one that has a text.
proof fn lemma_found_block(blocks: Seq<JsonView>) -> (i: int)
    requires
        first_block_text(blocks) is Some,
    ensures
        0 <= i < blocks.len(),
        is_text_block(blocks[i], first_block_text(blocks)->0),
        forall|j: int, t: Seq<char>| 0 <= j < i ==> !#[trigger] is_text_block(blocks[j], t),
    decreases blocks.len(),
{
    if block_text(blocks[0]) is Some {
        0
    } else {
        let rest = blocks.drop_first();
        let i = lemma_found_block(rest);
        assert forall|j: int, t: Seq<char>| 0 <= j < i + 1 implies !#[trigger] is_text_block(
            blocks[j],
            t,
        ) by {
            if j > 0 {
                assert(!is_text_block(rest[j - 1], t));
            }
        }
        i + 1
    }
}

/// What the content says is what is taken of it, whole.
proof fn lemma_content_says(content: JsonView, s: Seq<char>)
    ensures
        content_says(content, s) <==> any_text(content) == Some(s),
{
    if content_says(content, s) && content is Array {
        let i = choose|i: int|
            0 <= i < content->Array_0.len() && is_text_block(#[trigger] content->Array_0[i], s) && (
            forall|j: int, t: Seq<char>|
                0 <= j < i ==> !#[trigger] is_text_block(content->Array_0[j], t));
        lemma_first_block(content->Array_0, i, s);
    }
    if any_text(content) == Some(s) && content is Array {
        let i = lemma_found_block(content->Array_0);
        assert(is_text_block(content->Array_0[i], s));
    }
}

/// Where the last message is the user's and says something, the intent is all that it says: only
/// the white space around it and the prefix of clients are taken off.
pub proof fn law_intent_is_all_that_the_user_says(messages: Seq<Message>, s: Seq<char>)
    requires
        messages.len() > 0,
        messages.last().role@ == "user"@,
        content_says(messages.last().content@, s),
        trimmed(s).len() > 0,
    ensures
        search_intent(messages) == Some(without_prefix(trimmed(s), SEARCH_PREFIX@)),
{
    lemma_content_says(messages.last().content@, s);
}

/// The same for a message whose content is a string.
pub proof fn law_intent_is_the_whole_string(
    messages: Seq<Message>,
    lead: Seq<char>,
    s: Seq<char>,
    trail: Seq<char>,
)
    requires
        messages.len() > 0,
        messages.last().role@ == "user"@,
        messages.last().content@ == JsonView::Str(lead + s + trail),
        forall|i: int| 0 <= i < lead.len() ==> is_white_space(#[trigger] lead[i]),
        forall|i: int| 0 <= i < trail.len() ==> is_white_space(#[trigger] trail[i]),
        s.len() > 0,
        !is_white_space(s[0]),
        !is_white_space(s.last()),
        forall|q: Seq<char>| s != #[trigger] (SEARCH_PREFIX@ + q),
    ensures
        search_intent(messages) == Some(s),
{
    law_trimming_keeps_the_text(lead, s, trail);
    law_prefix_is_taken_off_once(s, SEARCH_PREFIX@, seq![]);
    law_intent_is_all_that_the_user_says(messages, lead + s + trail);
}

/// A last message that is not the user's, or in which nothing but white space is said, is passed
/// over; where all are, the first message gives the intent.
pub proof fn law_messages_that_say_nothing_are_passed_over(messages: Seq<Message>, next: Message)
    requires
        next.role@ != "user"@ || forall|s: Seq<char>| #[trigger]
            content_says(next.content@, s) ==> trimmed(s).len() == 0,
    ensures
        last_user_text(messages.push(next)) == last_user_text(messages),
        last_user_text(Seq::<Message>::empty()) is None,
        last_user_text(messages) is None ==> search_intent(messages) == search_query(messages),
        last_user_text(messages) is Some ==> search_intent(messages) == last_user_text(messages),
{
    assert(messages.push(next).drop_last() =~= messages);
    assert(messages.push(next).last() == next);
    if let Some(t) = any_text(next.content@) {
        lemma_content_says(next.content@, t);
    }
}

/// The query of the first message is all of its text behind the prefix of clients: the text of a
/// string, or of a first block that is a text block.
pub proof fn law_query_is_all_of_the_first_message(messages: Seq<Message>, s: Seq<char>)
    requires
        messages.len() > 0,
        messages[0].content@ == JsonView::Str(s) || (messages[0].content@ is Array
            && messages[0].content@->Array_0.len() > 0 && is_text_block(
            messages[0].content@->Array_0[0],
            s,
        )),
    ensures
        without_prefix(s, SEARCH_PREFIX@).len() > 0 ==> search_query(messages) == Some(
            without_prefix(s, SEARCH_PREFIX@),
        ),
        without_prefix(s, SEARCH_PREFIX@).len() == 0 ==> search_query(messages) is None,
{
}

/// A first message that is neither a string nor begins with a text block holds no query.
pub proof fn law_no_text_no_query(messages: Seq<Message>)
    requires
        messages.len() == 0 || (!(messages[0].content@ is Str) && (messages[0].content@ is Array
            ==> messages[0].content@->Array_0.len() == 0 || forall|s: Seq<char>| #[trigger]
            is_text_block(messages[0].content@->Array_0[0], s) ==> false)),
    ensures
        search_query(messages) is None,
{
    if messages.len() > 0 && messages[0].content@ is Array && messages[0].content@->Array_0.len()
        > 0 {
        let block = messages[0].content@->Array_0[0];
        if let Some(t) = block_text(block) {
            assert(is_text_block(block, t));
        }
    }
}

} // verus!
