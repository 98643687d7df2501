//! Search results as content of a reply.
use vstd::prelude::*;
use vstd::utf8::{decode_utf8, encode_utf8, encode_utf8_decode_utf8};

use crate::clock::millis_in_range;
use crate::json::{views, Json, JsonObject, JsonView};
use crate::text::option_view;
use crate::websearch::base64::{
    base64, base64_bytes, base64_encode, law_base64_can_be_read_back,
};
use crate::websearch::mcp::{WebSearchResult, WebSearchResults};
use crate::websearch::page_age::{relative_page_age, some_page_age};

verus! {

/// The snippet of a page; empty where it has none.
pub open spec fn snippet_of(result: WebSearchResult) -> Seq<char> {
    match result.snippet {
        Some(snippet) => snippet@,
        None => seq![],
    }
}

/// A page of which `page_age` is said, as the content of a reply shows it. Its snippet is given
/// in Base64.
pub open spec fn result_block(result: WebSearchResult, page_age: Option<Seq<char>>) -> JsonView {
    JsonView::Object(
        Map::empty().insert("type"@, JsonView::Str("web_search_result"@)).insert(
            "title"@,
            JsonView::Str(result.title@),
        ).insert("url"@, JsonView::Str(result.url@)).insert(
            "encrypted_content"@,
            JsonView::Str(base64(encode_utf8(snippet_of(result)))),
        ).insert(
            "page_age"@,
            match page_age {
                Some(age) => JsonView::Str(age),
                None => JsonView::Null,
            },
        ),
    )
}

/// Whether `age` may be said of the age of the page: nothing where the date of its publication is
/// not known; else what is said of that date at some instant.
pub open spec fn may_be_age(result: WebSearchResult, age: Option<Seq<char>>) -> bool {
    match result.published_date {
        Some(ms) => some_page_age(ms as int, age),
        None => age is None,
    }
}

/// Whether `block` shows the page, with some age that may be said of it.
pub open spec fn shows_result(block: JsonView, result: WebSearchResult) -> bool {
    exists|age: Option<Seq<char>>|
        may_be_age(result, age) && block == #[trigger] result_block(result, age)
}

/// Whether `content` shows the pages found, one after the other.
pub open spec fn shows_results(content: Seq<JsonView>, results: Option<WebSearchResults>) -> bool {
    match results {
        Some(found) => content.len() == found.results@.len() && forall|i: int|
            0 <= i < content.len() ==> shows_result(#[trigger] content[i], found.results@[i]),
        None => content.len() == 0,
    }
}

/// Computes [`result_block`].
pub fn search_result_block(result: &WebSearchResult, page_age: Option<String>) -> (r: Json)
    ensures
        r@ == result_block(*result, option_view(page_age)),
{
    let encrypted = match &result.snippet {
        Some(snippet) => base64_encode(snippet.as_str().as_bytes()),
        None => base64_encode("".as_bytes()),
    };
    proof {
        reveal_strlit("");
        assert(""@ =~= Seq::<char>::empty());
    }
    let age = match page_age {
        Some(age) => Json::Str(age),
        None => Json::Null,
    };
    Json::Object(
        JsonObject::new().with("type", Json::text("web_search_result")).with(
            "title",
            Json::text(result.title.as_str()),
        ).with("url", Json::text(result.url.as_str())).with(
            "encrypted_content",
            Json::Str(encrypted),
        ).with("page_age", age),
    )
}

/// The pages found as the content of a reply shows them now, whether it is streamed or not.
pub fn build_search_result_content(search_results: &Option<WebSearchResults>) -> (r: Vec<Json>)
    ensures
        shows_results(views(r@), *search_results),
{
    let mut out: Vec<Json> = Vec::new();
    if let Some(found) = search_results {
        let mut i: usize = 0;
        while i < found.results.len()
            invariant
                i <= found.results@.len(),
                out@.len() == i,
                forall|j: int|
                    0 <= j < i ==> shows_result(#[trigger] out@[j]@, found.results@[j]),
            decreases found.results@.len() - i,
        {
            let result = &found.results[i];
            let age = match result.published_date {
                Some(ms) => relative_page_age(ms),
                None => None,
            };
            let ghost said = option_view(age);
            let block = search_result_block(result, age);
            assert(block@ == result_block(found.results@[i as int], said));
            out.push(block);
            i = i + 1;
        }
    }
    out
}

/// The snippet of a page can be read back from what the content of a reply shows of it.
pub proof fn law_snippet_can_be_read_back(result: WebSearchResult, age: Option<Seq<char>>)
    ensures
        result_block(result, age).get("encrypted_content"@) matches Some(JsonView::Str(text))
            && decode_utf8(base64_bytes(text)) == snippet_of(result),
{
    reveal_strlit("encrypted_content");
    reveal_strlit("page_age");
    assert("encrypted_content"@.len() != "page_age"@.len());
    law_base64_can_be_read_back(encode_utf8(snippet_of(result)));
    encode_utf8_decode_utf8(snippet_of(result));
}

/// Whether `block` is a JSON object that gives the title, the address and the snippet of the page,
/// the snippet in a form from which it can be read back.
pub open spec fn tells_of(block: JsonView, page: WebSearchResult) -> bool {
    &&& block.get("type"@) == Some(JsonView::Str("web_search_result"@))
    &&& block.get("title"@) == Some(JsonView::Str(page.title@))
    &&& block.get("url"@) == Some(JsonView::Str(page.url@))
    &&& block.get("encrypted_content"@) matches Some(JsonView::Str(text))
    &&& text == base64(encode_utf8(if page.snippet is Some { page.snippet->0@ } else { seq![] }))
    &&& decode_utf8(base64_bytes(text)) == if page.snippet is Some {
        page.snippet->0@
    } else {
        seq![]
    }
}

/// The block of a page tells of it; its `page_age` is what is said of its age, or `null`; and it
/// holds nothing else.
pub proof fn law_block_tells_of_its_page(
    page: WebSearchResult,
    age: Option<Seq<char>>,
    k: Seq<char>,
)
    ensures
        tells_of(result_block(page, age), page),
        age matches Some(said) ==> result_block(page, age).get("page_age"@) == Some(
            JsonView::Str(said),
        ),
        age is None ==> result_block(page, age).get("page_age"@) == Some(JsonView::Null),
        result_block(page, age).get(k) is Some <==> (k == "type"@ || k == "title"@ || k == "url"@
            || k == "encrypted_content"@ || k == "page_age"@),
{
    reveal_strlit("type");
    reveal_strlit("title");
    reveal_strlit("url");
    reveal_strlit("encrypted_content");
    reveal_strlit("page_age");
    assert("type"@.len() == 4 && "title"@.len() == 5 && "url"@.len() == 3);
    assert("encrypted_content"@.len() == 17 && "page_age"@.len() == 8);
    law_snippet_can_be_read_back(page, age);
}

/// Whether `block` tells the age of the page: where the date of its publication is known and lies
/// in the calendar, what is said of that date at some instant; else `null`.
pub open spec fn tells_age(block: JsonView, page: WebSearchResult) -> bool {
    if page.published_date is Some && millis_in_range(page.published_date->0 as int) {
        block.get("page_age"@) matches Some(JsonView::Str(said)) && some_page_age(
            page.published_date->0 as int,
            Some(said),
        )
    } else {
        block.get("page_age"@) == Some(JsonView::Null)
    }
}

/// Every page found is shown, in its place: there are as many blocks as pages, and each tells of
/// its page and of its age.
pub proof fn law_every_page_is_shown(content: Seq<JsonView>, results: Option<WebSearchResults>)
    requires
        shows_results(content, results),
    ensures
        results is None ==> content.len() == 0,
        results matches Some(found) ==> content.len() == found.results@.len() && forall|i: int|
            0 <= i < found.results@.len() ==> tells_of(#[trigger] content[i], found.results@[i])
                && tells_age(content[i], found.results@[i]),
{
    if let Some(found) = results {
        assert forall|i: int| 0 <= i < found.results@.len() implies tells_of(
            #[trigger] content[i],
            found.results@[i],
        ) && tells_age(content[i], found.results@[i]) by {
            let page = found.results@[i];
            assert(shows_result(content[i], page));
            let age = choose|age: Option<Seq<char>>|
                may_be_age(page, age) && content[i] == #[trigger] result_block(page, age);
            law_block_tells_of_its_page(page, age, "page_age"@);
        }
    }
}

} // verus!
