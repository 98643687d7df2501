//! Search results as plain text: for the user, and for the model that is to answer from them.
use vstd::prelude::*;

use crate::text::{
    append_decimal, at_most, chars_of, decimal, is_white_space, lemma_trimmed_empty, occurs_in,
    text_of, trimmed,
};
use crate::websearch::mcp::{WebSearchResult, WebSearchResults};

verus! {

/// How many characters of a snippet a summary shows.
pub const SUMMARY_SNIPPET: usize = 200;

/// How many characters of a snippet the model is given.
pub const CONTEXT_SNIPPET: usize = 500;

/// What stands at the end of every summary.
pub const SUMMARY_NOTE: &'static str =
    "\nPlease note that these are web search results and may not be fully accurate or up-to-date.";

/// A snippet as a summary shows it: a long one is cut, and three dots say so.
pub open spec fn shortened(snippet: Seq<char>) -> Seq<char> {
    if snippet.len() > SUMMARY_SNIPPET {
        snippet.take(SUMMARY_SNIPPET as int) + "..."@
    } else {
        snippet
    }
}

/// The `n`-th page of a summary.
pub open spec fn summary_entry(n: nat, result: WebSearchResult) -> Seq<char> {
    decimal(n) + ". **"@ + result.title@ + "**\n"@ + (match result.snippet {
        Some(snippet) => "   "@ + shortened(snippet@) + "\n"@,
        None => seq![],
    }) + "   Source: "@ + result.url@ + "\n\n"@
}

/// All pages of a summary, counted from one.
pub open spec fn summary_entries(results: Seq<WebSearchResult>) -> Seq<char>
    decreases results.len(),
{
    if results.len() == 0 {
        seq![]
    } else {
        summary_entries(results.drop_last()) + summary_entry(results.len(), results.last())
    }
}

/// The summary of what a search for `query` found.
pub open spec fn search_summary(query: Seq<char>, results: Option<WebSearchResults>) -> Seq<char> {
    "Here are the search results for \""@ + query + "\":\n\n"@ + (match results {
        Some(results) => summary_entries(results.results@),
        None => "No results found.\n"@,
    }) + SUMMARY_NOTE@
}

/// The `n`-th page as the model is given it.
pub open spec fn context_entry(n: nat, result: WebSearchResult) -> Seq<char> {
    "["@ + decimal(n) + "] "@ + result.title@ + "\n"@ + result.url@ + "\n"@ + (
    match result.snippet {
        Some(snippet) => at_most(snippet@, CONTEXT_SNIPPET as nat) + "\n"@,
        None => seq![],
    }) + "\n"@
}

/// All pages as the model is given them, counted from one.
pub open spec fn context_entries(results: Seq<WebSearchResult>) -> Seq<char>
    decreases results.len(),
{
    if results.len() == 0 {
        seq![]
    } else {
        context_entries(results.drop_last()) + context_entry(results.len(), results.last())
    }
}

/// What the model is given of the search.
pub open spec fn search_context(results: Option<WebSearchResults>) -> Seq<char> {
    match results {
        Some(results) => context_entries(results.results@),
        None => seq![],
    }
}

/// Appends [`shortened`].
fn append_shortened(out: &mut String, snippet: &str)
    ensures
        final(out)@ == old(out)@ + shortened(snippet@),
{
    let chars = chars_of(snippet);
    if chars.len() > SUMMARY_SNIPPET {
        let head = text_of(&chars, 0, SUMMARY_SNIPPET);
        assert(head@ == snippet@.take(SUMMARY_SNIPPET as int));
        out.append(head.as_str());
        out.append("...");
    } else {
        out.append(snippet);
    }
}

/// Appends [`summary_entry`].
fn append_summary_entry(out: &mut String, n: usize, result: &WebSearchResult)
    ensures
        final(out)@ == old(out)@ + summary_entry(n as nat, *result),
{
    let ghost before = out@;
    append_decimal(out, n as u64);
    out.append(". **");
    out.append(result.title.as_str());
    out.append("**\n");
    if let Some(snippet) = &result.snippet {
        out.append("   ");
        append_shortened(out, snippet.as_str());
        out.append("\n");
    }
    out.append("   Source: ");
    out.append(result.url.as_str());
    out.append("\n\n");
    assert(out@ =~= before + summary_entry(n as nat, *result));
}

/// The summary of what a search for `query` found.
pub fn generate_search_summary(query: &str, results: &Option<WebSearchResults>) -> (r: String)
    ensures
        r@ == search_summary(query@, *results),
{
    let mut out = "Here are the search results for \"".to_owned();
    out.append(query);
    out.append("\":\n\n");
    match results {
        Some(found) => {
            let ghost head = out@;
            let n: usize = found.results.len();
            let mut i: usize = 0;
            while i < n
                invariant
                    n == found.results@.len(),
                    i <= n,
                    out@ == head + summary_entries(found.results@.take(i as int)),
                decreases n - i,
            {
                append_summary_entry(&mut out, i + 1, &found.results[i]);
                assert(found.results@.take(i + 1).drop_last() == found.results@.take(i as int));
                assert(found.results@.take(i + 1).last() == found.results@[i as int]);
                i = i + 1;
                assert(out@ =~= head + summary_entries(found.results@.take(i as int)));
            }
            assert(found.results@.take(n as int) == found.results@);
        },
        None => {
            out.append("No results found.\n");
        },
    }
    out.append(SUMMARY_NOTE);
    assert(out@ =~= search_summary(query@, *results));
    out
}

/// Appends [`context_entry`].
fn append_context_entry(out: &mut String, n: usize, result: &WebSearchResult)
    ensures
        final(out)@ == old(out)@ + context_entry(n as nat, *result),
{
    let ghost before = out@;
    out.append("[");
    append_decimal(out, n as u64);
    out.append("] ");
    out.append(result.title.as_str());
    out.append("\n");
    out.append(result.url.as_str());
    out.append("\n");
    if let Some(snippet) = &result.snippet {
        let chars = chars_of(snippet.as_str());
        let end: usize = if chars.len() > CONTEXT_SNIPPET {
            CONTEXT_SNIPPET
        } else {
            chars.len()
        };
        let head = text_of(&chars, 0, end);
        assert(head@ =~= at_most(snippet@, CONTEXT_SNIPPET as nat));
        out.append(head.as_str());
        out.append("\n");
    }
    out.append("\n");
    assert(out@ =~= before + context_entry(n as nat, *result));
}

/// What the model is given of the search.
pub fn answer_context(results: &Option<WebSearchResults>) -> (r: String)
    ensures
        r@ == search_context(*results),
{
    let mut out = String::new();
    if let Some(found) = results {
        let n: usize = found.results.len();
        let mut i: usize = 0;
        while i < n
            invariant
                n == found.results@.len(),
                i <= n,
                out@ == context_entries(found.results@.take(i as int)),
            decreases n - i,
        {
            append_context_entry(&mut out, i + 1, &found.results[i]);
            assert(found.results@.take(i + 1).drop_last() == found.results@.take(i as int));
            assert(found.results@.take(i + 1).last() == found.results@[i as int]);
            i = i + 1;
        }
        assert(found.results@.take(n as int) == found.results@);
    }
    out
}

/// The model is given something just where the search found a page.
pub proof fn law_context_is_blank_without_pages(results: Option<WebSearchResults>)
    ensures
        trimmed(search_context(results)).len() == 0 <==> (results is None
            || results->0.results@.len() == 0),
{
    let context = search_context(results);
    lemma_trimmed_empty(context);
    if let Some(found) = results {
        if found.results@.len() > 0 {
            let pages = found.results@;
            let head = context_entries(pages.drop_last());
            let entry = context_entry(pages.len(), pages.last());
            reveal_strlit("[");
            assert(entry[0] == '[');
            assert(context[head.len() as int] == '[');
            assert(!is_white_space('['));
        }
    }
}

/// A summary says something, whatever was found.
pub proof fn law_summary_is_not_blank(query: Seq<char>, results: Option<WebSearchResults>)
    ensures
        trimmed(search_summary(query, results)).len() > 0,
{
    let summary = search_summary(query, results);
    lemma_trimmed_empty(summary);
    reveal_strlit("Here are the search results for \"");
    assert(summary[0] == 'H');
    assert(!is_white_space('H'));
}

/// `whole` holds every piece that a part of it holds.
proof fn lemma_occurs_in_part(k: Seq<char>, before: Seq<char>, part: Seq<char>, behind: Seq<char>)
    requires
        occurs_in(k, part),
    ensures
        occurs_in(k, before + part + behind),
{
    let at = choose|at: int|
        0 <= at && at + k.len() <= part.len() && #[trigger] part.subrange(at, at + k.len()) == k;
    let whole = before + part + behind;
    assert(whole.subrange(before.len() + at, before.len() + at + k.len()) =~= k);
}

/// A text holds itself, with anything around it.
proof fn lemma_occurs(before: Seq<char>, k: Seq<char>, behind: Seq<char>)
    ensures
        occurs_in(k, before + k + behind),
{
    let whole = before + k + behind;
    let at = before.len() as int;
    assert(whole.subrange(at, at + k.len()) =~= k);
}

/// The pages of a summary hold the entry of each page.
proof fn lemma_entry_occurs(results: Seq<WebSearchResult>, i: int)
    requires
        0 <= i < results.len(),
    ensures
        occurs_in(summary_entry((i + 1) as nat, results[i]), summary_entries(results)),
    decreases results.len(),
{
    let entry = summary_entry((i + 1) as nat, results[i]);
    let head = summary_entries(results.drop_last());
    if i == results.len() - 1 {
        lemma_occurs(head, entry, seq![]);
        assert(head + entry + seq![] =~= summary_entries(results));
    } else {
        lemma_entry_occurs(results.drop_last(), i);
        let last = summary_entry(results.len(), results.last());
        lemma_occurs_in_part(entry, seq![], head, last);
        assert(seq![] + head + last =~= summary_entries(results));
    }
}

/// What stands in an entry stands in what holds the entry.
proof fn lemma_within(
    before: Seq<char>,
    k: Seq<char>,
    behind: Seq<char>,
    entry: Seq<char>,
    entries: Seq<char>,
)
    requires
        before + k + behind =~= entry,
        occurs_in(entry, entries),
    ensures
        occurs_in(k, entries),
{
    let at = choose|at: int|
        0 <= at && at + entry.len() <= entries.len() && #[trigger] entries.subrange(
            at,
            at + entry.len(),
        ) == entry;
    let inside = before.len() as int;
    let from = at + inside;
    assert(entries.subrange(from, from + k.len()) =~= entry.subrange(inside, inside + k.len()));
    assert(entry.subrange(inside, inside + k.len()) =~= k);
}

/// A summary names the query, and of each page found the number, the title, the address and the
/// snippet, of which a long one is cut.
pub proof fn law_summary_names_every_page(query: Seq<char>, found: WebSearchResults, i: int)
    requires
        0 <= i < found.results@.len(),
    ensures
        ({
            let summary = search_summary(query, Some(found));
            let page = found.results@[i];
            &&& occurs_in(query, summary)
            &&& occurs_in(decimal((i + 1) as nat) + ". **"@ + page.title@ + "**\n"@, summary)
            &&& occurs_in(page.url@, summary)
            &&& page.snippet matches Some(snippet) ==> occurs_in(shortened(snippet@), summary)
        }),
{
    let summary = search_summary(query, Some(found));
    let page = found.results@[i];
    let entries = summary_entries(found.results@);
    let entry = summary_entry((i + 1) as nat, page);
    let front = "Here are the search results for \""@;
    lemma_occurs(front, query, "\":\n\n"@ + entries + SUMMARY_NOTE@);
    assert(front + query + ("\":\n\n"@ + entries + SUMMARY_NOTE@) =~= summary);
    lemma_entry_occurs(found.results@, i);
    lemma_occurs_in_part(entry, front + query + "\":\n\n"@, entries, SUMMARY_NOTE@);
    let shown = match page.snippet {
        Some(snippet) => "   "@ + shortened(snippet@) + "\n"@,
        None => seq![],
    };
    let line = decimal((i + 1) as nat) + ". **"@ + page.title@ + "**\n"@;
    let source = "   Source: "@ + page.url@ + "\n\n"@;
    lemma_within(seq![], line, shown + source, entry, summary);
    lemma_within(line + shown + "   Source: "@, page.url@, "\n\n"@, entry, summary);
    if let Some(snippet) = page.snippet {
        lemma_within(line + "   "@, shortened(snippet@), "\n"@ + source, entry, summary);
    }
}

/// What the model is given holds the entry of each page.
proof fn lemma_context_entry_occurs(results: Seq<WebSearchResult>, i: int)
    requires
        0 <= i < results.len(),
    ensures
        occurs_in(context_entry((i + 1) as nat, results[i]), context_entries(results)),
    decreases results.len(),
{
    let entry = context_entry((i + 1) as nat, results[i]);
    let head = context_entries(results.drop_last());
    if i == results.len() - 1 {
        lemma_occurs(head, entry, seq![]);
        assert(head + entry + seq![] =~= context_entries(results));
    } else {
        lemma_context_entry_occurs(results.drop_last(), i);
        let last = context_entry(results.len(), results.last());
        lemma_occurs_in_part(entry, seq![], head, last);
        assert(seq![] + head + last =~= context_entries(results));
    }
}

/// The model is given, of each page found, the number, the title and the address, and the
/// snippet, of which a long one is cut.
pub proof fn law_context_names_every_page(found: WebSearchResults, i: int)
    requires
        0 <= i < found.results@.len(),
    ensures
        ({
            let context = search_context(Some(found));
            let page = found.results@[i];
            &&& occurs_in(
                "["@ + decimal((i + 1) as nat) + "] "@ + page.title@ + "\n"@ + page.url@ + "\n"@,
                context,
            )
            &&& page.snippet matches Some(snippet) ==> occurs_in(
                at_most(snippet@, CONTEXT_SNIPPET as nat),
                context,
            )
        }),
{
    let context = search_context(Some(found));
    let page = found.results@[i];
    let entry = context_entry((i + 1) as nat, page);
    lemma_context_entry_occurs(found.results@, i);
    let shown = match page.snippet {
        Some(snippet) => at_most(snippet@, CONTEXT_SNIPPET as nat) + "\n"@,
        None => seq![],
    };
    let line = "["@ + decimal((i + 1) as nat) + "] "@ + page.title@ + "\n"@ + page.url@ + "\n"@;
    lemma_within(seq![], line, shown + "\n"@, entry, context);
    if let Some(snippet) = page.snippet {
        let piece = at_most(snippet@, CONTEXT_SNIPPET as nat);
        lemma_within(line, piece, "\n"@ + "\n"@, entry, context);
    }
}

/// A snippet of up to 200 characters is shown whole, with all its lines; of a longer one the first
/// 200 characters, and three dots.
pub proof fn law_snippets_are_shown_from_the_front(snippet: Seq<char>)
    ensures
        snippet.len() <= 200 ==> shortened(snippet) == snippet,
        snippet.len() > 200 ==> shortened(snippet).len() == 203 && shortened(snippet).skip(200)
            == seq!['.', '.', '.'],
        forall|i: int|
            0 <= i < snippet.len() && i < 200 ==> #[trigger] shortened(snippet)[i] == snippet[i],
{
    reveal_strlit("...");
    if snippet.len() > 200 {
        assert(shortened(snippet).skip(200) =~= seq!['.', '.', '.']);
    }
}

/// A summary is made of its pages one after the other, each under its number, and of nothing else
/// but the words around them.
pub proof fn law_summary_grows_page_by_page(
    query: Seq<char>,
    results: Seq<WebSearchResult>,
    page: WebSearchResult,
    found: WebSearchResults,
)
    ensures
        summary_entries(Seq::<WebSearchResult>::empty()) == Seq::<char>::empty(),
        page.snippet matches Some(snippet) ==> summary_entries(results.push(page))
            == summary_entries(results) + decimal(results.len() + 1) + ". **"@ + page.title@
            + "**\n   "@ + shortened(snippet@) + "\n   Source: "@ + page.url@ + "\n\n"@,
        page.snippet is None ==> summary_entries(results.push(page)) == summary_entries(results)
            + decimal(results.len() + 1) + ". **"@ + page.title@ + "**\n   Source: "@ + page.url@
            + "\n\n"@,
        search_summary(query, Some(found)) == "Here are the search results for \""@ + query
            + "\":\n\n"@ + summary_entries(found.results@) + SUMMARY_NOTE@,
        search_summary(query, None) == "Here are the search results for \""@ + query
            + "\":\n\nNo results found.\n"@ + SUMMARY_NOTE@,
{
    let all = results.push(page);
    assert(all.drop_last() =~= results);
    reveal_strlit("**\n");
    reveal_strlit("   ");
    reveal_strlit("**\n   ");
    reveal_strlit("\n");
    reveal_strlit("   Source: ");
    reveal_strlit("\n   Source: ");
    reveal_strlit("**\n   Source: ");
    reveal_strlit("\":\n\n");
    reveal_strlit("No results found.\n");
    reveal_strlit("\":\n\nNo results found.\n");
    assert("**\n   "@ =~= "**\n"@ + "   "@);
    assert("\n   Source: "@ =~= "\n"@ + "   Source: "@);
    assert("**\n   Source: "@ =~= "**\n"@ + "   Source: "@);
    assert("\":\n\nNo results found.\n"@ =~= "\":\n\n"@ + "No results found.\n"@);
    let head = summary_entries(results);
    match page.snippet {
        Some(snippet) => {
            assert(summary_entries(all) =~= head + decimal(results.len() + 1) + ". **"@
                + page.title@ + "**\n   "@ + shortened(snippet@) + "\n   Source: "@ + page.url@
                + "\n\n"@);
        },
        None => {
            assert(summary_entries(all) =~= head + decimal(results.len() + 1) + ". **"@
                + page.title@ + "**\n   Source: "@ + page.url@ + "\n\n"@);
        },
    }
    assert(search_summary(query, None) =~= "Here are the search results for \""@ + query
        + "\":\n\nNo results found.\n"@ + SUMMARY_NOTE@);
}

/// What the model is given is made of the pages one after the other, each under its number, and of
/// nothing else; of a snippet it is given the first 500 characters.
pub proof fn law_context_grows_page_by_page(
    results: Seq<WebSearchResult>,
    page: WebSearchResult,
    found: WebSearchResults,
)
    ensures
        context_entries(Seq::<WebSearchResult>::empty()) == Seq::<char>::empty(),
        page.snippet matches Some(snippet) ==> context_entries(results.push(page))
            == context_entries(results) + "["@ + decimal(results.len() + 1) + "] "@ + page.title@
            + "\n"@ + page.url@ + "\n"@ + at_most(snippet@, 500) + "\n\n"@,
        page.snippet is None ==> context_entries(results.push(page)) == context_entries(results)
            + "["@ + decimal(results.len() + 1) + "] "@ + page.title@ + "\n"@ + page.url@
            + "\n\n"@,
        search_context(Some(found)) == context_entries(found.results@),
        search_context(None) == Seq::<char>::empty(),
{
    let all = results.push(page);
    assert(all.drop_last() =~= results);
    reveal_strlit("\n");
    reveal_strlit("\n\n");
    assert("\n\n"@ =~= "\n"@ + "\n"@);
    let head = context_entries(results);
    match page.snippet {
        Some(snippet) => {
            assert(context_entries(all) =~= head + "["@ + decimal(results.len() + 1) + "] "@
                + page.title@ + "\n"@ + page.url@ + "\n"@ + at_most(snippet@, 500) + "\n\n"@);
        },
        None => {
            assert(context_entries(all) =~= head + "["@ + decimal(results.len() + 1) + "] "@
                + page.title@ + "\n"@ + page.url@ + "\n\n"@);
        },
    }
}

} // verus!
