//! The course of a web search request: the model writes a query, the query is searched, and the
//! model answers from what was found.
//!
//! The calls themselves are made elsewhere. [`begin`] and [`Course::step`] say which one is next,
//! and what is made of its outcome. A call that fails never ends the course: there is something
//! to go on with in each case.
use vstd::prelude::*;

use crate::json::JsonView;
use crate::text::{is_white_space, option_view, trim, trimmed};
use crate::types::MessagesRequest;
use crate::websearch::mcp::{
    create_mcp_request, law_results_are_the_first_text, results_text, search_results_text,
    searches_for, some_request_id, some_tool_use_id, McpRequest, McpResponse, WebSearchResults,
};
use crate::websearch::prompt::{
    answer_question, answer_request, asks, asks_for_query, choose_answer, choose_query,
    chosen_answer, chosen_query, law_answer_is_not_blank, law_query_is_not_empty,
    law_query_request_tells_the_date, law_question_holds_intent_and_context,
    law_reply_is_the_answer, query_request, ANSWER_PROMPT,
};
use crate::websearch::query::{latest_user_text, law_search_intent_is_not_empty, search_intent};
use crate::websearch::summary::{
    answer_context, context_entries, generate_search_summary, law_context_is_blank_without_pages,
    law_summary_is_not_blank, search_context, search_summary,
};

verus! {

/// Why a request is refused.
#[derive(Debug)]
pub struct Refusal {
    /// The kind of error.
    pub kind: String,
    /// What is wrong with the request.
    pub message: String,
}

/// The kind of a request that cannot be served as it is.
pub const INVALID_REQUEST: &'static str = "invalid_request_error";

/// What is said of a request that does not show what to search for.
pub const NO_INTENT: &'static str = "无法从消息中提取搜索意图";

/// A query under way, with the identifier under which the reply shows it.
#[derive(Debug)]
pub struct Query {
    /// What is searched for.
    pub text: String,
    /// The identifier of the use of the search tool.
    pub tool_use_id: String,
}

/// How far a course has come: which outcome is awaited.
#[derive(Debug)]
pub enum Stage {
    /// The reply of the model with a query.
    Rewriting,
    /// The response of the search service.
    Searching(Query),
    /// The results that the response holds.
    Reading(Query),
    /// The reply of the model with an answer.
    Answering(Query, Option<WebSearchResults>),
    /// Nothing: there is an answer.
    Done,
}

/// The course of a request.
#[derive(Debug)]
pub struct Course {
    /// The model that the request names.
    pub model: String,
    /// What the user wants searched.
    pub intent: String,
    /// How far the course has come.
    pub stage: Stage,
}

/// The outcome of a call.
#[derive(Debug)]
pub enum Outcome {
    /// The reply of the model, where the call succeeded.
    Completed(Option<String>),
    /// The response of the search service, where the call succeeded and reports no error.
    Responded(Option<McpResponse>),
    /// The results that were parsed, where they could be.
    Parsed(Option<WebSearchResults>),
}

/// What a request is answered with.
#[derive(Debug)]
pub struct Answer {
    /// The query that was searched.
    pub query: Query,
    /// What was found.
    pub results: Option<WebSearchResults>,
    /// The answer.
    pub text: String,
}

/// What is to be done next.
#[derive(Debug)]
pub enum Action {
    /// Ask the model.
    Complete(MessagesRequest),
    /// Call the search service.
    Search(McpRequest),
    /// Parse the results of the search.
    Parse(String),
    /// Reply.
    Reply(Answer),
}

impl Course {
    /// Whether the outcome is of the kind that the course awaits.
    pub open spec fn awaits(self, outcome: Outcome) -> bool {
        match self.stage {
            Stage::Rewriting => outcome is Completed,
            Stage::Searching(_) => outcome is Responded,
            Stage::Reading(_) => outcome is Parsed,
            Stage::Answering(_, _) => outcome is Completed,
            Stage::Done => false,
        }
    }
}

/// Whether a request for `model` with this intent begins the course, and the action asks the
/// model for a query.
pub open spec fn begins(
    model: Seq<char>,
    intent: Seq<char>,
    course: Course,
    action: Action,
) -> bool {
    &&& course.model@ == model
    &&& course.intent@ == intent
    &&& course.stage is Rewriting
    &&& action matches Action::Complete(request) && asks_for_query(request, model, intent)
}

/// Whether, once the results are known, the course comes to `stage` with `action`: the model is
/// asked to answer from the pages that were found; where there are none, a summary is the answer.
pub open spec fn goes_on_with(
    model: Seq<char>,
    intent: Seq<char>,
    query: Query,
    results: Option<WebSearchResults>,
    stage: Stage,
    action: Action,
) -> bool {
    if trimmed(search_context(results)).len() == 0 {
        &&& stage is Done
        &&& action matches Action::Reply(answer) && answer.query == query && answer.results
            == results && answer.text@ == search_summary(intent, results)
    } else {
        &&& stage == Stage::Answering(query, results)
        &&& action matches Action::Complete(request) && asks(
            request,
            model,
            ANSWER_PROMPT@,
            answer_question(intent, search_context(results)),
        )
    }
}

/// Whether the outcome takes the course from `before` to `after`, with `action` to be done next.
pub open spec fn steps(before: Course, outcome: Outcome, after: Course, action: Action) -> bool {
    &&& after.model == before.model
    &&& after.intent == before.intent
    &&& match (before.stage, outcome) {
        (Stage::Rewriting, Outcome::Completed(reply)) => {
            &&& after.stage matches Stage::Searching(query)
            &&& query.text@ == chosen_query(before.intent@, option_view(reply))
            &&& some_tool_use_id(query.tool_use_id@)
            &&& action matches Action::Search(request)
            &&& some_request_id(request.id@)
            &&& searches_for(request, request.id@, query.text@)
        },
        (Stage::Searching(query), Outcome::Responded(response)) => {
            let text = match response {
                Some(response) => results_text(response),
                None => None,
            };
            match text {
                Some(text) => {
                    &&& after.stage == Stage::Reading(query)
                    &&& action matches Action::Parse(given) && given@ == text
                },
                None => goes_on_with(
                    before.model@,
                    before.intent@,
                    query,
                    None,
                    after.stage,
                    action,
                ),
            }
        },
        (Stage::Reading(query), Outcome::Parsed(results)) => goes_on_with(
            before.model@,
            before.intent@,
            query,
            results,
            after.stage,
            action,
        ),
        (Stage::Answering(query, results), Outcome::Completed(reply)) => {
            &&& after.stage is Done
            &&& action matches Action::Reply(answer)
            &&& answer.query == query
            &&& answer.results == results
            &&& answer.text@ == chosen_answer(before.intent@, results, option_view(reply))
        },
        _ => false,
    }
}

/// Begins the course of a request, or refuses a request that does not show what to search for.
pub fn begin(payload: &MessagesRequest) -> (r: Result<(Course, Action), Refusal>)
    ensures
        match search_intent(payload.messages@) {
            Some(intent) => r matches Ok((course, action)) && begins(
                payload.model@,
                intent,
                course,
                action,
            ),
            None => r matches Err(refusal) && refusal.kind@ == INVALID_REQUEST@
                && refusal.message@ == NO_INTENT@,
        },
{
    match latest_user_text(payload) {
        Some(intent) => {
            let request = query_request(payload.model.as_str(), intent.as_str());
            let course = Course { model: payload.model.clone(), intent, stage: Stage::Rewriting };
            Ok((course, Action::Complete(request)))
        },
        None => Err(Refusal { kind: INVALID_REQUEST.to_owned(), message: NO_INTENT.to_owned() }),
    }
}

/// Goes on with what was found for the query.
fn with_results(
    model: String,
    intent: String,
    query: Query,
    results: Option<WebSearchResults>,
) -> (r: (Course, Action))
    ensures
        r.0.model == model,
        r.0.intent == intent,
        goes_on_with(model@, intent@, query, results, r.0.stage, r.1),
{
    let context = answer_context(&results);
    if trim(context.as_str()).as_str().is_empty() {
        let text = generate_search_summary(intent.as_str(), &results);
        let stage = Stage::Done;
        (Course { model, intent, stage }, Action::Reply(Answer { query, results, text }))
    } else {
        let request = answer_request(model.as_str(), intent.as_str(), context.as_str());
        let stage = Stage::Answering(query, results);
        (Course { model, intent, stage }, Action::Complete(request))
    }
}

impl Course {
    /// Takes the outcome of the last action, and says what is to be done next. An outcome that is
    /// not awaited leaves the course as it is.
    pub fn step(self, outcome: Outcome) -> (r: Result<(Course, Action), Course>)
        ensures
            self.awaits(outcome) ==> (r matches Ok((course, action)) && steps(
                self,
                outcome,
                course,
                action,
            )),
            !self.awaits(outcome) ==> r == Err::<(Course, Action), Course>(self),
    {
        let Course { model, intent, stage } = self;
        match (stage, outcome) {
            (Stage::Rewriting, Outcome::Completed(reply)) => {
                let text = choose_query(intent.as_str(), &reply);
                let (tool_use_id, request) = create_mcp_request(text.as_str());
                let stage = Stage::Searching(Query { text, tool_use_id });
                Ok((Course { model, intent, stage }, Action::Search(request)))
            },
            (Stage::Searching(query), Outcome::Responded(response)) => {
                let text = match &response {
                    Some(response) => match search_results_text(response) {
                        Some(text) => Some(text.to_owned()),
                        None => None,
                    },
                    None => None,
                };
                match text {
                    Some(text) => {
                        let stage = Stage::Reading(query);
                        Ok((Course { model, intent, stage }, Action::Parse(text)))
                    },
                    None => Ok(with_results(model, intent, query, None)),
                }
            },
            (Stage::Reading(query), Outcome::Parsed(results)) => Ok(
                with_results(model, intent, query, results),
            ),
            (Stage::Answering(query, results), Outcome::Completed(reply)) => {
                let text = choose_answer(intent.as_str(), &results, reply);
                let stage = Stage::Done;
                let answer = Answer { query, results, text };
                Ok((Course { model, intent, stage }, Action::Reply(answer)))
            },
            (stage, _) => Err(Course { model, intent, stage }),
        }
    }
}

/// How many steps there can still be.
pub open spec fn steps_left(stage: Stage) -> nat {
    match stage {
        Stage::Rewriting => 4,
        Stage::Searching(_) => 3,
        Stage::Reading(_) => 2,
        Stage::Answering(_, _) => 1,
        Stage::Done => 0,
    }
}

/// Whether the outcomes, one after the other, take a course through the given states, with the
/// given actions to be done in between.
pub open spec fn runs(
    courses: Seq<Course>,
    outcomes: Seq<Outcome>,
    actions: Seq<Action>,
) -> bool {
    &&& courses.len() == outcomes.len() + 1
    &&& actions.len() == outcomes.len()
    &&& forall|i: int|
        0 <= i < outcomes.len() ==> steps(
            courses[i],
            #[trigger] outcomes[i],
            courses[i + 1],
            actions[i],
        )
}

/// The query that a course has come to, where there is one.
pub open spec fn query_of(stage: Stage) -> Option<Query> {
    match stage {
        Stage::Rewriting => None,
        Stage::Searching(query) => Some(query),
        Stage::Reading(query) => Some(query),
        Stage::Answering(query, _) => Some(query),
        Stage::Done => None,
    }
}

/// Each step brings a course nearer to its end, and it replies just where it ends.
pub proof fn law_steps_make_progress(
    before: Course,
    outcome: Outcome,
    after: Course,
    action: Action,
)
    requires
        steps(before, outcome, after, action),
    ensures
        steps_left(after.stage) < steps_left(before.stage),
        action is Reply <==> after.stage is Done,
        action is Search <==> before.stage is Rewriting,
{
}

/// What a course keeps from its second state on: its intent, and its query until it replies.
proof fn lemma_run(
    courses: Seq<Course>,
    outcomes: Seq<Outcome>,
    actions: Seq<Action>,
    i: int,
)
    requires
        runs(courses, outcomes, actions),
        courses[0].stage is Rewriting,
        0 <= i < outcomes.len(),
    ensures
        steps_left(courses[i].stage) + i <= 4,
        steps_left(courses[i].stage) > 0,
        courses[i].intent == courses[0].intent,
        courses[i].model == courses[0].model,
        i > 0 ==> query_of(courses[i].stage) is Some && query_of(courses[i].stage) == query_of(
            courses[1].stage,
        ),
    decreases i,
{
    if i > 0 {
        lemma_run(courses, outcomes, actions, i - 1);
        assert(steps(courses[i - 1], outcomes[i - 1], courses[i - 1 + 1], actions[i - 1]));
        assert(steps(courses[i], outcomes[i], courses[i + 1], actions[i]));
    } else {
        assert(steps(courses[0], outcomes[0], courses[1], actions[0]));
    }
}

/// A course has at most four steps. It searches once, right after the first one, and it replies
/// at most once, in the end; besides the request that began it, it asks the model at most once.
pub proof fn law_course_is_short(
    courses: Seq<Course>,
    outcomes: Seq<Outcome>,
    actions: Seq<Action>,
)
    requires
        runs(courses, outcomes, actions),
        courses[0].stage is Rewriting,
    ensures
        outcomes.len() <= 4,
        forall|i: int| 0 <= i < actions.len() ==> (#[trigger] actions[i] is Search <==> i == 0),
        forall|i: int|
            0 <= i < actions.len() - 1 ==> !(#[trigger] actions[i] is Reply),
        forall|i: int, j: int|
            0 <= i < j < actions.len() ==> !(#[trigger] actions[i] is Complete
                && #[trigger] actions[j] is Complete),
{
    let n = outcomes.len() as int;
    if n > 0 {
        lemma_run(courses, outcomes, actions, n - 1);
    }
    assert forall|i: int| 0 <= i < actions.len() implies (#[trigger] actions[i] is Search <==> i
        == 0) by {
        lemma_run(courses, outcomes, actions, i);
        assert(steps(courses[i], outcomes[i], courses[i + 1], actions[i]));
    }
    assert forall|i: int| 0 <= i < actions.len() - 1 implies !(#[trigger] actions[i] is Reply) by {
        lemma_run(courses, outcomes, actions, i + 1);
        assert(steps(courses[i], outcomes[i], courses[i + 1], actions[i]));
    }
    assert forall|i: int, j: int| 0 <= i < j < actions.len() implies !(#[trigger] actions[i]
        is Complete && #[trigger] actions[j] is Complete) by {
        if actions[i] is Complete && actions[j] is Complete {
            lemma_run(courses, outcomes, actions, i);
            lemma_run(courses, outcomes, actions, i + 1);
            assert(steps(courses[i], outcomes[i], courses[i + 1], actions[i]));
            assert(courses[i + 1].stage is Answering);
            assert(steps(courses[i + 1], outcomes[i + 1], courses[i + 2], actions[i + 1]));
            if j > i + 1 {
                lemma_run(courses, outcomes, actions, i + 2);
            }
        }
    }
}

/// A course that a request begins ends in a reply that says something: whatever calls fail, the
/// reply shows the query that was searched, which is not empty, and its text is not blank.
pub proof fn law_reply_says_something(
    payload: MessagesRequest,
    first: Action,
    courses: Seq<Course>,
    outcomes: Seq<Outcome>,
    actions: Seq<Action>,
)
    requires
        search_intent(payload.messages@) is Some,
        runs(courses, outcomes, actions),
        begins(payload.model@, search_intent(payload.messages@)->0, courses[0], first),
        courses.last().stage is Done,
    ensures
        actions.len() > 0,
        actions[0] matches Action::Search(request) && actions.last() matches Action::Reply(answer)
            && answer.query.text@ == request.params.arguments.query@ && answer.query.text@.len()
            > 0 && trimmed(answer.text@).len() > 0,
{
    let n = outcomes.len() as int;
    let intent = courses[0].intent@;
    law_search_intent_is_not_empty(payload.messages@);
    lemma_run(courses, outcomes, actions, n - 1);
    lemma_run(courses, outcomes, actions, 0);
    assert(steps(courses[0], outcomes[0], courses[1], actions[0]));
    assert(steps(courses[n - 1], outcomes[n - 1], courses[n], actions[n - 1]));
    law_query_is_not_empty(intent, option_view(outcomes[0]->Completed_0));
    let answer = actions.last()->Reply_0;
    law_summary_is_not_blank(intent, answer.results);
    if let Outcome::Completed(reply) = outcomes[n - 1] {
        law_answer_is_not_blank(intent, answer.results, option_view(reply));
    }
}

/// Where every call fails, what the user said is searched, and the reply says that nothing was
/// found for it.
pub proof fn law_failures_end_in_a_summary(
    begun: Course,
    searching: Course,
    ended: Course,
    search: Action,
    reply: Action,
)
    requires
        begun.stage is Rewriting,
        steps(begun, Outcome::Completed(None), searching, search),
        steps(searching, Outcome::Responded(None), ended, reply),
    ensures
        search matches Action::Search(request) && request.params.arguments.query@ == begun.intent@,
        ended.stage is Done,
        reply matches Action::Reply(answer) && answer.query.text@ == begun.intent@
            && answer.results is None && answer.text@ == search_summary(begun.intent@, None),
{
    law_context_is_blank_without_pages(None);
}

/// Where the search found no page, the model is not asked for an answer: there is a summary.
pub proof fn law_no_pages_no_question(
    before: Course,
    results: Option<WebSearchResults>,
    after: Course,
    action: Action,
)
    requires
        steps(before, Outcome::Parsed(results), after, action),
    ensures
        action is Complete <==> (results matches Some(found) && found.results@.len() > 0),
        action is Reply <==> !(results matches Some(found) && found.results@.len() > 0),
{
    law_context_is_blank_without_pages(results);
}

/// A course begins with the whole intent, and with a request that asks the model of the payload for
/// a query for it.
pub proof fn law_course_begins_with_the_intent(
    model: Seq<char>,
    intent: Seq<char>,
    course: Course,
    action: Action,
)
    requires
        begins(model, intent, course, action),
    ensures
        course.model@ == model,
        course.intent@ == intent,
        course.stage is Rewriting,
        action matches Action::Complete(request) && request.model@ == model
            && request.messages@.len() == 1 && request.messages@[0].content@ == JsonView::Str(
            intent,
        ),
{
    law_query_request_tells_the_date(action->Complete_0, model, intent);
}

/// A course keeps its model and its intent.
pub proof fn law_course_keeps_its_intent(
    before: Course,
    outcome: Outcome,
    after: Course,
    action: Action,
)
    requires
        steps(before, outcome, after, action),
    ensures
        after.model@ == before.model@,
        after.intent@ == before.intent@,
{
}

/// The query that is chosen is the query that is searched, and the one that the reply will show.
pub proof fn law_chosen_query_is_searched(
    before: Course,
    reply: Option<String>,
    after: Course,
    action: Action,
)
    requires
        before.stage is Rewriting,
        steps(before, Outcome::Completed(reply), after, action),
    ensures
        action matches Action::Search(request) && request.params.arguments.query@ == chosen_query(
            before.intent@,
            option_view(reply),
        ) && request.params.name@ == "web_search"@ && request.method@ == "tools/call"@,
        after.stage matches Stage::Searching(query) && query.text@ == chosen_query(
            before.intent@,
            option_view(reply),
        ) && some_tool_use_id(query.tool_use_id@),
{
}

/// The text of a response is parsed, whole; without one the course goes on as with nothing found.
pub proof fn law_response_text_is_parsed(
    before: Course,
    query: Query,
    response: McpResponse,
    after: Course,
    action: Action,
)
    requires
        before.stage == Stage::Searching(query),
        steps(before, Outcome::Responded(Some(response)), after, action),
    ensures
        response.result matches Some(result) && result.content@.len() > 0
            && result.content@[0].content_type@ == "text"@ ==> after.stage == Stage::Reading(query)
            && (action matches Action::Parse(text) && text@
            == response.result->0.content@[0].text@),
        !(response.result matches Some(result) && result.content@.len() > 0
            && result.content@[0].content_type@ == "text"@) ==> after.stage is Done && (
        action matches Action::Reply(answer) && answer.query == query && answer.results is None
            && answer.text@ == search_summary(before.intent@, None)),
{
    law_results_are_the_first_text(response);
    law_context_is_blank_without_pages(None);
}

/// Where pages were found, the model is asked with all that the user said and with all that is
/// given of the pages, and the pages are kept for the reply; where none were, there is a summary.
pub proof fn law_pages_are_asked_about(
    before: Course,
    query: Query,
    results: Option<WebSearchResults>,
    after: Course,
    action: Action,
)
    requires
        before.stage == Stage::Reading(query),
        steps(before, Outcome::Parsed(results), after, action),
    ensures
        results matches Some(found) && found.results@.len() > 0 ==> after.stage
            == Stage::Answering(query, results) && (action matches Action::Complete(request)
            && request.model@ == before.model@ && request.messages@.len() == 1
            && request.messages@[0].content@ == JsonView::Str(
            "用户问题："@ + before.intent@ + "\n\n搜索结果：\n"@ + context_entries(
                results->0.results@,
            ),
        ) && request.system is Some && request.system->0@.len() == 1 && request.system->0@[0].text@
            == ANSWER_PROMPT@),
        !(results matches Some(found) && found.results@.len() > 0) ==> after.stage is Done && (
        action matches Action::Reply(answer) && answer.query == query && answer.results == results
            && answer.text@ == search_summary(before.intent@, results)),
{
    law_context_is_blank_without_pages(results);
    if let Action::Complete(request) = action {
        law_question_holds_intent_and_context(before.intent@, search_context(results));
    }
}

/// A reply of the model that says something is the answer, character for character, with the query
/// and the pages that were found; else a summary of the pages is.
pub proof fn law_model_reply_is_given(
    before: Course,
    query: Query,
    results: Option<WebSearchResults>,
    reply: Option<String>,
    after: Course,
    action: Action,
)
    requires
        before.stage == Stage::Answering(query, results),
        steps(before, Outcome::Completed(reply), after, action),
    ensures
        after.stage is Done,
        action matches Action::Reply(answer) && answer.query == query && answer.results == results,
        reply matches Some(said) && (exists|i: int|
            0 <= i < said@.len() && !is_white_space(#[trigger] said@[i]))
            ==> action->Reply_0.text@ == reply->0@,
        !(reply matches Some(said) && (exists|i: int|
            0 <= i < said@.len() && !is_white_space(#[trigger] said@[i])))
            ==> action->Reply_0.text@ == search_summary(before.intent@, results),
{
    if let Some(said) = reply {
        law_reply_is_the_answer(before.intent@, results, said@);
    }
}

/// A course awaits the outcome of what it asked for, and no other; one that is done awaits none.
pub proof fn law_course_awaits_what_it_asked_for(course: Course, outcome: Outcome)
    ensures
        course.stage is Rewriting || course.stage is Answering ==> (course.awaits(outcome)
            <==> outcome is Completed),
        course.stage is Searching ==> (course.awaits(outcome) <==> outcome is Responded),
        course.stage is Reading ==> (course.awaits(outcome) <==> outcome is Parsed),
        course.stage is Done ==> !course.awaits(outcome),
{
}

/// A search that fails is answered with a summary that says so, and with nothing found.
pub proof fn law_failed_search_ends_in_a_summary(
    before: Course,
    query: Query,
    after: Course,
    action: Action,
)
    requires
        before.stage == Stage::Searching(query),
        steps(before, Outcome::Responded(None), after, action),
    ensures
        after.stage is Done,
        action matches Action::Reply(answer) && answer.query == query && answer.results is None
            && answer.text@ == search_summary(before.intent@, None),
{
    law_context_is_blank_without_pages(None);
}

} // verus!
