//! Endpoints of the upstream service.
//!
//! Endpoints differ in their URLs and in how they shape a request; an endpoint is chosen by the
//! `endpoint` field of the credential in use.
use vstd::prelude::*;

use crate::text::{contains_text, law_occurring_is_standing_between, occurs_in};

verus! {

/// A credential of the upstream service.
#[derive(Debug)]
pub struct KiroCredentials {
    /// The name of the endpoint that the credential is for; the default one where it is absent.
    pub endpoint: Option<String>,
}

/// The global configuration.
#[derive(Debug)]
pub struct Config {
    /// The name of the endpoint for credentials that name none.
    pub default_endpoint: String,
    /// What a response body says where a credential's quota is used up.
    pub quota_exceeded_keywords: Vec<String>,
}

/// What is known when one request is made.
#[derive(Debug)]
pub struct RequestContext<'a> {
    /// The credential in use.
    pub credentials: &'a KiroCredentials,
    /// The valid access token: for an API key credential, the key itself.
    pub token: &'a str,
    /// The machine identifier of the credential.
    pub machine_id: &'a str,
    /// The global configuration.
    pub config: &'a Config,
}

/// The text by which the upstream service says that a bearer token is not valid.
pub const BEARER_TOKEN_INVALID: &'static str =
    "The bearer token included in the request is invalid";

/// `reqwest::RequestBuilder`, an HTTP request in the making. Nothing is said of what it holds.
#[verifier::external_type_specification]
#[verifier::external_body]
pub struct ExRequestBuilder(reqwest::RequestBuilder);

/// What the endpoints of the upstream service differ in.
pub trait KiroEndpoint: Send + Sync {
    /// The name of the endpoint, as credentials and the configuration give it.
    fn name(&self) -> &'static str;

    /// The URL of the API.
    fn api_url(&self, ctx: &RequestContext<'_>) -> String;

    /// The URL of the MCP service.
    fn mcp_url(&self, ctx: &RequestContext<'_>) -> String;

    /// Adds the headers that the endpoint wants to an API request. The URL, the content type, the
    /// connection header and the body are set already.
    fn decorate_api(
        &self,
        req: reqwest::RequestBuilder,
        ctx: &RequestContext<'_>,
    ) -> reqwest::RequestBuilder;

    /// Adds the headers that the endpoint wants to an MCP request.
    fn decorate_mcp(
        &self,
        req: reqwest::RequestBuilder,
        ctx: &RequestContext<'_>,
    ) -> reqwest::RequestBuilder;

    /// The body of an API request as the endpoint wants it, given the serialised body.
    fn transform_api_body(&self, body: &str, ctx: &RequestContext<'_>) -> String;

    /// The body of an MCP request as the endpoint wants it, given the serialised body. By default
    /// it is left unchanged.
    fn transform_mcp_body(&self, body: &str, _ctx: &RequestContext<'_>) -> (r: String)
        default_ensures
            r@ == body@,
    {
        body.to_owned()
    }

    /// Whether a response body says that the bearer token is not valid, so that it has to be
    /// refreshed.
    fn is_bearer_token_invalid(&self, body: &str) -> (r: bool)
        default_ensures
            r == occurs_in(BEARER_TOKEN_INVALID@, body@),
    {
        default_is_bearer_token_invalid(body)
    }
}

/// Whether some keyword that is not empty occurs in the body.
pub open spec fn mentions_keyword(body: Seq<char>, keywords: Seq<String>) -> bool {
    exists|i: int|
        0 <= i < keywords.len() && (#[trigger] keywords[i])@.len() > 0 && occurs_in(
            keywords[i]@,
            body,
        )
}

/// Whether a response body says that the quota is used up, so that the credential is disabled and
/// another one is tried: whether it holds one of the keywords, letter for letter.
pub fn is_quota_exceeded(body: &str, keywords: &[String]) -> (r: bool)
    ensures
        r == mentions_keyword(body@, keywords@),
{
    let mut i: usize = 0;
    while i < keywords.len()
        invariant
            i <= keywords@.len(),
            forall|j: int|
                0 <= j < i ==> !((#[trigger] keywords@[j])@.len() > 0 && occurs_in(
                    keywords@[j]@,
                    body@,
                )),
        decreases keywords@.len() - i,
    {
        let k = keywords[i].as_str();
        if !k.is_empty() && contains_text(body, k) {
            assert(keywords@[i as int]@ == k@);
            return true;
        }
        i = i + 1;
    }
    false
}

/// Whether a response body holds [`BEARER_TOKEN_INVALID`].
pub fn default_is_bearer_token_invalid(body: &str) -> (r: bool)
    ensures
        r == occurs_in(BEARER_TOKEN_INVALID@, body@),
{
    contains_text(body, BEARER_TOKEN_INVALID)
}

/// No body mentions a keyword where there is none, or where all of them are empty.
pub proof fn law_empty_keywords_match_nothing(body: Seq<char>, keywords: Seq<String>)
    requires
        forall|i: int| 0 <= i < keywords.len() ==> (#[trigger] keywords[i])@.len() == 0,
    ensures
        !mentions_keyword(body, keywords),
{
}

/// A body that mentions a keyword still does so where keywords are added, and where more text
/// stands around it.
pub proof fn law_a_match_is_kept(
    body: Seq<char>,
    keywords: Seq<String>,
    before: Seq<char>,
    behind: Seq<char>,
    more: Seq<String>,
)
    requires
        mentions_keyword(body, keywords),
    ensures
        mentions_keyword(before + body + behind, keywords),
        mentions_keyword(body, keywords + more),
        mentions_keyword(body, more + keywords),
{
    let i = choose|i: int|
        0 <= i < keywords.len() && (#[trigger] keywords[i])@.len() > 0 && occurs_in(
            keywords[i]@,
            body,
        );
    let k = keywords[i]@;
    let at = choose|at: int|
        0 <= at && at + k.len() <= body.len() && #[trigger] body.subrange(at, at + k.len()) == k;
    let longer = before + body + behind;
    assert(longer.subrange(before.len() + at, before.len() + at + k.len()) =~= body.subrange(
        at,
        at + k.len(),
    ));
    assert(occurs_in(k, longer));
    assert((keywords + more)[i] == keywords[i]);
    assert((more + keywords)[more.len() + i] == keywords[i]);
}

/// A body mentions a keyword just where it is a keyword that is not empty with something before and
/// behind it.
pub proof fn law_a_match_is_a_keyword_in_the_body(body: Seq<char>, keywords: Seq<String>)
    ensures
        mentions_keyword(body, keywords) <==> exists|i: int, before: Seq<char>, behind: Seq<char>|
            0 <= i < keywords.len() && keywords[i]@.len() > 0 && body == #[trigger] (before
                + keywords[i]@ + behind),
{
    if mentions_keyword(body, keywords) {
        let i = choose|i: int|
            0 <= i < keywords.len() && (#[trigger] keywords[i])@.len() > 0 && occurs_in(
                keywords[i]@,
                body,
            );
        law_occurring_is_standing_between(keywords[i]@, body);
        let (before, behind) = choose|before: Seq<char>, behind: Seq<char>|
            body == #[trigger] (before + keywords[i]@ + behind);
        assert(body == before + keywords[i]@ + behind);
    }
    if exists|i: int, before: Seq<char>, behind: Seq<char>|
        0 <= i < keywords.len() && keywords[i]@.len() > 0 && body == #[trigger] (before
            + keywords[i]@ + behind) {
        let (i, before, behind) = choose|i: int, before: Seq<char>, behind: Seq<char>|
            0 <= i < keywords.len() && keywords[i]@.len() > 0 && body == #[trigger] (before
                + keywords[i]@ + behind);
        law_occurring_is_standing_between(keywords[i]@, body);
    }
}

} // verus!
