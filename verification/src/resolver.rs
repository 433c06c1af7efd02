//! The resolver that a compilation consults for referenced documents.

use serde_json::Value;
use url::Url;
use vstd::prelude::*;

verus! {

/// `url::Url`, a parsed URL. It is only handed on.
#[verifier::external_type_specification]
#[verifier::external_body]
pub struct ExUrl(url::Url);

/// The editions of JSON Schema.
#[derive(Clone, Copy, PartialEq, Eq, Structural, Debug)]
pub enum Draft {
    Draft4,
    Draft6,
    Draft7,
    Draft201909,
    Draft202012,
}

/// The answer of a resolver that has nothing under a reference.
#[derive(Clone, Copy, PartialEq, Eq, Structural, Debug)]
pub struct NotFound;

/// Finds the document that a reference names.
///
/// A resolver may keep documents in memory or fetch them; nothing is
/// assumed of what it answers.
pub trait Resolve {
    /// The document under `pointer`, read against `base_url`, with the URL
    /// it was found at.
    fn resolve_fragment(&self, draft: Draft, base_url: &Url, pointer: &str) -> Result<
        (Url, Value),
        NotFound,
    >;
}

/// Whether `answer` is something that `resolver` returns when it is asked
/// for `pointer` against `base_url`.
pub open spec fn answers_fragment<R: Resolve>(
    resolver: &R,
    draft: Draft,
    base_url: Url,
    pointer: Seq<char>,
    answer: Result<(Url, Value), NotFound>,
) -> bool {
    exists|text: &str|
        text@ == pointer && #[trigger] R::resolve_fragment.ensures(
            (resolver, draft, &base_url, text),
            answer,
        )
}

/// What `Url::parse` makes of a text: the URL, or `None` where it refuses
/// the text.
pub uninterp spec fn parsed_url(input: Seq<char>) -> Option<Url>;

/// `Url::parse`: the absolute URL that a text writes, `None` where the text
/// is not one.
#[verifier::external_body]
pub(crate) fn parse_url(input: &str) -> (parsed: Option<Url>)
    ensures
        parsed == parsed_url(input@),
{
    Url::parse(input).ok()
}

} // verus!
