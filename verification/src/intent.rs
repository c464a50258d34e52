//! The intent gate: the category of a user's request, the route the agent
//! follows for it, and the keywords that back a category up.
use vstd::prelude::*;

use crate::text::{chars_of, has_substring, spec_contains};

verus! {

/// The categories of request.
#[derive(Debug, Clone, Copy, PartialEq, Eq, Structural)]
pub enum IntentCategory {
    Research,
    Implementation,
    Investigation,
    Evaluation,
    Fix,
    OpenEnded,
    Trivial,
}

/// Routes requests by their category.
pub struct IntentGate;

/// The route for each category of request.
pub open spec fn route_text(c: IntentCategory) -> Seq<char> {
    match c {
        IntentCategory::Research => "explore/librarian → synthesize → answer"@,
        IntentCategory::Implementation => "plan → delegate or execute"@,
        IntentCategory::Investigation => "explore → report findings"@,
        IntentCategory::Evaluation => "evaluate → propose → wait for confirmation"@,
        IntentCategory::Fix => "diagnose → fix minimally"@,
        IntentCategory::OpenEnded => "assess codebase first → propose approach"@,
        IntentCategory::Trivial => "direct tools only"@,
    }
}

/// The lowercase form of a text, as `str::to_lowercase` gives it.
pub uninterp spec fn spec_lowercase(s: Seq<char>) -> Seq<char>;

/// `str::to_lowercase`.
#[verifier::external_body]
fn lowercase(s: &str) -> (r: String)
    ensures
        r@ == spec_lowercase(s@),
{
    s.to_lowercase()
}

/// Whether a lowercase text holds one of the keywords of a category; a trivial
/// request has none.
pub open spec fn keywords_hit(lower: Seq<char>, c: IntentCategory) -> bool {
    match c {
        IntentCategory::Implementation => spec_contains(lower, "implement"@) || spec_contains(lower, "add"@)
            || spec_contains(lower, "create"@),
        IntentCategory::Research => spec_contains(lower, "explain"@) || spec_contains(lower, "how does"@)
            || spec_contains(lower, "what is"@),
        IntentCategory::Investigation => spec_contains(lower, "look into"@) || spec_contains(
            lower,
            "check"@,
        ) || spec_contains(lower, "investigate"@),
        IntentCategory::Evaluation => spec_contains(lower, "what do you think"@) || spec_contains(
            lower,
            "evaluate"@,
        ),
        IntentCategory::Fix => spec_contains(lower, "error"@) || spec_contains(lower, "broken"@)
            || spec_contains(lower, "fix"@),
        IntentCategory::OpenEnded => spec_contains(lower, "improve"@) || spec_contains(lower, "refactor"@)
            || spec_contains(lower, "clean"@),
        IntentCategory::Trivial => false,
    }
}

/// Whether `text` holds `word`.
fn holds(text: &Vec<char>, word: &str) -> (r: bool)
    ensures
        r == spec_contains(text@, word@),
{
    let w = chars_of(word);
    has_substring(text, &w)
}

impl IntentGate {
    pub fn new() -> Self {
        IntentGate
    }

    /// The route the agent takes for a category of request.
    pub fn route_hint(&self, category: &IntentCategory) -> (r: &'static str)
        ensures
            r@ == route_text(*category),
    {
        match category {
            IntentCategory::Research => "explore/librarian → synthesize → answer",
            IntentCategory::Implementation => "plan → delegate or execute",
            IntentCategory::Investigation => "explore → report findings",
            IntentCategory::Evaluation => "evaluate → propose → wait for confirmation",
            IntentCategory::Fix => "diagnose → fix minimally",
            IntentCategory::OpenEnded => "assess codebase first → propose approach",
            IntentCategory::Trivial => "direct tools only",
        }
    }

    /// Whether the input, in lowercase, holds a keyword of `category`; the
    /// confidence given to that category is higher when it does.
    pub fn keyword_hit(&self, input: &str, category: &IntentCategory) -> (r: bool)
        ensures
            r == keywords_hit(spec_lowercase(input@), *category),
    {
        let l = lowercase(input);
        let lower = chars_of(l.as_str());
        match category {
            IntentCategory::Implementation => holds(&lower, "implement") || holds(&lower, "add") || holds(
                &lower,
                "create",
            ),
            IntentCategory::Research => holds(&lower, "explain") || holds(&lower, "how does") || holds(
                &lower,
                "what is",
            ),
            IntentCategory::Investigation => holds(&lower, "look into") || holds(&lower, "check")
                || holds(&lower, "investigate"),
            IntentCategory::Evaluation => holds(&lower, "what do you think") || holds(&lower, "evaluate"),
            IntentCategory::Fix => holds(&lower, "error") || holds(&lower, "broken") || holds(&lower, "fix"),
            IntentCategory::OpenEnded => holds(&lower, "improve") || holds(&lower, "refactor") || holds(
                &lower,
                "clean",
            ),
            IntentCategory::Trivial => false,
        }
    }
}

} // verus!
