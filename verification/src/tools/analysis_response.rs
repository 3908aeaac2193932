//! How complete and how certain an analysis is, in the words that clients see.

use vstd::prelude::*;

verus! {

/// How deep a symbol has been analysed, as far as it matters here.
#[derive(Clone, Copy, Debug, PartialEq, Eq, Structural)]
pub enum SymbolTier {
    Full,
    Lower,
}

/// How much of what matters has been analysed.
pub enum CoverageTier {
    /// All of the project.
    RepoComplete,
    /// All of what the query is about.
    ClosureComplete { closure_id: String },
    /// All but what lies beyond a border.
    Boundary { target_tier: SymbolTier },
    /// Some of it.
    Partial { gaps: Vec<String> },
    /// Only names.
    Manifest,
}

/// How certain an analysis is.
#[derive(Clone, Copy, Debug, PartialEq, Eq, Structural)]
pub enum SemanticConfidence {
    Certain,
    High,
    Medium,
    Low,
}

/// How complete and how certain an analysis is.
pub struct Precision {
    pub coverage: CoverageTier,
    pub confidence: SemanticConfidence,
}

/// What clients see of a precision.
pub struct PrecisionView {
    /// `repo_complete`, `local_complete`, `boundary`, `partial` or `basic`.
    pub coverage: String,
    /// `certain`, `high`, `medium` or `low`.
    pub confidence: String,
}

/// The public word for a coverage.
pub open spec fn coverage_label(tier: CoverageTier) -> Seq<char> {
    match tier {
        CoverageTier::RepoComplete => "repo_complete"@,
        CoverageTier::ClosureComplete { .. } => "local_complete"@,
        CoverageTier::Boundary { .. } => "boundary"@,
        CoverageTier::Partial { .. } => "partial"@,
        CoverageTier::Manifest => "basic"@,
    }
}

/// The public word for a confidence.
pub open spec fn confidence_label(confidence: SemanticConfidence) -> Seq<char> {
    match confidence {
        SemanticConfidence::Certain => "certain"@,
        SemanticConfidence::High => "high"@,
        SemanticConfidence::Medium => "medium"@,
        SemanticConfidence::Low => "low"@,
    }
}

/// What clients see of a precision.
pub fn precision_to_view(p: &Precision) -> (view: PrecisionView)
    ensures
        view.coverage@ == coverage_label(p.coverage),
        view.confidence@ == confidence_label(p.confidence),
{
    PrecisionView {
        coverage: coverage_tier_to_label(&p.coverage),
        confidence: confidence_to_string(p.confidence).to_owned(),
    }
}

/// The public word for a coverage.
pub fn coverage_tier_to_label(tier: &CoverageTier) -> (label: String)
    ensures
        label@ == coverage_label(*tier),
{
    match tier {
        CoverageTier::RepoComplete => "repo_complete".to_owned(),
        CoverageTier::ClosureComplete { .. } => "local_complete".to_owned(),
        CoverageTier::Boundary { .. } => "boundary".to_owned(),
        CoverageTier::Partial { .. } => "partial".to_owned(),
        CoverageTier::Manifest => "basic".to_owned(),
    }
}

/// The public word for a confidence.
pub fn confidence_to_string(c: SemanticConfidence) -> (word: &'static str)
    ensures
        word@ == confidence_label(c),
{
    match c {
        SemanticConfidence::Certain => "certain",
        SemanticConfidence::High => "high",
        SemanticConfidence::Medium => "medium",
        SemanticConfidence::Low => "low",
    }
}

/// What is inside a coverage does not show: two that differ only there have the
/// same word.
pub proof fn law_labels_hide_internals(a: String, b: String)
    ensures
        coverage_label(CoverageTier::ClosureComplete { closure_id: a }) == coverage_label(
            CoverageTier::ClosureComplete { closure_id: b },
        ),
{
}

/// Coverages of different kinds have different words, and so have confidences.
pub proof fn law_labels_tell_kinds_apart(
    a: CoverageTier,
    b: CoverageTier,
    c: SemanticConfidence,
    d: SemanticConfidence,
)
    ensures
        coverage_label(a) == coverage_label(b) ==> (a is RepoComplete <==> b is RepoComplete) && (
        a is ClosureComplete <==> b is ClosureComplete) && (a is Boundary <==> b is Boundary) && (
        a is Partial <==> b is Partial) && (a is Manifest <==> b is Manifest),
        confidence_label(c) == confidence_label(d) ==> c == d,
{
    reveal_strlit("repo_complete");
    reveal_strlit("local_complete");
    reveal_strlit("boundary");
    reveal_strlit("partial");
    reveal_strlit("basic");
    reveal_strlit("certain");
    reveal_strlit("high");
    reveal_strlit("medium");
    reveal_strlit("low");
    assert("repo_complete"@.len() != "local_complete"@.len());
    assert("repo_complete"@.len() != "boundary"@.len());
    assert("repo_complete"@.len() != "partial"@.len());
    assert("repo_complete"@.len() != "basic"@.len());
    assert("local_complete"@.len() != "boundary"@.len());
    assert("local_complete"@.len() != "partial"@.len());
    assert("local_complete"@.len() != "basic"@.len());
    assert("boundary"@.len() != "partial"@.len());
    assert("boundary"@.len() != "basic"@.len());
    assert("partial"@.len() != "basic"@.len());
    assert("certain"@.len() != "high"@.len());
    assert("certain"@.len() != "medium"@.len());
    assert("certain"@.len() != "low"@.len());
    assert("high"@.len() != "medium"@.len());
    assert("high"@.len() != "low"@.len());
    assert("medium"@.len() != "low"@.len());
}

} // verus!
