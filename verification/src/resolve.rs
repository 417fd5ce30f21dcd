//! The identifier-resolution cascade.
//!
//! A free-form target string is narrowed down against an ordered candidate
//! set in three stages: an exact, byte-for-byte match wins immediately; else
//! candidates whose fuzzy score strictly exceeds a fixed threshold are kept
//! for an interactive pick-list; an empty pick-list is a failure. An empty
//! target skips straight to a pick-list over all candidates.

use vstd::prelude::*;

verus! {

/// Fuzzy-match cutoff: only candidates scoring strictly above this are offered.
pub const FUZZY_THRESHOLD: i64 = 70;

/// The one failure the cascade itself can produce: the pick-list it would
/// show has no options.
#[derive(Debug, Clone, Copy, PartialEq, Eq)]
pub enum ResolveError {
    EmptyCandidateSet,
}

/// What the cascade decided: a single resolved name, or a pick-list of
/// options that the caller must put to the user.
#[derive(Debug, PartialEq, Eq)]
pub enum Resolution {
    Resolved(String),
    NeedsPrompt(Vec<String>),
}

/// The score that the fuzzy matcher assigns to a candidate (`choice`) against
/// the user's hint (`pattern`); `None` when no alignment of the pattern's
/// characters into the choice exists. A fixed function of the two strings.
pub uninterp spec fn skim_score(choice: Seq<char>, pattern: Seq<char>) -> Option<i64>;

/// Relies on fuzzy_matcher's `SkimMatcherV2::fuzzy_match` with the default
/// configuration: a deterministic dynamic-programming score that depends on
/// the choice and pattern strings alone (its thread-local caches are scratch
/// buffers, not state).
#[verifier::external_body]
fn score_candidate(choice: &String, pattern: &String) -> (r: Option<i64>)
    ensures
        r == skim_score(choice@, pattern@),
{
    let matcher = fuzzy_matcher::skim::SkimMatcherV2::default();
    fuzzy_matcher::FuzzyMatcher::fuzzy_match(&matcher, choice.as_str(), pattern.as_str())
}

/// Whether a fuzzy score clears the cutoff: a missing score counts as 0 and
/// is excluded; a present score must strictly exceed the threshold.
pub open spec fn score_passes(score: Option<i64>) -> bool {
    match score {
        Some(s) => s > FUZZY_THRESHOLD,
        None => false,
    }
}

/// Decide for one candidate's score whether it belongs on the pick-list.
pub fn passes_threshold(score: Option<i64>) -> (r: bool)
    ensures
        r == score_passes(score),
{
    match score {
        Some(s) => s > FUZZY_THRESHOLD,
        None => false,
    }
}

/// The subsequence of `cands` whose paired score clears the cutoff, in the
/// original relative order.
pub open spec fn kept_by_scores(cands: Seq<Seq<char>>, scores: Seq<Option<i64>>) -> Seq<
    Seq<char>,
>
    decreases cands.len(),
{
    if cands.len() == 0 {
        Seq::empty()
    } else {
        let rest = kept_by_scores(cands.drop_last(), scores.drop_last());
        if score_passes(scores.last()) {
            rest.push(cands.last())
        } else {
            rest
        }
    }
}

/// The subsequence of `cands` that the fuzzy matcher scores strictly above
/// the threshold against `target`, in the original relative order.
pub open spec fn retained(target: Seq<char>, cands: Seq<Seq<char>>) -> Seq<Seq<char>>
    decreases cands.len(),
{
    if cands.len() == 0 {
        Seq::empty()
    } else {
        let rest = retained(target, cands.drop_last());
        if score_passes(skim_score(cands.last(), target)) {
            rest.push(cands.last())
        } else {
            rest
        }
    }
}

/// Keep the candidates whose paired score clears the cutoff, in order. The
/// scores are an argument, so any scorer — the real fuzzy matcher or a stub —
/// can drive this filter.
pub fn filter_by_scores(candidates: &Vec<String>, scores: &Vec<Option<i64>>) -> (r: Vec<String>)
    requires
        candidates@.len() == scores@.len(),
    ensures
        r.deep_view() == kept_by_scores(candidates.deep_view(), scores@),
{
    let n = candidates.len();
    let mut kept: Vec<String> = Vec::new();
    let mut i: usize = 0;
    while i < n
        invariant
            n == candidates@.len(),
            candidates@.len() == scores@.len(),
            0 <= i <= n,
            kept.deep_view() == kept_by_scores(
                candidates.deep_view().subrange(0, i as int),
                scores@.subrange(0, i as int),
            ),
        decreases n - i,
    {
        if passes_threshold(scores[i]) {
            kept.push(candidates[i].clone());
        }
        proof {
            let cs = candidates.deep_view();
            let ss = scores@;
            assert(cs.subrange(0, i + 1).drop_last() =~= cs.subrange(0, i as int));
            assert(ss.subrange(0, i + 1).drop_last() =~= ss.subrange(0, i as int));
            assert(cs.subrange(0, i + 1).last() == cs[i as int]);
            assert(ss.subrange(0, i + 1).last() == ss[i as int]);
        }
        i += 1;
    }
    proof {
        assert(candidates.deep_view().subrange(0, n as int) =~= candidates.deep_view());
        assert(scores@.subrange(0, n as int) =~= scores@);
    }
    kept
}

/// Score every candidate against `target` and keep those above the cutoff,
/// in their original relative order.
pub fn fuzzy_filter(target: &String, candidates: &Vec<String>) -> (r: Vec<String>)
    ensures
        r.deep_view() == retained(target@, candidates.deep_view()),
{
    let n = candidates.len();
    let mut kept: Vec<String> = Vec::new();
    let mut i: usize = 0;
    while i < n
        invariant
            n == candidates@.len(),
            0 <= i <= n,
            kept.deep_view() == retained(target@, candidates.deep_view().subrange(0, i as int)),
        decreases n - i,
    {
        let score = score_candidate(&candidates[i], target);
        if passes_threshold(score) {
            kept.push(candidates[i].clone());
        }
        proof {
            let cs = candidates.deep_view();
            assert(cs.subrange(0, i + 1).drop_last() =~= cs.subrange(0, i as int));
            assert(cs.subrange(0, i + 1).last() == cs[i as int]);
        }
        i += 1;
    }
    proof {
        assert(candidates.deep_view().subrange(0, n as int) =~= candidates.deep_view());
    }
    kept
}

/// Whether a candidate set holds an element exactly equal to the target.
pub open spec fn has_exact(target: Seq<char>, cands: Seq<Seq<char>>) -> bool {
    exists|i: int| 0 <= i < cands.len() && cands[i] == target
}

/// The mathematical outcome of the cascade: one chosen name, a pick-list to
/// put to the user, or no options at all.
pub enum ResolutionModel {
    Chosen(Seq<char>),
    Offered(Seq<Seq<char>>),
    NoOptions,
}

/// What the cascade decides for a target against an ordered candidate set:
/// an empty target offers every candidate; an exact occurrence of the target
/// wins outright; otherwise the candidates scoring above the threshold are
/// offered; an empty offer is a failure.
pub open spec fn resolve_model(target: Seq<char>, cands: Seq<Seq<char>>) -> ResolutionModel {
    if target.len() == 0 {
        if cands.len() == 0 {
            ResolutionModel::NoOptions
        } else {
            ResolutionModel::Offered(cands)
        }
    } else if has_exact(target, cands) {
        ResolutionModel::Chosen(target)
    } else {
        let kept = retained(target, cands);
        if kept.len() == 0 {
            ResolutionModel::NoOptions
        } else {
            ResolutionModel::Offered(kept)
        }
    }
}

/// The model that an executable outcome of `resolve` stands for.
pub open spec fn outcome_model(r: Result<Resolution, ResolveError>) -> ResolutionModel {
    match r {
        Ok(Resolution::Resolved(name)) => ResolutionModel::Chosen(name@),
        Ok(Resolution::NeedsPrompt(options)) => ResolutionModel::Offered(options.deep_view()),
        Err(ResolveError::EmptyCandidateSet) => ResolutionModel::NoOptions,
    }
}

/// Run the resolution cascade for one target over one candidate set. The
/// outcome is exactly `resolve_model` of the inputs: either the single
/// resolved name, or the pick-list that must be put to the user, or the
/// failure that stands for a pick-list with no options.
pub fn resolve(target: &String, candidates: Vec<String>) -> (r: Result<Resolution, ResolveError>)
    ensures
        outcome_model(r) == resolve_model(target@, candidates.deep_view()),
{
    if target.as_str().is_empty() {
        if candidates.len() == 0 {
            return Err(ResolveError::EmptyCandidateSet);
        }
        return Ok(Resolution::NeedsPrompt(candidates));
    }
    if let Some(found) = check_namespace(target, &candidates) {
        return Ok(Resolution::Resolved(found));
    }
    let kept = fuzzy_filter(target, &candidates);
    if kept.len() == 0 {
        return Err(ResolveError::EmptyCandidateSet);
    }
    Ok(Resolution::NeedsPrompt(kept))
}

/// A non-empty target that appears verbatim among the candidates resolves to
/// the target itself, with no pick-list and no interaction.
pub proof fn lemma_exact_match_wins(target: Seq<char>, cands: Seq<Seq<char>>)
    requires
        target.len() > 0,
        has_exact(target, cands),
    ensures
        resolve_model(target, cands) == ResolutionModel::Chosen(target),
{
}

/// An empty target always leads to a pick-list over the full candidate set;
/// with no candidates at all there is nothing to offer and the cascade fails.
pub proof fn lemma_empty_target_offers_all(cands: Seq<Seq<char>>)
    ensures
        cands.len() > 0 ==> resolve_model(Seq::empty(), cands) == ResolutionModel::Offered(cands),
        cands.len() == 0 ==> resolve_model(Seq::empty(), cands) == ResolutionModel::NoOptions,
{
}

/// Without an exact occurrence of the target, the cascade offers exactly the
/// candidates the fuzzy matcher scores above the threshold, in order — and an
/// empty filtered set is a failure, never a pick-list with zero options.
pub proof fn lemma_fuzzy_path(target: Seq<char>, cands: Seq<Seq<char>>)
    requires
        target.len() > 0,
        !has_exact(target, cands),
    ensures
        retained(target, cands).len() > 0 ==> resolve_model(target, cands)
            == ResolutionModel::Offered(retained(target, cands)),
        retained(target, cands).len() == 0 ==> resolve_model(target, cands)
            == ResolutionModel::NoOptions,
{
}

/// Every candidate that survives the fuzzy filter scores strictly above the
/// threshold against the target.
pub proof fn lemma_retained_passes(target: Seq<char>, cands: Seq<Seq<char>>, i: int)
    requires
        0 <= i < retained(target, cands).len(),
    ensures
        score_passes(skim_score(retained(target, cands)[i], target)),
    decreases cands.len(),
{
    if cands.len() > 0 {
        let rest = retained(target, cands.drop_last());
        if score_passes(skim_score(cands.last(), target)) {
            if i < rest.len() {
                lemma_retained_passes(target, cands.drop_last(), i);
            }
        } else {
            lemma_retained_passes(target, cands.drop_last(), i);
        }
    }
}

/// No passing candidate is dropped: every candidate whose score clears the
/// cutoff appears on the fuzzy stage's pick-list.
pub proof fn lemma_passing_candidate_is_retained(
    target: Seq<char>,
    cands: Seq<Seq<char>>,
    i: int,
)
    requires
        0 <= i < cands.len(),
        score_passes(skim_score(cands[i], target)),
    ensures
        retained(target, cands).contains(cands[i]),
    decreases cands.len(),
{
    let r = retained(target, cands);
    let rest = retained(target, cands.drop_last());
    if i == cands.len() - 1 {
        assert(r == rest.push(cands.last()));
        assert(r[rest.len() as int] == cands[i]);
    } else {
        assert(cands.drop_last()[i] == cands[i]);
        lemma_passing_candidate_is_retained(target, cands.drop_last(), i);
        let j = choose|j: int| 0 <= j < rest.len() && rest[j] == cands[i];
        if score_passes(skim_score(cands.last(), target)) {
            assert(r == rest.push(cands.last()));
            assert(r[j] == cands[i]);
        } else {
            assert(r == rest);
        }
    }
}

/// The fuzzy stage is the score-driven filter with the matcher's score for
/// every candidate plugged in: feeding `kept_by_scores` one score per
/// candidate, each the matcher's score against the target, keeps exactly
/// what the cascade retains. Any scorer — real or stubbed — that assigns
/// those scores drives the filter to the same pick-list.
pub proof fn lemma_retained_is_scored_filter(
    target: Seq<char>,
    cands: Seq<Seq<char>>,
    scores: Seq<Option<i64>>,
)
    requires
        scores.len() == cands.len(),
        forall|j: int| 0 <= j < cands.len() ==> scores[j] == skim_score(cands[j], target),
    ensures
        kept_by_scores(cands, scores) == retained(target, cands),
    decreases cands.len(),
{
    if cands.len() > 0 {
        lemma_retained_is_scored_filter(target, cands.drop_last(), scores.drop_last());
    }
}

/// The cascade's outcome is a function of the target and the candidate set
/// alone: two runs over the same inputs stand for the same model, so they
/// resolve to the same name, offer the same pick-list, or fail alike.
pub proof fn lemma_resolve_idempotent(
    target: Seq<char>,
    cands: Seq<Seq<char>>,
    r1: Result<Resolution, ResolveError>,
    r2: Result<Resolution, ResolveError>,
)
    requires
        outcome_model(r1) == resolve_model(target, cands),
        outcome_model(r2) == resolve_model(target, cands),
    ensures
        outcome_model(r1) == outcome_model(r2),
{
}

/// The namespace used by the shortcut path, as character sequence.
pub open spec fn default_namespace() -> Seq<char> {
    "default"@
}

/// Decide the namespace shortcut: a secret-name hint with no namespace hint
/// fixes the namespace to `"default"` outright — no listing, no cascade, no
/// prompt. Any other combination of hints runs the normal namespace cascade,
/// signalled here by `None`.
pub fn plan_namespace(namespace_hint: &String, name_hint: &String) -> (r: Option<String>)
    ensures
        match r {
            Some(d) => name_hint@.len() > 0 && namespace_hint@.len() == 0 && d@
                == default_namespace(),
            None => name_hint@.len() == 0 || namespace_hint@.len() > 0,
        },
{
    if !name_hint.as_str().is_empty() && namespace_hint.as_str().is_empty() {
        Some("default".to_owned())
    } else {
        None
    }
}

/// Scan the candidate list for an element exactly equal to `namespace_name`
/// (case-sensitive, no normalization) and hand that element back.
pub fn check_namespace(namespace_name: &String, namespace_list: &Vec<String>) -> (r: Option<
    String,
>)
    ensures
        match r {
            Some(found) => has_exact(namespace_name@, namespace_list.deep_view()) && found@
                == namespace_name@,
            None => !has_exact(namespace_name@, namespace_list.deep_view()),
        },
{
    let n = namespace_list.len();
    let mut i: usize = 0;
    while i < n
        invariant
            n == namespace_list@.len(),
            0 <= i <= n,
            forall|j: int| 0 <= j < i ==> namespace_list.deep_view()[j] != namespace_name@,
        decreases n - i,
    {
        if namespace_list[i] == *namespace_name {
            let found = namespace_list[i].clone();
            proof {
                assert(namespace_list.deep_view()[i as int] == namespace_name@);
            }
            return Some(found);
        }
        i += 1;
    }
    None
}

} // verus!
