use vstd::prelude::*;
use crate::node::{FitnessScores, MatrixNode, SealState};
use crate::numfmt::{dec_digits, score_text, score_string, u64_text};
use crate::ext::now_millis;

verus! {

/// Thresholds against which a node's fitness is judged. Scores are
/// fixed-point hundredths, as in `FitnessScores`.
pub struct SealPolicy {
    pub max_hallucination_risk: u32,
    pub min_coherence: u32,
    pub max_latency_ms: Option<u64>,
}

pub open spec fn default_seal_policy() -> SealPolicy {
    SealPolicy { max_hallucination_risk: 60, min_coherence: 30, max_latency_ms: Some(10000u64) }
}

impl Default for SealPolicy {
    fn default() -> (r: Self)
        ensures
            r == default_seal_policy(),
    {
        SealPolicy { max_hallucination_risk: 60, min_coherence: 30, max_latency_ms: Some(10000) }
    }
}

pub open spec fn risk_fires(f: FitnessScores, p: SealPolicy) -> bool {
    f.hallucination_risk > p.max_hallucination_risk
}

pub open spec fn coherence_fires(f: FitnessScores, p: SealPolicy) -> bool {
    f.coherence < p.min_coherence
}

pub open spec fn latency_fires(f: FitnessScores, p: SealPolicy) -> bool {
    &&& p.max_latency_ms is Some
    &&& f.latency_ms is Some
    &&& f.latency_ms->0 > p.max_latency_ms->0
}

/// Whether evaluation of an unsealed node under `p` transitions it to
/// sealed: at least one of the three conditions fires.
pub open spec fn seal_fires(f: FitnessScores, p: SealPolicy) -> bool {
    risk_fires(f, p) || coherence_fires(f, p) || latency_fires(f, p)
}

pub open spec fn risk_text(f: FitnessScores, p: SealPolicy) -> Seq<char> {
    "hallucination_risk: "@ + score_text(f.hallucination_risk as nat) + " > "@ + score_text(
        p.max_hallucination_risk as nat,
    )
}

pub open spec fn coherence_text(f: FitnessScores, p: SealPolicy) -> Seq<char> {
    "coherence: "@ + score_text(f.coherence as nat) + " < "@ + score_text(p.min_coherence as nat)
}

pub open spec fn latency_text(f: FitnessScores, p: SealPolicy) -> Seq<char> {
    "latency_ms: "@ + dec_digits(f.latency_ms->0 as nat) + " > "@ + dec_digits(
        p.max_latency_ms->0 as nat,
    )
}

/// The reasons of every firing condition, in evaluation order, joined with
/// a ", " separator.
pub open spec fn seal_reason(f: FitnessScores, p: SealPolicy) -> Seq<char> {
    let r = risk_fires(f, p);
    let c = coherence_fires(f, p);
    let l = latency_fires(f, p);
    if r && c && l {
        risk_text(f, p) + ", "@ + coherence_text(f, p) + ", "@ + latency_text(f, p)
    } else if r && c {
        risk_text(f, p) + ", "@ + coherence_text(f, p)
    } else if r && l {
        risk_text(f, p) + ", "@ + latency_text(f, p)
    } else if c && l {
        coherence_text(f, p) + ", "@ + latency_text(f, p)
    } else if r {
        risk_text(f, p)
    } else if c {
        coherence_text(f, p)
    } else {
        latency_text(f, p)
    }
}

/// The seal lifecycle as a step function over the abstract seal state:
/// a sealed node is left exactly as it is; an unsealed node seals, with the
/// joined reasons, when a condition fires, and is otherwise unchanged.
pub open spec fn seal_step(
    sealed: bool,
    reason: Option<Seq<char>>,
    f: FitnessScores,
    p: SealPolicy,
) -> (bool, Option<Seq<char>>) {
    if sealed {
        (true, reason)
    } else if seal_fires(f, p) {
        (true, Some(seal_reason(f, p)))
    } else {
        (false, reason)
    }
}

/// Sealing is sticky: a sealed state passes through evaluation untouched,
/// whatever the policy.
pub proof fn lemma_seal_sticky(reason: Option<Seq<char>>, f: FitnessScores, p: SealPolicy)
    ensures
        seal_step(true, reason, f, p) == (true, reason),
{
}

/// Sealing is idempotent: a second evaluation, under any later policy and
/// fitness, leaves the outcome of the first exactly as it was whenever the
/// first evaluation sealed, and a repeated evaluation under the same policy
/// and fitness never changes the outcome.
pub proof fn lemma_seal_idempotent(
    sealed: bool,
    reason: Option<Seq<char>>,
    f: FitnessScores,
    p: SealPolicy,
)
    ensures
        seal_step(
            seal_step(sealed, reason, f, p).0,
            seal_step(sealed, reason, f, p).1,
            f,
            p,
        ) == seal_step(sealed, reason, f, p),
{
}

fn risk_reason_string(f: &FitnessScores, p: &SealPolicy) -> (s: String)
    ensures
        s@ == risk_text(*f, *p),
{
    let observed = score_string(f.hallucination_risk);
    let threshold = score_string(p.max_hallucination_risk);
    String::from_str("hallucination_risk: ").concat(observed.as_str()).concat(" > ").concat(
        threshold.as_str(),
    )
}

fn coherence_reason_string(f: &FitnessScores, p: &SealPolicy) -> (s: String)
    ensures
        s@ == coherence_text(*f, *p),
{
    let observed = score_string(f.coherence);
    let threshold = score_string(p.min_coherence);
    String::from_str("coherence: ").concat(observed.as_str()).concat(" < ").concat(
        threshold.as_str(),
    )
}

fn latency_reason_string(observed: u64, threshold: u64, f: &FitnessScores, p: &SealPolicy) -> (s:
    String)
    requires
        f.latency_ms == Some(observed),
        p.max_latency_ms == Some(threshold),
    ensures
        s@ == latency_text(*f, *p),
{
    let observed_text = u64_text(observed);
    let threshold_text = u64_text(threshold);
    String::from_str("latency_ms: ").concat(observed_text.as_str()).concat(" > ").concat(
        threshold_text.as_str(),
    )
}

/// Judge one node against the policy. A node that is already sealed is
/// returned unchanged; an unsealed node seals exactly when a condition
/// fires, with the firing reasons joined in evaluation order, and is
/// otherwise returned unchanged. No field besides the seal is ever touched.
pub fn evaluate_seal(node: MatrixNode, policy: &SealPolicy) -> (r: MatrixNode)
    ensures
        node.seal.sealed ==> r == node,
        !node.seal.sealed && !seal_fires(node.fitness, *policy) ==> r == node,
        r.seal.sealed == seal_step(
            node.seal.sealed,
            node.seal.reason.deep_view(),
            node.fitness,
            *policy,
        ).0,
        r.seal.reason.deep_view() == seal_step(
            node.seal.sealed,
            node.seal.reason.deep_view(),
            node.fitness,
            *policy,
        ).1,
        !node.seal.sealed && seal_fires(node.fitness, *policy) ==> r.seal.triggered_at is Some,
        r.id == node.id,
        r.session_id == node.session_id,
        r.node_type == node.node_type,
        r.parent_id == node.parent_id,
        r.depth == node.depth,
        r.entropy_value == node.entropy_value,
        r.fitness == node.fitness,
        r.provider_id == node.provider_id,
        r.reality_id == node.reality_id,
        r.content == node.content,
        r.created_at == node.created_at,
{
    if node.seal.sealed {
        return node;
    }
    let fired_risk = node.fitness.hallucination_risk > policy.max_hallucination_risk;
    let fired_coherence = node.fitness.coherence < policy.min_coherence;
    let fired_latency = match (policy.max_latency_ms, node.fitness.latency_ms) {
        (Some(max_lat), Some(lat)) => lat > max_lat,
        _ => false,
    };
    if !(fired_risk || fired_coherence || fired_latency) {
        return node;
    }
    let reason: String = if fired_risk && fired_coherence && fired_latency {
        let lat = latency_part(&node.fitness, policy);
        risk_reason_string(&node.fitness, policy).concat(", ").concat(
            coherence_reason_string(&node.fitness, policy).as_str(),
        ).concat(", ").concat(lat.as_str())
    } else if fired_risk && fired_coherence {
        risk_reason_string(&node.fitness, policy).concat(", ").concat(
            coherence_reason_string(&node.fitness, policy).as_str(),
        )
    } else if fired_risk && fired_latency {
        let lat = latency_part(&node.fitness, policy);
        risk_reason_string(&node.fitness, policy).concat(", ").concat(lat.as_str())
    } else if fired_coherence && fired_latency {
        let lat = latency_part(&node.fitness, policy);
        coherence_reason_string(&node.fitness, policy).concat(", ").concat(lat.as_str())
    } else if fired_risk {
        risk_reason_string(&node.fitness, policy)
    } else if fired_coherence {
        coherence_reason_string(&node.fitness, policy)
    } else {
        latency_part(&node.fitness, policy)
    };
    MatrixNode {
        seal: SealState {
            sealed: true,
            reason: Some(reason),
            triggered_at: Some(now_millis()),
        },
        ..node
    }
}

fn latency_part(f: &FitnessScores, p: &SealPolicy) -> (s: String)
    requires
        latency_fires(*f, *p),
    ensures
        s@ == latency_text(*f, *p),
{
    let observed = match f.latency_ms {
        Some(v) => v,
        None => 0,
    };
    let threshold = match p.max_latency_ms {
        Some(v) => v,
        None => 0,
    };
    latency_reason_string(observed, threshold, f, p)
}

}
