use vstd::prelude::*;
use crate::ext::{fresh_id, now_millis};

verus! {

/// The kind of a tree vertex. The engine itself constructs only `Recursive`
/// nodes, and one `Origin` node per session; the remaining kinds are
/// reserved for nodes produced by outside collaborators (provider replies,
/// meta commentary, rendered output).
#[derive(Clone, Copy, Debug, PartialEq, Eq, Structural)]
pub enum NodeType {
    Origin,
    Meta,
    Recursive,
    Proxy,
    Evaluator,
    Output,
    Mirage,
}

/// Quality and risk metrics of a node's content. Scores are fixed-point
/// hundredths of a unit: 100 stands for 1.00.
#[derive(Clone, Copy, Debug, PartialEq)]
pub struct FitnessScores {
    pub coherence: u32,
    pub hallucination_risk: u32,
    pub latency_ms: Option<u64>,
    pub cost_tokens: Option<u64>,
    pub entropy: Option<u32>,
}

pub open spec fn default_fitness() -> FitnessScores {
    FitnessScores {
        coherence: 0,
        hallucination_risk: 0,
        latency_ms: None,
        cost_tokens: None,
        entropy: None,
    }
}

impl Default for FitnessScores {
    fn default() -> (r: Self)
        ensures
            r == default_fitness(),
    {
        FitnessScores {
            coherence: 0,
            hallucination_risk: 0,
            latency_ms: None,
            cost_tokens: None,
            entropy: None,
        }
    }
}

/// The write-once terminal state of a node. Once `sealed` is true the
/// evaluator never resets it nor overwrites the recorded reason.
#[derive(Clone, Debug, PartialEq)]
pub struct SealState {
    pub sealed: bool,
    pub reason: Option<String>,
    pub triggered_at: Option<i64>,
}

impl Default for SealState {
    fn default() -> (r: Self)
        ensures
            !r.sealed,
            r.reason is None,
            r.triggered_at is None,
    {
        SealState { sealed: false, reason: None, triggered_at: None }
    }
}

/// One vertex of the exploration tree. Identifiers are carried as 128-bit
/// values; timestamps as milliseconds since the epoch.
#[derive(Clone, Debug, PartialEq)]
pub struct MatrixNode {
    pub id: u128,
    pub session_id: u128,
    pub node_type: NodeType,
    pub parent_id: Option<u128>,
    pub depth: u32,
    pub entropy_value: u32,
    pub fitness: FitnessScores,
    pub provider_id: Option<u128>,
    pub reality_id: Option<u128>,
    pub seal: SealState,
    pub content: Option<String>,
    pub created_at: i64,
}

impl MatrixNode {
    /// Construct a node with the documented defaults: zero fitness,
    /// unsealed, no content, no provider or reality linkage, a fresh
    /// identifier and the current time.
    pub fn new(
        session_id: u128,
        node_type: NodeType,
        parent_id: Option<u128>,
        depth: u32,
        entropy_value: u32,
    ) -> (r: Self)
        ensures
            r.session_id == session_id,
            r.node_type == node_type,
            r.parent_id == parent_id,
            r.depth == depth,
            r.entropy_value == entropy_value,
            r.fitness == default_fitness(),
            r.provider_id is None,
            r.reality_id is None,
            !r.seal.sealed,
            r.seal.reason is None,
            r.seal.triggered_at is None,
            r.content is None,
    {
        MatrixNode {
            id: fresh_id(),
            session_id,
            node_type,
            parent_id,
            depth,
            entropy_value,
            fitness: FitnessScores::default(),
            provider_id: None,
            reality_id: None,
            seal: SealState::default(),
            content: None,
            created_at: now_millis(),
        }
    }
}

}
