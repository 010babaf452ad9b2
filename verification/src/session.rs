use vstd::prelude::*;
use vstd::string::StringSliceAdditionalSpecFns;
use crate::engine::{count_at, generate, matches_shape, shape_below, subtree_ok};
use crate::ext::fresh_id;
use crate::node::{default_fitness, FitnessScores, MatrixNode, NodeType};
use crate::policy::SealPolicy;
use crate::prompts::Message;
use crate::scheduler::{branch_count, AbyssalConfig};

verus! {

/// The single root of a session: depth zero, the full starting entropy, no
/// parent, and a fresh reality tag of its own for the lineage to inherit.
pub fn origin_node(session_id: u128, entropy: u32) -> (r: MatrixNode)
    ensures
        r.session_id == session_id,
        r.node_type == NodeType::Origin,
        r.parent_id is None,
        r.depth == 0,
        r.entropy_value == entropy,
        r.fitness == default_fitness(),
        r.provider_id is None,
        r.reality_id is Some,
        !r.seal.sealed,
        r.seal.reason is None,
        r.seal.triggered_at is None,
        r.content is None,
{
    let mut n = MatrixNode::new(session_id, NodeType::Origin, None, 0, entropy);
    n.reality_id = Some(fresh_id());
    n
}

/// A complete session tree: the Origin root first, followed by the whole
/// generated subtree hanging off it, in pre-order.
pub fn build_session_tree(
    session_id: u128,
    root_entropy: u32,
    cfg: &AbyssalConfig,
    policy: &SealPolicy,
) -> (r: Vec<MatrixNode>)
    ensures
        r@.len() >= 1,
        r@[0].session_id == session_id,
        r@[0].node_type == NodeType::Origin,
        r@[0].parent_id is None,
        r@[0].depth == 0,
        r@[0].entropy_value == root_entropy,
        r@[0].fitness == default_fitness(),
        r@[0].provider_id is None,
        r@[0].reality_id is Some,
        !r@[0].seal.sealed,
        r@[0].seal.reason is None,
        r@[0].seal.triggered_at is None,
        r@[0].content is None,
        subtree_ok(
            r@.skip(1),
            session_id,
            0,
            root_entropy as int,
            Some(r@[0].id),
            r@[0].reality_id,
            *cfg,
            *policy,
        ),
        count_at(r@.skip(1), 1) == branch_count(0, root_entropy as int, *cfg),
        matches_shape(r@.skip(1), shape_below(0, root_entropy as int, *cfg, *policy)),
{
    let root = origin_node(session_id, root_entropy);
    let mut sub = generate(session_id, Some(&root), 0, root_entropy, cfg, policy);
    let ghost t = sub@;
    let ghost root_ghost = root;
    let mut out: Vec<MatrixNode> = Vec::new();
    out.push(root);
    out.append(&mut sub);
    proof {
        assert(out@ == seq![root_ghost] + t);
        assert(out@[0] == root_ghost);
        assert(out@.skip(1) =~= t);
    }
    out
}

/// The placeholder fitness the proxy records for provider content until a
/// real evaluator exists.
#[derive(Clone, Copy, Debug, PartialEq, Eq, Structural)]
pub struct FitnessScore {
    pub coherence: u32,
    pub hallucination_risk: u32,
}

pub fn evaluate_fitness(_content: &str) -> (r: FitnessScore)
    ensures
        r == (FitnessScore { coherence: 85, hallucination_risk: 12 }),
{
    FitnessScore { coherence: 85, hallucination_risk: 12 }
}

/// The seed entropy a stored provider node starts with: one hundredth of a
/// unit for every ten bytes of content, the fixed-point counterpart of
/// dividing the byte length by a thousand.
pub fn content_entropy(content: &str) -> (r: u32)
    ensures
        r == if content.spec_bytes().len() / 10 > 0xffff_ffff {
            0xffff_ffffu32 as int
        } else {
            content.spec_bytes().len() as int / 10
        },
{
    let bytes = content.as_bytes();
    let n = bytes.len();
    proof {
        broadcast use vstd::slice::axiom_spec_len;
        assert(n == content.spec_bytes().len());
    }
    let tenth = n / 10;
    if tenth > 0xffff_ffff {
        0xffff_ffff
    } else {
        tenth as u32
    }
}

/// The inbound generation request, as plain values: the chat turns, an
/// optional session to continue, a mode name, and a depth override.
pub struct ChatRequest {
    pub messages: Vec<Message>,
    pub session_id: Option<u128>,
    pub mode: Option<String>,
    pub max_depth: Option<u32>,
}

/// The session a request belongs to: the one it names, or a fresh one.
pub fn session_of(requested: Option<u128>) -> (r: u128)
    ensures
        requested is Some ==> r == requested->0,
{
    match requested {
        Some(v) => v,
        None => fresh_id(),
    }
}

/// The caller-facing summary of one generated session: its identifiers,
/// the reality grouping touched, and the canned response fitness the
/// service reports.
pub struct ChatResponse {
    pub session_id: u128,
    pub content: String,
    pub reality_ids: Vec<u128>,
    pub root_node_id: u128,
    pub fitness: FitnessScores,
}

pub fn summarize(tree: &Vec<MatrixNode>) -> (r: ChatResponse)
    requires
        tree@.len() >= 1,
        tree@[0].reality_id is Some,
    ensures
        r.session_id == tree@[0].session_id,
        r.root_node_id == tree@[0].id,
        r.reality_ids@ == seq![tree@[0].reality_id->0],
        r.fitness == (FitnessScores {
            coherence: 95,
            hallucination_risk: 5,
            latency_ms: Some(2500u64),
            cost_tokens: None,
            entropy: None,
        }),
        r.content@
            == "\u{1f30c} Abyssal Nexus v2 MVP: Recursive tree generated with Matrix X persistence and sealing."@,
{
    let rid = match tree[0].reality_id {
        Some(v) => v,
        None => 0,
    };
    let mut reality_ids: Vec<u128> = Vec::new();
    reality_ids.push(rid);
    proof {
        assert(reality_ids@ =~= seq![tree@[0].reality_id->0]);
    }
    ChatResponse {
        session_id: tree[0].session_id,
        root_node_id: tree[0].id,
        reality_ids,
        fitness: FitnessScores {
            coherence: 95,
            hallucination_risk: 5,
            latency_ms: Some(2500),
            cost_tokens: None,
            entropy: None,
        },
        content: String::from_str(
            "\u{1f30c} Abyssal Nexus v2 MVP: Recursive tree generated with Matrix X persistence and sealing.",
        ),
    }
}

}
