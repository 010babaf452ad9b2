use vstd::prelude::*;
use crate::node::{default_fitness, MatrixNode, NodeType};
use crate::numfmt::{dec_digits, score_text, score_string, u32_text, u64_text};
use crate::policy::{evaluate_seal, seal_fires, seal_reason, SealPolicy};
use crate::scheduler::{branch_count, child_count, child_entropy, decayed_entropy, AbyssalConfig};

verus! {

/// The descriptive content attached to the k-th sibling generated at
/// `depth` with entropy `e`, fixing generation order for reproducibility.
pub open spec fn content_text(depth: nat, e: nat, k: nat) -> Seq<char> {
    "Node d="@ + dec_digits(depth) + " e="@ + score_text(e) + " #"@ + dec_digits(k)
}

fn make_content(depth: u32, e: u32, k: u64) -> (s: String)
    ensures
        s@ == content_text(depth as nat, e as nat, k as nat),
{
    let mut s = String::from_str("Node d=");
    let d = u32_text(depth);
    s.append(d.as_str());
    s.append(" e=");
    let et = score_string(e);
    s.append(et.as_str());
    s.append(" #");
    let kt = u64_text(k);
    s.append(kt.as_str());
    s
}

/// What holds of every node the engine emits: its lineage tags, its default
/// fitness, a seal that reflects exactly the policy's verdict on default
/// fitness, and a content string encoding its own depth, entropy and
/// sibling index.
#[verifier::opaque]
pub open spec fn node_meta_ok(
    n: MatrixNode,
    session: u128,
    cfg: AbyssalConfig,
    policy: SealPolicy,
) -> bool {
    &&& n.session_id == session
    &&& n.node_type == NodeType::Recursive
    &&& n.fitness == default_fitness()
    &&& n.provider_id is None
    &&& n.seal.sealed == seal_fires(default_fitness(), policy)
    &&& (n.seal.sealed ==> n.seal.reason.deep_view() == Some(
        seal_reason(default_fitness(), policy),
    ) && n.seal.triggered_at is Some)
    &&& (!n.seal.sealed ==> n.seal.reason is None && n.seal.triggered_at is None)
    &&& n.content is Some
    &&& exists|k: nat|
        n.content->0@ == #[trigger] content_text(n.depth as nat, n.entropy_value as nat, k)
}

/// Index `j` holds the parent of the node at index `i`: one level shallower,
/// unsealed (a sealed node is never expanded), and the child carries the
/// parent's identifier, its reality tag, and its entropy less one decay
/// step.
pub open spec fn parent_witness(s: Seq<MatrixNode>, j: int, i: int, cfg: AbyssalConfig) -> bool {
    &&& 0 <= j < i < s.len()
    &&& s[j].depth + 1 == s[i].depth
    &&& !s[j].seal.sealed
    &&& s[i].parent_id == Some(s[j].id)
    &&& s[i].entropy_value == child_entropy(s[j].entropy_value as int, cfg)
    &&& s[i].reality_id == s[j].reality_id
}

/// The shape of a generated subtree below a parent at depth `d0` with
/// entropy `e0`: a pre-order listing in which depth steps up by at most one,
/// never past a sealed node, every node at depth `d0 + 1` hangs off the
/// given parent, and every deeper node has an earlier parent in the listing
/// with the entropy-decay relation along the edge.
pub open spec fn subtree_ok(
    s: Seq<MatrixNode>,
    session: u128,
    d0: int,
    e0: int,
    pid: Option<u128>,
    rid: Option<u128>,
    cfg: AbyssalConfig,
    policy: SealPolicy,
) -> bool {
    &&& forall|i: int| 0 <= i < s.len() ==> node_meta_ok(#[trigger] s[i], session, cfg, policy)
    &&& forall|i: int| 0 <= i < s.len() ==> d0 + 1 <= #[trigger] s[i].depth <= cfg.max_depth
    &&& forall|i: int|
        0 <= i < s.len() && #[trigger] s[i].depth == d0 + 1 ==> s[i].parent_id == pid
            && s[i].entropy_value == child_entropy(e0, cfg) && s[i].reality_id == rid
    &&& forall|i: int|
        0 <= i < s.len() && #[trigger] s[i].depth > d0 + 1 ==> exists|j: int|
            parent_witness(s, j, i, cfg)
    &&& (s.len() > 0 ==> s[0].depth == d0 + 1)
    &&& forall|i: int| 0 <= i && i + 1 < s.len() ==> #[trigger] s[i + 1].depth <= s[i].depth + 1
    &&& forall|i: int|
        0 <= i && i + 1 < s.len() && s[i].seal.sealed ==> #[trigger] s[i + 1].depth <= s[i].depth
}

/// How many nodes of `s` sit at depth `d`.
pub open spec fn count_at(s: Seq<MatrixNode>, d: int) -> int
    decreases s.len(),
{
    if s.len() == 0 {
        0
    } else {
        count_at(s.drop_last(), d) + if s.last().depth == d {
            1int
        } else {
            0int
        }
    }
}

proof fn lemma_count_at_concat(a: Seq<MatrixNode>, b: Seq<MatrixNode>, d: int)
    ensures
        count_at(a + b, d) == count_at(a, d) + count_at(b, d),
    decreases b.len(),
{
    if b.len() == 0 {
        assert(a + b =~= a);
    } else {
        lemma_count_at_concat(a, b.drop_last(), d);
        assert((a + b).drop_last() =~= a + b.drop_last());
        assert((a + b).last() == b.last());
    }
}

proof fn lemma_count_at_absent(s: Seq<MatrixNode>, d: int)
    requires
        forall|i: int| 0 <= i < s.len() ==> #[trigger] s[i].depth != d,
    ensures
        count_at(s, d) == 0,
    decreases s.len(),
{
    if s.len() > 0 {
        assert(forall|i: int|
            0 <= i < s.drop_last().len() ==> #[trigger] s.drop_last()[i].depth != d);
        lemma_count_at_absent(s.drop_last(), d);
    }
}

/// Appending one more direct child to a well-shaped listing keeps it
/// well shaped and raises the direct-child count by one.
proof fn lemma_subtree_push(
    s: Seq<MatrixNode>,
    n: MatrixNode,
    session: u128,
    d0: int,
    e0: int,
    pid: Option<u128>,
    rid: Option<u128>,
    cfg: AbyssalConfig,
    policy: SealPolicy,
)
    requires
        subtree_ok(s, session, d0, e0, pid, rid, cfg, policy),
        node_meta_ok(n, session, cfg, policy),
        n.depth == d0 + 1,
        d0 + 1 <= cfg.max_depth,
        n.parent_id == pid,
        n.entropy_value == child_entropy(e0, cfg),
        n.reality_id == rid,
    ensures
        subtree_ok(s.push(n), session, d0, e0, pid, rid, cfg, policy),
        count_at(s.push(n), d0 + 1) == count_at(s, d0 + 1) + 1,
{
    let s2 = s.push(n);
    assert(s2[s.len() as int] == n);
    assert forall|i: int| 0 <= i < s2.len() implies node_meta_ok(
        #[trigger] s2[i],
        session,
        cfg,
        policy,
    ) by {
        if i < s.len() {
            assert(s2[i] == s[i]);
        }
    }
    assert forall|i: int| 0 <= i < s2.len() implies d0 + 1 <= #[trigger] s2[i].depth
        <= cfg.max_depth by {
        if i < s.len() {
            assert(s2[i] == s[i]);
        }
    }
    assert forall|i: int|
        0 <= i < s2.len() && #[trigger] s2[i].depth == d0 + 1 implies s2[i].parent_id == pid
        && s2[i].entropy_value == child_entropy(e0, cfg) && s2[i].reality_id == rid by {
        if i < s.len() {
            assert(s2[i] == s[i]);
        }
    }
    assert forall|i: int|
        0 <= i < s2.len() && #[trigger] s2[i].depth > d0 + 1 implies exists|j: int|
        parent_witness(s2, j, i, cfg) by {
        assert(s2[i] == s[i]);
        let j = choose|j: int| parent_witness(s, j, i, cfg);
        assert(parent_witness(s, j, i, cfg));
        assert(s2[j] == s[j]);
        assert(parent_witness(s2, j, i, cfg));
    }
    assert forall|i: int| 0 <= i && i + 1 < s2.len() implies #[trigger] s2[i + 1].depth <= s2[i].depth
        + 1 by {
        if i + 1 < s.len() {
            assert(s2[i] == s[i] && s2[i + 1] == s[i + 1]);
        } else {
            assert(s2[i] == s[i] && s2[i + 1] == n);
            assert(s[i].depth >= d0 + 1);
        }
    }
    assert forall|i: int|
        0 <= i && i + 1 < s2.len() && s2[i].seal.sealed implies #[trigger] s2[i + 1].depth
        <= s2[i].depth by {
        if i + 1 < s.len() {
            assert(s2[i] == s[i] && s2[i + 1] == s[i + 1]);
        } else {
            assert(s2[i] == s[i] && s2[i + 1] == n);
            assert(s[i].depth >= d0 + 1);
        }
    }
    assert(count_at(s2, d0 + 1) == count_at(s, d0 + 1) + 1) by {
        assert(s2.drop_last() =~= s);
        assert(s2.last() == n);
    }
}

proof fn lemma_append_pointwise(
    s: Seq<MatrixNode>,
    t: Seq<MatrixNode>,
    session: u128,
    d0: int,
    e0: int,
    pid: Option<u128>,
    rid: Option<u128>,
    cfg: AbyssalConfig,
    policy: SealPolicy,
)
    requires
        subtree_ok(s, session, d0, e0, pid, rid, cfg, policy),
        s.len() > 0,
        s.last().depth == d0 + 1,
        !s.last().seal.sealed,
        subtree_ok(
            t,
            session,
            d0 + 1,
            s.last().entropy_value as int,
            Some(s.last().id),
            s.last().reality_id,
            cfg,
            policy,
        ),
    ensures
        forall|i: int|
            0 <= i < (s + t).len() ==> node_meta_ok(#[trigger] (s + t)[i], session, cfg, policy),
        forall|i: int| 0 <= i < (s + t).len() ==> d0 + 1 <= #[trigger] (s + t)[i].depth
            <= cfg.max_depth,
        forall|i: int|
            0 <= i < (s + t).len() && #[trigger] (s + t)[i].depth == d0 + 1 ==> (s
                + t)[i].parent_id == pid && (s + t)[i].entropy_value == child_entropy(e0, cfg) && (s
                + t)[i].reality_id == rid,
{
    let s3 = s + t;
    assert forall|i: int| 0 <= i < s3.len() implies node_meta_ok(
        #[trigger] s3[i],
        session,
        cfg,
        policy,
    ) by {
        if i < s.len() {
            assert(s3[i] == s[i]);
        } else {
            assert(s3[i] == t[i - s.len()]);
        }
    }
    assert forall|i: int| 0 <= i < s3.len() implies d0 + 1 <= #[trigger] s3[i].depth
        <= cfg.max_depth by {
        if i < s.len() {
            assert(s3[i] == s[i]);
        } else {
            assert(s3[i] == t[i - s.len()]);
        }
    }
    assert forall|i: int|
        0 <= i < s3.len() && #[trigger] s3[i].depth == d0 + 1 implies s3[i].parent_id == pid
        && s3[i].entropy_value == child_entropy(e0, cfg) && s3[i].reality_id == rid by {
        if i < s.len() {
            assert(s3[i] == s[i]);
        } else {
            assert(s3[i] == t[i - s.len()]);
            assert(t[i - s.len()].depth >= d0 + 2);
        }
    }
}

proof fn lemma_append_witness(
    s: Seq<MatrixNode>,
    t: Seq<MatrixNode>,
    session: u128,
    d0: int,
    e0: int,
    pid: Option<u128>,
    rid: Option<u128>,
    cfg: AbyssalConfig,
    policy: SealPolicy,
)
    requires
        subtree_ok(s, session, d0, e0, pid, rid, cfg, policy),
        s.len() > 0,
        s.last().depth == d0 + 1,
        !s.last().seal.sealed,
        subtree_ok(
            t,
            session,
            d0 + 1,
            s.last().entropy_value as int,
            Some(s.last().id),
            s.last().reality_id,
            cfg,
            policy,
        ),
    ensures
        forall|i: int|
            0 <= i < (s + t).len() && #[trigger] (s + t)[i].depth > d0 + 1 ==> exists|j: int|
                parent_witness(s + t, j, i, cfg),
{
    let s3 = s + t;
    let m = s.len() - 1;
    assert(s3[m] == s[m]);
    assert forall|i: int|
        0 <= i < s3.len() && #[trigger] s3[i].depth > d0 + 1 implies exists|j: int|
        parent_witness(s3, j, i, cfg) by {
        if i < s.len() {
            assert(s3[i] == s[i]);
            let j = choose|j: int| parent_witness(s, j, i, cfg);
            assert(parent_witness(s, j, i, cfg));
            assert(s3[j] == s[j]);
            assert(parent_witness(s3, j, i, cfg));
        } else {
            let ti = i - s.len();
            assert(s3[i] == t[ti]);
            if t[ti].depth == d0 + 2 {
                assert(parent_witness(s3, m, i, cfg));
            } else {
                assert(t[ti].depth > d0 + 2);
                let jt = choose|j: int| parent_witness(t, j, ti, cfg);
                assert(parent_witness(t, jt, ti, cfg));
                assert(s3[s.len() + jt] == t[jt]);
                assert(parent_witness(s3, s.len() + jt, i, cfg));
            }
        }
    }
}

proof fn lemma_append_steps(
    s: Seq<MatrixNode>,
    t: Seq<MatrixNode>,
    session: u128,
    d0: int,
    e0: int,
    pid: Option<u128>,
    rid: Option<u128>,
    cfg: AbyssalConfig,
    policy: SealPolicy,
)
    requires
        subtree_ok(s, session, d0, e0, pid, rid, cfg, policy),
        s.len() > 0,
        s.last().depth == d0 + 1,
        !s.last().seal.sealed,
        subtree_ok(
            t,
            session,
            d0 + 1,
            s.last().entropy_value as int,
            Some(s.last().id),
            s.last().reality_id,
            cfg,
            policy,
        ),
    ensures
        forall|i: int| 0 <= i && i + 1 < (s + t).len() ==> #[trigger] (s + t)[i + 1].depth <= (s
            + t)[i].depth + 1,
        forall|i: int|
            0 <= i && i + 1 < (s + t).len() && (s + t)[i].seal.sealed ==> #[trigger] (s + t)[i
                + 1].depth <= (s + t)[i].depth,
{
    let s3 = s + t;
    assert forall|i: int| 0 <= i && i + 1 < s3.len() implies #[trigger] s3[i + 1].depth <= s3[i].depth
        + 1 by {
        if i + 1 < s.len() {
            assert(s3[i] == s[i] && s3[i + 1] == s[i + 1]);
        } else if i + 1 == s.len() {
            assert(s3[i] == s[i]);
            assert(s[i] == s.last());
            assert(t.len() > 0);
            assert(s3[i + 1] == t[0]);
            assert(t[0].depth == d0 + 2);
        } else {
            let ti = i - s.len();
            assert(s3[i] == t[ti]);
            assert(s3[i + 1] == t[ti + 1]);
            assert(t[ti + 1].depth <= t[ti].depth + 1);
        }
    }
    assert forall|i: int|
        0 <= i && i + 1 < s3.len() && s3[i].seal.sealed implies #[trigger] s3[i + 1].depth
        <= s3[i].depth by {
        if i + 1 < s.len() {
            assert(s3[i] == s[i] && s3[i + 1] == s[i + 1]);
        } else if i + 1 == s.len() {
            assert(s3[i] == s[i]);
            assert(s[i] == s.last());
            assert(!s.last().seal.sealed);
        } else {
            let ti = i - s.len();
            assert(s3[i] == t[ti]);
            assert(s3[i + 1] == t[ti + 1]);
            if t[ti].seal.sealed {
                assert(t[ti + 1].depth <= t[ti].depth);
            }
        }
    }
}

/// Splicing an unsealed child's own well-shaped subtree right after it
/// keeps the listing well shaped and leaves the direct-child count alone:
/// every spliced node is strictly deeper.
proof fn lemma_subtree_append(
    s: Seq<MatrixNode>,
    t: Seq<MatrixNode>,
    session: u128,
    d0: int,
    e0: int,
    pid: Option<u128>,
    rid: Option<u128>,
    cfg: AbyssalConfig,
    policy: SealPolicy,
)
    requires
        subtree_ok(s, session, d0, e0, pid, rid, cfg, policy),
        s.len() > 0,
        s.last().depth == d0 + 1,
        !s.last().seal.sealed,
        subtree_ok(
            t,
            session,
            d0 + 1,
            s.last().entropy_value as int,
            Some(s.last().id),
            s.last().reality_id,
            cfg,
            policy,
        ),
    ensures
        subtree_ok(s + t, session, d0, e0, pid, rid, cfg, policy),
        count_at(s + t, d0 + 1) == count_at(s, d0 + 1),
{
    let s3 = s + t;
    lemma_append_pointwise(s, t, session, d0, e0, pid, rid, cfg, policy);
    lemma_append_witness(s, t, session, d0, e0, pid, rid, cfg, policy);
    lemma_append_steps(s, t, session, d0, e0, pid, rid, cfg, policy);
    assert(s3[0] == s[0]);
    assert(count_at(s3, d0 + 1) == count_at(s, d0 + 1)) by {
        lemma_count_at_concat(s, t, d0 + 1);
        assert forall|i: int| 0 <= i < t.len() implies #[trigger] t[i].depth != d0 + 1 by {
            assert(t[i].depth >= d0 + 2);
        }
        lemma_count_at_absent(t, d0 + 1);
    }
}

/// The deterministic skeleton of the subtree below a parent at depth `d0`
/// with entropy `e0`, limited to its first `k` broods: each entry is one
/// node's (depth, entropy), in emission order. Every node the engine makes
/// carries default fitness, so whether a brood seals depends on the policy
/// alone and the whole skeleton is fixed by the parent's depth and entropy.
pub open spec fn shape_children(
    k: int,
    d0: int,
    e0: int,
    cfg: AbyssalConfig,
    policy: SealPolicy,
) -> Seq<(int, int)>
    decreases cfg.max_depth - d0, k,
{
    if k <= 0 || d0 >= cfg.max_depth {
        Seq::empty()
    } else {
        let ec = child_entropy(e0, cfg);
        let sub = if seal_fires(default_fitness(), policy) {
            Seq::<(int, int)>::empty()
        } else {
            shape_children(branch_count(d0 + 1, ec, cfg), d0 + 1, ec, cfg, policy)
        };
        shape_children(k - 1, d0, e0, cfg, policy) + seq![(d0 + 1, ec)] + sub
    }
}

/// The full skeleton below a parent at depth `d0` with entropy `e0`: from
/// it every node's depth and entropy, each node's direct-child count, and
/// the totals of any scenario follow by unfolding.
pub open spec fn shape_below(d0: int, e0: int, cfg: AbyssalConfig, policy: SealPolicy) -> Seq<
    (int, int),
> {
    shape_children(branch_count(d0, e0, cfg), d0, e0, cfg, policy)
}

/// Whether a listing realizes a skeleton: same length, and each node sits
/// at the skeleton's depth with the skeleton's entropy.
pub open spec fn matches_shape(s: Seq<MatrixNode>, sh: Seq<(int, int)>) -> bool {
    &&& s.len() == sh.len()
    &&& forall|i: int|
        0 <= i < s.len() ==> #[trigger] s[i].depth == sh[i].0 && s[i].entropy_value == sh[i].1
}

proof fn lemma_matches_concat(
    a: Seq<MatrixNode>,
    b: Seq<MatrixNode>,
    sa: Seq<(int, int)>,
    sb: Seq<(int, int)>,
)
    requires
        matches_shape(a, sa),
        matches_shape(b, sb),
    ensures
        matches_shape(a + b, sa + sb),
{
    assert forall|i: int|
        0 <= i < (a + b).len() implies #[trigger] (a + b)[i].depth == (sa + sb)[i].0 && (a
        + b)[i].entropy_value == (sa + sb)[i].1 by {
        if i < a.len() {
            assert((a + b)[i] == a[i]);
            assert((sa + sb)[i] == sa[i]);
            assert(a[i].depth == sa[i].0 && a[i].entropy_value == sa[i].1);
        } else {
            let j = i - a.len();
            assert((a + b)[i] == b[j]);
            assert(sa.len() == a.len());
            assert((sa + sb)[i] == sb[j]);
            assert(b[j].depth == sb[j].0 && b[j].entropy_value == sb[j].1);
        }
    }
}

proof fn lemma_cut(s: Seq<MatrixNode>, i: int, j: int)
    requires
        0 <= i < j <= s.len(),
        forall|k: int| i < k < j ==> #[trigger] s[k].depth > s[i].depth,
    ensures
        exists|e: int|
            i < e <= s.len() && (forall|k: int| i < k < e ==> #[trigger] s[k].depth > s[i].depth)
                && (e < s.len() ==> s[e].depth <= s[i].depth),
    decreases s.len() - j,
{
    if j == s.len() {
        assert(i < j <= s.len() && (forall|k: int| i < k < j ==> #[trigger] s[k].depth
            > s[i].depth) && (j < s.len() ==> s[j].depth <= s[i].depth));
    } else if s[j].depth <= s[i].depth {
        assert(i < j <= s.len() && (forall|k: int| i < k < j ==> #[trigger] s[k].depth
            > s[i].depth) && (j < s.len() ==> s[j].depth <= s[i].depth));
    } else {
        lemma_cut(s, i, j + 1);
    }
}

/// The pre-order invariant: in a well-shaped listing, everything belonging
/// to the subtree of the node at index `i` stands in one contiguous run
/// right after `i` — there is a cut `e` with only strictly deeper nodes
/// between `i` and `e`, and the node at `e`, if any, no deeper than the
/// node itself (its next sibling, or an ancestor's).
pub proof fn lemma_preorder_contiguous(
    s: Seq<MatrixNode>,
    session: u128,
    d0: int,
    e0: int,
    pid: Option<u128>,
    rid: Option<u128>,
    cfg: AbyssalConfig,
    policy: SealPolicy,
    i: int,
)
    requires
        subtree_ok(s, session, d0, e0, pid, rid, cfg, policy),
        0 <= i < s.len(),
    ensures
        exists|e: int|
            i < e <= s.len() && (forall|k: int| i < k < e ==> #[trigger] s[k].depth > s[i].depth)
                && (e < s.len() ==> s[e].depth <= s[i].depth),
{
    lemma_cut(s, i, i + 1);
}

/// No expansion past a seal: in a well-shaped listing a sealed node's
/// subtree run is empty — whatever follows it is no deeper, so it
/// contributes zero descendants to the output.
pub proof fn lemma_sealed_no_descendants(
    s: Seq<MatrixNode>,
    session: u128,
    d0: int,
    e0: int,
    pid: Option<u128>,
    rid: Option<u128>,
    cfg: AbyssalConfig,
    policy: SealPolicy,
    i: int,
)
    requires
        subtree_ok(s, session, d0, e0, pid, rid, cfg, policy),
        0 <= i < s.len(),
        s[i].seal.sealed,
    ensures
        i + 1 < s.len() ==> s[i + 1].depth <= s[i].depth,
        forall|j: int| 0 <= j < s.len() ==> !parent_witness(s, i, j, cfg),
{
}

/// Depth-first expansion below a parent at `depth` with entropy `entropy`.
/// The scheduler sizes the brood from the parent's undecayed entropy; each
/// child receives the decayed entropy, is judged by the seal policy, and is
/// expanded in turn only if it did not seal, its whole subtree following it
/// before the next sibling.
pub fn generate(
    session_id: u128,
    parent: Option<&MatrixNode>,
    depth: u32,
    entropy: u32,
    cfg: &AbyssalConfig,
    policy: &SealPolicy,
) -> (r: Vec<MatrixNode>)
    requires
        parent is Some ==> parent->0.depth == depth && parent->0.entropy_value == entropy,
    ensures
        subtree_ok(
            r@,
            session_id,
            depth as int,
            entropy as int,
            if parent is Some {
                Some(parent->0.id)
            } else {
                None
            },
            if parent is Some {
                parent->0.reality_id
            } else {
                None
            },
            *cfg,
            *policy,
        ),
        count_at(r@, depth as int + 1) == branch_count(depth as int, entropy as int, *cfg),
        r@.len() > 0 <==> branch_count(depth as int, entropy as int, *cfg) > 0,
        matches_shape(r@, shape_below(depth as int, entropy as int, *cfg, *policy)),
    decreases cfg.max_depth - depth,
{
    let mut out: Vec<MatrixNode> = Vec::new();
    if depth >= cfg.max_depth || entropy == 0 || cfg.base_branch_factor == 0 {
        proof {
            assert(matches_shape(out@, shape_below(depth as int, entropy as int, *cfg, *policy)));
        }
        return out;
    }
    let count = child_count(depth, entropy, cfg);
    let ec = decayed_entropy(entropy, cfg.entropy_decay);
    let pid: Option<u128> = match parent {
        Some(p) => Some(p.id),
        None => None,
    };
    let rid: Option<u128> = match parent {
        Some(p) => p.reality_id,
        None => None,
    };
    let mut k: u64 = 0;
    while k < count
        invariant
            subtree_ok(out@, session_id, depth as int, entropy as int, pid, rid, *cfg, *policy),
            count_at(out@, depth as int + 1) == k as int,
            matches_shape(
                out@,
                shape_children(k as int, depth as int, entropy as int, *cfg, *policy),
            ),
            k <= count,
            count as int == branch_count(depth as int, entropy as int, *cfg),
            count > 0,
            depth < cfg.max_depth,
            entropy > 0,
            ec as int == child_entropy(entropy as int, *cfg),
            pid == if parent is Some {
                Some(parent->0.id)
            } else {
                None::<u128>
            },
            rid == if parent is Some {
                parent->0.reality_id
            } else {
                None::<u128>
            },
        decreases count - k,
    {
        let ghost s1 = out@;
        let mut node = MatrixNode::new(session_id, NodeType::Recursive, pid, depth + 1, ec);
        node.reality_id = rid;
        let mut evaluated = evaluate_seal(node, policy);
        evaluated.content = Some(make_content(depth + 1, ec, k));
        let sealed = evaluated.seal.sealed;
        let ghost ev = evaluated;
        proof {
            reveal(node_meta_ok);
            assert(ev.content->0@ == content_text(
                ev.depth as nat,
                ev.entropy_value as nat,
                k as nat,
            ));
            assert(node_meta_ok(ev, session_id, *cfg, *policy));
        }
        out.push(evaluated);
        proof {
            lemma_subtree_push(
                s1,
                ev,
                session_id,
                depth as int,
                entropy as int,
                pid,
                rid,
                *cfg,
                *policy,
            );
            assert(out@ == s1.push(ev));
        }
        if !sealed {
            let ghost s2 = out@;
            let idx = out.len() - 1;
            proof {
                assert(out@[idx as int] == ev);
            }
            let mut sub = generate(session_id, Some(&out[idx]), depth + 1, ec, cfg, policy);
            let ghost t = sub@;
            out.append(&mut sub);
            proof {
                assert(s2.last() == ev);
                lemma_subtree_append(
                    s2,
                    t,
                    session_id,
                    depth as int,
                    entropy as int,
                    pid,
                    rid,
                    *cfg,
                    *policy,
                );
                assert(out@ == s2 + t);
                let shc_k = shape_children(
                    k as int,
                    depth as int,
                    entropy as int,
                    *cfg,
                    *policy,
                );
                let child_sh = seq![(depth as int + 1, ec as int)];
                assert(!seal_fires(default_fitness(), *policy));
                let sub_sh = shape_children(
                    branch_count(depth as int + 1, ec as int, *cfg),
                    depth as int + 1,
                    ec as int,
                    *cfg,
                    *policy,
                );
                assert(shape_children(
                    k as int + 1,
                    depth as int,
                    entropy as int,
                    *cfg,
                    *policy,
                ) == shc_k + child_sh + sub_sh);
                assert(matches_shape(seq![ev], child_sh)) by {
                    assert(seq![ev][0] == ev);
                }
                lemma_matches_concat(s1, seq![ev], shc_k, child_sh);
                assert(s2 =~= s1 + seq![ev]);
                assert(matches_shape(t, sub_sh));
                lemma_matches_concat(s2, t, shc_k + child_sh, sub_sh);
                assert(matches_shape(
                    out@,
                    shape_children(k as int + 1, depth as int, entropy as int, *cfg, *policy),
                ));
            }
        } else {
            proof {
                let shc_k = shape_children(
                    k as int,
                    depth as int,
                    entropy as int,
                    *cfg,
                    *policy,
                );
                let child_sh = seq![(depth as int + 1, ec as int)];
                assert(seal_fires(default_fitness(), *policy));
                assert(shape_children(
                    k as int + 1,
                    depth as int,
                    entropy as int,
                    *cfg,
                    *policy,
                ) =~= shc_k + child_sh);
                assert(matches_shape(seq![ev], child_sh)) by {
                    assert(seq![ev][0] == ev);
                }
                lemma_matches_concat(s1, seq![ev], shc_k, child_sh);
                assert(out@ =~= s1 + seq![ev]);
                assert(matches_shape(
                    out@,
                    shape_children(k as int + 1, depth as int, entropy as int, *cfg, *policy),
                ));
            }
        }
        k = k + 1;
    }
    proof {
        assert(matches_shape(out@, shape_below(depth as int, entropy as int, *cfg, *policy)));
    }
    out
}

}
