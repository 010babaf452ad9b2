use abyssal_nexus::engine::generate;
use abyssal_nexus::evaluate_seal;
use abyssal_nexus::scheduler::{child_count, decayed_entropy};
use abyssal_nexus::session::{build_session_tree, session_of, summarize};
use abyssal_nexus::AbyssalConfig;
use abyssal_nexus::FitnessScores;
use abyssal_nexus::MatrixNode;
use abyssal_nexus::NodeType;
use abyssal_nexus::SealPolicy;

fn fresh_node(fitness: FitnessScores) -> MatrixNode {
    let mut node = MatrixNode::new(7, NodeType::Recursive, None, 1, 80);
    node.fitness = fitness;
    node
}

fn permissive_policy() -> SealPolicy {
    SealPolicy { max_hallucination_risk: 100, min_coherence: 0, max_latency_ms: None }
}

#[test]
fn test_sealing() {
    let node = fresh_node(FitnessScores { hallucination_risk: 70, ..FitnessScores::default() });
    let sealed = evaluate_seal(node, &SealPolicy::default());
    assert!(sealed.seal.sealed);
}

#[test]
fn default_values() {
    let cfg = AbyssalConfig::default();
    assert_eq!(cfg.max_depth, 6);
    assert_eq!(cfg.base_branch_factor, 3);
    assert_eq!(cfg.entropy_decay, 8);
    let policy = SealPolicy::default();
    assert_eq!(policy.max_hallucination_risk, 60);
    assert_eq!(policy.min_coherence, 30);
    assert_eq!(policy.max_latency_ms, Some(10000));
    let fitness = FitnessScores::default();
    assert_eq!(fitness.coherence, 0);
    assert_eq!(fitness.hallucination_risk, 0);
    assert_eq!(fitness.latency_ms, None);
    assert_eq!(fitness.cost_tokens, None);
    assert_eq!(fitness.entropy, None);
}

#[test]
fn risk_reason_only() {
    let node = fresh_node(FitnessScores {
        hallucination_risk: 70,
        coherence: 50,
        ..FitnessScores::default()
    });
    let sealed = evaluate_seal(node, &SealPolicy::default());
    assert!(sealed.seal.sealed);
    let reason = sealed.seal.reason.unwrap();
    assert_eq!(reason, "hallucination_risk: 0.70 > 0.60");
    assert!(!reason.contains("coherence"));
    assert!(sealed.seal.triggered_at.is_some());
}

#[test]
fn coherence_reason_only() {
    let node = fresh_node(FitnessScores::default());
    let sealed = evaluate_seal(node, &SealPolicy::default());
    assert!(sealed.seal.sealed);
    assert_eq!(sealed.seal.reason.unwrap(), "coherence: 0.00 < 0.30");
}

#[test]
fn all_reasons_in_order() {
    let node = fresh_node(FitnessScores {
        hallucination_risk: 70,
        coherence: 0,
        latency_ms: Some(20000),
        ..FitnessScores::default()
    });
    let sealed = evaluate_seal(node, &SealPolicy::default());
    assert_eq!(
        sealed.seal.reason.unwrap(),
        "hallucination_risk: 0.70 > 0.60, coherence: 0.00 < 0.30, latency_ms: 20000 > 10000"
    );
}

#[test]
fn unsealed_node_unchanged() {
    let node = fresh_node(FitnessScores {
        coherence: 50,
        hallucination_risk: 10,
        latency_ms: Some(100),
        ..FitnessScores::default()
    });
    let copy = node.clone();
    let evaluated = evaluate_seal(node, &SealPolicy::default());
    assert_eq!(evaluated, copy);
    assert!(!evaluated.seal.sealed);
}

#[test]
fn sealing_is_sticky() {
    let node = fresh_node(FitnessScores::default());
    let once = evaluate_seal(node, &SealPolicy::default());
    assert!(once.seal.sealed);
    let copy = once.clone();
    let twice = evaluate_seal(once, &permissive_policy());
    assert_eq!(twice, copy);
    let copy2 = twice.clone();
    let thrice = evaluate_seal(twice, &SealPolicy::default());
    assert_eq!(thrice, copy2);
}

#[test]
fn scheduler_arithmetic() {
    let cfg = AbyssalConfig { max_depth: 2, base_branch_factor: 3, entropy_decay: 50 };
    assert_eq!(child_count(0, 80, &cfg), 3);
    assert_eq!(child_count(1, 30, &cfg), 1);
    assert_eq!(child_count(2, 80, &cfg), 0);
    assert_eq!(child_count(0, 0, &cfg), 0);
    let degenerate = AbyssalConfig { base_branch_factor: 0, ..cfg };
    assert_eq!(child_count(0, 80, &degenerate), 0);
    assert_eq!(decayed_entropy(80, 50), 30);
    assert_eq!(decayed_entropy(30, 50), 0);
    assert_eq!(decayed_entropy(80, 8), 72);
}

fn depths(tree: &[MatrixNode]) -> Vec<u32> {
    tree.iter().map(|n| n.depth).collect()
}

#[test]
fn shallow_scenario_tree() {
    let cfg = AbyssalConfig { max_depth: 2, base_branch_factor: 3, entropy_decay: 50 };
    let tree = build_session_tree(9, 80, &cfg, &permissive_policy());
    assert_eq!(tree.len(), 7);
    assert_eq!(depths(&tree), vec![0, 1, 2, 1, 2, 1, 2]);
    let root = &tree[0];
    assert_eq!(root.node_type, NodeType::Origin);
    assert_eq!(root.parent_id, None);
    assert_eq!(root.entropy_value, 80);
    for node in &tree[1..] {
        assert_eq!(node.node_type, NodeType::Recursive);
        assert_eq!(node.session_id, 9);
        assert!(!node.seal.sealed);
        assert_eq!(node.reality_id, root.reality_id);
        if node.depth == 1 {
            assert_eq!(node.parent_id, Some(root.id));
            assert_eq!(node.entropy_value, 30);
        } else {
            assert_eq!(node.depth, 2);
            assert_eq!(node.entropy_value, 0);
        }
    }
    assert_eq!(tree[1].content.as_deref(), Some("Node d=1 e=0.30 #0"));
    assert_eq!(tree[2].content.as_deref(), Some("Node d=2 e=0.00 #0"));
    assert_eq!(tree[3].content.as_deref(), Some("Node d=1 e=0.30 #1"));
    assert_eq!(tree[5].content.as_deref(), Some("Node d=1 e=0.30 #2"));
    assert_eq!(tree[2].parent_id, Some(tree[1].id));
    assert_eq!(tree[4].parent_id, Some(tree[3].id));
    assert_eq!(tree[6].parent_id, Some(tree[5].id));
}

#[test]
fn entropy_monotone_along_parents() {
    let cfg = AbyssalConfig { max_depth: 4, base_branch_factor: 2, entropy_decay: 25 };
    let tree = build_session_tree(11, 90, &cfg, &permissive_policy());
    for node in &tree[1..] {
        let parent_id = node.parent_id.expect("every generated node has a parent");
        let parent = tree.iter().find(|p| p.id == parent_id).expect("parent is in the output");
        assert!(node.entropy_value <= parent.entropy_value);
        assert_eq!(node.entropy_value, parent.entropy_value.saturating_sub(25));
        assert_eq!(node.depth, parent.depth + 1);
    }
}

#[test]
fn default_policy_seals_first_level() {
    let tree = build_session_tree(3, 80, &AbyssalConfig::default(), &SealPolicy::default());
    assert_eq!(tree.len(), 4);
    for node in &tree[1..] {
        assert_eq!(node.depth, 1);
        assert!(node.seal.sealed);
        assert_eq!(node.seal.reason.as_deref(), Some("coherence: 0.00 < 0.30"));
    }
}

#[test]
fn sealed_nodes_have_no_descendants() {
    let tree = build_session_tree(4, 80, &AbyssalConfig::default(), &SealPolicy::default());
    for window in tree.windows(2) {
        if window[0].seal.sealed {
            assert!(window[1].depth <= window[0].depth);
        }
    }
    let sealed_ids: Vec<u128> =
        tree.iter().filter(|n| n.seal.sealed).map(|n| n.id).collect();
    for node in &tree {
        if let Some(pid) = node.parent_id {
            assert!(!sealed_ids.contains(&pid));
        }
    }
}

#[test]
fn preorder_subtrees_are_contiguous() {
    let cfg = AbyssalConfig { max_depth: 3, base_branch_factor: 2, entropy_decay: 20 };
    let tree = build_session_tree(5, 95, &cfg, &permissive_policy());
    let body = &tree[1..];
    for i in 0..body.len() {
        let mut end = i + 1;
        while end < body.len() && body[end].depth > body[i].depth {
            end += 1;
        }
        for (j, node) in body.iter().enumerate() {
            if let Some(pid) = node.parent_id {
                if pid == body[i].id {
                    assert!(i < j && j < end, "children sit inside the contiguous run");
                }
            }
        }
    }
}

#[test]
fn max_depth_zero_degenerates() {
    let cfg = AbyssalConfig { max_depth: 0, base_branch_factor: 3, entropy_decay: 8 };
    let tree = build_session_tree(6, 80, &cfg, &permissive_policy());
    assert_eq!(tree.len(), 1);
    let direct = generate(6, None, 0, 80, &cfg, &permissive_policy());
    assert!(direct.is_empty());
}

#[test]
fn generation_depth_stays_bounded() {
    let cfg = AbyssalConfig { max_depth: 3, base_branch_factor: 3, entropy_decay: 1 };
    let tree = build_session_tree(8, 80, &cfg, &permissive_policy());
    assert!(tree.iter().all(|n| n.depth <= cfg.max_depth));
    assert!(tree.len() > 1);
}

#[test]
fn summary_reports_root() {
    let tree = build_session_tree(21, 80, &AbyssalConfig::default(), &SealPolicy::default());
    let summary = summarize(&tree);
    assert_eq!(summary.session_id, 21);
    assert_eq!(summary.root_node_id, tree[0].id);
    assert_eq!(summary.reality_ids, vec![tree[0].reality_id.unwrap()]);
    assert_eq!(summary.fitness.coherence, 95);
    assert_eq!(summary.fitness.hallucination_risk, 5);
    assert_eq!(summary.fitness.latency_ms, Some(2500));
    assert_eq!(
        summary.content,
        "\u{1f30c} Abyssal Nexus v2 MVP: Recursive tree generated with Matrix X persistence and sealing."
    );
}

#[test]
fn latency_reason_only() {
    let node = fresh_node(FitnessScores {
        coherence: 90,
        hallucination_risk: 10,
        latency_ms: Some(12000),
        ..FitnessScores::default()
    });
    let sealed = evaluate_seal(node, &SealPolicy::default());
    assert_eq!(sealed.seal.reason.as_deref(), Some("latency_ms: 12000 > 10000"));
    let node = fresh_node(FitnessScores {
        coherence: 90,
        hallucination_risk: 10,
        latency_ms: Some(12000),
        ..FitnessScores::default()
    });
    let unlimited =
        SealPolicy { max_latency_ms: None, ..SealPolicy::default() };
    let evaluated = evaluate_seal(node, &unlimited);
    assert!(!evaluated.seal.sealed);
}

#[test]
fn content_entropy_tracks_length() {
    assert_eq!(abyssal_nexus::session::content_entropy(""), 0);
    assert_eq!(abyssal_nexus::session::content_entropy("123456789"), 0);
    assert_eq!(abyssal_nexus::session::content_entropy("1234567890"), 1);
    assert_eq!(abyssal_nexus::session::content_entropy(&"x".repeat(250)), 25);
    assert_eq!(abyssal_nexus::session::content_entropy(&"\u{00e9}".repeat(10)), 2);
}

#[test]
fn placeholder_fitness() {
    let fitness = abyssal_nexus::evaluate_fitness("anything");
    assert_eq!(fitness.coherence, 85);
    assert_eq!(fitness.hallucination_risk, 12);
}

#[test]
fn session_of_keeps_requested_id() {
    assert_eq!(session_of(Some(42)), 42);
    let a = session_of(None);
    let b = session_of(None);
    assert_ne!(a, b, "fresh sessions draw fresh identifiers");
}
