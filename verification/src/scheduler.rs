use vstd::prelude::*;

verus! {

/// The knobs of the recursive expansion. `entropy_decay` is in fixed-point
/// hundredths, like every entropy value.
pub struct AbyssalConfig {
    pub max_depth: u32,
    pub base_branch_factor: u32,
    pub entropy_decay: u32,
}

pub open spec fn default_config() -> AbyssalConfig {
    AbyssalConfig { max_depth: 6, base_branch_factor: 3, entropy_decay: 8 }
}

impl Default for AbyssalConfig {
    fn default() -> (r: Self)
        ensures
            r == default_config(),
    {
        AbyssalConfig { max_depth: 6, base_branch_factor: 3, entropy_decay: 8 }
    }
}

/// Entropy after one decay step, clamped at zero so the budget never goes
/// negative.
pub open spec fn decayed(e: int, d: int) -> int {
    if e >= d {
        e - d
    } else {
        0
    }
}

/// The entropy every child of a node with entropy `e` receives.
pub open spec fn child_entropy(e: int, cfg: AbyssalConfig) -> int {
    decayed(e, cfg.entropy_decay as int)
}

/// How many children a node at `depth` with entropy `entropy` receives:
/// none once the depth ceiling is reached, the budget is exhausted or the
/// branch factor degenerates; otherwise the ceiling of branch factor times
/// entropy, floored at one, so branching narrows as entropy decays but
/// never vanishes while expansion is permitted at all.
pub open spec fn branch_count(depth: int, entropy: int, cfg: AbyssalConfig) -> int {
    if depth >= cfg.max_depth || entropy <= 0 || cfg.base_branch_factor <= 0 {
        0
    } else {
        let c = (cfg.base_branch_factor * entropy + 99) / 100;
        if c >= 1 {
            c
        } else {
            1
        }
    }
}

pub fn decayed_entropy(entropy: u32, decay: u32) -> (r: u32)
    ensures
        r == decayed(entropy as int, decay as int),
{
    if entropy >= decay {
        entropy - decay
    } else {
        0
    }
}

/// The scheduler's sizing decision for one node, as executable arithmetic.
pub fn child_count(depth: u32, entropy: u32, cfg: &AbyssalConfig) -> (n: u64)
    ensures
        n as int == branch_count(depth as int, entropy as int, *cfg),
{
    if depth >= cfg.max_depth || entropy == 0 || cfg.base_branch_factor == 0 {
        return 0;
    }
    assert((cfg.base_branch_factor as int) * (entropy as int) <= 0xffff_ffff * 0xffff_ffff)
        by (nonlinear_arith)
        requires
            cfg.base_branch_factor <= 0xffff_ffffu32,
            entropy <= 0xffff_ffffu32,
    ;
    let product: u64 = (cfg.base_branch_factor as u64) * (entropy as u64);
    let c = (product + 99) / 100;
    if c >= 1 {
        c
    } else {
        1
    }
}

}
