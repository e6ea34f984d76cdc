//! The control policy of the colour integrator.
//!
//! A path is traced as a loop over a running colour that starts white. Each
//! round tests the ray against the scene and takes one [`PathStep`]:
//! - a miss: the ray escapes, the running colour is multiplied by the
//!   background seen along it, and the path ends;
//! - a hit below the depth limit: the ray scatters, the running colour is
//!   multiplied by the material's albedo, and the path goes one bounce deeper;
//! - a hit at the depth limit: the path ends with the running colour as it is.
use vstd::prelude::*;

verus! {

/// The depth limit that the renderer uses.
pub const MAXIMUM_RECURSION_DEPTH: u32 = 50;

/// What the integrator does after one intersection test.
#[derive(Clone, Copy, Debug, PartialEq, Eq, Structural)]
pub enum PathStep {
    /// Scatter at the hit, attenuate by the hit material's albedo, and trace
    /// the scattered ray at `depth`.
    Scatter { depth: u32 },
    /// Nothing was hit: attenuate by the background along the ray and stop.
    Escape,
    /// The depth budget is spent: stop with the colour accumulated so far.
    Exhausted,
}

/// The step taken at `depth` after a test that found a hit (`hit`) or not.
pub open spec fn step_of(hit: bool, depth: int, max_depth: int) -> PathStep {
    if !hit {
        PathStep::Escape
    } else if depth < max_depth {
        PathStep::Scatter { depth: (depth + 1) as u32 }
    } else {
        PathStep::Exhausted
    }
}

/// The number of bounces that a path starting at `depth` takes, when its
/// successive intersection tests report `hits`.
pub open spec fn bounces(hits: Seq<bool>, depth: int, max_depth: int) -> nat
    decreases hits.len(),
{
    if hits.len() > 0 && step_of(hits[0], depth, max_depth) is Scatter {
        1 + bounces(hits.drop_first(), depth + 1, max_depth)
    } else {
        0
    }
}

/// Decides what follows an intersection test at `depth`.
pub fn path_step(hit: bool, depth: u32, max_depth: u32) -> (s: PathStep)
    ensures
        s == step_of(hit, depth as int, max_depth as int),
        !hit ==> s == PathStep::Escape,
        hit && depth < max_depth ==> s == (PathStep::Scatter { depth: (depth + 1) as u32 }),
        hit && depth >= max_depth ==> s == PathStep::Exhausted,
{
    if !hit {
        PathStep::Escape
    } else if depth < max_depth {
        PathStep::Scatter { depth: depth + 1 }
    } else {
        PathStep::Exhausted
    }
}

/// A path that starts at `depth` makes at most `max_depth - depth` bounces,
/// whatever its intersection tests report, so tracing always terminates.
pub proof fn lemma_bounces_bounded(hits: Seq<bool>, depth: int, max_depth: int)
    requires
        0 <= depth <= max_depth,
    ensures
        bounces(hits, depth, max_depth) <= max_depth - depth,
    decreases hits.len(),
{
    if hits.len() > 0 && step_of(hits[0], depth, max_depth) is Scatter {
        lemma_bounces_bounded(hits.drop_first(), depth + 1, max_depth);
    }
}

/// A path that hits something at every test spends its whole budget: it
/// makes exactly `max_depth - depth` bounces before the limit stops it.
pub proof fn lemma_endless_hits_reach_the_limit(hits: Seq<bool>, depth: int, max_depth: int)
    requires
        0 <= depth <= max_depth,
        hits.len() > max_depth - depth,
        forall|j: int| 0 <= j < hits.len() ==> hits[j],
    ensures
        bounces(hits, depth, max_depth) == max_depth - depth,
        step_of(hits[max_depth - depth], max_depth, max_depth) == PathStep::Exhausted,
    decreases hits.len(),
{
    if depth < max_depth {
        let rest = hits.drop_first();
        assert forall|j: int| 0 <= j < rest.len() implies rest[j] by {
            assert(rest[j] == hits[j + 1]);
        }
        lemma_endless_hits_reach_the_limit(rest, depth + 1, max_depth);
        assert(rest[max_depth - depth - 1] == hits[max_depth - depth]);
    }
}

/// With no depth allowed, a path never scatters: a primary ray that hits
/// keeps the colour the path started with, and one that misses takes the
/// background, whatever the scene.
pub proof fn lemma_zero_depth_never_scatters(hits: Seq<bool>)
    ensures
        bounces(hits, 0, 0) == 0,
        step_of(true, 0, 0) == PathStep::Exhausted,
        step_of(false, 0, 0) == PathStep::Escape,
{
}

} // verus!
