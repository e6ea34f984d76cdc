//! The decisions of ray-geometry intersection.
//!
//! A sphere test solves `|O + tD - C|^2 = r^2` and accepts a root only when
//! it lies strictly inside the open interval `(t_min, t_max)`. A list of
//! geometries tests its members in order, narrowing `t_max` to the closest hit
//! found so far, so a member reports a hit only when it is closer than every
//! earlier one.
use vstd::prelude::*;

verus! {

/// Which root of a sphere's quadratic an intersection test keeps.
#[derive(Clone, Copy, Debug, PartialEq, Eq, Structural)]
pub enum RootChoice {
    /// The smaller root, `(-b - sqrt(disc)) / a`.
    Nearer,
    /// The larger root, `(-b + sqrt(disc)) / a`.
    Farther,
    /// No root is kept: the ray misses within the interval.
    Miss,
}

/// The root kept, given whether the discriminant is positive and whether
/// each root lies strictly inside the interval.
pub open spec fn root_choice(discriminant_positive: bool, nearer_inside: bool, farther_inside: bool) -> RootChoice {
    if !discriminant_positive {
        RootChoice::Miss
    } else if nearer_inside {
        RootChoice::Nearer
    } else if farther_inside {
        RootChoice::Farther
    } else {
        RootChoice::Miss
    }
}

/// Chooses the root of a sphere test: none when the discriminant is not
/// positive, else the nearer root if it lies inside the interval, else the
/// farther one if it does.
pub fn sphere_root_choice(discriminant_positive: bool, nearer_inside: bool, farther_inside: bool) -> (c: RootChoice)
    ensures
        c == root_choice(discriminant_positive, nearer_inside, farther_inside),
        !discriminant_positive ==> c == RootChoice::Miss,
        discriminant_positive && nearer_inside ==> c == RootChoice::Nearer,
        discriminant_positive && !nearer_inside && farther_inside ==> c == RootChoice::Farther,
        !nearer_inside && !farther_inside ==> c == RootChoice::Miss,
{
    if !discriminant_positive {
        RootChoice::Miss
    } else if nearer_inside {
        RootChoice::Nearer
    } else if farther_inside {
        RootChoice::Farther
    } else {
        RootChoice::Miss
    }
}

/// A ray that starts inside a sphere has its nearer root behind it, outside
/// the interval; when the farther root lies inside, that root is the hit.
pub proof fn lemma_inside_start_takes_farther_root(farther_inside: bool)
    ensures
        root_choice(true, false, farther_inside) == (if farther_inside { RootChoice::Farther } else { RootChoice::Miss }),
{
}

/// The member a scan keeps: the last one that reported a closer hit, if any.
pub open spec fn kept_member(reports: Seq<bool>) -> Option<int>
    decreases reports.len(),
{
    if reports.len() == 0 {
        None
    } else if reports.last() {
        Some(reports.len() - 1)
    } else {
        kept_member(reports.drop_last())
    }
}

/// Picks the hit that a scan over a list of geometries returns, given for
/// each member in order whether it reported a hit closer than all before
/// it: the last such member, or `None` when no member hit.
pub fn nearest_member(reports: &Vec<bool>) -> (r: Option<usize>)
    ensures
        r == (match kept_member(reports@) { Some(i) => Some(i as usize), None => None::<usize> }),
        r is None <==> (forall|j: int| 0 <= j < reports.len() ==> !reports[j]),
        r matches Some(i) ==> i < reports.len() && reports[i as int]
            && forall|j: int| i < j < reports.len() ==> !reports[j],
{
    let mut kept: Option<usize> = None;
    let mut i: usize = 0;
    while i < reports.len()
        invariant
            i <= reports.len(),
            kept == (match kept_member(reports@.subrange(0, i as int)) { Some(k) => Some(k as usize), None => None::<usize> }),
            kept is None <==> (forall|j: int| 0 <= j < i ==> !reports[j]),
            kept matches Some(k) ==> k < i && reports[k as int] && forall|j: int| k < j < i ==> !reports[j],
        decreases reports.len() - i,
    {
        let prefix = Ghost(reports@.subrange(0, i as int + 1));
        assert(prefix@.drop_last() =~= reports@.subrange(0, i as int));
        assert(prefix@.last() == reports[i as int]);
        if reports[i] {
            kept = Some(i);
        }
        i = i + 1;
    }
    assert(reports@.subrange(0, reports.len() as int) =~= reports@);
    kept
}

/// A scan over an empty list of geometries never hits.
pub proof fn lemma_empty_scene_never_hits()
    ensures
        kept_member(Seq::<bool>::empty()) is None,
{
}

} // verus!
