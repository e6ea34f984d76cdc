use raytracer::integrator::{path_step, PathStep, MAXIMUM_RECURSION_DEPTH};

// Runs the step policy over a sequence of intersection results; returns the
// bounces the path makes and the step that ended it, if any did.
fn run_path(hits: &[bool], max_depth: u32) -> (u32, Option<PathStep>) {
    let mut depth: u32 = 0;
    let mut bounces: u32 = 0;
    for &hit in hits {
        match path_step(hit, depth, max_depth) {
            PathStep::Scatter { depth: next } => {
                depth = next;
                bounces += 1;
            }
            end => return (bounces, Some(end)),
        }
    }
    (bounces, None)
}

#[test]
fn hit_below_limit_goes_one_deeper() {
    assert_eq!(path_step(true, 0, MAXIMUM_RECURSION_DEPTH), PathStep::Scatter { depth: 1 });
    assert_eq!(path_step(true, 49, MAXIMUM_RECURSION_DEPTH), PathStep::Scatter { depth: 50 });
}

#[test]
fn miss_escapes_to_the_background() {
    assert_eq!(path_step(false, 0, MAXIMUM_RECURSION_DEPTH), PathStep::Escape);
    assert_eq!(path_step(false, 10, MAXIMUM_RECURSION_DEPTH), PathStep::Escape);
    assert_eq!(path_step(false, 50, MAXIMUM_RECURSION_DEPTH), PathStep::Escape);
}

#[test]
fn hit_at_limit_is_exhausted() {
    assert_eq!(path_step(true, 50, MAXIMUM_RECURSION_DEPTH), PathStep::Exhausted);
    assert_eq!(path_step(true, 51, MAXIMUM_RECURSION_DEPTH), PathStep::Exhausted);
    assert_eq!(path_step(true, u32::MAX, u32::MAX), PathStep::Exhausted);
}

#[test]
fn zero_depth_never_scatters() {
    assert_eq!(path_step(true, 0, 0), PathStep::Exhausted);
    assert_eq!(path_step(false, 0, 0), PathStep::Escape);
    assert_eq!(run_path(&[true; 8], 0), (0, Some(PathStep::Exhausted)));
}

#[test]
fn endless_hits_stop_at_the_depth_limit() {
    let hits = vec![true; 1000];
    assert_eq!(run_path(&hits, MAXIMUM_RECURSION_DEPTH), (50, Some(PathStep::Exhausted)));
    assert_eq!(run_path(&hits, 3), (3, Some(PathStep::Exhausted)));
}

#[test]
fn path_escapes_at_first_miss() {
    assert_eq!(run_path(&[true, true, false, true, true], MAXIMUM_RECURSION_DEPTH), (2, Some(PathStep::Escape)));
    assert_eq!(run_path(&[false, true], MAXIMUM_RECURSION_DEPTH), (0, Some(PathStep::Escape)));
}
