use rt::tracer::TraceOptions;

#[test]
fn default_is_diffuse_only() {
    let opts = TraceOptions::default();
    assert!(!opts.reflections);
    assert!(!opts.refractions);
    assert_eq!(opts.max_depth, 5);
}

#[test]
fn constructors_set_one_switch() {
    assert_eq!(
        TraceOptions::with_reflections(3),
        TraceOptions { reflections: true, refractions: false, max_depth: 3 }
    );
    assert_eq!(
        TraceOptions::with_refractions(7),
        TraceOptions { reflections: false, refractions: true, max_depth: 7 }
    );
    assert_eq!(
        TraceOptions::with_bounces(true, true, 4),
        TraceOptions { reflections: true, refractions: true, max_depth: 4 }
    );
}

#[test]
fn depth_bound_is_at_least_one() {
    assert_eq!(TraceOptions::with_reflections(0).max_depth, 1);
    assert_eq!(TraceOptions::with_refractions(0).max_depth, 1);
    assert_eq!(TraceOptions::with_bounces(false, false, 0).max_depth, 1);
    assert_eq!(TraceOptions::with_bounces(true, false, u32::MAX).max_depth, u32::MAX);
}

use rt::tracer::{bounce_kind, Bounce};

#[test]
fn bounce_decision() {
    let both = TraceOptions::with_bounces(true, true, 3);
    assert_eq!(bounce_kind(&both, 0, true, true), Bounce::Dielectric);
    assert_eq!(bounce_kind(&both, 2, false, true), Bounce::Mirror);
    assert_eq!(bounce_kind(&both, 2, false, false), Bounce::Local);
    // The depth bound stops every bounce.
    assert_eq!(bounce_kind(&both, 3, true, true), Bounce::Local);
    assert_eq!(bounce_kind(&both, 7, false, true), Bounce::Local);
    // Default options: diffuse only.
    let none = TraceOptions::default();
    assert_eq!(bounce_kind(&none, 0, true, true), Bounce::Local);
    // Each switch only enables its own bounce.
    assert_eq!(bounce_kind(&TraceOptions::with_reflections(5), 0, true, false), Bounce::Local);
    assert_eq!(bounce_kind(&TraceOptions::with_reflections(5), 0, true, true), Bounce::Mirror);
    assert_eq!(bounce_kind(&TraceOptions::with_refractions(5), 0, false, true), Bounce::Local);
}
