//! Options that steer recursive reflection and refraction.

use vstd::prelude::*;

verus! {

/// The depth bound a fresh set of options starts with.
pub const DEFAULT_MAX_DEPTH: u32 = 5;

/// Controls recursive reflection / refraction. When both flags are false, all
/// materials shade as diffuse only.
#[derive(Clone, Copy, Debug, PartialEq, Eq, Structural)]
pub struct TraceOptions {
    pub reflections: bool,
    pub refractions: bool,
    pub max_depth: u32,
}

/// The bounce bound that a requested depth turns into: at least one bounce.
pub open spec fn effective_depth(max_depth: u32) -> u32 {
    if max_depth < 1 { 1 } else { max_depth }
}

impl Default for TraceOptions {
    /// Diffuse only: no reflections, no refractions, depth bound 5.
    fn default() -> (opts: Self)
        ensures
            opts == (TraceOptions { reflections: false, refractions: false, max_depth: 5 }),
    {
        TraceOptions { reflections: false, refractions: false, max_depth: DEFAULT_MAX_DEPTH }
    }
}

impl TraceOptions {
    /// Mirror bounces on, refraction off; the depth bound is at least 1.
    pub fn with_reflections(max_depth: u32) -> (opts: Self)
        ensures
            opts == (TraceOptions {
                reflections: true,
                refractions: false,
                max_depth: effective_depth(max_depth),
            }),
    {
        TraceOptions { reflections: true, refractions: false, max_depth: at_least_one(max_depth) }
    }

    /// Refraction on, mirror bounces off; the depth bound is at least 1.
    pub fn with_refractions(max_depth: u32) -> (opts: Self)
        ensures
            opts == (TraceOptions {
                reflections: false,
                refractions: true,
                max_depth: effective_depth(max_depth),
            }),
    {
        TraceOptions { reflections: false, refractions: true, max_depth: at_least_one(max_depth) }
    }

    /// Both switches as given; the depth bound is at least 1.
    pub fn with_bounces(reflections: bool, refractions: bool, max_depth: u32) -> (opts: Self)
        ensures
            opts == (TraceOptions { reflections, refractions, max_depth: effective_depth(max_depth) }),
    {
        TraceOptions { reflections, refractions, max_depth: at_least_one(max_depth) }
    }
}

fn at_least_one(max_depth: u32) -> (d: u32)
    ensures
        d == effective_depth(max_depth),
{
    if max_depth < 1 {
        1
    } else {
        max_depth
    }
}

/// The constructors that turn bounces on never leave a zero depth bound, and
/// they keep a positive requested bound as it is.
pub proof fn lemma_effective_depth(max_depth: u32)
    ensures
        effective_depth(max_depth) >= 1,
        max_depth >= 1 ==> effective_depth(max_depth) == max_depth,
{
}

/// What a hit does beyond its local (direct-light) shading.
#[derive(Clone, Copy, Debug, PartialEq, Eq, Structural)]
pub enum Bounce {
    /// Return the local shading; trace nothing further.
    Local,
    /// Trace the reflected and the refracted ray and blend them (glass).
    Dielectric,
    /// Trace the mirror ray and blend it with the local shading.
    Mirror,
}

/// The bounce taken at recursion depth `depth` on a surface that refracts
/// (`dielectric`) and/or reflects (`reflective`): nothing once the depth bound
/// is reached, otherwise refraction first, then the mirror bounce, each only
/// when its switch is on.
pub open spec fn spec_bounce_kind(
    opts: TraceOptions,
    depth: u32,
    dielectric: bool,
    reflective: bool,
) -> Bounce {
    if depth >= opts.max_depth {
        Bounce::Local
    } else if opts.refractions && dielectric {
        Bounce::Dielectric
    } else if opts.reflections && reflective {
        Bounce::Mirror
    } else {
        Bounce::Local
    }
}

/// Decides the bounce for a hit; see `spec_bounce_kind`.
pub fn bounce_kind(opts: &TraceOptions, depth: u32, dielectric: bool, reflective: bool) -> (b:
    Bounce)
    ensures
        b == spec_bounce_kind(*opts, depth, dielectric, reflective),
{
    if depth >= opts.max_depth {
        Bounce::Local
    } else if opts.refractions && dielectric {
        Bounce::Dielectric
    } else if opts.reflections && reflective {
        Bounce::Mirror
    } else {
        Bounce::Local
    }
}

/// Recursion stops at the depth bound: from depth `max_depth` on, no hit
/// bounces, whatever its material. With both switches off (the default
/// options) no hit ever bounces, so every material shades as diffuse only.
pub proof fn lemma_depth_cap(opts: TraceOptions, depth: u32, dielectric: bool, reflective: bool)
    ensures
        depth >= opts.max_depth ==> spec_bounce_kind(opts, depth, dielectric, reflective)
            == Bounce::Local,
        !opts.reflections && !opts.refractions ==> spec_bounce_kind(
            opts,
            depth,
            dielectric,
            reflective,
        ) == Bounce::Local,
        spec_bounce_kind(opts, depth, dielectric, reflective) == Bounce::Dielectric
            ==> opts.refractions && dielectric,
        spec_bounce_kind(opts, depth, dielectric, reflective) == Bounce::Mirror
            ==> opts.reflections && reflective,
{
}

/// The bounce at a hit, in terms of the options and the surface: below the
/// depth bound a refracting surface refracts whenever refraction is on
/// (whatever the reflections switch), otherwise a reflecting surface mirrors
/// whenever reflections are on, and anything else shades locally.
pub proof fn lemma_bounce_decision(
    opts: TraceOptions,
    depth: u32,
    dielectric: bool,
    reflective: bool,
)
    ensures
        depth < opts.max_depth && opts.refractions && dielectric ==> spec_bounce_kind(
            opts,
            depth,
            dielectric,
            reflective,
        ) == Bounce::Dielectric,
        depth < opts.max_depth && !(opts.refractions && dielectric) && opts.reflections
            && reflective ==> spec_bounce_kind(opts, depth, dielectric, reflective)
            == Bounce::Mirror,
        depth < opts.max_depth && !(opts.refractions && dielectric) && !(opts.reflections
            && reflective) ==> spec_bounce_kind(opts, depth, dielectric, reflective)
            == Bounce::Local,
        depth >= opts.max_depth ==> spec_bounce_kind(opts, depth, dielectric, reflective)
            == Bounce::Local,
{
}

} // verus!
