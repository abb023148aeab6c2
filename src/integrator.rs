use vstd::prelude::*;

use crate::film::ChannelKind;

verus! {

/// Most lights sampled per path vertex or per volume march: one per lane.
pub const MAX_LIGHT_SAMPLES: usize = 4;

/// Bounce depth from which Russian roulette may end a path.
pub const ROULETTE_START_DEPTH: usize = 3;

/// Path tracer settings: bounce limit, volume marches per path segment, and
/// lights sampled per volume march and per surface vertex.
#[derive(Clone, Copy, Debug, PartialEq, Eq, Structural)]
pub struct PathTracingIntegrator {
    pub max_bounces: usize,
    pub volume_marches: usize,
    pub light_samples_per_volume_march: usize,
    pub light_samples_per_path_vertex: usize,
}

/// What becomes of one lane's ray after a scattering surface.
#[derive(Clone, Copy, Debug, PartialEq, Eq, Structural)]
pub enum LaneFate {
    /// The lane held no ray: nothing is written.
    Empty,
    /// The path ends here: its radiance is written as a color sample.
    Finish,
    /// The path goes on: the scattered ray joins the next wavefront.
    Continue,
}

/// The fate of a lane at bounce `depth` under a bounce limit: an empty lane
/// stays empty; a path at the limit, or one that sampling ends, finishes;
/// any other goes on.
pub open spec fn lane_fate_of(max_bounces: int, depth: int, valid: bool, sampling_ends: bool) -> LaneFate {
    if !valid {
        LaneFate::Empty
    } else if depth >= max_bounces || sampling_ends {
        LaneFate::Finish
    } else {
        LaneFate::Continue
    }
}

impl PathTracingIntegrator {
    /// Settings as given; more than `MAX_LIGHT_SAMPLES` lights per volume
    /// march or per path vertex is refused.
    pub fn new(
        max_bounces: usize,
        volume_marches: usize,
        light_samples_per_volume_march: usize,
        light_samples_per_path_vertex: usize,
    ) -> (r: Result<Self, ()>)
        ensures
            r is Ok <==> light_samples_per_volume_march <= MAX_LIGHT_SAMPLES
                && light_samples_per_path_vertex <= MAX_LIGHT_SAMPLES,
            r matches Ok(i) ==> i == (PathTracingIntegrator {
                max_bounces,
                volume_marches,
                light_samples_per_volume_march,
                light_samples_per_path_vertex,
            }),
    {
        if light_samples_per_volume_march > MAX_LIGHT_SAMPLES || light_samples_per_path_vertex
            > MAX_LIGHT_SAMPLES {
            Err(())
        } else {
            Ok(
                PathTracingIntegrator {
                    max_bounces,
                    volume_marches,
                    light_samples_per_volume_march,
                    light_samples_per_path_vertex,
                },
            )
        }
    }

    /// One-dimensional sample sets a path uses: three per bounce for light
    /// choice, scattering and roulette, and five per volume march.
    pub open spec fn spec_requested_1d(&self) -> int {
        (self.max_bounces + 1) * (3 + 5 * self.volume_marches)
    }

    /// Two-dimensional sample sets a path uses: twelve per bounce and ten per
    /// volume march.
    pub open spec fn spec_requested_2d(&self) -> int {
        (self.max_bounces + 1) * (12 + 10 * self.volume_marches)
    }

    pub fn requested_1d_sample_sets(&self) -> (r: usize)
        requires
            self.spec_requested_1d() <= usize::MAX,
        ensures
            r == self.spec_requested_1d(),
    {
        proof {
            let b = self.max_bounces as int + 1;
            let m = 3 + 5 * self.volume_marches as int;
            assert(b >= 1 && m >= 3);
            assert(b <= b * m && m <= b * m) by (nonlinear_arith)
                requires b >= 1, m >= 3;
        }
        (self.max_bounces + 1) * (3 + 5 * self.volume_marches)
    }

    pub fn requested_2d_sample_sets(&self) -> (r: usize)
        requires
            self.spec_requested_2d() <= usize::MAX,
        ensures
            r == self.spec_requested_2d(),
    {
        proof {
            let b = self.max_bounces as int + 1;
            let m = 12 + 10 * self.volume_marches as int;
            assert(b <= b * m && m <= b * m) by (nonlinear_arith)
                requires b >= 1, m >= 12;
        }
        (self.max_bounces + 1) * (12 + 10 * self.volume_marches)
    }

    /// Lights sampled at each surface vertex: as configured, at most one per
    /// lane.
    pub fn lights_per_vertex(&self) -> (r: usize)
        ensures
            r == if self.light_samples_per_path_vertex <= MAX_LIGHT_SAMPLES {
                self.light_samples_per_path_vertex
            } else {
                MAX_LIGHT_SAMPLES
            },
    {
        if self.light_samples_per_path_vertex <= MAX_LIGHT_SAMPLES {
            self.light_samples_per_path_vertex
        } else {
            MAX_LIGHT_SAMPLES
        }
    }

    /// The light that a stratified pick (a uniform sample scaled by the light
    /// count and rounded down) names; a pick at or past the end, which only
    /// rounding can give, names the last light.
    pub fn light_index(pick: usize, n_lights: usize) -> (r: usize)
        requires
            n_lights > 0,
        ensures
            r < n_lights,
            pick < n_lights ==> r == pick,
            pick >= n_lights ==> r == n_lights - 1,
    {
        if pick < n_lights {
            pick
        } else {
            n_lights - 1
        }
    }

    /// Russian roulette is played only after the first few bounces.
    pub fn roulette_applies(depth: usize) -> (r: bool)
        ensures
            r == (depth >= ROULETTE_START_DEPTH),
    {
        depth >= ROULETTE_START_DEPTH
    }

    /// Decides the fate of one lane after its ray scattered at bounce
    /// `depth`. `sampling_ends` says whether the roulette draw ended the
    /// path, or the scattering sample was degenerate (a zero pdf or a zero
    /// response), which ends it too.
    pub fn lane_fate(&self, depth: usize, valid: bool, sampling_ends: bool) -> (r: LaneFate)
        ensures
            r == lane_fate_of(self.max_bounces as int, depth as int, valid, sampling_ends),
    {
        if !valid {
            LaneFate::Empty
        } else if depth >= self.max_bounces || sampling_ends {
            LaneFate::Finish
        } else {
            LaneFate::Continue
        }
    }

    /// Channel that an escaped ray's radiance goes to: a camera ray that hit
    /// nothing shows the background, any later one adds to the color.
    pub fn escaped_ray_channel(depth: usize) -> (r: ChannelKind)
        ensures
            depth == 0 ==> r == ChannelKind::Background,
            depth > 0 ==> r == ChannelKind::Color,
    {
        if depth == 0 {
            ChannelKind::Background
        } else {
            ChannelKind::Color
        }
    }

    /// Whether a surface hit at bounce `depth` also writes the alpha and
    /// world-normal channels: only where the camera ray itself hit.
    pub fn writes_surface_channels(depth: usize) -> (r: bool)
        ensures
            r == (depth == 0),
    {
        depth == 0
    }
}

/// Every path ends: at the bounce limit no lane goes on, whatever sampling
/// decided, so the wavefront is empty after at most `max_bounces + 1` bounces.
pub proof fn lemma_paths_end(integrator: PathTracingIntegrator, depth: int, valid: bool, sampling_ends: bool)
    requires
        depth >= integrator.max_bounces,
    ensures
        lane_fate_of(integrator.max_bounces as int, depth, valid, sampling_ends) != LaneFate::Continue,
{
}

} // verus!
