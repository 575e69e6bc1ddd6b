//! Shading configuration: cel-style step lighting, distance-based outline
//! detection, and the combined shading bundle carried by an episode.

use vstd::prelude::*;

use crate::fixed::{fx_div, fx_mul, sat64, sat_add, sat_mul, spec_fx_div, spec_fx_mul, tdiv, SCALE};

verus! {

/// A color with alpha, components in milli-units (`SCALE` is full
/// intensity).
#[derive(Debug, Clone, Copy, PartialEq, Eq, Structural)]
pub struct Rgba {
    pub r: i64,
    pub g: i64,
    pub b: i64,
    pub a: i64,
}

/// Cel shading: discrete shadow steps with threshold boundaries.
#[derive(Debug, Clone)]
pub struct CelShading {
    /// Number of discrete shadow steps.
    pub shadow_steps: u32,
    pub shadow_color: Rgba,
    pub highlight_color: Rgba,
    /// Thresholds for each step boundary.
    pub thresholds: Vec<i64>,
}

/// How many thresholds the lighting value exceeds.
pub open spec fn spec_step_count(thresholds: Seq<i64>, lighting: int) -> int
    decreases thresholds.len(),
{
    if thresholds.len() == 0 {
        0
    } else {
        spec_step_count(thresholds.drop_last(), lighting) + if lighting > thresholds.last() {
            1int
        } else {
            0int
        }
    }
}

/// The quantized lighting value: the step index scaled by the reciprocal of
/// the step count; the input unchanged when there are no thresholds.
pub open spec fn spec_quantize(steps: u32, thresholds: Seq<i64>, lighting: int) -> int {
    if thresholds.len() == 0 {
        lighting
    } else {
        let rcp = if steps > 0 {
            tdiv(SCALE as int, steps as int)
        } else {
            0
        };
        sat64(sat64(spec_step_count(thresholds, lighting)) * rcp)
    }
}

impl CelShading {
    /// Quantize a lighting value into discrete steps.
    pub fn quantize(&self, lighting: i64) -> (r: i64)
        ensures
            r == spec_quantize(self.shadow_steps, self.thresholds@, lighting as int),
    {
        if self.thresholds.len() == 0 {
            return lighting;
        }
        let mut step: i64 = 0;
        let mut i: usize = 0;
        proof {
            assert(self.thresholds@.take(0) =~= Seq::<i64>::empty());
        }
        while i < self.thresholds.len()
            invariant
                i <= self.thresholds@.len(),
                step == sat64(spec_step_count(self.thresholds@.take(i as int), lighting as int)),
                0 <= step,
            decreases self.thresholds@.len() - i,
        {
            proof {
                assert(self.thresholds@.take(i + 1).drop_last() =~= self.thresholds@.take(
                    i as int,
                ));
                assert(self.thresholds@.take(i + 1).last() == self.thresholds@[i as int]);
            }
            if lighting > self.thresholds[i] {
                step = crate::fixed::sat_add(step, 1);
            }
            i = i + 1;
        }
        proof {
            assert(self.thresholds@.take(self.thresholds@.len() as int) =~= self.thresholds@);
        }
        let rcp: i64 = if self.shadow_steps > 0 {
            crate::fixed::tdiv64(SCALE, self.shadow_steps as i64)
        } else {
            0
        };
        sat_mul(step, rcp)
    }
}

impl Default for CelShading {
    /// Two steps split at the midpoint, dark violet shadow, white
    /// highlight.
    fn default() -> (r: CelShading)
        ensures
            r.shadow_steps == 2,
            r.shadow_color == (Rgba { r: 200i64, g: 150i64, b: 250i64, a: 1000i64 }),
            r.highlight_color == (Rgba { r: 1000i64, g: 1000i64, b: 1000i64, a: 1000i64 }),
            r.thresholds@ =~= seq![500i64],
    {
        let mut thresholds: Vec<i64> = Vec::new();
        thresholds.push(500);
        CelShading {
            shadow_steps: 2,
            shadow_color: Rgba { r: 200, g: 150, b: 250, a: 1000 },
            highlight_color: Rgba { r: 1000, g: 1000, b: 1000, a: 1000 },
            thresholds,
        }
    }
}

/// Outline configuration: a contour is where the shape distance lies within
/// an epsilon band around the surface.
#[derive(Debug, Clone, Copy, PartialEq, Eq, Structural)]
pub struct OutlineConfig {
    /// Outline width in world milli-units.
    pub width: i64,
    pub color: Rgba,
    /// Distance epsilon for contour detection.
    pub epsilon: i64,
    /// Fade of the outline with depth distance.
    pub depth_fade: i64,
}

/// A distance is on the outline when its magnitude is below the epsilon
/// band plus the outline width.
pub open spec fn spec_is_outline(c: OutlineConfig, d: int) -> bool {
    crate::camera::spec_abs(d) < sat64(c.epsilon + c.width)
}

/// Outline opacity: an edge factor falling off linearly across the band,
/// scaled by a depth fade factor and the configured alpha.
pub open spec fn spec_outline_alpha(c: OutlineConfig, d: int, depth: int) -> int {
    let total = sat64(c.epsilon + c.width);
    let ad = crate::camera::spec_abs(d);
    let ratio = spec_fx_div(ad, total);
    let capped = if ratio > SCALE as int {
        SCALE as int
    } else {
        ratio
    };
    let in_range: int = if ad < total {
        1
    } else {
        0
    };
    let edge = sat64((SCALE as int - capped) * in_range);
    let depth_raw = sat64(SCALE as int - spec_fx_mul(depth, c.depth_fade as int));
    let depth_factor = if depth_raw < 0 {
        0
    } else {
        depth_raw
    };
    spec_fx_mul(spec_fx_mul(edge, depth_factor), c.color.a as int)
}

impl OutlineConfig {
    /// Whether a shape distance falls within the outline region.
    pub fn is_outline(&self, sdf_distance: i64) -> (r: bool)
        ensures
            r == spec_is_outline(*self, sdf_distance as int),
    {
        let ad = abs_sat(sdf_distance);
        ad < sat_add(self.epsilon, self.width)
    }

    /// Outline opacity from a shape distance and a depth value.
    pub fn outline_alpha(&self, sdf_distance: i64, depth: i64) -> (r: i64)
        ensures
            r == spec_outline_alpha(*self, sdf_distance as int, depth as int),
    {
        let total = sat_add(self.epsilon, self.width);
        let ad = abs_sat(sdf_distance);
        let ratio = fx_div(ad, total);
        let capped = if ratio > SCALE {
            SCALE
        } else {
            ratio
        };
        let in_range: i64 = if ad < total {
            1
        } else {
            0
        };
        let edge = sat_mul(sat_sub_scale(capped), in_range);
        let depth_raw = crate::fixed::sat_sub(SCALE, fx_mul(depth, self.depth_fade));
        let depth_factor = if depth_raw < 0 {
            0
        } else {
            depth_raw
        };
        fx_mul(fx_mul(edge, depth_factor), self.color.a)
    }
}

/// `SCALE - x`, saturating.
fn sat_sub_scale(x: i64) -> (r: i64)
    ensures
        r == sat64(SCALE - x),
{
    crate::fixed::sat_sub(SCALE, x)
}

/// Absolute value, saturating at the `i64` maximum.
pub fn abs_sat(x: i64) -> (r: i64)
    ensures
        r == crate::camera::spec_abs(x as int),
{
    if x >= 0 {
        x
    } else if x == i64::MIN {
        i64::MAX
    } else {
        -x
    }
}

impl Default for OutlineConfig {
    /// A thin black outline with a small epsilon and no depth fade.
    fn default() -> (r: OutlineConfig)
        ensures
            r == (OutlineConfig {
                width: 20i64,
                color: Rgba { r: 0i64, g: 0i64, b: 0i64, a: 1000i64 },
                epsilon: 5i64,
                depth_fade: 0i64,
            }),
    {
        OutlineConfig {
            width: 20,
            color: Rgba { r: 0, g: 0, b: 0, a: 1000 },
            epsilon: 5,
            depth_fade: 0,
        }
    }
}

/// Combined shading configuration for an episode.
#[derive(Debug, Clone)]
pub struct AnimeShading {
    pub cel_shading: CelShading,
    pub outline: OutlineConfig,
    /// Ambient occlusion strength (zero is off).
    pub ao_strength: i64,
    /// Rim light intensity (zero is off).
    pub rim_light: i64,
}

impl Default for AnimeShading {
    /// Default cel shading and outline with mild ambient occlusion and rim
    /// light.
    fn default() -> (r: AnimeShading)
        ensures
            r.cel_shading.shadow_steps == 2,
            r.cel_shading.thresholds@ =~= seq![500i64],
            r.outline == (OutlineConfig {
                width: 20i64,
                color: Rgba { r: 0i64, g: 0i64, b: 0i64, a: 1000i64 },
                epsilon: 5i64,
                depth_fade: 0i64,
            }),
            r.ao_strength == 300,
            r.rim_light == 200,
    {
        AnimeShading {
            cel_shading: CelShading::default(),
            outline: OutlineConfig::default(),
            ao_strength: 300,
            rim_light: 200,
        }
    }
}

} // verus!
