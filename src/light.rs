//! Flat diffuse shading: from an intensity to a glyph of the ramp.
use vstd::arithmetic::div_mod::{lemma_fundamental_div_mod, lemma_fundamental_div_mod_converse};
use vstd::prelude::*;

verus! {

/// The fixed-point value of a diffuse intensity of 1, the intensity of a
/// surface that faces the light squarely.
pub const INTENSITY_ONE: i64 = 65536;

/// The index into a ramp of `n` glyphs for a diffuse intensity given in
/// units of `1 / INTENSITY_ONE`: a negative intensity (the surface faces away)
/// counts as zero, the intensity is scaled to `[0, n - 1]` and rounded half
/// up, and the index is kept below `n`.
pub open spec fn shade_level(intensity: int, n: int) -> int {
    let lit = if intensity < 0 { 0 } else { intensity };
    let rounded = (2 * lit * (n - 1) + INTENSITY_ONE) / (2 * INTENSITY_ONE);
    if rounded > n - 1 { n - 1 } else { rounded }
}

/// A light's glyph ramp, from the dimmest glyph to the brightest.
pub struct LightSource {
    pub light_gradient: Vec<char>,
}

impl LightSource {
    /// The default ramp `.,;la#@`.
    pub fn new() -> (l: LightSource)
        ensures
            l.light_gradient@ == seq!['.', ',', ';', 'l', 'a', '#', '@'],
    {
        LightSource { light_gradient: vec!['.', ',', ';', 'l', 'a', '#', '@'] }
    }

    /// The glyph a flat-shaded triangle is drawn with, for its diffuse
    /// intensity in units of `1 / INTENSITY_ONE` (the cosine of the angle
    /// between its normal and the direction to the light).
    pub fn diffuse_light(&self, intensity: i64) -> (c: char)
        requires
            self.light_gradient@.len() >= 1,
        ensures
            c == self.light_gradient@[shade_level(intensity as int, self.light_gradient@.len() as int)],
            intensity <= 0 ==> c == self.light_gradient@[0],
            intensity >= INTENSITY_ONE ==> c == self.light_gradient@.last(),
    {
        let n = self.light_gradient.len();
        let lit: i64 = if intensity < 0 {
            0
        } else if intensity > INTENSITY_ONE {
            INTENSITY_ONE
        } else {
            intensity
        };
        let top = (n - 1) as u128;
        assert(2 * (lit as u128) * top <= 2 * INTENSITY_ONE * top) by (nonlinear_arith)
            requires 0 <= lit <= INTENSITY_ONE, top >= 0;
        assert(2 * INTENSITY_ONE * top <= 2 * INTENSITY_ONE * 0xffff_ffff_ffff_ffff) by (nonlinear_arith)
            requires top <= 0xffff_ffff_ffff_ffff, INTENSITY_ONE == 65536;
        let scaled = 2 * (lit as u128) * top + INTENSITY_ONE as u128;
        let rounded = scaled / (2 * INTENSITY_ONE as u128);
        let index: usize = if rounded > top { n - 1 } else { rounded as usize };
        proof {
            let ghost full = if intensity < 0 { 0 } else { intensity as int };
            let ghost d = 2 * INTENSITY_ONE;
            let ghost big = (2 * full * (n - 1) + INTENSITY_ONE) / d;
            if intensity > INTENSITY_ONE {
                assert(scaled == top * d + INTENSITY_ONE) by (nonlinear_arith)
                    requires scaled == 2 * INTENSITY_ONE * top + INTENSITY_ONE, d == 2 * INTENSITY_ONE;
                lemma_fundamental_div_mod_converse(scaled as int, d, top as int, INTENSITY_ONE as int);
                let ghost x = 2 * full * (n - 1) + INTENSITY_ONE;
                lemma_fundamental_div_mod(x, d);
                assert(x >= (n - 1) * d) by (nonlinear_arith)
                    requires x == 2 * full * (n - 1) + INTENSITY_ONE, d == 2 * INTENSITY_ONE,
                        full > INTENSITY_ONE, n >= 1;
                assert(big >= n - 1) by (nonlinear_arith)
                    requires x == d * big + x % d, 0 <= x % d < d, x >= (n - 1) * d, d > 0;
            }
            if intensity <= 0 {
                assert(scaled == INTENSITY_ONE) by (nonlinear_arith)
                    requires scaled == 2 * (lit as u128) * top + INTENSITY_ONE, lit == 0;
                lemma_fundamental_div_mod_converse(scaled as int, d, 0, INTENSITY_ONE as int);
            }
        }
        self.light_gradient[index]
    }
}

} // verus!
