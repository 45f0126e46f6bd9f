//! A linear map from a modulator's value range onto a parameter's range.

use crate::arith::{div_down, floor_div, lemma_div_of_multiple};
use vstd::prelude::*;

verus! {

/// Maps a modulator value linearly onto a physical parameter (an amplitude
/// in millionths, or a cutoff in hertz). The input range may be given in
/// either order: a descending one inverts the mapping. Values outside the
/// input range extrapolate along the same line.
#[derive(Clone, Copy, Debug, PartialEq, Eq)]
pub struct ParameterMapping {
    pub input_range: (i32, i32),
    pub output_range: (i32, i32),
}

impl ParameterMapping {
    /// The input range has two distinct ends.
    pub open spec fn wf(self) -> bool {
        self.input_range.0 != self.input_range.1
    }

    /// `out.0 + (v - in.0) * (out.1 - out.0) / (in.1 - in.0)`, rounded down.
    pub open spec fn map_spec(self, v: int) -> int {
        let a = self.input_range.0 as int;
        let b = self.input_range.1 as int;
        let c = self.output_range.0 as int;
        let d = self.output_range.1 as int;
        if a < b {
            c + div_down((v - a) * (d - c), b - a)
        } else {
            c + div_down((a - v) * (d - c), a - b)
        }
    }

    pub fn new(input_range: (i32, i32), output_range: (i32, i32)) -> (m: ParameterMapping)
        requires
            input_range.0 != input_range.1,
        ensures
            m.wf(),
            m.input_range == input_range,
            m.output_range == output_range,
    {
        ParameterMapping { input_range, output_range }
    }

    /// The parameter value for modulator value `v`.
    pub fn apply(&self, v: i32) -> (r: i128)
        requires
            self.wf(),
        ensures
            r as int == self.map_spec(v as int),
    {
        let a = self.input_range.0 as i128;
        let b = self.input_range.1 as i128;
        let c = self.output_range.0 as i128;
        let d = self.output_range.1 as i128;
        let (num, den) = if a < b {
            (v as i128 - a, b - a)
        } else {
            (a - v as i128, a - b)
        };
        let span = d - c;
        proof {
            assert(-0x1_0000_0000_0000_0000_0000_0000 <= num * span
                <= 0x1_0000_0000_0000_0000_0000_0000) by (nonlinear_arith)
                requires
                    -0x1_0000_0000 <= num <= 0x1_0000_0000,
                    -0x1_0000_0000 <= span <= 0x1_0000_0000,
            ;
        }
        let q = floor_div(num * span, den as u128);
        c + q
    }
}

/// A mapping sends each end of its input range to the matching end of its
/// output range, in either direction of the input range.
pub proof fn lemma_mapping_endpoints(m: ParameterMapping)
    requires
        m.wf(),
    ensures
        m.map_spec(m.input_range.0 as int) == m.output_range.0,
        m.map_spec(m.input_range.1 as int) == m.output_range.1,
{
    let a = m.input_range.0 as int;
    let b = m.input_range.1 as int;
    let span = m.output_range.1 - m.output_range.0;
    assert(0 * span == 0) by (nonlinear_arith);
    if a < b {
        lemma_div_of_multiple(span, b - a);
    } else {
        lemma_div_of_multiple(span, a - b);
    }
}

} // verus!
