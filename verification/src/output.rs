//! Outputs: what a display reports about itself, and the conversion from
//! physical to logical units.

use crate::layer::LayerMap;
use crate::surface::Size;
use vstd::prelude::*;

verus! {

/// A position in logical units.
#[derive(Clone, Copy, Debug, PartialEq, Eq)]
pub struct Point {
    pub x: i32,
    pub y: i32,
}

/// A size in physical pixels.
#[derive(Clone, Copy, Debug, PartialEq, Eq)]
pub struct PhysicalSize {
    pub w: i32,
    pub h: i32,
}

/// A display mode: resolution and refresh rate in mHz.
#[derive(Clone, Copy, Debug, PartialEq, Eq)]
pub struct Mode {
    pub size: PhysicalSize,
    pub refresh: i32,
}

/// How the content of an output is rotated or flipped.
#[derive(Clone, Copy, Debug, PartialEq, Eq)]
pub enum Transform {
    Normal,
    Rotated90,
    Rotated180,
    Rotated270,
    Flipped,
    Flipped90,
    Flipped180,
    Flipped270,
}

/// The scale of an output, held in 120ths so that fractional scales are exact.
/// It is never zero.
#[derive(Clone, Copy, Debug, PartialEq, Eq)]
pub struct Scale {
    per_120: u32,
}

/// The integer nearest to `n / d`, for `d > 0`; a tie goes away from zero.
pub open spec fn round_div(n: int, d: int) -> int {
    if n >= 0 {
        (2 * n + d) / (2 * d)
    } else {
        -((2 * (-n) + d) / (2 * d))
    }
}

/// `v` held to the range of `i32`.
pub open spec fn clamp_i32(v: int) -> int {
    if v < i32::MIN {
        i32::MIN as int
    } else if v > i32::MAX {
        i32::MAX as int
    } else {
        v
    }
}

/// A physical length in logical units at a scale given in 120ths.
pub open spec fn logical_length(physical: int, per_120: int) -> int {
    clamp_i32(round_div(physical * 120, per_120))
}

/// `round_div(n, d)` is within half a unit of the exact quotient.
pub proof fn lemma_round_div_nearest(n: int, d: int)
    requires
        d > 0,
    ensures
        -d <= 2 * (n - round_div(n, d) * d) <= d,
{
    let m = if n >= 0 { n } else { -n };
    let q = (2 * m + d) / (2 * d);
    let r = (2 * m + d) % (2 * d);
    assert(2 * m + d == (2 * d) * q + r && 0 <= r < 2 * d) by {
        vstd::arithmetic::div_mod::lemma_fundamental_div_mod(2 * m + d, 2 * d);
    }
    assert((2 * d) * q == 2 * (q * d)) by (nonlinear_arith);
    if n >= 0 {
        assert(round_div(n, d) == q);
    } else {
        assert(round_div(n, d) == -q);
        assert((-q) * d == -(q * d)) by (nonlinear_arith);
    }
}

impl Scale {
    #[verifier::type_invariant]
    spec fn positive(self) -> bool {
        self.per_120 >= 1
    }

    /// The scale in 120ths.
    pub closed spec fn per_120(self) -> int {
        self.per_120 as int
    }

    /// The scale factor 1.
    pub fn one() -> (s: Scale)
        ensures
            s.per_120() == 120,
    {
        Scale { per_120: 120 }
    }

    /// An integer scale factor; `None` for zero and for factors too large to hold.
    pub fn integer(factor: u32) -> (s: Option<Scale>)
        ensures
            match s {
                Some(scale) => 1 <= factor && factor * 120 <= u32::MAX && scale.per_120() == factor
                    * 120,
                None => factor == 0 || factor * 120 > u32::MAX,
            },
    {
        if factor == 0 || factor > u32::MAX / 120 {
            None
        } else {
            Some(Scale { per_120: factor * 120 })
        }
    }

    /// A scale given in 120ths; `None` for zero.
    pub fn fractional(per_120: u32) -> (s: Option<Scale>)
        ensures
            match s {
                Some(scale) => per_120 >= 1 && scale.per_120() == per_120,
                None => per_120 == 0,
            },
    {
        if per_120 == 0 {
            None
        } else {
            Some(Scale { per_120 })
        }
    }

    /// The scale in 120ths.
    pub fn fractional_scale(&self) -> (v: u32)
        ensures
            v == self.per_120(),
            v >= 1,
    {
        proof {
            use_type_invariant(self);
        }
        self.per_120
    }

    /// Converts a physical length to logical units, rounding to the nearest
    /// integer and saturating at the bounds of `i32`.
    pub fn to_logical(&self, physical: i32) -> (logical: i32)
        ensures
            logical == logical_length(physical as int, self.per_120()),
    {
        proof {
            use_type_invariant(self);
        }
        let d: u64 = self.per_120 as u64;
        let negative = physical < 0;
        let magnitude: u64 = if negative {
            (-(physical as i64)) as u64
        } else {
            physical as u64
        };
        let n: u64 = magnitude * 120;
        let q: u64 = (2 * n + d) / (2 * d);
        assert(q <= 2 * n + d) by (nonlinear_arith)
            requires
                q == (2 * n + d) / (2 * d),
                d >= 1,
        ;
        if negative {
            if q > 2147483648 {
                i32::MIN
            } else {
                (-(q as i64)) as i32
            }
        } else {
            if q > 2147483647 {
                i32::MAX
            } else {
                q as i32
            }
        }
    }
}

/// A display as the shell knows it.
pub struct Output {
    pub name: String,
    pub mode: Option<Mode>,
    pub scale: Scale,
    pub transform: Transform,
    pub location: Point,
    /// The shell-layer surfaces bound to this output.
    pub layers: LayerMap,
    /// Whether the last frame of this output showed a fullscreen window
    /// instead of the desktop.
    pub custom_rendering: bool,
}

/// An output as plain mathematics.
pub struct OutputView {
    pub name: Seq<char>,
    pub mode: Option<Mode>,
    pub scale: Scale,
    pub transform: Transform,
    pub location: Point,
    pub layers: Seq<crate::layer::LayerSurface>,
    pub needs_arrange: bool,
    pub custom_rendering: bool,
}

impl Output {
    pub open spec fn view(&self) -> OutputView {
        OutputView {
            name: self.name@,
            mode: self.mode,
            scale: self.scale,
            transform: self.transform,
            location: self.location,
            layers: self.layers.layers@,
            needs_arrange: self.layers.needs_arrange,
            custom_rendering: self.custom_rendering,
        }
    }

    /// The size that a window filling this output has, in logical units: the
    /// current mode's resolution (0 by 0 without a mode) at the output's scale.
    pub open spec fn logical_size(&self) -> Size {
        match self.mode {
            Some(mode) => Size {
                w: logical_length(mode.size.w as int, self.scale.per_120()) as i32,
                h: logical_length(mode.size.h as int, self.scale.per_120()) as i32,
            },
            None => Size {
                w: logical_length(0, self.scale.per_120()) as i32,
                h: logical_length(0, self.scale.per_120()) as i32,
            },
        }
    }

    /// An output with no layer surfaces yet.
    pub fn new(name: String, mode: Option<Mode>, scale: Scale, transform: Transform, location: Point) -> (output: Output)
        ensures
            output.name == name,
            output.mode == mode,
            output.scale == scale,
            output.transform == transform,
            output.location == location,
            output.layers.layers@ == Seq::<crate::layer::LayerSurface>::empty(),
            !output.layers.needs_arrange,
            !output.custom_rendering,
    {
        Output {
            name,
            mode,
            scale,
            transform,
            location,
            layers: LayerMap::new(),
            custom_rendering: false,
        }
    }

    /// The size of a fullscreen window on this output, in logical units.
    pub fn fullscreen_size(&self) -> (size: Size)
        ensures
            size == self.logical_size(),
    {
        let physical = match self.mode {
            Some(mode) => mode.size,
            None => PhysicalSize { w: 0, h: 0 },
        };
        Size { w: self.scale.to_logical(physical.w), h: self.scale.to_logical(physical.h) }
    }
}

} // verus!
