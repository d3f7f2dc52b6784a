//! A module that contains the [`Gradient`] generator for two stop colors.

use vstd::prelude::*;

use crate::rgb::RGB;

verus! {

/// One position of a gradient: a color given outright, or a request to blend
/// two stop colors at a fraction.
#[derive(Debug, Clone, Copy, PartialEq, Eq, Structural)]
pub enum ColorStep {
    /// The color of this position, exactly.
    Exact(RGB),
    /// The color of this position is `from` and `to` blended at the fraction
    /// `num / den` (0 yields `from`, 1 yields `to`), with `den >= 1`.
    Blend {
        /// The color the fraction runs from.
        from: RGB,
        /// The color the fraction runs to.
        to: RGB,
        /// Numerator of the blend fraction.
        num: usize,
        /// Denominator of the blend fraction.
        den: usize,
    },
}

/// True if every faithful interpolation of `step` yields exactly `c`: the
/// step is `c` outright, or a blend of `c` at fraction 0, or into `c` at
/// fraction 1.
pub open spec fn is_exactly(step: ColorStep, c: RGB) -> bool {
    match step {
        ColorStep::Exact(x) => x == c,
        ColorStep::Blend { from, to, num, den } => (num == 0 && from == c) || (num == den && to
            == c),
    }
}

/// The step of position `i` among `steps` positions running from `from` to
/// `to`: the fraction is `i / (steps - 1)`, so it runs from 0 at the first
/// position to 1 at the last. A single position blends at fraction 0.
pub open spec fn blend_at(from: RGB, to: RGB, i: int, steps: int) -> ColorStep {
    if steps <= 1 {
        ColorStep::Blend { from, to, num: 0, den: 1 }
    } else {
        ColorStep::Blend { from, to, num: i as usize, den: (steps - 1) as usize }
    }
}

/// All `steps` positions of a two-stop gradient, in order.
pub open spec fn two_stop_seq(from: RGB, to: RGB, steps: int) -> Seq<ColorStep> {
    Seq::new(
        if steps >= 0 {
            steps as nat
        } else {
            0
        },
        |i: int| blend_at(from, to, i, steps),
    )
}

/// A two-stop gradient yields exactly `steps` positions. When it yields any,
/// the first stands exactly at the start color; when it yields at least two,
/// the last stands exactly at the end color.
pub proof fn lemma_two_stop_bounds(from: RGB, to: RGB, steps: int)
    requires
        steps >= 0,
    ensures
        two_stop_seq(from, to, steps).len() == steps,
        steps >= 1 ==> is_exactly(two_stop_seq(from, to, steps)[0], from),
        steps >= 2 ==> is_exactly(two_stop_seq(from, to, steps)[steps - 1], to),
{
}

/// Gradient generator.
///
/// Its steps are walked with [`GradientIter`].
#[derive(Debug, Clone, Copy, PartialEq, Eq, Structural)]
pub struct Gradient {
    /// The color the gradient starts from.
    pub from: RGB,
    /// The color the gradient ends at.
    pub to: RGB,
    /// How many positions the gradient yields.
    pub steps: usize,
}

impl View for Gradient {
    type V = Seq<ColorStep>;

    /// The sequence of steps this gradient yields.
    open spec fn view(&self) -> Seq<ColorStep> {
        two_stop_seq(self.from, self.to, self.steps as int)
    }
}

impl Gradient {
    /// Creates a [`Gradient`] generator from one color to another in N steps.
    pub fn new(from: RGB, to: RGB, steps: usize) -> (g: Self)
        ensures
            g == (Gradient { from, to, steps }),
    {
        Gradient { from, to, steps }
    }

    /// Starts walking the steps of this gradient from the first one.
    pub fn into_iter(self) -> (it: GradientIter)
        ensures
            it == (GradientIter { gradient: self, i: 0 }),
    {
        GradientIter { gradient: self, i: 0 }
    }
}

/// [`Gradient`] iterator which yields one [`ColorStep`] per position.
pub struct GradientIter {
    /// The gradient being walked.
    pub gradient: Gradient,
    /// The position the next call yields.
    pub i: usize,
}

impl GradientIter {
    /// Yields the step of the current position and moves past it, or yields
    /// nothing once every position has been passed.
    pub fn next(&mut self) -> (r: Option<ColorStep>)
        ensures
            final(self).gradient == old(self).gradient,
            old(self).i < old(self).gradient.steps ==> final(self).i == old(self).i + 1 && r
                == Some(old(self).gradient@[old(self).i as int]),
            old(self).i >= old(self).gradient.steps ==> final(self).i == old(self).i && r is None,
    {
        if self.i >= self.gradient.steps {
            return None;
        }
        let step = if self.gradient.steps <= 1 {
            ColorStep::Blend { from: self.gradient.from, to: self.gradient.to, num: 0, den: 1 }
        } else {
            ColorStep::Blend {
                from: self.gradient.from,
                to: self.gradient.to,
                num: self.i,
                den: self.gradient.steps - 1,
            }
        };
        self.i = self.i + 1;
        Some(step)
    }
}

} // verus!
