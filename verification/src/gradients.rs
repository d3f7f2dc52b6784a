//! The built-in gradient themes.

use vstd::prelude::*;

use crate::rgb::RGB;

verus! {

/// A list of built-in gradient themes.
#[derive(Debug, Clone, Copy, PartialEq, Eq, PartialOrd, Ord, Hash, Structural)]
pub enum Gradient {
    /// Atlast
    Atlast,
    /// Cristal
    Cristal,
    /// Teen
    Teen,
    /// Mind
    Mind,
    /// Morning
    Morning,
    /// Vice
    Vice,
    /// Passion
    Passion,
    /// Fruit
    Fruit,
    /// Retro
    Retro,
    /// Summer
    Summer,
    /// Rainbow
    Rainbow,
    /// Pastel
    Pastel,
    /// Monsoon
    Monsoon,
    /// Forest
    Forest,
    /// Instagram
    Instagram,
}

/// The ordered stop colors of each built-in theme.
pub open spec fn preset_spec(g: Gradient) -> Seq<RGB> {
    match g {
        Gradient::Atlast => seq![
            RGB { r: 0xFE, g: 0xAC, b: 0x5E },
            RGB { r: 0xC7, g: 0x9D, b: 0xD0 },
            RGB { r: 0x4B, g: 0xC0, b: 0xC8 },
        ],
        Gradient::Cristal => seq![RGB { r: 0xBD, g: 0xFF, b: 0xF3 }, RGB { r: 0x5A, g: 0xC2, b: 0x9A }],
        Gradient::Teen => seq![
            RGB { r: 0x77, g: 0xA1, b: 0xD3 },
            RGB { r: 0x79, g: 0xCB, b: 0xCA },
            RGB { r: 0xE6, g: 0x84, b: 0xAE },
        ],
        Gradient::Mind => seq![
            RGB { r: 0x47, g: 0x3B, b: 0x7B },
            RGB { r: 0x35, g: 0x84, b: 0xA7 },
            RGB { r: 0x30, g: 0xD2, b: 0xBE },
        ],
        Gradient::Morning => seq![RGB { r: 0xFF, g: 0x5F, b: 0x6D }, RGB { r: 0xFF, g: 0xC3, b: 0x71 }],
        Gradient::Vice => seq![RGB { r: 0x5E, g: 0xE7, b: 0xDF }, RGB { r: 0xB4, g: 0x90, b: 0xCA }],
        Gradient::Passion => seq![RGB { r: 0xF4, g: 0x3B, b: 0x47 }, RGB { r: 0x45, g: 0x3A, b: 0x94 }],
        Gradient::Fruit => seq![RGB { r: 0xFF, g: 0x4E, b: 0x50 }, RGB { r: 0xF9, g: 0xD4, b: 0x23 }],
        Gradient::Retro => seq![
            RGB { r: 0x3f, g: 0x51, b: 0xb1 },
            RGB { r: 0x5a, g: 0x55, b: 0xae },
            RGB { r: 0x7b, g: 0x5f, b: 0xac },
            RGB { r: 0x8f, g: 0x6a, b: 0xae },
            RGB { r: 0xa8, g: 0x6a, b: 0xa4 },
            RGB { r: 0xcc, g: 0x6b, b: 0x8e },
            RGB { r: 0xf1, g: 0x82, b: 0x71 },
            RGB { r: 0xf3, g: 0xa4, b: 0x69 },
            RGB { r: 0xf7, g: 0xc9, b: 0x78 },
        ],
        Gradient::Summer => seq![RGB { r: 0xfd, g: 0xbb, b: 0x2d }, RGB { r: 0x22, g: 0xc1, b: 0xc3 }],
        Gradient::Rainbow => seq![
            RGB { r: 189, g: 19, b: 84 },
            RGB { r: 228, g: 108, b: 33 },
            RGB { r: 226, g: 166, b: 29 },
            RGB { r: 46, g: 163, b: 44 },
            RGB { r: 54, g: 83, b: 238 },
            RGB { r: 87, g: 32, b: 131 },
        ],
        Gradient::Pastel => seq![
            RGB { r: 255, g: 223, b: 204 },
            RGB { r: 255, g: 243, b: 219 },
            RGB { r: 203, g: 235, b: 195 },
            RGB { r: 173, g: 215, b: 219 },
            RGB { r: 137, g: 143, b: 173 },
        ],
        Gradient::Monsoon => seq![
            RGB { r: 181, g: 199, b: 204 },
            RGB { r: 139, g: 161, b: 173 },
            RGB { r: 88, g: 123, b: 137 },
            RGB { r: 36, g: 76, b: 102 },
            RGB { r: 64, g: 125, b: 108 },
            RGB { r: 125, g: 178, b: 144 },
        ],
        Gradient::Forest => seq![
            RGB { r: 69, g: 55, b: 48 },
            RGB { r: 130, g: 94, b: 65 },
            RGB { r: 44, g: 62, b: 57 },
            RGB { r: 65, g: 90, b: 69 },
            RGB { r: 108, g: 112, b: 88 },
        ],
        Gradient::Instagram => seq![
            RGB { r: 0x83, g: 0x3a, b: 0xb4 },
            RGB { r: 0xfd, g: 0x1d, b: 0x1d },
            RGB { r: 0xfc, g: 0xb0, b: 0x45 },
        ],
    }
}

/// Every built-in theme holds at least two stops.
pub proof fn lemma_preset_nonempty(g: Gradient)
    ensures
        preset_spec(g).len() >= 2,
{
}

impl Gradient {
    /// The ordered stop colors of this theme.
    pub fn colors(&self) -> (v: Vec<RGB>)
        ensures
            v@ == preset_spec(*self),
    {
        let mut v: Vec<RGB> = Vec::new();
        match self {
            Gradient::Atlast => {
                v.push(RGB { r: 0xFE, g: 0xAC, b: 0x5E });
                v.push(RGB { r: 0xC7, g: 0x9D, b: 0xD0 });
                v.push(RGB { r: 0x4B, g: 0xC0, b: 0xC8 });
            },
            Gradient::Cristal => {
                v.push(RGB { r: 0xBD, g: 0xFF, b: 0xF3 });
                v.push(RGB { r: 0x5A, g: 0xC2, b: 0x9A });
            },
            Gradient::Teen => {
                v.push(RGB { r: 0x77, g: 0xA1, b: 0xD3 });
                v.push(RGB { r: 0x79, g: 0xCB, b: 0xCA });
                v.push(RGB { r: 0xE6, g: 0x84, b: 0xAE });
            },
            Gradient::Mind => {
                v.push(RGB { r: 0x47, g: 0x3B, b: 0x7B });
                v.push(RGB { r: 0x35, g: 0x84, b: 0xA7 });
                v.push(RGB { r: 0x30, g: 0xD2, b: 0xBE });
            },
            Gradient::Morning => {
                v.push(RGB { r: 0xFF, g: 0x5F, b: 0x6D });
                v.push(RGB { r: 0xFF, g: 0xC3, b: 0x71 });
            },
            Gradient::Vice => {
                v.push(RGB { r: 0x5E, g: 0xE7, b: 0xDF });
                v.push(RGB { r: 0xB4, g: 0x90, b: 0xCA });
            },
            Gradient::Passion => {
                v.push(RGB { r: 0xF4, g: 0x3B, b: 0x47 });
                v.push(RGB { r: 0x45, g: 0x3A, b: 0x94 });
            },
            Gradient::Fruit => {
                v.push(RGB { r: 0xFF, g: 0x4E, b: 0x50 });
                v.push(RGB { r: 0xF9, g: 0xD4, b: 0x23 });
            },
            Gradient::Retro => {
                v.push(RGB { r: 0x3f, g: 0x51, b: 0xb1 });
                v.push(RGB { r: 0x5a, g: 0x55, b: 0xae });
                v.push(RGB { r: 0x7b, g: 0x5f, b: 0xac });
                v.push(RGB { r: 0x8f, g: 0x6a, b: 0xae });
                v.push(RGB { r: 0xa8, g: 0x6a, b: 0xa4 });
                v.push(RGB { r: 0xcc, g: 0x6b, b: 0x8e });
                v.push(RGB { r: 0xf1, g: 0x82, b: 0x71 });
                v.push(RGB { r: 0xf3, g: 0xa4, b: 0x69 });
                v.push(RGB { r: 0xf7, g: 0xc9, b: 0x78 });
            },
            Gradient::Summer => {
                v.push(RGB { r: 0xfd, g: 0xbb, b: 0x2d });
                v.push(RGB { r: 0x22, g: 0xc1, b: 0xc3 });
            },
            Gradient::Rainbow => {
                v.push(RGB { r: 189, g: 19, b: 84 });
                v.push(RGB { r: 228, g: 108, b: 33 });
                v.push(RGB { r: 226, g: 166, b: 29 });
                v.push(RGB { r: 46, g: 163, b: 44 });
                v.push(RGB { r: 54, g: 83, b: 238 });
                v.push(RGB { r: 87, g: 32, b: 131 });
            },
            Gradient::Pastel => {
                v.push(RGB { r: 255, g: 223, b: 204 });
                v.push(RGB { r: 255, g: 243, b: 219 });
                v.push(RGB { r: 203, g: 235, b: 195 });
                v.push(RGB { r: 173, g: 215, b: 219 });
                v.push(RGB { r: 137, g: 143, b: 173 });
            },
            Gradient::Monsoon => {
                v.push(RGB { r: 181, g: 199, b: 204 });
                v.push(RGB { r: 139, g: 161, b: 173 });
                v.push(RGB { r: 88, g: 123, b: 137 });
                v.push(RGB { r: 36, g: 76, b: 102 });
                v.push(RGB { r: 64, g: 125, b: 108 });
                v.push(RGB { r: 125, g: 178, b: 144 });
            },
            Gradient::Forest => {
                v.push(RGB { r: 69, g: 55, b: 48 });
                v.push(RGB { r: 130, g: 94, b: 65 });
                v.push(RGB { r: 44, g: 62, b: 57 });
                v.push(RGB { r: 65, g: 90, b: 69 });
                v.push(RGB { r: 108, g: 112, b: 88 });
            },
            Gradient::Instagram => {
                v.push(RGB { r: 0x83, g: 0x3a, b: 0xb4 });
                v.push(RGB { r: 0xfd, g: 0x1d, b: 0x1d });
                v.push(RGB { r: 0xfc, g: 0xb0, b: 0x45 });
            },
        }
        proof {
            assert(v@ =~= preset_spec(*self));
        }
        v
    }

    /// Starts walking the stop colors of this theme, first one first.
    pub fn into_iter(&self) -> (it: GradientIter)
        ensures
            it.colors@ == preset_spec(*self),
            it.i == 0,
    {
        GradientIter { colors: self.colors(), i: 0 }
    }
}

/// [`Gradient`] theme iterator which yields [`RGB`] stop colors.
#[derive(Debug, Clone)]
pub struct GradientIter {
    /// The stop colors being walked.
    pub colors: Vec<RGB>,
    /// The position the next call yields.
    pub i: usize,
}

impl GradientIter {
    /// Yields the stop color of the current position and moves past it, or
    /// yields nothing once every stop has been passed.
    pub fn next(&mut self) -> (r: Option<RGB>)
        ensures
            final(self).colors == old(self).colors,
            old(self).i < old(self).colors@.len() ==> final(self).i == old(self).i + 1 && r
                == Some(old(self).colors@[old(self).i as int]),
            old(self).i >= old(self).colors@.len() ==> final(self).i == old(self).i && r is None,
    {
        if self.i >= self.colors.len() {
            return None;
        }
        let c = self.colors[self.i];
        self.i = self.i + 1;
        Some(c)
    }

    /// How many stop colors are still to come.
    pub fn len(&self) -> (n: usize)
        ensures
            n as int == if self.i as int <= self.colors@.len() {
                self.colors@.len() - self.i as int
            } else {
                0
            },
    {
        if self.i >= self.colors.len() {
            0
        } else {
            self.colors.len() - self.i
        }
    }
}

} // verus!
