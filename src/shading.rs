use vstd::prelude::*;

use crate::color::Color;

verus! {

/// A material whose surface has one color everywhere.
pub struct FlatMaterial {
    pub color: Color,
}

impl FlatMaterial {
    /// The surface color at any point: the material's color.
    pub fn compute_surface_color(&self) -> (c: Color)
        ensures
            c == self.color,
    {
        self.color
    }
}

/// Which of two checker colors a cell of the triplanar checkerboard takes, from its
/// cell numbers along the two projected axes: 0 where they add up to an even
/// number, 1 where odd.
pub fn checker_parity(cell_u: u32, cell_v: u32) -> (p: u32)
    ensures
        p == (cell_u as int + cell_v as int) % 2,
{
    (cell_u % 2 + cell_v % 2) % 2
}

/// Lighting that ignores the scene and tints every surface by one ambient color.
pub struct UnlitLightning {
    ambient_color: Color,
}

impl UnlitLightning {
    pub closed spec fn ambient(&self) -> Color {
        self.ambient_color
    }

    pub fn new(ambient_color: &Color) -> (l: UnlitLightning)
        ensures
            l.ambient() == *ambient_color,
    {
        UnlitLightning { ambient_color: *ambient_color }
    }

    pub fn get_ambient_color(&self) -> (c: &Color)
        ensures
            *c == self.ambient(),
    {
        &self.ambient_color
    }

    pub fn set_ambient_color(&mut self, color: &Color)
        ensures
            final(self).ambient() == *color,
    {
        self.ambient_color = *color;
    }

    /// The lit color of a surface whose own color is `base_color`: that color tinted by
    /// the ambient color.
    pub fn apply_light(&self, base_color: Color) -> (c: Color)
        ensures
            c == base_color.tinted(self.ambient()),
    {
        base_color.tint(&self.ambient_color)
    }
}

} // verus!
