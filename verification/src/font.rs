//! Fonts: the glyph shapes registered with the renderer.

use vstd::prelude::*;

verus! {

/// A shape registered with the renderer.
#[derive(Clone, Copy, Debug, PartialEq, Eq, Structural)]
pub struct ShapeHandle(pub usize);

/// A font: the handles of its glyph shapes, by glyph index.
#[derive(Clone, Debug)]
pub struct Font {
    glyphs: Vec<ShapeHandle>,
}

impl Font {
    /// A font whose glyphs are the given registered shapes, in glyph order.
    pub fn from_glyphs(glyphs: Vec<ShapeHandle>) -> (r: Font)
        ensures
            r.glyphs() == glyphs@,
    {
        Font { glyphs }
    }

    /// The glyph shapes, by glyph index.
    pub closed spec fn glyphs(&self) -> Seq<ShapeHandle> {
        self.glyphs@
    }

    /// The shape of glyph `i`, if the font has one.
    pub fn get_glyph(&self, i: usize) -> (r: Option<ShapeHandle>)
        ensures
            i < self.glyphs().len() ==> r == Some(self.glyphs()[i as int]),
            i >= self.glyphs().len() ==> r is None,
    {
        if i < self.glyphs.len() {
            Some(self.glyphs[i])
        } else {
            None
        }
    }
}

} // verus!
