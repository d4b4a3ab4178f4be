//! Text labels of the display: what the layout needs to know of them.

use vstd::prelude::*;

verus! {

/// The size of a rendered surface, in pixels.
#[derive(Clone, Copy, Debug, PartialEq, Eq, Structural)]
pub struct Extent {
    pub width: u32,
    pub height: u32,
}

/// A rectangle of the display, in pixels.
#[derive(Clone, Copy, Debug, PartialEq, Eq, Structural)]
pub struct Rect {
    pub x: i32,
    pub y: i32,
    pub width: u32,
    pub height: u32,
}

/// A label. Rendering its text is the display's work; the sprite keeps the
/// extent of the surface that the last rendering produced.
#[derive(Clone, Copy, Debug)]
pub struct Sprite {
    surface: Option<Extent>,
}

impl Sprite {
    /// The extent of the rendered text, if any text was rendered.
    pub closed spec fn surface(&self) -> Option<Extent> {
        self.surface
    }

    /// A label without text.
    pub fn new() -> (sprite: Sprite)
        ensures
            sprite.surface() is None,
    {
        Sprite { surface: None }
    }

    /// Takes note that the label's text was rendered anew, onto a surface of
    /// `width` by `height` pixels, which replaces any earlier one.
    pub fn text(&mut self, width: u32, height: u32)
        ensures
            final(self).surface() == Some(Extent { width, height }),
    {
        self.surface = Some(Extent { width, height });
    }

    /// Whether any text was rendered.
    pub fn has_text(&self) -> (rendered: bool)
        ensures
            rendered == (self.surface() is Some),
    {
        self.surface.is_some()
    }

    /// The rectangle that the rendered text covers when drawn at the origin.
    pub fn rect(&self) -> (rect: Rect)
        requires
            self.surface() is Some,
        ensures
            rect == (Rect {
                x: 0,
                y: 0,
                width: self.surface()->0.width,
                height: self.surface()->0.height,
            }),
    {
        match self.surface {
            Some(extent) => Rect { x: 0, y: 0, width: extent.width, height: extent.height },
            None => Rect { x: 0, y: 0, width: 0, height: 0 },
        }
    }
}

} // verus!
