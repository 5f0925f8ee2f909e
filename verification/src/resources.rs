//! Static icons.
use vstd::prelude::*;

verus! {

/// An icon: its vector image, and a bitmap to fall back on.
#[derive(Copy, Clone)]
pub struct UIIcon {
    svg: &'static [u8],
    png: &'static [u8],
}

impl UIIcon {
    /// The two images of the icon: vector, then bitmap.
    pub closed spec fn images(self) -> (&'static [u8], &'static [u8]) {
        (self.svg, self.png)
    }

    /// An icon from its two images.
    pub fn new(svg: &'static [u8], png: &'static [u8]) -> (ret: Self)
        ensures
            ret.images() == (svg, png),
    {
        UIIcon { svg, png }
    }

    /// The vector image.
    pub fn svg(&self) -> (ret: &'static [u8])
        ensures
            ret == self.images().0,
    {
        self.svg
    }

    /// The bitmap image.
    pub fn png(&self) -> (ret: &'static [u8])
        ensures
            ret == self.images().1,
    {
        self.png
    }

    /// The images to try in turn when showing the icon: the vector image
    /// first, then the bitmap.
    pub fn sources(&self) -> (ret: (&'static [u8], &'static [u8]))
        ensures
            ret == self.images(),
    {
        (self.svg, self.png)
    }
}

} // verus!
