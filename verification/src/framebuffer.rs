//! An in-memory pixel buffer. Presenting it on a screen is the surrounding
//! program's concern; here live only the buffer and its pixel operations.

use vstd::prelude::*;

verus! {

/// An 8-bit display color.
#[derive(Clone, Copy, Debug)]
pub struct Color {
    pub r: u8,
    pub g: u8,
    pub b: u8,
    pub a: u8,
}

/// A `width * height` buffer of display colors with a background color and
/// the brush color `set_pixel` paints with.
pub struct Framebuffer {
    pub width: i32,
    pub height: i32,
    pub pixel_data: Vec<Color>,
    pub background_color: Color,
    pub current_color: Color,
}

impl Framebuffer {
    /// Bounded dimensions and exactly one color per pixel.
    pub open spec fn wf(&self) -> bool {
        &&& 0 <= self.width <= 8192
        &&& 0 <= self.height <= 8192
        &&& self.pixel_data@.len() == (self.width as int) * (self.height as int)
    }

    /// The color stored for pixel `(x, y)`.
    pub open spec fn pixel_at(&self, x: int, y: int) -> Color {
        self.pixel_data@[y * self.width + x]
    }

    pub fn new(width: i32, height: i32, background_color: Color) -> (r: Framebuffer)
        requires
            0 <= width <= 8192,
            0 <= height <= 8192,
        ensures
            r.wf(),
            r.width == width,
            r.height == height,
            r.background_color == background_color,
            forall|i: int| 0 <= i < r.pixel_data@.len() ==> r.pixel_data@[i] == background_color,
    {
        proof {
            assert((width as int) * (height as int) <= 0x400_0000) by (nonlinear_arith)
                requires
                    0 <= width <= 8192,
                    0 <= height <= 8192,
            ;
        }
        let size = (width as usize) * (height as usize);
        let mut pixel_data: Vec<Color> = Vec::new();
        let mut i: usize = 0;
        while i < size
            invariant
                i <= size,
                pixel_data@.len() == i,
                forall|j: int| 0 <= j < i ==> pixel_data@[j] == background_color,
            decreases size - i,
        {
            pixel_data.push(background_color);
            i = i + 1;
        }
        Framebuffer {
            width,
            height,
            pixel_data,
            background_color,
            current_color: Color { r: 255, g: 255, b: 255, a: 255 },
        }
    }

    /// Repaints every pixel with the background color.
    pub fn clear(&mut self)
        requires
            old(self).wf(),
        ensures
            final(self).wf(),
            final(self).width == old(self).width,
            final(self).height == old(self).height,
            final(self).background_color == old(self).background_color,
            final(self).current_color == old(self).current_color,
            forall|i: int|
                0 <= i < final(self).pixel_data@.len() ==> final(self).pixel_data@[i] == old(
                    self
                ).background_color,
    {
        let n = self.pixel_data.len();
        let mut i: usize = 0;
        while i < n
            invariant
                i <= n,
                self.pixel_data@.len() == n,
                self.width == old(self).width,
                self.height == old(self).height,
                self.background_color == old(self).background_color,
                self.current_color == old(self).current_color,
                self.wf(),
                forall|j: int|
                    0 <= j < i ==> self.pixel_data@[j] == self.background_color,
            decreases n - i,
        {
            let c = self.background_color;
            self.pixel_data.set(i, c);
            i = i + 1;
        }
    }

    /// Paints pixel `(x, y)` with the current color; coordinates outside the
    /// buffer are ignored.
    pub fn set_pixel(&mut self, x: i32, y: i32)
        requires
            old(self).wf(),
        ensures
            final(self).wf(),
            final(self).width == old(self).width,
            final(self).height == old(self).height,
            final(self).background_color == old(self).background_color,
            final(self).current_color == old(self).current_color,
            0 <= x < old(self).width && 0 <= y < old(self).height ==> final(self).pixel_data@
                == old(self).pixel_data@.update(
                y * old(self).width + x,
                old(self).current_color,
            ),
            !(0 <= x < old(self).width && 0 <= y < old(self).height) ==> final(self).pixel_data@
                == old(self).pixel_data@,
    {
        if x >= 0 && x < self.width && y >= 0 && y < self.height {
            proof {
                assert((y as int) * (self.width as int) + (x as int) < (self.height as int) * (
                self.width as int)) by (nonlinear_arith)
                    requires
                        0 <= x < self.width,
                        0 <= y < self.height,
                ;
                assert((self.height as int) * (self.width as int) == (self.width as int) * (
                self.height as int)) by (nonlinear_arith);
                assert(0 <= (y as int) * (self.width as int)) by (nonlinear_arith)
                    requires
                        0 <= y,
                        0 <= self.width,
                ;
                assert((self.height as int) * (self.width as int) <= 0x400_0000)
                    by (nonlinear_arith)
                    requires
                        0 <= self.width <= 8192,
                        0 <= self.height <= 8192,
                ;
            }
            let index = (y as usize) * (self.width as usize) + (x as usize);
            let c = self.current_color;
            self.pixel_data.set(index, c);
        }
    }

    /// Sets the background color and repaints the buffer with it.
    pub fn set_background_color(&mut self, color: Color)
        requires
            old(self).wf(),
        ensures
            final(self).wf(),
            final(self).width == old(self).width,
            final(self).height == old(self).height,
            final(self).background_color == color,
            final(self).current_color == old(self).current_color,
            forall|i: int|
                0 <= i < final(self).pixel_data@.len() ==> final(self).pixel_data@[i] == color,
    {
        self.background_color = color;
        self.clear();
    }

    /// Sets the brush color later `set_pixel` calls paint with.
    pub fn set_current_color(&mut self, color: Color)
        requires
            old(self).wf(),
        ensures
            final(self).wf(),
            final(self).width == old(self).width,
            final(self).height == old(self).height,
            final(self).background_color == old(self).background_color,
            final(self).current_color == color,
            final(self).pixel_data@ == old(self).pixel_data@,
    {
        self.current_color = color;
    }

    /// The color of pixel `(x, y)`, or `None` outside the buffer.
    pub fn get_pixel_color(&self, x: i32, y: i32) -> (r: Option<Color>)
        requires
            self.wf(),
        ensures
            match r {
                Option::Some(c) => 0 <= x < self.width && 0 <= y < self.height && c
                    == self.pixel_at(x as int, y as int),
                Option::None => !(0 <= x < self.width && 0 <= y < self.height),
            },
    {
        if x >= 0 && x < self.width && y >= 0 && y < self.height {
            proof {
                assert((y as int) * (self.width as int) + (x as int) < (self.height as int) * (
                self.width as int)) by (nonlinear_arith)
                    requires
                        0 <= x < self.width,
                        0 <= y < self.height,
                ;
                assert((self.height as int) * (self.width as int) == (self.width as int) * (
                self.height as int)) by (nonlinear_arith);
                assert(0 <= (y as int) * (self.width as int)) by (nonlinear_arith)
                    requires
                        0 <= y,
                        0 <= self.width,
                ;
                assert((self.height as int) * (self.width as int) <= 0x400_0000)
                    by (nonlinear_arith)
                    requires
                        0 <= self.width <= 8192,
                        0 <= self.height <= 8192,
                ;
            }
            let index = (y as usize) * (self.width as usize) + (x as usize);
            Option::Some(self.pixel_data[index])
        } else {
            Option::None
        }
    }
}

} // verus!
