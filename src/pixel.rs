//! Pixels and images held as rows of pixels.
use vstd::prelude::*;

verus! {

/// An 8-bit RGB colour.
#[derive(Clone, Copy, Debug, PartialEq, Eq, Structural)]
pub struct Rgb {
    pub r: u8,
    pub g: u8,
    pub b: u8,
}

impl Rgb {
    pub fn new(r: u8, g: u8, b: u8) -> (p: Rgb)
        ensures
            p == Rgb::new_spec(r, g, b),
    {
        Rgb { r, g, b }
    }

    pub open spec fn new_spec(r: u8, g: u8, b: u8) -> Rgb {
        Rgb { r, g, b }
    }

    /// The largest of the three channels.
    pub open spec fn max_spec(self) -> int {
        let m = if self.r >= self.g { self.r } else { self.g };
        if m >= self.b { m as int } else { self.b as int }
    }

    /// The smallest of the three channels.
    pub open spec fn min_spec(self) -> int {
        let m = if self.r <= self.g { self.r } else { self.g };
        if m <= self.b { m as int } else { self.b as int }
    }

    pub fn max_channel(&self) -> (m: u8)
        ensures
            m == self.max_spec(),
    {
        let m = if self.r >= self.g { self.r } else { self.g };
        if m >= self.b { m } else { self.b }
    }

    pub fn min_channel(&self) -> (m: u8)
        ensures
            m == self.min_spec(),
    {
        let m = if self.r <= self.g { self.r } else { self.g };
        if m <= self.b { m } else { self.b }
    }
}

/// An image of `height` rows, each of `width` pixels; row `y` is `rows[y]`.
pub struct Image {
    pub width: u32,
    pub height: u32,
    pub rows: Vec<Vec<Rgb>>,
}

impl Image {
    /// There are `height` rows, and every row holds `width` pixels.
    pub open spec fn wf(&self) -> bool {
        &&& self.rows@.len() == self.height
        &&& forall|y: int| 0 <= y < self.rows@.len() ==> (#[trigger] self.rows@[y])@.len() == self.width
    }

    /// The pixels of row `y`, left to right.
    pub open spec fn row(&self, y: int) -> Seq<Rgb> {
        self.rows@[y]@
    }

    /// A `width` by `height` image of black pixels.
    pub fn new(width: u32, height: u32) -> (img: Image)
        ensures
            img.wf(),
            img.width == width,
            img.height == height,
            forall|y: int, x: int|
                0 <= y < height && 0 <= x < width ==> #[trigger] img.row(y)[x] == Rgb::new_spec(0, 0, 0),
    {
        let mut rows: Vec<Vec<Rgb>> = Vec::new();
        let mut y: u32 = 0;
        while y < height
            invariant
                y <= height,
                rows@.len() == y,
                forall|k: int| 0 <= k < y ==> (#[trigger] rows@[k])@.len() == width,
                forall|k: int, x: int|
                    0 <= k < y && 0 <= x < width ==> #[trigger] rows@[k]@[x] == Rgb::new_spec(0, 0, 0),
            decreases height - y,
        {
            let mut row: Vec<Rgb> = Vec::new();
            let mut x: u32 = 0;
            while x < width
                invariant
                    x <= width,
                    row@.len() == x,
                    forall|i: int| 0 <= i < x ==> #[trigger] row@[i] == Rgb::new_spec(0, 0, 0),
                decreases width - x,
            {
                row.push(Rgb::new(0, 0, 0));
                x = x + 1;
            }
            rows.push(row);
            y = y + 1;
        }
        Image { width, height, rows }
    }

    /// An image of the given rows; `None` unless every row holds `width`
    /// pixels and the number of rows fits in a `u32`.
    pub fn from_rows(width: u32, rows: Vec<Vec<Rgb>>) -> (r: Option<Image>)
        ensures
            r is Some <==> rows@.len() <= u32::MAX && forall|y: int|
                0 <= y < rows@.len() ==> (#[trigger] rows@[y])@.len() == width,
            r matches Some(img) ==> img.wf() && img.width == width && img.rows@ == rows@,
    {
        if rows.len() > u32::MAX as usize {
            return None;
        }
        let mut y: usize = 0;
        while y < rows.len()
            invariant
                y <= rows@.len(),
                forall|k: int| 0 <= k < y ==> (#[trigger] rows@[k])@.len() == width,
            decreases rows@.len() - y,
        {
            if rows[y].len() != width as usize {
                return None;
            }
            y = y + 1;
        }
        let height = rows.len() as u32;
        Some(Image { width, height, rows })
    }

    /// The width and the height.
    pub fn dimensions(&self) -> (r: (u32, u32))
        ensures
            r == (self.width, self.height),
    {
        (self.width, self.height)
    }

    /// The pixel in column `x` of row `y`.
    pub fn get_pixel(&self, x: u32, y: u32) -> (p: Rgb)
        requires
            self.wf(),
            x < self.width,
            y < self.height,
        ensures
            p == self.row(y as int)[x as int],
    {
        self.rows[y as usize][x as usize]
    }

    /// Sets the pixel in column `x` of row `y` to `p`; nothing else changes.
    pub fn put_pixel(&mut self, x: u32, y: u32, p: Rgb)
        requires
            old(self).wf(),
            x < old(self).width,
            y < old(self).height,
        ensures
            final(self).wf(),
            final(self).width == old(self).width,
            final(self).height == old(self).height,
            final(self).row(y as int) == old(self).row(y as int).update(x as int, p),
            forall|k: int| 0 <= k < old(self).height && k != y ==> #[trigger] final(self).row(k) == old(self).row(k),
    {
        let mut row: Vec<Rgb> = Vec::new();
        self.rows.set_and_swap(y as usize, &mut row);
        row.set(x as usize, p);
        self.rows.set_and_swap(y as usize, &mut row);
    }
}

} // verus!
