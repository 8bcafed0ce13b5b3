//! The output buffer: one pixel per point of a `width` by `height` grid, stored
//! row by row.
use vstd::prelude::*;

verus! {

/// Where pixel `(x, y)` of a grid `width` pixels wide stands in row-major order.
pub open spec fn row_major(width: nat, x: int, y: int) -> int {
    y * width + x
}

/// A pixel inside the grid has a place inside the buffer, and distinct pixels
/// have distinct places.
pub proof fn lemma_row_major(width: nat, height: nat, x1: int, y1: int, x2: int, y2: int)
    requires
        0 <= x1 < width,
        0 <= y1 < height,
        0 <= x2 < width,
        0 <= y2 < height,
    ensures
        0 <= row_major(width, x1, y1) < width * height,
        row_major(width, x1, y1) == row_major(width, x2, y2) ==> x1 == x2 && y1 == y2,
{
    assert(0 <= y1 * width + x1 < width * height) by (nonlinear_arith)
        requires
            0 <= x1 < width,
            0 <= y1 < height,
    ;
    if y1 < y2 {
        assert(y1 * width + x1 < y2 * width + x2) by (nonlinear_arith)
            requires
                0 <= x1 < width,
                0 <= x2,
                y1 < y2,
        ;
    } else if y2 < y1 {
        assert(y2 * width + x2 < y1 * width + x1) by (nonlinear_arith)
            requires
                0 <= x2 < width,
                0 <= x1,
                y2 < y1,
        ;
    }
}

/// A grid of pixels of type `T`.
pub struct Canvas<T> {
    width: u32,
    height: u32,
    data: Vec<T>,
}

impl<T> View for Canvas<T> {
    type V = Seq<T>;

    /// The pixels, row by row.
    closed spec fn view(&self) -> Seq<T> {
        self.data@
    }
}

impl<T> Canvas<T> {
    /// The buffer holds one pixel per point of the grid.
    pub open spec fn wf(&self) -> bool {
        self@.len() == self.spec_width() * self.spec_height()
    }

    pub closed spec fn spec_width(&self) -> nat {
        self.width as nat
    }

    pub closed spec fn spec_height(&self) -> nat {
        self.height as nat
    }

    /// Whether `(x, y)` is a pixel of the grid.
    pub open spec fn contains(&self, x: int, y: int) -> bool {
        0 <= x < self.spec_width() && 0 <= y < self.spec_height()
    }

    /// The color of pixel `(x, y)`.
    pub open spec fn pixel(&self, x: int, y: int) -> T {
        self@[row_major(self.spec_width(), x, y)]
    }
}

impl<T: Copy> Canvas<T> {
    /// A `width` by `height` grid with every pixel set to `color`.
    pub fn new(width: u32, height: u32, color: T) -> (canvas: Self)
        requires
            width as nat * height as nat <= usize::MAX,
        ensures
            canvas.wf(),
            canvas.spec_width() == width,
            canvas.spec_height() == height,
            canvas@ == Seq::new(width as nat * height as nat, |_i: int| color),
    {
        let n: usize = (width as usize) * (height as usize);
        let mut data: Vec<T> = Vec::new();
        while data.len() < n
            invariant
                data.len() <= n,
                forall|i: int| 0 <= i < data.len() ==> data@[i] == color,
            decreases n - data.len(),
        {
            data.push(color);
        }
        assert(data@ == Seq::new(n as nat, |_i: int| color));
        Canvas { width, height, data }
    }

    pub fn width(&self) -> (w: u32)
        ensures
            w == self.spec_width(),
    {
        self.width
    }

    pub fn height(&self) -> (h: u32)
        ensures
            h == self.spec_height(),
    {
        self.height
    }

    /// All pixels, row by row.
    pub fn pixels(&self) -> (p: &Vec<T>)
        ensures
            p@ == self@,
    {
        &self.data
    }

    fn in_bounds(&self, x: u32, y: u32) -> (r: Result<(), &'static str>)
        ensures
            r is Ok <==> self.contains(x as int, y as int),
    {
        if x >= self.width || y >= self.height {
            Err("Point out of canvas bounds")
        } else {
            Ok(())
        }
    }

    fn index(&self, x: u32, y: u32) -> (i: usize)
        requires
            self.wf(),
            self.contains(x as int, y as int),
        ensures
            i == row_major(self.spec_width(), x as int, y as int),
            i < self@.len(),
    {
        let n = self.data.len();
        proof {
            lemma_row_major(
                self.width as nat,
                self.height as nat,
                x as int,
                y as int,
                x as int,
                y as int,
            );
            assert(0 <= (y as int) * (self.width as int) <= (y as int) * (self.width as int) + (x as int));
        }
        let row: usize = (y as usize) * (self.width as usize);
        row + (x as usize)
    }

    /// Sets pixel `(x, y)` to `color`; fails, changing nothing, where `(x, y)`
    /// lies outside the grid.
    pub fn put_pixel(&mut self, x: u32, y: u32, color: T) -> (r: Result<(), &'static str>)
        requires
            old(self).wf(),
        ensures
            final(self).wf(),
            r is Ok <==> old(self).contains(x as int, y as int),
            final(self).spec_width() == old(self).spec_width(),
            final(self).spec_height() == old(self).spec_height(),
            r is Ok ==> final(self)@ == old(self)@.update(
                row_major(old(self).spec_width(), x as int, y as int),
                color,
            ),
            r is Err ==> final(self)@ == old(self)@,
    {
        match self.in_bounds(x, y) {
            Err(e) => Err(e),
            Ok(()) => {
                let i = self.index(x, y);
                self.data.set(i, color);
                Ok(())
            },
        }
    }

    /// The color of pixel `(x, y)`; fails where `(x, y)` lies outside the grid.
    pub fn get_pixel(&self, x: u32, y: u32) -> (r: Result<T, &'static str>)
        requires
            self.wf(),
        ensures
            r is Ok <==> self.contains(x as int, y as int),
            r is Ok ==> r == Ok::<T, &'static str>(self.pixel(x as int, y as int)),
    {
        match self.in_bounds(x, y) {
            Err(e) => Err(e),
            Ok(()) => {
                let i = self.index(x, y);
                Ok(self.data[i])
            },
        }
    }

    /// Sets every pixel to `color`.
    pub fn clear(&mut self, color: T)
        requires
            old(self).wf(),
        ensures
            final(self).wf(),
            final(self).spec_width() == old(self).spec_width(),
            final(self).spec_height() == old(self).spec_height(),
            final(self)@ == Seq::new(old(self)@.len(), |_i: int| color),
    {
        let n = self.data.len();
        let mut i: usize = 0;
        while i < n
            invariant
                i <= n,
                n == self.data@.len(),
                self.width == old(self).width,
                self.height == old(self).height,
                n == old(self)@.len(),
                old(self).wf(),
                forall|k: int| 0 <= k < i ==> self.data@[k] == color,
            decreases n - i,
        {
            self.data.set(i, color);
            i += 1;
        }
        assert(self.data@ == Seq::new(n as nat, |_i: int| color));
    }
}

impl<T: Copy> Default for Canvas<T> {
    /// The empty grid, with no pixel.
    fn default() -> (canvas: Self)
        ensures
            canvas.wf(),
            canvas.spec_width() == 0,
            canvas.spec_height() == 0,
            canvas@.len() == 0,
    {
        let canvas = Canvas { width: 0, height: 0, data: Vec::new() };
        assert(canvas@.len() == 0);
        assert(canvas.spec_width() == 0);
        canvas
    }
}

} // verus!
