use vstd::prelude::*;

verus! {

/// A pixel position on the virtual screen.
#[derive(Clone, Copy, Debug, PartialEq, Eq, Structural)]
pub struct Point {
    pub x: i32,
    pub y: i32,
}

/// An axis-aligned screen region, bounds inclusive.
#[derive(Clone, Copy, Debug, PartialEq, Eq, Structural)]
pub struct Bounds {
    pub min_x: i32,
    pub max_x: i32,
    pub min_y: i32,
    pub max_y: i32,
}

/// `v` restricted to `[lo, hi]`; below `lo` gives `lo`, above `hi` gives `hi`.
pub open spec fn clamp_int(v: int, lo: int, hi: int) -> int {
    if v < lo {
        lo
    } else if v > hi {
        hi
    } else {
        v
    }
}

impl Point {
    pub fn new(x: i32, y: i32) -> (r: Point)
        ensures
            r.x == x,
            r.y == y,
    {
        Point { x, y }
    }
}

impl Bounds {
    /// Both dimensions are strictly positive.
    pub open spec fn valid(self) -> bool {
        self.max_x > self.min_x && self.max_y > self.min_y
    }

    /// The lower corner does not exceed the upper one (a zero-area region included).
    pub open spec fn ordered(self) -> bool {
        self.min_x <= self.max_x && self.min_y <= self.max_y
    }

    pub open spec fn holds(self, p: Point) -> bool {
        self.min_x <= p.x <= self.max_x && self.min_y <= p.y <= self.max_y
    }

    pub open spec fn clamped(self, p: Point) -> Point {
        Point {
            x: clamp_int(p.x as int, self.min_x as int, self.max_x as int) as i32,
            y: clamp_int(p.y as int, self.min_y as int, self.max_y as int) as i32,
        }
    }

    pub fn new(min_x: i32, max_x: i32, min_y: i32, max_y: i32) -> (r: Bounds)
        ensures
            r == (Bounds { min_x, max_x, min_y, max_y }),
    {
        Bounds { min_x, max_x, min_y, max_y }
    }

    pub fn width(&self) -> (r: i64)
        ensures
            r == self.max_x - self.min_x,
    {
        self.max_x as i64 - self.min_x as i64
    }

    pub fn height(&self) -> (r: i64)
        ensures
            r == self.max_y - self.min_y,
    {
        self.max_y as i64 - self.min_y as i64
    }

    /// A zero-area or inverted region counts as not configured.
    pub fn is_valid(&self) -> (r: bool)
        ensures
            r == self.valid(),
    {
        self.width() > 0 && self.height() > 0
    }

    pub fn contains(&self, p: Point) -> (r: bool)
        ensures
            r == self.holds(p),
    {
        self.min_x <= p.x && p.x <= self.max_x && self.min_y <= p.y && p.y <= self.max_y
    }

    /// Restricts `p` to the region, coordinate by coordinate.
    pub fn clamp(&self, p: Point) -> (r: Point)
        ensures
            r == self.clamped(p),
            self.ordered() ==> self.holds(r),
            self.holds(p) ==> r == p,
    {
        let x = if p.x < self.min_x {
            self.min_x
        } else if p.x > self.max_x {
            self.max_x
        } else {
            p.x
        };
        let y = if p.y < self.min_y {
            self.min_y
        } else if p.y > self.max_y {
            self.max_y
        } else {
            p.y
        };
        Point { x, y }
    }

    /// The point of the region closest to `p`.
    pub fn nearest_point(&self, p: Point) -> (r: Point)
        ensures
            r == self.clamped(p),
            self.ordered() ==> self.holds(r),
            self.holds(p) ==> r == p,
    {
        self.clamp(p)
    }
}

} // verus!
