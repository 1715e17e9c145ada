use vstd::prelude::*;

verus! {

/// A two-dimensional vector over any payload type; the simulation
/// instantiates it with fixed-point `i64` coordinates.
#[derive(Debug, Default, Copy, Clone, PartialEq, Eq, Hash, Structural)]
pub struct Vector2X<T> {
    pub x: T,
    pub y: T,
}

/// An axis-aligned rectangle: origin corner plus size.
#[derive(Debug, Copy, Clone, PartialEq, Eq, Hash, Structural)]
pub struct Rect2X<T> {
    pub pos: Vector2X<T>,
    pub size: Vector2X<T>,
}

/// Fixed-point world coordinates: distances are measured in coordinate
/// steps of one tenth of a game unit, so fractional speeds stay exact.
pub type Vector2Fx = Vector2X<i64>;

/// Rectangle in fixed-point world coordinates.
pub type Rect2Fx = Rect2X<i64>;

impl<T> Vector2X<T> {
    pub fn new(x: T, y: T) -> (v: Self)
        ensures
            v.x == x,
            v.y == y,
    {
        Self { x, y }
    }
}

impl Vector2X<i64> {
    pub fn zero() -> (v: Self)
        ensures
            v.x == 0,
            v.y == 0,
    {
        Self { x: 0, y: 0 }
    }

    pub fn plus(self, rhs: Self) -> (r: Self)
        requires
            i64::MIN <= self.x + rhs.x <= i64::MAX,
            i64::MIN <= self.y + rhs.y <= i64::MAX,
        ensures
            r.x == self.x + rhs.x,
            r.y == self.y + rhs.y,
    {
        Self { x: self.x + rhs.x, y: self.y + rhs.y }
    }

    pub fn plus_assign(&mut self, rhs: Self)
        requires
            i64::MIN <= old(self).x + rhs.x <= i64::MAX,
            i64::MIN <= old(self).y + rhs.y <= i64::MAX,
        ensures
            final(self).x == old(self).x + rhs.x,
            final(self).y == old(self).y + rhs.y,
    {
        self.x = self.x + rhs.x;
        self.y = self.y + rhs.y;
    }

    pub fn minus(self, rhs: Self) -> (r: Self)
        requires
            i64::MIN <= self.x - rhs.x <= i64::MAX,
            i64::MIN <= self.y - rhs.y <= i64::MAX,
        ensures
            r.x == self.x - rhs.x,
            r.y == self.y - rhs.y,
    {
        Self { x: self.x - rhs.x, y: self.y - rhs.y }
    }

    pub fn negated(self) -> (r: Self)
        requires
            self.x != i64::MIN,
            self.y != i64::MIN,
        ensures
            r.x == -self.x,
            r.y == -self.y,
    {
        Self { x: -self.x, y: -self.y }
    }

    pub fn scaled(self, rhs: i64) -> (r: Self)
        requires
            i64::MIN <= self.x * rhs <= i64::MAX,
            i64::MIN <= self.y * rhs <= i64::MAX,
        ensures
            r.x == self.x * rhs,
            r.y == self.y * rhs,
    {
        Self { x: self.x * rhs, y: self.y * rhs }
    }

    pub fn dot(self, rhs: Self) -> (r: i64)
        requires
            i64::MIN <= self.x * rhs.x <= i64::MAX,
            i64::MIN <= self.y * rhs.y <= i64::MAX,
            i64::MIN <= self.x * rhs.x + self.y * rhs.y <= i64::MAX,
        ensures
            r == self.x * rhs.x + self.y * rhs.y,
    {
        self.x * rhs.x + self.y * rhs.y
    }

    pub fn length_squared(self) -> (r: i64)
        requires
            i64::MIN <= self.x * self.x <= i64::MAX,
            i64::MIN <= self.y * self.y <= i64::MAX,
            i64::MIN <= self.x * self.x + self.y * self.y <= i64::MAX,
        ensures
            r == self.x * self.x + self.y * self.y,
            r >= 0,
    {
        proof {
            lemma_square_nonneg(self.x as int);
            lemma_square_nonneg(self.y as int);
        }
        self.x * self.x + self.y * self.y
    }
}

/// A square of an integer is never negative.
pub proof fn lemma_square_nonneg(a: int)
    ensures
        a * a >= 0,
{
    if a < 0 {
        assert(a * a == (-a) * (-a)) by (nonlinear_arith);
        assert((-a) * (-a) >= 0) by (nonlinear_arith);
    } else {
        assert(a * a >= 0) by (nonlinear_arith);
    }
}

/// Bounding both factors bounds their product.
pub proof fn lemma_mul_bound(a: int, b: int, m: int)
    requires
        -m <= a <= m,
        -m <= b <= m,
        0 <= m,
    ensures
        -(m * m) <= a * b <= m * m,
{
    assert(-(m * m) <= a * b <= m * m) by (nonlinear_arith)
        requires
            -m <= a <= m,
            -m <= b <= m,
            0 <= m,
    ;
}

impl<T> Rect2X<T> {
    pub fn new(x: T, y: T, w: T, h: T) -> (r: Self)
        ensures
            r.pos.x == x,
            r.pos.y == y,
            r.size.x == w,
            r.size.y == h,
    {
        Self { pos: Vector2X { x, y }, size: Vector2X { x: w, y: h } }
    }
}

impl Rect2X<i64> {
    /// A point lies inside the rectangle when it is at or beyond the origin
    /// corner and strictly before the far corner on both axes.
    pub open spec fn spec_contains(self, point: Vector2X<i64>) -> bool {
        &&& point.x >= self.pos.x
        &&& point.y >= self.pos.y
        &&& point.x < self.pos.x + self.size.x
        &&& point.y < self.pos.y + self.size.y
    }

    pub fn contains(&self, point: &Vector2X<i64>) -> (r: bool)
        requires
            i64::MIN <= self.pos.x + self.size.x <= i64::MAX,
            i64::MIN <= self.pos.y + self.size.y <= i64::MAX,
        ensures
            r == self.spec_contains(*point),
    {
        point.x >= self.pos.x && point.y >= self.pos.y && point.x < self.pos.x + self.size.x
            && point.y < self.pos.y + self.size.y
    }
}

} // verus!
