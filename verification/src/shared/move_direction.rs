use vstd::prelude::*;

use crate::shared::Position;

verus! {

/// A direction of movement: the step along the rows, the step along the
/// columns, and an optional speed that scales both.
#[derive(Debug, Clone, Copy, PartialEq, Eq, Structural)]
pub struct MoveDirection(i64, i64, Option<i64>);

/// A transform of the plane in homogeneous coordinates: a matrix of three
/// rows and three columns, `m23` being the entry in the second row and the
/// third column.
#[derive(Debug, Clone, Copy, PartialEq, Eq, Structural)]
pub struct Transform {
    pub m11: i64,
    pub m12: i64,
    pub m13: i64,
    pub m21: i64,
    pub m22: i64,
    pub m23: i64,
    pub m31: i64,
    pub m32: i64,
    pub m33: i64,
}

/// Whether `v` is in the range of `i64`.
pub open spec fn in_range(v: int) -> bool {
    i64::MIN <= v <= i64::MAX
}

/// Whether the product of the matrix row (`a`, `b`, `c`) with `p` can be
/// built from the left within the range of `i64`: each of the three
/// products, and each sum on the way.
pub open spec fn row_fits(a: i64, b: i64, c: i64, p: Position) -> bool {
    &&& in_range(a * p.x)
    &&& in_range(b * p.y)
    &&& in_range(b * p.y + a * p.x)
    &&& in_range(c * p.z)
    &&& in_range(c * p.z + (b * p.y + a * p.x))
}

/// The product of the matrix row (`a`, `b`, `c`) with `p`.
pub open spec fn row_times(a: i64, b: i64, c: i64, p: Position) -> int {
    c * p.z + (b * p.y + a * p.x)
}

impl MoveDirection {
    /// Each step is at most one cell, and no speed makes the scaled step
    /// leave the range of `i64`.
    #[verifier::type_invariant]
    spec fn bounded(self) -> bool {
        &&& -1 <= self.0 <= 1
        &&& -1 <= self.1 <= 1
        &&& self.2 matches Some(speed) ==> speed > i64::MIN
    }

    /// The number of rows that one move in this direction covers, downwards.
    pub closed spec fn row_step(self) -> int {
        match self.2 {
            Some(speed) => self.0 * speed,
            None => self.0 as int,
        }
    }

    /// The number of columns that one move in this direction covers, to the
    /// right.
    pub closed spec fn col_step(self) -> int {
        match self.2 {
            Some(speed) => self.1 * speed,
            None => self.1 as int,
        }
    }

    /// The transform of one move in this direction: it shifts a point of the
    /// scale 1 by the column step along `x` and by the row step along `y`.
    pub open spec fn transform(self) -> Transform {
        Transform {
            m11: 1,
            m12: 0,
            m13: self.col_step() as i64,
            m21: 0,
            m22: 1,
            m23: self.row_step() as i64,
            m31: 0,
            m32: 0,
            m33: 1,
        }
    }

    /// One row up.
    pub closed spec fn spec_up() -> MoveDirection {
        MoveDirection(-1i64, 0, Some(1))
    }

    /// One row up.
    #[verifier::when_used_as_spec(spec_up)]
    pub fn up() -> (d: MoveDirection)
        ensures
            d == MoveDirection::spec_up(),
            d.row_step() == -1,
            d.col_step() == 0,
    {
        MoveDirection(-1, 0, Some(1))
    }

    /// One row down.
    pub closed spec fn spec_down() -> MoveDirection {
        MoveDirection(1, 0, Some(1))
    }

    /// One row down.
    #[verifier::when_used_as_spec(spec_down)]
    pub fn down() -> (d: MoveDirection)
        ensures
            d == MoveDirection::spec_down(),
            d.row_step() == 1,
            d.col_step() == 0,
    {
        MoveDirection(1, 0, Some(1))
    }

    /// One column to the left.
    pub closed spec fn spec_left() -> MoveDirection {
        MoveDirection(0, -1i64, Some(1))
    }

    /// One column to the left.
    #[verifier::when_used_as_spec(spec_left)]
    pub fn left() -> (d: MoveDirection)
        ensures
            d == MoveDirection::spec_left(),
            d.row_step() == 0,
            d.col_step() == -1,
    {
        MoveDirection(0, -1, Some(1))
    }

    /// One column to the right.
    pub closed spec fn spec_right() -> MoveDirection {
        MoveDirection(0, 1, Some(1))
    }

    /// One column to the right.
    #[verifier::when_used_as_spec(spec_right)]
    pub fn right() -> (d: MoveDirection)
        ensures
            d == MoveDirection::spec_right(),
            d.row_step() == 0,
            d.col_step() == 1,
    {
        MoveDirection(0, 1, Some(1))
    }

    /// The steps of the four directions.
    pub proof fn lemma_steps()
        ensures
            MoveDirection::up().row_step() == -1 && MoveDirection::up().col_step() == 0,
            MoveDirection::down().row_step() == 1 && MoveDirection::down().col_step() == 0,
            MoveDirection::left().row_step() == 0 && MoveDirection::left().col_step() == -1,
            MoveDirection::right().row_step() == 0 && MoveDirection::right().col_step() == 1,
    {
    }

    /// The transform of one move in this direction.
    pub fn translate(&self) -> (t: Transform)
        ensures
            t == self.transform(),
            t.m13 == self.col_step(),
            t.m23 == self.row_step(),
    {
        proof {
            use_type_invariant(self);
        }
        let ty: i64;
        let tx: i64;
        match self.2 {
            Some(speed) => {
                assert(i64::MIN <= self.0 * speed <= i64::MAX && i64::MIN <= self.1 * speed
                    <= i64::MAX) by (nonlinear_arith)
                    requires
                        -1 <= self.0 <= 1,
                        -1 <= self.1 <= 1,
                        i64::MIN < speed <= i64::MAX,
                ;
                ty = self.0 * speed;
                tx = self.1 * speed;
            },
            None => {
                ty = self.0;
                tx = self.1;
            },
        }
        Transform { m11: 1, m12: 0, m13: tx, m21: 0, m22: 1, m23: ty, m31: 0, m32: 0, m33: 1 }
    }
}

impl Transform {
    /// Whether the image of `p` can be built within the range of `i64`.
    pub open spec fn fits(self, p: Position) -> bool {
        &&& row_fits(self.m11, self.m12, self.m13, p)
        &&& row_fits(self.m21, self.m22, self.m23, p)
        &&& row_fits(self.m31, self.m32, self.m33, p)
    }

    /// The image of `p`: the product of the matrix with `p` as a column.
    pub open spec fn image(self, p: Position) -> Position {
        Position {
            x: row_times(self.m11, self.m12, self.m13, p) as i64,
            y: row_times(self.m21, self.m22, self.m23, p) as i64,
            z: row_times(self.m31, self.m32, self.m33, p) as i64,
        }
    }

    /// Tells whether `apply` may be called on `p`.
    pub fn can_apply(&self, p: &Position) -> (b: bool)
        ensures
            b == self.fits(*p),
    {
        check_row(self.m11, self.m12, self.m13, p) && check_row(self.m21, self.m22, self.m23, p)
            && check_row(self.m31, self.m32, self.m33, p)
    }

    /// The image of `p`.
    pub fn apply(&self, p: &Position) -> (q: Position)
        requires
            self.fits(*p),
        ensures
            q == self.image(*p),
    {
        matrix_times_vector(self, p)
    }
}

/// A move shifts a point of the scale 1 by its steps: by the column step
/// along `x`, and by the row step along `y`.
pub proof fn lemma_move_shifts(direction: MoveDirection, p: Position)
    requires
        p.z == 1,
        in_range(direction.col_step()),
        in_range(direction.row_step()),
    ensures
        direction.transform().fits(p) <==> in_range(p.x + direction.col_step()) && in_range(
            p.y + direction.row_step(),
        ),
        direction.transform().fits(p) ==> direction.transform().image(p) == (Position {
            x: (p.x + direction.col_step()) as i64,
            y: (p.y + direction.row_step()) as i64,
            z: 1,
        }),
{
}

/// The product of two numbers is as wide as two numbers.
proof fn lemma_product_bound(a: i64, b: i64)
    ensures
        -0x4000_0000_0000_0000_0000_0000_0000_0000 <= a * b <= 0x4000_0000_0000_0000_0000_0000_0000_0000,
{
    assert(-0x4000_0000_0000_0000_0000_0000_0000_0000 <= a * b
        <= 0x4000_0000_0000_0000_0000_0000_0000_0000) by (nonlinear_arith)
        requires
            -0x8000_0000_0000_0000 <= a <= 0x8000_0000_0000_0000,
            -0x8000_0000_0000_0000 <= b <= 0x8000_0000_0000_0000,
    ;
}

/// Tells whether the product of a matrix row with `p` can be built within
/// the range of `i64`.
fn check_row(a: i64, b: i64, c: i64, p: &Position) -> (fits: bool)
    ensures
        fits == row_fits(a, b, c, *p),
{
    proof {
        lemma_product_bound(a, p.x);
        lemma_product_bound(b, p.y);
        lemma_product_bound(c, p.z);
    }
    let low: i128 = i64::MIN as i128;
    let high: i128 = i64::MAX as i128;
    let first: i128 = (a as i128) * (p.x as i128);
    let second: i128 = (b as i128) * (p.y as i128);
    let third: i128 = (c as i128) * (p.z as i128);
    if first < low || first > high || second < low || second > high || third < low || third
        > high {
        return false;
    }
    let two: i128 = second + first;
    if two < low || two > high {
        return false;
    }
    let three: i128 = third + two;
    low <= three && three <= high
}

/// Multiplies a `nalgebra` matrix with a `nalgebra` vector: `Matrix3<i64>`
/// times `Vector3<i64>`.
///
/// `nalgebra` builds each component of the product from the left: the first
/// entry of the matrix row times the first entry of the vector; then, for
/// each further column, the product of the two entries plus what was built
/// so far. It multiplies and adds with the operators of `i64`, which panic
/// where a value leaves the range of `i64`; `fits` leaves those inputs out.
#[verifier::external_body]
fn matrix_times_vector(m: &Transform, p: &Position) -> (q: Position)
    requires
        m.fits(*p),
    ensures
        q == m.image(*p),
{
    let matrix = nalgebra::Matrix3::new(
        m.m11, m.m12, m.m13, m.m21, m.m22, m.m23, m.m31, m.m32, m.m33,
    );
    let product = matrix * nalgebra::Vector3::new(p.x, p.y, p.z);
    Position { x: product.x, y: product.y, z: product.z }
}

} // verus!
