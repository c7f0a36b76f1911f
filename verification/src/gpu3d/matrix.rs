//! 4x4 matrix in 1.19.12 fixed-point.
//!
//! Storage is row-major, which is the order in which the GX commands send
//! matrix words: entry `[row, col]` is stored at index `4 * row + col`.
//!
//! All entries are 1.19.12 signed fixed-point. A product is the exact integer
//! sum of its terms, brought back to 12 fractional bits by rounding down, of
//! which the low 32 bits are kept.

use vstd::prelude::*;
use crate::fixed;

verus! {

/// One unit in 1.19.12 fixed-point.
pub const ONE: i32 = 4096;

/// A sum of products with 24 fractional bits as a 1.19.12 value.
pub open spec fn rescale(sum: int) -> i32 {
    fixed::wrap_i32(sum / 4096)
}

/// Multiply two 1.19.12 fixed-point values, returning the 1.19.12 result.
pub fn fmul(a: i32, b: i32) -> (r: i32)
    ensures
        r == rescale(a * b),
{
    proof {
        fixed::lemma_i32_product(a, b);
    }
    fixed::narrow_i32(fixed::shr12(a as i128 * b as i128))
}

/// 4x4 row-major matrix of 1.19.12 fixed-point values.
#[derive(Debug, Clone, Copy, PartialEq, Eq)]
pub struct Matrix {
    pub m: [i32; 16],
}

/// Four-term dot product.
pub open spec fn dot4(a0: i32, b0: i32, a1: i32, b1: i32, a2: i32, b2: i32, a3: i32, b3: i32) -> int {
    a0 * b0 + a1 * b1 + a2 * b2 + a3 * b3
}

/// Entry `[row, col]` of the product `a * b`.
pub open spec fn product_entry(a: Matrix, b: Matrix, row: int, col: int) -> i32 {
    rescale(
        dot4(
            a.entry(row, 0), b.entry(0, col), a.entry(row, 1), b.entry(1, col),
            a.entry(row, 2), b.entry(2, col), a.entry(row, 3), b.entry(3, col),
        ),
    )
}

/// The matrix product `a * b`.
pub open spec fn product(a: Matrix, b: Matrix) -> Matrix {
    Matrix {
        m: [
            product_entry(a, b, 0, 0), product_entry(a, b, 0, 1),
            product_entry(a, b, 0, 2), product_entry(a, b, 0, 3),
            product_entry(a, b, 1, 0), product_entry(a, b, 1, 1),
            product_entry(a, b, 1, 2), product_entry(a, b, 1, 3),
            product_entry(a, b, 2, 0), product_entry(a, b, 2, 1),
            product_entry(a, b, 2, 2), product_entry(a, b, 2, 3),
            product_entry(a, b, 3, 0), product_entry(a, b, 3, 1),
            product_entry(a, b, 3, 2), product_entry(a, b, 3, 3),
        ],
    }
}

/// Component `col` of the row vector `v * m`.
pub open spec fn transformed_entry(v: [i32; 4], m: Matrix, col: int) -> i32 {
    rescale(
        dot4(
            v[0], m.entry(0, col), v[1], m.entry(1, col),
            v[2], m.entry(2, col), v[3], m.entry(3, col),
        ),
    )
}

/// The row vector `v * m`.
pub open spec fn transformed(v: [i32; 4], m: Matrix) -> [i32; 4] {
    [
        transformed_entry(v, m, 0), transformed_entry(v, m, 1),
        transformed_entry(v, m, 2), transformed_entry(v, m, 3),
    ]
}

/// The identity matrix.
pub open spec fn identity() -> Matrix {
    Matrix { m: [ONE, 0, 0, 0, 0, ONE, 0, 0, 0, 0, ONE, 0, 0, 0, 0, ONE] }
}

/// The matrix that moves by `(tx, ty, tz)`.
pub open spec fn translation(tx: i32, ty: i32, tz: i32) -> Matrix {
    Matrix { m: [ONE, 0, 0, 0, 0, ONE, 0, 0, 0, 0, ONE, 0, tx, ty, tz, ONE] }
}

/// The matrix that scales by `(sx, sy, sz)`.
pub open spec fn scaling(sx: i32, sy: i32, sz: i32) -> Matrix {
    Matrix { m: [sx, 0, 0, 0, 0, sy, 0, 0, 0, 0, sz, 0, 0, 0, 0, ONE] }
}

/// A 4x3 matrix in row-major order, completed by the column `(0, 0, 0, 1)`.
pub open spec fn from_4x3(w: [i32; 12]) -> Matrix {
    Matrix {
        m: [
            w[0], w[1], w[2], 0, w[3], w[4], w[5], 0, w[6], w[7], w[8], 0, w[9], w[10], w[11], ONE,
        ],
    }
}

/// A 3x3 matrix in row-major order, completed by the identity.
pub open spec fn from_3x3(w: [i32; 9]) -> Matrix {
    Matrix { m: [w[0], w[1], w[2], 0, w[3], w[4], w[5], 0, w[6], w[7], w[8], 0, 0, 0, 0, ONE] }
}

impl Matrix {
    /// The element at `[row, col]`.
    pub open spec fn entry(self, row: int, col: int) -> i32 {
        self.m[row * 4 + col]
    }

    /// The identity matrix.
    pub fn identity() -> (r: Self)
        ensures
            r == identity(),
    {
        Matrix { m: [ONE, 0, 0, 0, 0, ONE, 0, 0, 0, 0, ONE, 0, 0, 0, 0, ONE] }
    }

    /// Get the element at `[row, col]`.
    pub fn at(&self, row: usize, col: usize) -> (r: i32)
        requires
            row * 4 + col < 16,
        ensures
            r == self.entry(row as int, col as int),
    {
        self.m[row * 4 + col]
    }

    /// Load all 16 entries from row-major words (`MTX_LOAD_4x4`).
    pub fn load_4x4(words: &[i32; 16]) -> (r: Self)
        ensures
            r == (Matrix { m: *words }),
    {
        Matrix { m: *words }
    }

    /// Load a 4x3 matrix (12 words): the parameter shape of `MTX_LOAD_4x3` and
    /// `MTX_MULT_4x3`. The last column becomes `(0, 0, 0, 1)`.
    pub fn load_4x3(words: &[i32; 12]) -> (r: Self)
        ensures
            r == from_4x3(*words),
    {
        let mut m: [i32; 16] = [0; 16];
        for row in 0..4usize
            invariant
                forall|i: int| 0 <= i < 4 * row && i % 4 < 3 ==> m[i] == words[(i / 4) * 3 + i % 4],
        {
            for col in 0..3usize
                invariant
                    row < 4,
                    forall|i: int|
                        0 <= i < 4 * row + col && i % 4 < 3 ==> m[i] == words[(i / 4) * 3 + i % 4],
            {
                m[row * 4 + col] = words[row * 3 + col];
            }
        }
        m[3] = 0;
        m[7] = 0;
        m[11] = 0;
        m[15] = ONE;
        let r = Matrix { m };
        assert(r.m =~= from_4x3(*words).m);
        r
    }

    /// Load a 3x3 matrix (9 words), completed to 4x4 by the identity.
    pub fn load_3x3(words: &[i32; 9]) -> (r: Self)
        ensures
            r == from_3x3(*words),
    {
        let mut m: [i32; 16] = Self::identity().m;
        for row in 0..3usize
            invariant
                forall|i: int| 0 <= i < 4 * row && i % 4 < 3 ==> m[i] == words[(i / 4) * 3 + i % 4],
                forall|i: int|
                    0 <= i < 16 && (i >= 12 || i % 4 == 3) ==> m[i] == identity().m[i],
        {
            for col in 0..3usize
                invariant
                    row < 3,
                    forall|i: int|
                        0 <= i < 4 * row + col && i % 4 < 3 ==> m[i] == words[(i / 4) * 3 + i % 4],
                    forall|i: int|
                        0 <= i < 16 && (i >= 12 || i % 4 == 3) ==> m[i] == identity().m[i],
            {
                m[row * 4 + col] = words[row * 3 + col];
            }
        }
        let r = Matrix { m };
        assert(r.m =~= from_3x3(*words).m);
        r
    }

    /// Entry `[row, col]` of `self * other`.
    fn dot(&self, other: &Matrix, row: usize, col: usize) -> (r: i32)
        requires
            row < 4,
            col < 4,
        ensures
            r == product_entry(*self, *other, row as int, col as int),
    {
        let mut acc: i128 = 0;
        proof {
            fixed::lemma_i32_product(self.entry(row as int, 0), other.entry(0, col as int));
            fixed::lemma_i32_product(self.entry(row as int, 1), other.entry(1, col as int));
            fixed::lemma_i32_product(self.entry(row as int, 2), other.entry(2, col as int));
            fixed::lemma_i32_product(self.entry(row as int, 3), other.entry(3, col as int));
        }
        acc = acc + self.at(row, 0) as i128 * other.at(0, col) as i128;
        acc = acc + self.at(row, 1) as i128 * other.at(1, col) as i128;
        acc = acc + self.at(row, 2) as i128 * other.at(2, col) as i128;
        acc = acc + self.at(row, 3) as i128 * other.at(3, col) as i128;
        fixed::narrow_i32(fixed::shr12(acc))
    }

    /// Matrix times matrix. `self * other` returns a fresh matrix; the command
    /// layer decides which operand is the current matrix and which is the
    /// incoming command matrix.
    pub fn mul_matrix(&self, other: &Matrix) -> (r: Matrix)
        ensures
            r == product(*self, *other),
    {
        let mut out: [i32; 16] = [0; 16];
        for row in 0..4usize
            invariant
                forall|i: int|
                    0 <= i < 4 * row ==> out[i] == product_entry(*self, *other, i / 4, i % 4),
        {
            for col in 0..4usize
                invariant
                    row < 4,
                    forall|i: int|
                        0 <= i < 4 * row + col ==> out[i] == product_entry(
                            *self,
                            *other,
                            i / 4,
                            i % 4,
                        ),
            {
                out[row * 4 + col] = self.dot(other, row, col);
            }
        }
        let r = Matrix { m: out };
        assert(r.m =~= product(*self, *other).m);
        r
    }

    /// Multiply a row-vector `(x, y, z, w)` by the matrix. Returns the
    /// transformed `(x', y', z', w')`.
    pub fn mul_vec4(&self, v: [i32; 4]) -> (r: [i32; 4])
        ensures
            r == transformed(v, *self),
    {
        let mut out: [i32; 4] = [0; 4];
        for col in 0..4usize
            invariant
                forall|i: int| 0 <= i < col ==> out[i] == transformed_entry(v, *self, i),
        {
            let mut acc: i128 = 0;
            proof {
                fixed::lemma_i32_product(v[0], self.entry(0, col as int));
                fixed::lemma_i32_product(v[1], self.entry(1, col as int));
                fixed::lemma_i32_product(v[2], self.entry(2, col as int));
                fixed::lemma_i32_product(v[3], self.entry(3, col as int));
            }
            acc = acc + v[0] as i128 * self.at(0, col) as i128;
            acc = acc + v[1] as i128 * self.at(1, col) as i128;
            acc = acc + v[2] as i128 * self.at(2, col) as i128;
            acc = acc + v[3] as i128 * self.at(3, col) as i128;
            out[col] = fixed::narrow_i32(fixed::shr12(acc));
        }
        assert(out =~= transformed(v, *self));
        out
    }

    /// Return `self * T(tx, ty, tz)`.
    pub fn mul_translate(&self, tx: i32, ty: i32, tz: i32) -> (r: Matrix)
        ensures
            r == product(*self, translation(tx, ty, tz)),
    {
        let t = Matrix { m: [ONE, 0, 0, 0, 0, ONE, 0, 0, 0, 0, ONE, 0, tx, ty, tz, ONE] };
        self.mul_matrix(&t)
    }

    /// Return `self * S(sx, sy, sz)`.
    pub fn mul_scale(&self, sx: i32, sy: i32, sz: i32) -> (r: Matrix)
        ensures
            r == product(*self, scaling(sx, sy, sz)),
    {
        let s = Matrix { m: [sx, 0, 0, 0, 0, sy, 0, 0, 0, 0, sz, 0, 0, 0, 0, ONE] };
        self.mul_matrix(&s)
    }
}

impl Default for Matrix {
    fn default() -> (r: Self)
        ensures
            r == identity(),
    {
        Self::identity()
    }
}

/// A 1.19.12 value times one is itself.
pub proof fn lemma_rescale_one(x: i32)
    ensures
        rescale(x * 4096) == x,
        rescale(4096 * x) == x,
{
    fixed::lemma_wrap_i32_fits(x as int);
}

/// Multiplying by a unit vector picks one term of a dot product.
proof fn lemma_unit_dot(b0: i32, b1: i32, b2: i32, b3: i32)
    ensures
        rescale(dot4(4096, b0, 0, b1, 0, b2, 0, b3)) == b0,
        rescale(dot4(0, b0, 4096, b1, 0, b2, 0, b3)) == b1,
        rescale(dot4(0, b0, 0, b1, 4096, b2, 0, b3)) == b2,
        rescale(dot4(0, b0, 0, b1, 0, b2, 4096, b3)) == b3,
        rescale(dot4(b0, 4096, b1, 0, b2, 0, b3, 0)) == b0,
        rescale(dot4(b0, 0, b1, 4096, b2, 0, b3, 0)) == b1,
        rescale(dot4(b0, 0, b1, 0, b2, 4096, b3, 0)) == b2,
        rescale(dot4(b0, 0, b1, 0, b2, 0, b3, 4096)) == b3,
{
    lemma_rescale_one(b0);
    lemma_rescale_one(b1);
    lemma_rescale_one(b2);
    lemma_rescale_one(b3);
}

/// The identity is neutral on the left: `I * m == m`.
pub proof fn law_identity_left(m: Matrix)
    ensures
        product(identity(), m) == m,
{
    assert forall|row: int, col: int| 0 <= row < 4 && 0 <= col < 4 implies #[trigger] product_entry(
        identity(),
        m,
        row,
        col,
    ) == m.entry(row, col) by {
        lemma_unit_dot(m.entry(0, col), m.entry(1, col), m.entry(2, col), m.entry(3, col));
        if row == 0 {
        } else if row == 1 {
        } else if row == 2 {
        } else {
        }
    }
    assert(product(identity(), m).m =~= m.m);
}

/// The identity is neutral on the right: `m * I == m`.
pub proof fn law_identity_right(m: Matrix)
    ensures
        product(m, identity()) == m,
{
    assert forall|row: int, col: int| 0 <= row < 4 && 0 <= col < 4 implies #[trigger] product_entry(
        m,
        identity(),
        row,
        col,
    ) == m.entry(row, col) by {
        lemma_unit_dot(m.entry(row, 0), m.entry(row, 1), m.entry(row, 2), m.entry(row, 3));
        if col == 0 {
        } else if col == 1 {
        } else if col == 2 {
        } else {
        }
    }
    assert(product(m, identity()).m =~= m.m);
}

/// The identity leaves every vector unchanged.
pub proof fn law_identity_transform(v: [i32; 4])
    ensures
        transformed(v, identity()) == v,
{
    lemma_unit_dot(v[0], v[1], v[2], v[3]);
    assert(transformed(v, identity()) =~= v);
}

proof fn lemma_moved_dot(a: i32, b: i32, c: i32, t: i32)
    ensures
        dot4(a, 4096, b, 0, c, 0, 4096, t) == (a + t) * 4096,
        dot4(a, 0, b, 4096, c, 0, 4096, t) == (b + t) * 4096,
        dot4(a, 0, b, 0, c, 4096, 4096, t) == (c + t) * 4096,
        dot4(a, 0, b, 0, c, 0, 4096, t) == t * 4096,
{
    assert(a * 0 == 0 && b * 0 == 0 && c * 0 == 0) by (nonlinear_arith);
}

/// Translation moves a point: a vector with `w` one comes out moved by the
/// translation, as far as the sums fit in 32 bits.
pub proof fn law_translation_moves_points(p: [i32; 4], tx: i32, ty: i32, tz: i32)
    requires
        p[3] == ONE,
        i32::MIN <= p[0] + tx <= i32::MAX,
        i32::MIN <= p[1] + ty <= i32::MAX,
        i32::MIN <= p[2] + tz <= i32::MAX,
    ensures
        transformed(p, translation(tx, ty, tz)) == [
            (p[0] + tx) as i32,
            (p[1] + ty) as i32,
            (p[2] + tz) as i32,
            ONE,
        ],
{
    let r = transformed(p, translation(tx, ty, tz));
    let e: [i32; 4] = [(p[0] + tx) as i32, (p[1] + ty) as i32, (p[2] + tz) as i32, ONE];
    fixed::lemma_wrap_i32_fits(p[0] + tx);
    fixed::lemma_wrap_i32_fits(p[1] + ty);
    fixed::lemma_wrap_i32_fits(p[2] + tz);
    fixed::lemma_wrap_i32_fits(4096);
    lemma_moved_dot(p[0], p[1], p[2], tx);
    lemma_moved_dot(p[0], p[1], p[2], ty);
    lemma_moved_dot(p[0], p[1], p[2], tz);
    lemma_moved_dot(p[0], p[1], p[2], 4096);
    assert(r =~= e);
}

/// A product is the exact quotient by one, rounded down, where that fits in 32
/// bits.
pub proof fn law_rescale_rounds_down(sum: int)
    requires
        i32::MIN * 4096 <= sum < (i32::MAX + 1) * 4096,
    ensures
        rescale(sum) * 4096 <= sum < (rescale(sum) + 1) * 4096,
{
    fixed::lemma_wrap_i32_fits(sum / 4096);
}

/// A matrix takes a unit vector to one of its rows, and the rows are stored one
/// after the other.
pub proof fn law_unit_vectors_give_rows(m: Matrix)
    ensures
        transformed([ONE, 0, 0, 0], m) == [m.m[0], m.m[1], m.m[2], m.m[3]],
        transformed([0, ONE, 0, 0], m) == [m.m[4], m.m[5], m.m[6], m.m[7]],
        transformed([0, 0, ONE, 0], m) == [m.m[8], m.m[9], m.m[10], m.m[11]],
        transformed([0, 0, 0, ONE], m) == [m.m[12], m.m[13], m.m[14], m.m[15]],
{
    lemma_unit_dot(m.m[0], m.m[4], m.m[8], m.m[12]);
    lemma_unit_dot(m.m[1], m.m[5], m.m[9], m.m[13]);
    lemma_unit_dot(m.m[2], m.m[6], m.m[10], m.m[14]);
    lemma_unit_dot(m.m[3], m.m[7], m.m[11], m.m[15]);
    assert(transformed([ONE, 0, 0, 0], m) =~= [m.m[0], m.m[1], m.m[2], m.m[3]]);
    assert(transformed([0, ONE, 0, 0], m) =~= [m.m[4], m.m[5], m.m[6], m.m[7]]);
    assert(transformed([0, 0, ONE, 0], m) =~= [m.m[8], m.m[9], m.m[10], m.m[11]]);
    assert(transformed([0, 0, 0, ONE], m) =~= [m.m[12], m.m[13], m.m[14], m.m[15]]);
}

/// Nine words are the images of the first three unit vectors, one row after the
/// other, and the fourth is kept.
pub proof fn law_load_3x3_rows(w: [i32; 9])
    ensures
        forall|row: int, col: int|
            0 <= row < 3 && 0 <= col < 3 ==> (#[trigger] from_3x3(w).entry(row, col)) == w[3 * row
                + col],
        transformed([ONE, 0, 0, 0], from_3x3(w)) == [w[0], w[1], w[2], 0],
        transformed([0, ONE, 0, 0], from_3x3(w)) == [w[3], w[4], w[5], 0],
        transformed([0, 0, ONE, 0], from_3x3(w)) == [w[6], w[7], w[8], 0],
        transformed([0, 0, 0, ONE], from_3x3(w)) == [0i32, 0, 0, ONE],
{
    law_unit_vectors_give_rows(from_3x3(w));
    assert forall|row: int, col: int| 0 <= row < 3 && 0 <= col < 3 implies (
    #[trigger] from_3x3(w).entry(row, col)) == w[3 * row + col] by {
        if row == 0 {
        } else if row == 1 {
        } else {
        }
        if col == 0 {
        } else if col == 1 {
        } else {
        }
    }
}

/// Twelve words are the images of the four unit vectors, three words each: the
/// last three are where the origin goes.
pub proof fn law_load_4x3_rows(w: [i32; 12])
    ensures
        transformed([ONE, 0, 0, 0], from_4x3(w)) == [w[0], w[1], w[2], 0],
        transformed([0, ONE, 0, 0], from_4x3(w)) == [w[3], w[4], w[5], 0],
        transformed([0, 0, ONE, 0], from_4x3(w)) == [w[6], w[7], w[8], 0],
        transformed([0, 0, 0, ONE], from_4x3(w)) == [w[9], w[10], w[11], ONE],
{
    law_unit_vectors_give_rows(from_4x3(w));
}

/// A component of a transformed vector is the sum of the vector's components,
/// each times the entry in its own row, rounded down to 12 fractional bits.
pub proof fn law_transform_sums_rows(v: [i32; 4], m: Matrix, col: int)
    requires
        0 <= col < 4,
        ({
            let sum = v[0] * m.m[col] + v[1] * m.m[4 + col] + v[2] * m.m[8 + col] + v[3] * m.m[12
                + col];
            i32::MIN * 4096 <= sum < (i32::MAX + 1) * 4096
        }),
    ensures
        ({
            let sum = v[0] * m.m[col] + v[1] * m.m[4 + col] + v[2] * m.m[8 + col] + v[3] * m.m[12
                + col];
            transformed(v, m)[col] * 4096 <= sum < (transformed(v, m)[col] + 1) * 4096
        }),
{
    let sum = v[0] * m.m[col] + v[1] * m.m[4 + col] + v[2] * m.m[8 + col] + v[3] * m.m[12 + col];
    law_rescale_rounds_down(sum);
    assert(transformed(v, m)[col] == rescale(sum));
}

/// In a product the left matrix acts first: what the product does to a unit
/// vector is what the right matrix does to the left one's image of it.
pub proof fn law_product_acts_left_first(a: Matrix, b: Matrix)
    ensures
        transformed([ONE, 0, 0, 0], product(a, b)) == transformed(
            transformed([ONE, 0, 0, 0], a),
            b,
        ),
        transformed([0, ONE, 0, 0], product(a, b)) == transformed(
            transformed([0, ONE, 0, 0], a),
            b,
        ),
        transformed([0, 0, ONE, 0], product(a, b)) == transformed(
            transformed([0, 0, ONE, 0], a),
            b,
        ),
        transformed([0, 0, 0, ONE], product(a, b)) == transformed(
            transformed([0, 0, 0, ONE], a),
            b,
        ),
{
    let p = product(a, b);
    law_unit_vectors_give_rows(a);
    law_unit_vectors_give_rows(p);
    assert([p.m[0], p.m[1], p.m[2], p.m[3]] =~= transformed([a.m[0], a.m[1], a.m[2], a.m[3]], b));
    assert([p.m[4], p.m[5], p.m[6], p.m[7]] =~= transformed([a.m[4], a.m[5], a.m[6], a.m[7]], b));
    assert([p.m[8], p.m[9], p.m[10], p.m[11]] =~= transformed(
        [a.m[8], a.m[9], a.m[10], a.m[11]],
        b,
    ));
    assert([p.m[12], p.m[13], p.m[14], p.m[15]] =~= transformed(
        [a.m[12], a.m[13], a.m[14], a.m[15]],
        b,
    ));
}

/// Scaling stretches the three axes, each by its own factor, and keeps the
/// origin.
pub proof fn law_scaling_stretches_axes(sx: i32, sy: i32, sz: i32)
    ensures
        transformed([ONE, 0, 0, 0], scaling(sx, sy, sz)) == [sx, 0i32, 0, 0],
        transformed([0, ONE, 0, 0], scaling(sx, sy, sz)) == [0i32, sy, 0, 0],
        transformed([0, 0, ONE, 0], scaling(sx, sy, sz)) == [0i32, 0, sz, 0],
        transformed([0, 0, 0, ONE], scaling(sx, sy, sz)) == [0i32, 0, 0, ONE],
{
    law_unit_vectors_give_rows(scaling(sx, sy, sz));
}

} // verus!
