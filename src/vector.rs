use vstd::prelude::*;

verus! {

/// Whether a mathematical integer can be held in an `i64`.
pub open spec fn fits(v: int) -> bool {
    i64::MIN <= v <= i64::MAX
}

/// A homogeneous vector `(x, y, z, w)`; `w` is 0 for directions by convention.
#[derive(Clone, Copy, PartialEq, Eq, Structural, Debug)]
pub struct Vector {
    pub x: i64,
    pub y: i64,
    pub z: i64,
    pub w: i64,
}

/// The mathematical value of a vector: its four components as integers.
pub struct Vec4 {
    pub x: int,
    pub y: int,
    pub z: int,
    pub w: int,
}

impl View for Vector {
    type V = Vec4;

    open spec fn view(&self) -> Vec4 {
        Vec4 { x: self.x as int, y: self.y as int, z: self.z as int, w: self.w as int }
    }
}

pub open spec fn vec4(x: int, y: int, z: int, w: int) -> Vec4 {
    Vec4 { x, y, z, w }
}

pub open spec fn vadd(a: Vec4, b: Vec4) -> Vec4 {
    vec4(a.x + b.x, a.y + b.y, a.z + b.z, a.w + b.w)
}

pub open spec fn vsub(a: Vec4, b: Vec4) -> Vec4 {
    vec4(a.x - b.x, a.y - b.y, a.z - b.z, a.w - b.w)
}

pub open spec fn vneg(a: Vec4) -> Vec4 {
    vec4(-a.x, -a.y, -a.z, -a.w)
}

pub open spec fn vscale(a: Vec4, k: int) -> Vec4 {
    vec4(a.x * k, a.y * k, a.z * k, a.w * k)
}

pub open spec fn vdot(a: Vec4, b: Vec4) -> int {
    a.x * b.x + a.y * b.y + a.z * b.z + a.w * b.w
}

/// The cross product of the `(x, y, z)` parts; its `w` is always 0.
pub open spec fn vcross(a: Vec4, b: Vec4) -> Vec4 {
    vec4(a.y * b.z - a.z * b.y, a.z * b.x - a.x * b.z, a.x * b.y - a.y * b.x, 0)
}

pub open spec fn zero4() -> Vec4 {
    vec4(0, 0, 0, 0)
}

/// Whether every component of `v` can be held in an `i64`.
pub open spec fn fits4(v: Vec4) -> bool {
    fits(v.x) && fits(v.y) && fits(v.z) && fits(v.w)
}

/// Whether the running sums of the dot product, taken from `x` to `w`, all fit
/// in an `i64`.
pub open spec fn dot_in_range(a: Vec4, b: Vec4) -> bool {
    &&& fits(a.x * b.x)
    &&& fits(a.x * b.x + a.y * b.y)
    &&& fits(a.x * b.x + a.y * b.y + a.z * b.z)
    &&& fits(vdot(a, b))
}

/// Component `i` of an input sequence, or 0 past its end.
pub open spec fn padded(v: Seq<i64>, i: int) -> int {
    if i < v.len() {
        v[i] as int
    } else {
        0
    }
}

pub(crate) fn mul_wide(a: i64, b: i64) -> (r: i128)
    ensures
        r == a as int * b as int,
{
    proof {
        lemma_mul_wide(a as int, b as int);
    }
    (a as i128) * (b as i128)
}

proof fn lemma_mul_wide(a: int, b: int)
    requires
        fits(a),
        fits(b),
    ensures
        -0x4000_0000_0000_0000_0000_0000_0000_0000 <= a * b <= 0x4000_0000_0000_0000_0000_0000_0000_0000,
{
    assert(-0x8000_0000_0000_0000 <= a <= 0x8000_0000_0000_0000);
    assert(-0x8000_0000_0000_0000 <= b <= 0x8000_0000_0000_0000);
    let m: int = 0x8000_0000_0000_0000;
    assert(-m * m <= a * b <= m * m) by (nonlinear_arith)
        requires
            -m <= a <= m,
            -m <= b <= m,
            m > 0,
    ;
}

pub(crate) proof fn lemma_mul_abs_le(a: int, b: int, la: int, lb: int)
    requires
        -la <= a <= la,
        -lb <= b <= lb,
    ensures
        -(la * lb) <= a * b <= la * lb,
{
    assert(-(la * lb) <= a * b <= la * lb) by (nonlinear_arith)
        requires
            -la <= a <= la,
            -lb <= b <= lb,
    ;
}

impl Vector {
    /// Builds a vector from up to four components; missing trailing components
    /// are 0 and components past the fourth are ignored.
    pub fn new(vector: Vec<i64>) -> (r: Vector)
        ensures
            r.x == padded(vector@, 0),
            r.y == padded(vector@, 1),
            r.z == padded(vector@, 2),
            r.w == padded(vector@, 3),
    {
        let mut parts: Vec<i64> = vec![0, 0, 0, 0];
        let mut i: usize = 0;
        while i < 4
            invariant
                0 <= i <= 4,
                parts@.len() == 4,
                forall|j: int| 0 <= j < i ==> parts@[j] == padded(vector@, j),
                forall|j: int| i <= j < 4 ==> parts@[j] == 0,
            decreases 4 - i,
        {
            if i < vector.len() {
                parts.set(i, vector[i]);
            }
            i = i + 1;
        }
        Vector { x: parts[0], y: parts[1], z: parts[2], w: parts[3] }
    }

    /// Component-wise sum.
    pub fn add(self, rhs: Vector) -> (r: Vector)
        requires
            fits4(vadd(self@, rhs@)),
        ensures
            r@ == vadd(self@, rhs@),
    {
        Vector { x: self.x + rhs.x, y: self.y + rhs.y, z: self.z + rhs.z, w: self.w + rhs.w }
    }

    /// Component-wise difference.
    pub fn sub(self, rhs: Vector) -> (r: Vector)
        requires
            fits4(vsub(self@, rhs@)),
        ensures
            r@ == vsub(self@, rhs@),
    {
        Vector { x: self.x - rhs.x, y: self.y - rhs.y, z: self.z - rhs.z, w: self.w - rhs.w }
    }

    /// Component-wise sign flip.
    pub fn neg(self) -> (r: Vector)
        requires
            fits4(vneg(self@)),
        ensures
            r@ == vneg(self@),
    {
        Vector { x: -self.x, y: -self.y, z: -self.z, w: -self.w }
    }

    /// Every component multiplied by `k`.
    pub fn scale(self, k: i64) -> (r: Vector)
        requires
            fits4(vscale(self@, k as int)),
        ensures
            r@ == vscale(self@, k as int),
    {
        let x = mul_wide(self.x, k);
        let y = mul_wide(self.y, k);
        let z = mul_wide(self.z, k);
        let w = mul_wide(self.w, k);
        Vector { x: x as i64, y: y as i64, z: z as i64, w: w as i64 }
    }

    /// Sum of the component-wise products, `w` included.
    pub fn dot(self, rhs: Vector) -> (r: i64)
        requires
            dot_in_range(self@, rhs@),
        ensures
            r == vdot(self@, rhs@),
    {
        let mut sum: i128 = mul_wide(self.x, rhs.x);
        sum = sum + mul_wide(self.y, rhs.y);
        sum = sum + mul_wide(self.z, rhs.z);
        sum = sum + mul_wide(self.w, rhs.w);
        sum as i64
    }

    /// Cross product of the `(x, y, z)` parts, with `w` set to 0.
    pub fn cross(self, rhs: Vector) -> (r: Vector)
        requires
            fits4(vcross(self@, rhs@)),
        ensures
            r@ == vcross(self@, rhs@),
    {
        let x = mul_wide(self.y, rhs.z) - mul_wide(self.z, rhs.y);
        let y = mul_wide(self.z, rhs.x) - mul_wide(self.x, rhs.z);
        let z = mul_wide(self.x, rhs.y) - mul_wide(self.y, rhs.x);
        Vector { x: x as i64, y: y as i64, z: z as i64, w: 0 }
    }
}

/// Addition of vectors is commutative, and a vector minus itself is zero.
pub proof fn lemma_add_commutes_sub_self(a: Vec4, b: Vec4)
    ensures
        vadd(a, b) == vadd(b, a),
        vsub(a, a) == zero4(),
{
}

/// The cross product is anticommutative.
pub proof fn lemma_cross_anticommutes(a: Vec4, b: Vec4)
    ensures
        vcross(a, b) == vneg(vcross(b, a)),
{
    assert(a.y * b.z - a.z * b.y == -(b.y * a.z - b.z * a.y)) by (nonlinear_arith);
    assert(a.z * b.x - a.x * b.z == -(b.z * a.x - b.x * a.z)) by (nonlinear_arith);
    assert(a.x * b.y - a.y * b.x == -(b.x * a.y - b.y * a.x)) by (nonlinear_arith);
}

} // verus!
