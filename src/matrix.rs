use vstd::prelude::*;
use crate::vector::{fits, lemma_mul_abs_le, mul_wide, vec4, Vec4, Vector};

verus! {

/// Largest magnitude of an entry that the determinant, cofactor and inverse
/// accept, so that every intermediate value of a cofactor expansion of size up
/// to 4 stays exact.
pub const ENTRY_LIMIT: i64 = 1048576;

/// Largest size for which a determinant is computed by cofactor expansion.
pub const MAX_EXPANSION_SIZE: usize = 4;

/// Why a matrix operation was refused.
#[derive(Clone, Copy, PartialEq, Eq, Structural, Debug)]
pub enum MatrixError {
    /// The grid has no rows.
    Empty,
    /// Some row's length differs from the number of rows.
    NotSquare,
    /// The operands' sizes do not agree.
    SizeMismatch,
    /// The determinant is zero, so there is no inverse.
    Singular,
}

/// A square grid of integers, indexed `[row][column]`.
pub struct Matrix {
    pub matrix: Vec<Vec<i64>>,
    pub size: usize,
}

/// Index `i` of a sequence with position `k` removed, in the original numbering.
pub open spec fn skip(i: int, k: int) -> int {
    if i < k {
        i
    } else {
        i + 1
    }
}

/// Every row is as long as there are rows.
pub open spec fn is_square(m: Seq<Seq<int>>) -> bool {
    forall|i: int| 0 <= i < m.len() ==> (#[trigger] m[i]).len() == m.len()
}

/// Every entry lies in `[-l, l]`.
pub open spec fn entries_within(m: Seq<Seq<int>>, l: int) -> bool {
    forall|i: int, j: int| 0 <= i < m.len() && 0 <= j < m[i].len() ==> -l <= #[trigger] m[i][j] <= l
}

pub open spec fn identity_spec(n: nat) -> Seq<Seq<int>> {
    Seq::new(n, |i: int| Seq::new(n, |j: int| if i == j { 1int } else { 0int }))
}

pub open spec fn transpose_spec(m: Seq<Seq<int>>) -> Seq<Seq<int>> {
    Seq::new(m.len(), |i: int| Seq::new(m.len(), |j: int| m[j][i]))
}

pub open spec fn scale_spec(m: Seq<Seq<int>>, k: int) -> Seq<Seq<int>> {
    Seq::new(m.len(), |i: int| Seq::new(m[i].len(), |j: int| m[i][j] * k))
}

/// `m` with row `y` and column `x` removed.
pub open spec fn minor_matrix(m: Seq<Seq<int>>, y: int, x: int) -> Seq<Seq<int>> {
    Seq::new(
        (m.len() - 1) as nat,
        |i: int| Seq::new((m.len() - 1) as nat, |j: int| m[skip(i, y)][skip(j, x)]),
    )
}

/// `sum_{i < k} a[y][i] * b[i][x]`.
pub open spec fn row_col(a: Seq<Seq<int>>, b: Seq<Seq<int>>, y: int, x: int, k: int) -> int
    decreases k,
{
    if k <= 0 {
        0
    } else {
        row_col(a, b, y, x, k - 1) + a[y][k - 1] * b[k - 1][x]
    }
}

pub open spec fn product_spec(a: Seq<Seq<int>>, b: Seq<Seq<int>>) -> Seq<Seq<int>> {
    Seq::new(a.len(), |y: int| Seq::new(a.len(), |x: int| row_col(a, b, y, x, a.len() as int)))
}

/// Row `y` of `m` applied to the four components of `v`.
pub open spec fn row_times(m: Seq<Seq<int>>, y: int, v: Vec4) -> int {
    m[y][0] * v.x + m[y][1] * v.y + m[y][2] * v.z + m[y][3] * v.w
}

pub open spec fn all_fit(m: Seq<Seq<int>>) -> bool {
    forall|i: int, j: int| 0 <= i < m.len() && 0 <= j < m[i].len() ==> fits(#[trigger] m[i][j])
}

impl View for Matrix {
    type V = Seq<Seq<int>>;

    open spec fn view(&self) -> Seq<Seq<int>> {
        Seq::new(
            self.matrix@.len(),
            |i: int| Seq::new(self.matrix@[i]@.len(), |j: int| self.matrix@[i]@[j] as int),
        )
    }
}

fn filled_row(n: usize) -> (r: Vec<i64>)
    ensures
        r@.len() == n,
        forall|j: int| 0 <= j < n ==> r@[j] == 0,
{
    let mut r: Vec<i64> = Vec::new();
    let mut j: usize = 0;
    while j < n
        invariant
            j <= n,
            r@.len() == j,
            forall|k: int| 0 <= k < j ==> r@[k] == 0,
        decreases n - j,
    {
        r.push(0);
        j = j + 1;
    }
    r
}

impl Matrix {
    /// The matrix is square, has at least one row, and `size` counts its rows.
    pub open spec fn wf(&self) -> bool {
        &&& self.size == self.matrix@.len()
        &&& self.size >= 1
        &&& forall|i: int| 0 <= i < self.size ==> (#[trigger] self.matrix@[i])@.len() == self.size
    }

    /// Builds a matrix from a grid of rows; the grid must be non-empty and
    /// square.
    pub fn new(matrix: Vec<Vec<i64>>) -> (r: Result<Matrix, MatrixError>)
        ensures
            matrix@.len() == 0 ==> r == Err::<Matrix, MatrixError>(MatrixError::Empty),
            matrix@.len() > 0 && (exists|i: int|
                0 <= i < matrix@.len() && (#[trigger] matrix@[i])@.len() != matrix@.len())
                ==> r == Err::<Matrix, MatrixError>(MatrixError::NotSquare),
            matrix@.len() > 0 && (forall|i: int|
                0 <= i < matrix@.len() ==> (#[trigger] matrix@[i])@.len() == matrix@.len())
                ==> r is Ok,
            r matches Ok(m) ==> m.wf() && m.matrix@ == matrix@,
    {
        let size = matrix.len();
        if size == 0 {
            return Err(MatrixError::Empty);
        }
        let mut i: usize = 0;
        while i < size
            invariant
                size == matrix@.len(),
                i <= size,
                forall|k: int| 0 <= k < i ==> (#[trigger] matrix@[k])@.len() == size,
            decreases size - i,
        {
            if matrix[i].len() != size {
                return Err(MatrixError::NotSquare);
            }
            i = i + 1;
        }
        Ok(Matrix { matrix, size })
    }

    /// The `size` by `size` identity matrix.
    pub fn identity(size: usize) -> (r: Matrix)
        requires
            size >= 1,
        ensures
            r.wf(),
            r.size == size,
            r@ == identity_spec(size as nat),
    {
        let mut rows: Vec<Vec<i64>> = Vec::new();
        let mut i: usize = 0;
        while i < size
            invariant
                i <= size,
                rows@.len() == i,
                forall|k: int| 0 <= k < i ==> (#[trigger] rows@[k])@.len() == size,
                forall|k: int, j: int|
                    0 <= k < i && 0 <= j < size ==> (#[trigger] rows@[k]@[j]) == (if k == j { 1i64 } else { 0i64 }),
            decreases size - i,
        {
            let mut row = filled_row(size);
            row.set(i, 1);
            rows.push(row);
            i = i + 1;
        }
        let r = Matrix { matrix: rows, size };
        assert(r@ =~~= identity_spec(size as nat));
        r
    }

    /// Rows and columns swapped.
    pub fn transposed(&self) -> (r: Matrix)
        requires
            self.wf(),
        ensures
            r.wf(),
            r.size == self.size,
            r@ == transpose_spec(self@),
    {
        let n = self.size;
        let mut rows: Vec<Vec<i64>> = Vec::new();
        let mut i: usize = 0;
        while i < n
            invariant
                self.wf(),
                n == self.size,
                i <= n,
                rows@.len() == i,
                forall|k: int| 0 <= k < i ==> (#[trigger] rows@[k])@.len() == n,
                forall|k: int, j: int|
                    0 <= k < i && 0 <= j < n ==> (#[trigger] rows@[k]@[j]) == self.matrix@[j]@[k],
            decreases n - i,
        {
            let mut row: Vec<i64> = Vec::new();
            let mut j: usize = 0;
            while j < n
                invariant
                    self.wf(),
                    n == self.size,
                    i < n,
                    j <= n,
                    row@.len() == j,
                    forall|k: int| 0 <= k < j ==> (#[trigger] row@[k]) == self.matrix@[k]@[i as int],
                decreases n - j,
            {
                row.push(self.matrix[j][i]);
                j = j + 1;
            }
            rows.push(row);
            i = i + 1;
        }
        let r = Matrix { matrix: rows, size: n };
        assert(r@ =~~= transpose_spec(self@));
        r
    }

    /// The matrix with row `y` and column `x` removed, the remaining entries
    /// kept in order.
    pub fn submatrix(&self, y: usize, x: usize) -> (r: Matrix)
        requires
            self.wf(),
            self.size >= 2,
            y < self.size,
            x < self.size,
        ensures
            r.wf(),
            r.size == self.size - 1,
            r@ == minor_matrix(self@, y as int, x as int),
    {
        let n = self.size;
        let mut rows: Vec<Vec<i64>> = Vec::new();
        let mut i: usize = 0;
        while i < n - 1
            invariant
                self.wf(),
                n == self.size,
                n >= 2,
                y < n,
                x < n,
                i <= n - 1,
                rows@.len() == i,
                forall|k: int| 0 <= k < i ==> (#[trigger] rows@[k])@.len() == n - 1,
                forall|k: int, j: int|
                    0 <= k < i && 0 <= j < n - 1 ==> (#[trigger] rows@[k]@[j])
                        == self.matrix@[skip(k, y as int)]@[skip(j, x as int)],
            decreases n - 1 - i,
        {
            let src: usize = if i < y { i } else { i + 1 };
            let mut row: Vec<i64> = Vec::new();
            let mut j: usize = 0;
            while j < n - 1
                invariant
                    self.wf(),
                    n == self.size,
                    n >= 2,
                    x < n,
                    src < n,
                    j <= n - 1,
                    row@.len() == j,
                    forall|k: int| 0 <= k < j ==> (#[trigger] row@[k]) == self.matrix@[src as int]@[skip(k, x as int)],
                decreases n - 1 - j,
            {
                let col: usize = if j < x { j } else { j + 1 };
                row.push(self.matrix[src][col]);
                j = j + 1;
            }
            rows.push(row);
            i = i + 1;
        }
        let r = Matrix { matrix: rows, size: n - 1 };
        assert(r@ =~~= minor_matrix(self@, y as int, x as int));
        r
    }
}

impl Matrix {
    /// The matrix product `self * rhs`; the sizes must agree.
    pub fn multiply(&self, rhs: &Matrix) -> (r: Result<Matrix, MatrixError>)
        requires
            self.wf(),
            rhs.wf(),
            entries_within(self@, ENTRY_LIMIT as int),
            entries_within(rhs@, ENTRY_LIMIT as int),
            self.size == rhs.size ==> all_fit(product_spec(self@, rhs@)),
        ensures
            r is Err <==> self.size != rhs.size,
            r matches Err(e) ==> e == MatrixError::SizeMismatch,
            r matches Ok(m) ==> m.wf() && m.size == self.size && m@ == product_spec(self@, rhs@),
    {
        if self.size != rhs.size {
            return Err(MatrixError::SizeMismatch);
        }
        let n = self.size;
        let ghost a = self@;
        let ghost b = rhs@;
        let ghost lim = ENTRY_LIMIT as int;
        let mut rows: Vec<Vec<i64>> = Vec::new();
        let mut y: usize = 0;
        while y < n
            invariant
                self.wf(),
                rhs.wf(),
                a == self@,
                b == rhs@,
                lim == ENTRY_LIMIT as int,
                entries_within(a, lim),
                entries_within(b, lim),
                all_fit(product_spec(a, b)),
                n == self.size,
                n == rhs.size,
                y <= n,
                rows@.len() == y,
                forall|k: int| 0 <= k < y ==> (#[trigger] rows@[k])@.len() == n,
                forall|k: int, j: int|
                    0 <= k < y && 0 <= j < n ==> (#[trigger] rows@[k]@[j]) == row_col(a, b, k, j, n as int),
            decreases n - y,
        {
            let mut row: Vec<i64> = Vec::new();
            let mut x: usize = 0;
            while x < n
                invariant
                    self.wf(),
                    rhs.wf(),
                    a == self@,
                    b == rhs@,
                    lim == ENTRY_LIMIT as int,
                    entries_within(a, lim),
                    entries_within(b, lim),
                    all_fit(product_spec(a, b)),
                    n == self.size,
                    n == rhs.size,
                    y < n,
                    x <= n,
                    row@.len() == x,
                    forall|j: int| 0 <= j < x ==> (#[trigger] row@[j]) == row_col(a, b, y as int, j, n as int),
                decreases n - x,
            {
                let mut sum: i128 = 0;
                let mut i: usize = 0;
                while i < n
                    invariant
                        self.wf(),
                        rhs.wf(),
                        a == self@,
                        b == rhs@,
                        lim == ENTRY_LIMIT as int,
                        entries_within(a, lim),
                        entries_within(b, lim),
                        n == self.size,
                        n == rhs.size,
                        y < n,
                        x < n,
                        i <= n,
                        sum == row_col(a, b, y as int, x as int, i as int),
                        -(i * (lim * lim)) <= sum <= i * (lim * lim),
                    decreases n - i,
                {
                    proof {
                        assert(a[y as int][i as int] == self.matrix@[y as int]@[i as int]);
                        assert(b[i as int][x as int] == rhs.matrix@[i as int]@[x as int]);
                        lemma_mul_abs_le(a[y as int][i as int], b[i as int][x as int], lim, lim);
                        assert((i + 1) * (lim * lim) == i * (lim * lim) + lim * lim) by (nonlinear_arith);
                        assert(i * (lim * lim) <= 0x1_0000_0000_0000_0000 * (lim * lim)) by (nonlinear_arith)
                            requires i <= 0x1_0000_0000_0000_0000;
                    }
                    sum = sum + (self.matrix[y][i] as i128) * (rhs.matrix[i][x] as i128);
                    i = i + 1;
                }
                proof {
                    assert(fits(product_spec(a, b)[y as int][x as int]));
                }
                row.push(sum as i64);
                x = x + 1;
            }
            rows.push(row);
            y = y + 1;
        }
        let m = Matrix { matrix: rows, size: n };
        assert(m@ =~~= product_spec(a, b));
        Ok(m)
    }

    /// Applies a size-4 matrix to a vector; other sizes are refused.
    pub fn multiply_vector(&self, v: Vector) -> (r: Result<Vector, MatrixError>)
        requires
            self.wf(),
            entries_within(self@, ENTRY_LIMIT as int),
            self.size == 4 ==> (fits(row_times(self@, 0, v@)) && fits(row_times(self@, 1, v@))
                && fits(row_times(self@, 2, v@)) && fits(row_times(self@, 3, v@))),
        ensures
            r is Err <==> self.size != 4,
            r matches Err(e) ==> e == MatrixError::SizeMismatch,
            r matches Ok(u) ==> u@ == vec4(
                row_times(self@, 0, v@),
                row_times(self@, 1, v@),
                row_times(self@, 2, v@),
                row_times(self@, 3, v@),
            ),
    {
        if self.size != 4 {
            return Err(MatrixError::SizeMismatch);
        }
        let x = self.row_apply(0, v);
        let y = self.row_apply(1, v);
        let z = self.row_apply(2, v);
        let w = self.row_apply(3, v);
        Ok(Vector { x, y, z, w })
    }

    fn row_apply(&self, y: usize, v: Vector) -> (r: i64)
        requires
            self.wf(),
            self.size == 4,
            y < 4,
            entries_within(self@, ENTRY_LIMIT as int),
            fits(row_times(self@, y as int, v@)),
        ensures
            r == row_times(self@, y as int, v@),
    {
        let ghost m = self@;
        let row = &self.matrix[y];
        assert(m[y as int][0] == row@[0] && m[y as int][1] == row@[1]);
        assert(m[y as int][2] == row@[2] && m[y as int][3] == row@[3]);
        proof {
            let l = ENTRY_LIMIT as int;
            let big: int = 0x8000_0000_0000_0000;
            lemma_mul_abs_le(m[y as int][0], v.x as int, l, big);
            lemma_mul_abs_le(m[y as int][1], v.y as int, l, big);
            lemma_mul_abs_le(m[y as int][2], v.z as int, l, big);
            lemma_mul_abs_le(m[y as int][3], v.w as int, l, big);
        }
        let sum: i128 = mul_wide(row[0], v.x) + mul_wide(row[1], v.y) + mul_wide(row[2], v.z)
            + mul_wide(row[3], v.w);
        sum as i64
    }

    /// Every entry multiplied by `k`.
    pub fn scale(&self, k: i64) -> (r: Matrix)
        requires
            self.wf(),
            all_fit(scale_spec(self@, k as int)),
        ensures
            r.wf(),
            r.size == self.size,
            r@ == scale_spec(self@, k as int),
    {
        let n = self.size;
        let ghost s = scale_spec(self@, k as int);
        let mut rows: Vec<Vec<i64>> = Vec::new();
        let mut i: usize = 0;
        while i < n
            invariant
                self.wf(),
                n == self.size,
                s == scale_spec(self@, k as int),
                all_fit(s),
                i <= n,
                rows@.len() == i,
                forall|a: int| 0 <= a < i ==> (#[trigger] rows@[a])@.len() == n,
                forall|a: int, j: int|
                    0 <= a < i && 0 <= j < n ==> (#[trigger] rows@[a]@[j]) == self.matrix@[a]@[j] * k,
            decreases n - i,
        {
            let mut row: Vec<i64> = Vec::new();
            let mut j: usize = 0;
            while j < n
                invariant
                    self.wf(),
                    n == self.size,
                    s == scale_spec(self@, k as int),
                    all_fit(s),
                    i < n,
                    j <= n,
                    row@.len() == j,
                    forall|c: int| 0 <= c < j ==> (#[trigger] row@[c]) == self.matrix@[i as int]@[c] * k,
                decreases n - j,
            {
                assert(fits(s[i as int][j as int]));
                let p = mul_wide(self.matrix[i][j], k);
                row.push(p as i64);
                j = j + 1;
            }
            rows.push(row);
            i = i + 1;
        }
        let r = Matrix { matrix: rows, size: n };
        assert(r@ =~~= scale_spec(self@, k as int));
        r
    }
}

proof fn lemma_row_col_identity(m: Seq<Seq<int>>, y: int, x: int, k: int)
    requires
        is_square(m),
        0 <= y < m.len(),
        0 <= x < m.len(),
        0 <= k <= m.len(),
    ensures
        row_col(m, identity_spec(m.len()), y, x, k) == if x < k { m[y][x] } else { 0 },
        row_col(identity_spec(m.len()), m, y, x, k) == if y < k { m[y][x] } else { 0 },
    decreases k,
{
    if k > 0 {
        lemma_row_col_identity(m, y, x, k - 1);
        let id = identity_spec(m.len());
        assert(id[k - 1][x] == if k - 1 == x { 1int } else { 0int });
        assert(id[y][k - 1] == if k - 1 == y { 1int } else { 0int });
        assert(m[y][k - 1] * id[k - 1][x] == if k - 1 == x { m[y][x] } else { 0 });
        assert(id[y][k - 1] * m[k - 1][x] == if k - 1 == y { m[y][x] } else { 0 });
    }
}

/// Multiplying a square matrix by the identity of its size, on either side,
/// gives the matrix back.
pub proof fn lemma_multiply_identity(m: Seq<Seq<int>>)
    requires
        is_square(m),
    ensures
        product_spec(m, identity_spec(m.len())) == m,
        product_spec(identity_spec(m.len()), m) == m,
{
    assert forall|y: int, x: int| 0 <= y < m.len() && 0 <= x < m.len() implies
        product_spec(m, identity_spec(m.len()))[y][x] == m[y][x]
        && product_spec(identity_spec(m.len()), m)[y][x] == m[y][x] by {
        lemma_row_col_identity(m, y, x, m.len() as int);
    }
    assert(product_spec(m, identity_spec(m.len())) =~~= m);
    assert(product_spec(identity_spec(m.len()), m) =~~= m);
}

/// `+1` for even `k`, `-1` for odd `k`.
pub open spec fn sign(k: int) -> int {
    if k % 2 == 0 {
        1
    } else {
        -1
    }
}

/// The determinant by cofactor expansion along row 0; the empty matrix has
/// determinant 1.
pub open spec fn det(m: Seq<Seq<int>>) -> int
    decreases m.len(), m.len() + 1,
{
    if m.len() == 0 {
        1
    } else if m.len() == 1 {
        m[0][0]
    } else {
        expansion(m, m.len())
    }
}

/// `sum_{x < k} m[0][x] * cofactor(m, 0, x)`.
pub open spec fn expansion(m: Seq<Seq<int>>, k: nat) -> int
    decreases m.len(), k,
{
    if k == 0 || m.len() == 0 {
        0
    } else {
        expansion(m, (k - 1) as nat) + m[0][k - 1] * cofactor_spec(m, 0, k - 1)
    }
}

/// The signed minor of entry `(y, x)`.
pub open spec fn cofactor_spec(m: Seq<Seq<int>>, y: int, x: int) -> int
    decreases m.len(), 0int,
{
    if m.len() == 0 {
        0
    } else {
        sign(x + y) * det(minor_matrix(m, y, x))
    }
}

/// Bound on the magnitude of the determinant of an `n` by `n` matrix whose
/// entries lie within `ENTRY_LIMIT`: `n! * ENTRY_LIMIT^n`.
pub open spec fn det_limit(n: nat) -> int
    decreases n,
{
    if n == 0 {
        1
    } else {
        n * (ENTRY_LIMIT as int) * det_limit((n - 1) as nat)
    }
}

proof fn lemma_det_limit_values()
    ensures
        det_limit(0) == 1,
        det_limit(1) == ENTRY_LIMIT as int,
        det_limit(2) == 2 * (ENTRY_LIMIT as int) * (ENTRY_LIMIT as int),
        det_limit(3) == 6917529027641081856,
        det_limit(4) == 29014219670751100192948224,
        forall|n: nat| n <= 3 ==> 1 <= #[trigger] det_limit(n) <= 6917529027641081856,
{
    reveal_with_fuel(det_limit, 5);
    assert(det_limit(1) == 1048576);
    assert(det_limit(2) == 2199023255552);
    assert(det_limit(3) == 6917529027641081856);
    assert(det_limit(4) == 29014219670751100192948224);
}

proof fn lemma_minor_within(m: Seq<Seq<int>>, y: int, x: int)
    requires
        is_square(m),
        m.len() >= 2,
        0 <= y < m.len(),
        0 <= x < m.len(),
        entries_within(m, ENTRY_LIMIT as int),
    ensures
        is_square(minor_matrix(m, y, x)),
        entries_within(minor_matrix(m, y, x), ENTRY_LIMIT as int),
{
    let s = minor_matrix(m, y, x);
    assert forall|i: int, j: int| 0 <= i < s.len() && 0 <= j < s[i].len() implies
        -(ENTRY_LIMIT as int) <= #[trigger] s[i][j] <= ENTRY_LIMIT as int by {
        assert(m[skip(i, y)].len() == m.len());
    }
}

impl Matrix {
    /// The determinant, by cofactor expansion along the first row.
    pub fn determinant(&self) -> (r: i128)
        requires
            self.wf(),
            self.size <= MAX_EXPANSION_SIZE,
            entries_within(self@, ENTRY_LIMIT as int),
        ensures
            r == det(self@),
            -det_limit(self.size as nat) <= r <= det_limit(self.size as nat),
        decreases self.size, 1int,
    {
        let ghost m = self@;
        let ghost lim = ENTRY_LIMIT as int;
        proof {
            lemma_det_limit_values();
        }
        if self.size == 1 {
            assert(m[0][0] == self.matrix@[0]@[0]);
            return self.matrix[0][0] as i128;
        }
        if self.size == 2 {
            let a = self.matrix[0][0];
            let b = self.matrix[0][1];
            let c = self.matrix[1][0];
            let d = self.matrix[1][1];
            proof {
                assert(a == m[0][0] && b == m[0][1] && c == m[1][0] && d == m[1][1]);
                let m00 = minor_matrix(m, 0, 0);
                let m01 = minor_matrix(m, 0, 1);
                assert(m00.len() == 1 && m00[0][0] == d);
                assert(m01.len() == 1 && m01[0][0] == c);
                assert(cofactor_spec(m, 0, 0) == d);
                assert(cofactor_spec(m, 0, 1) == -c);
                assert(m.len() == 2);
                assert(det(m) == expansion(m, 2));
                assert(expansion(m, 0) == 0);
                assert(expansion(m, 1) == a * d);
                assert(det(m00) == d as int);
                assert(det(m01) == c as int);
                assert(expansion(m, 2) == (a as int) * (d as int) + (b as int) * (-(c as int)));
                assert((b as int) * (-(c as int)) == -((b as int) * (c as int))) by (nonlinear_arith);
                lemma_mul_abs_le(a as int, d as int, lim, lim);
                lemma_mul_abs_le(b as int, c as int, lim, lim);
            }
            return (a as i128) * (d as i128) - (b as i128) * (c as i128);
        }
        let n = self.size;
        let ghost inner = det_limit((n - 1) as nat);
        let mut sum: i128 = 0;
        let mut x: usize = 0;
        while x < n
            invariant
                self.wf(),
                m == self@,
                lim == ENTRY_LIMIT as int,
                entries_within(m, lim),
                n == self.size,
                3 <= n <= 4,
                inner == det_limit((n - 1) as nat),
                1 <= inner <= 6917529027641081856,
                det_limit(n as nat) <= 29014219670751100192948224,
                x <= n,
                sum == expansion(m, x as nat),
                -(x * (lim * inner)) <= sum <= x * (lim * inner),
            decreases n - x,
        {
            let c = self.cofactor(0, x);
            let e = self.matrix[0][x];
            proof {
                assert(e == m[0][x as int]);
                lemma_mul_abs_le(e as int, c as int, lim, inner);
                assert((x + 1) * (lim * inner) == x * (lim * inner) + lim * inner) by (nonlinear_arith);
                assert(x * (lim * inner) <= 4 * (lim * inner)) by (nonlinear_arith)
                    requires x <= 4, lim * inner >= 0;
                assert(lim * inner <= 1048576 * 6917529027641081856) by (nonlinear_arith)
                    requires lim == 1048576, 1 <= inner <= 6917529027641081856;
            }
            sum = sum + (e as i128) * c;
            x = x + 1;
        }
        proof {
            assert(n * (lim * inner) == det_limit(n as nat)) by (nonlinear_arith)
                requires inner == det_limit((n - 1) as nat), n >= 1, lim == ENTRY_LIMIT as int,
                    det_limit(n as nat) == n * lim * det_limit((n - 1) as nat);
        }
        sum
    }

    /// The cofactor of entry `(y, x)`: the determinant of the submatrix without
    /// row `y` and column `x`, negated when `x + y` is odd.
    pub fn cofactor(&self, y: usize, x: usize) -> (r: i128)
        requires
            self.wf(),
            self.size <= MAX_EXPANSION_SIZE,
            entries_within(self@, ENTRY_LIMIT as int),
            y < self.size,
            x < self.size,
        ensures
            r == cofactor_spec(self@, y as int, x as int),
            -det_limit((self.size - 1) as nat) <= r <= det_limit((self.size - 1) as nat),
        decreases self.size, 0int,
    {
        proof {
            lemma_det_limit_values();
        }
        if self.size == 1 {
            assert(minor_matrix(self@, y as int, x as int).len() == 0);
            return 1;
        }
        let sub = self.submatrix(y, x);
        proof {
            lemma_minor_within(self@, y as int, x as int);
        }
        let minor = sub.determinant();
        if (x + y) % 2 == 0 {
            minor
        } else {
            -minor
        }
    }
}

/// The transposed matrix of cofactors: entry `(y, x)` is the cofactor of
/// `(x, y)`.
pub open spec fn adjugate_spec(m: Seq<Seq<int>>) -> Seq<Seq<int>> {
    Seq::new(m.len(), |y: int| Seq::new(m.len(), |x: int| cofactor_spec(m, x, y)))
}

/// A square matrix of rationals over one common denominator: entry `(y, x)`
/// stands for `numerators[y][x] / denominator`.
pub struct ScaledMatrix {
    pub numerators: Vec<Vec<i128>>,
    pub denominator: i128,
}

impl ScaledMatrix {
    /// The numerators as integers.
    pub open spec fn numerators_view(&self) -> Seq<Seq<int>> {
        Seq::new(
            self.numerators@.len(),
            |i: int| Seq::new(self.numerators@[i]@.len(), |j: int| self.numerators@[i]@[j] as int),
        )
    }
}

impl Matrix {
    /// The inverse, as the adjugate over the determinant; a matrix whose
    /// determinant is exactly zero is refused as singular.
    pub fn inverse(&self) -> (r: Result<ScaledMatrix, MatrixError>)
        requires
            self.wf(),
            self.size <= MAX_EXPANSION_SIZE,
            entries_within(self@, ENTRY_LIMIT as int),
        ensures
            r is Err <==> det(self@) == 0,
            r matches Err(e) ==> e == MatrixError::Singular,
            r matches Ok(inv) ==> inv.denominator == det(self@) && inv.numerators_view() == adjugate_spec(
                self@,
            ),
    {
        let determinant = self.determinant();
        if determinant == 0 {
            return Err(MatrixError::Singular);
        }
        let n = self.size;
        let ghost m = self@;
        let mut rows: Vec<Vec<i128>> = Vec::new();
        let mut y: usize = 0;
        while y < n
            invariant
                self.wf(),
                m == self@,
                n == self.size,
                n <= MAX_EXPANSION_SIZE,
                entries_within(m, ENTRY_LIMIT as int),
                y <= n,
                rows@.len() == y,
                forall|k: int| 0 <= k < y ==> (#[trigger] rows@[k])@.len() == n,
                forall|k: int, j: int|
                    0 <= k < y && 0 <= j < n ==> (#[trigger] rows@[k]@[j]) == cofactor_spec(m, j, k),
            decreases n - y,
        {
            let mut row: Vec<i128> = Vec::new();
            let mut x: usize = 0;
            while x < n
                invariant
                    self.wf(),
                    m == self@,
                    n == self.size,
                    n <= MAX_EXPANSION_SIZE,
                    entries_within(m, ENTRY_LIMIT as int),
                    y < n,
                    x <= n,
                    row@.len() == x,
                    forall|j: int| 0 <= j < x ==> (#[trigger] row@[j]) == cofactor_spec(m, j, y as int),
                decreases n - x,
            {
                row.push(self.cofactor(x, y));
                x = x + 1;
            }
            rows.push(row);
            y = y + 1;
        }
        let inv = ScaledMatrix { numerators: rows, denominator: determinant };
        assert(inv.numerators_view() =~~= adjugate_spec(m));
        Ok(inv)
    }
}

} // verus!
