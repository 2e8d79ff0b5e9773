use vstd::prelude::*;
use crate::matrix::{
    adjugate_spec, cofactor_spec, sign, det, expansion, identity_spec, is_square, minor_matrix,
    product_spec, row_col, scale_spec, transpose_spec,
};

verus! {

proof fn lemma_cofactor_sign(m: Seq<Seq<int>>, y: int, x: int)
    requires
        m.len() >= 1,
        y >= 0,
        x >= 0,
    ensures
        cofactor_spec(m, y, x) == if (x + y) % 2 == 0 {
            det(minor_matrix(m, y, x))
        } else {
            -det(minor_matrix(m, y, x))
        },
{
    let d = det(minor_matrix(m, y, x));
    let g = sign(x + y);
    assert(cofactor_spec(m, y, x) == g * d);
    if (x + y) % 2 == 0 {
        assert(g * d == d) by (nonlinear_arith)
            requires
                g == 1,
        ;
    } else {
        assert(g * d == -d) by (nonlinear_arith)
            requires
                g == -1,
        ;
    }
}

proof fn lemma_det2(m: Seq<Seq<int>>)
    requires
        is_square(m),
        m.len() == 2,
    ensures
        det(m) == m[0][0] * m[1][1] - m[0][1] * m[1][0],
{
    let m00 = minor_matrix(m, 0, 0);
    let m01 = minor_matrix(m, 0, 1);
    assert(m00.len() == 1 && m00[0][0] == m[1][1]);
    assert(m01.len() == 1 && m01[0][0] == m[1][0]);
    assert(cofactor_spec(m, 0, 0) == m[1][1]);
    assert(cofactor_spec(m, 0, 1) == -m[1][0]);
    reveal_with_fuel(expansion, 3);
    assert(det(m) == expansion(m, 2));
    assert(m[0][1] * (-m[1][0]) == -(m[0][1] * m[1][0])) by (nonlinear_arith);
}

proof fn lemma_det3(m: Seq<Seq<int>>)
    requires
        is_square(m),
        m.len() == 3,
    ensures
        det(m) == m[0][0] * (m[1][1] * (m[2][2]) - m[1][2] * (m[2][1])) - m[0][1] * (m[1][0] * (m[2][2]) - m[1][2] * (m[2][0])) + m[0][2] * (m[1][0] * (m[2][1]) - m[1][1] * (m[2][0])),
{
    reveal_with_fuel(expansion, 4);
    assert(det(m) == expansion(m, 3));
    let c0 = cofactor_spec(m, 0, 0);
    let c1 = cofactor_spec(m, 0, 1);
    let c2 = cofactor_spec(m, 0, 2);
    assert(expansion(m, 3) == m[0][0] * c0 + m[0][1] * c1 + m[0][2] * c2);
    assert forall|x: int| 0 <= x < 3 implies #[trigger] is_square(minor_matrix(m, 0, x)) by {}
    lemma_det2(minor_matrix(m, 0, 0));
    lemma_det2(minor_matrix(m, 0, 1));
    lemma_det2(minor_matrix(m, 0, 2));
    lemma_cofactor_sign(m, 0, 0);
    lemma_cofactor_sign(m, 0, 1);
    lemma_cofactor_sign(m, 0, 2);
    assert(c0 == m[1][1] * (m[2][2]) - m[1][2] * (m[2][1]));
    assert(c1 == -(m[1][0] * (m[2][2]) - m[1][2] * (m[2][0])));
    assert(c2 == m[1][0] * (m[2][1]) - m[1][1] * (m[2][0]));
    assert(m[0][0] * c0 + m[0][1] * c1 + m[0][2] * c2 == m[0][0] * (m[1][1] * (m[2][2]) - m[1][2] * (m[2][1])) - m[0][1] * (m[1][0] * (m[2][2]) - m[1][2] * (m[2][0])) + m[0][2] * (m[1][0] * (m[2][1]) - m[1][1] * (m[2][0]))) by (nonlinear_arith)
        requires
            c0 == m[1][1] * (m[2][2]) - m[1][2] * (m[2][1]),
            c1 == -(m[1][0] * (m[2][2]) - m[1][2] * (m[2][0])),
            c2 == m[1][0] * (m[2][1]) - m[1][1] * (m[2][0]),
    ;
}

/// Transposition keeps the size-3 expansion.
proof fn lemma_transpose3(a00: int, a01: int, a02: int, a10: int, a11: int, a12: int, a20: int, a21: int, a22: int)
    ensures
        a00 * (a11 * (a22) - a12 * (a21)) - a01 * (a10 * (a22) - a12 * (a20)) + a02 * (a10 * (a21) - a11 * (a20)) == a00 * (a11 * (a22) - a21 * (a12)) - a10 * (a01 * (a22) - a21 * (a02)) + a20 * (a01 * (a12) - a11 * (a02)),
{
    assert(a00 * (a11 * (a22) - a12 * (a21)) == a00 * a11 * a22 - a00 * a12 * a21) by (nonlinear_arith);
    assert(a01 * (a10 * (a22) - a12 * (a20)) == a01 * a10 * a22 - a01 * a12 * a20) by (nonlinear_arith);
    assert(a02 * (a10 * (a21) - a11 * (a20)) == a02 * a10 * a21 - a02 * a11 * a20) by (nonlinear_arith);
    assert(a00 * (a11 * (a22) - a21 * (a12)) == a00 * a11 * a22 - a00 * a21 * a12) by (nonlinear_arith);
    assert(a10 * (a01 * (a22) - a21 * (a02)) == a10 * a01 * a22 - a10 * a21 * a02) by (nonlinear_arith);
    assert(a20 * (a01 * (a12) - a11 * (a02)) == a20 * a01 * a12 - a20 * a11 * a02) by (nonlinear_arith);
    assert(a00 * a11 * a22 - a00 * a12 * a21 - a01 * a10 * a22 + a01 * a12 * a20 + a02 * a10 * a21 - a02 * a11 * a20 == a00 * a11 * a22 - a00 * a21 * a12 - a10 * a01 * a22 + a10 * a21 * a02 + a20 * a01 * a12 - a20 * a11 * a02) by (nonlinear_arith);
}

/// Transposing a matrix of size at most 3 leaves its determinant unchanged.
pub proof fn lemma_determinant_of_transpose_upto3(m: Seq<Seq<int>>)
    requires
        is_square(m),
        m.len() <= 3,
    ensures
        det(transpose_spec(m)) == det(m),
{
    let t = transpose_spec(m);
    assert(is_square(t));
    if m.len() == 1 {
        assert(t[0][0] == m[0][0]);
    } else if m.len() == 2 {
        lemma_det2(m);
        lemma_det2(t);
        assert(m[0][0] * m[1][1] - m[1][0] * m[0][1] == m[0][0] * m[1][1] - m[0][1] * m[1][0])
            by (nonlinear_arith);
    } else if m.len() == 3 {
        lemma_det3(m);
        lemma_det3(t);
        lemma_transpose3(m[0][0], m[0][1], m[0][2], m[1][0], m[1][1], m[1][2], m[2][0], m[2][1], m[2][2]);
    }
}

/// For sizes 1 and 2, a matrix times its adjugate is its determinant times the
/// identity, so the adjugate over a nonzero determinant is the inverse.
pub proof fn lemma_times_adjugate_upto2(m: Seq<Seq<int>>)
    requires
        is_square(m),
        1 <= m.len() <= 2,
    ensures
        product_spec(m, adjugate_spec(m)) == scale_spec(identity_spec(m.len()), det(m)),
{
    let adj = adjugate_spec(m);
    let p = product_spec(m, adj);
    let s = scale_spec(identity_spec(m.len()), det(m));
    if m.len() == 1 {
        assert(minor_matrix(m, 0, 0).len() == 0);
        assert(det(minor_matrix(m, 0, 0)) == 1);
        lemma_cofactor_sign(m, 0, 0);
        assert(adj[0][0] == 1);
        reveal_with_fuel(row_col, 2);
        assert(p[0][0] == m[0][0] * adj[0][0]);
        assert(m[0][0] * adj[0][0] == m[0][0]) by (nonlinear_arith)
            requires
                adj[0][0] == 1,
        ;
        let i00 = identity_spec(1)[0][0];
        assert(i00 == 1);
        assert(s[0][0] == i00 * det(m));
        assert(i00 * det(m) == det(m)) by (nonlinear_arith)
            requires
                i00 == 1,
        ;
    } else {
        lemma_det2(m);
        let a = m[0][0];
        let b = m[0][1];
        let c = m[1][0];
        let d = m[1][1];
        assert(minor_matrix(m, 0, 0)[0][0] == d);
        assert(minor_matrix(m, 0, 1)[0][0] == c);
        assert(minor_matrix(m, 1, 0)[0][0] == b);
        assert(minor_matrix(m, 1, 1)[0][0] == a);
        assert(det(minor_matrix(m, 0, 0)) == d && det(minor_matrix(m, 0, 1)) == c);
        assert(det(minor_matrix(m, 1, 0)) == b && det(minor_matrix(m, 1, 1)) == a);
        lemma_cofactor_sign(m, 0, 0);
        lemma_cofactor_sign(m, 0, 1);
        lemma_cofactor_sign(m, 1, 0);
        lemma_cofactor_sign(m, 1, 1);
        assert(cofactor_spec(m, 0, 0) == d && cofactor_spec(m, 0, 1) == -c);
        assert(cofactor_spec(m, 1, 0) == -b && cofactor_spec(m, 1, 1) == a);
        assert(adj[0][0] == d && adj[1][0] == -c && adj[0][1] == -b && adj[1][1] == a);
        reveal_with_fuel(row_col, 3);
        let e00 = adj[0][0];
        let e01 = adj[0][1];
        let e10 = adj[1][0];
        let e11 = adj[1][1];
        assert(p[0][0] == a * e00 + b * e10);
        assert(p[0][1] == a * e01 + b * e11);
        assert(p[1][0] == c * e00 + d * e10);
        assert(p[1][1] == c * e01 + d * e11);
        assert(a * e00 + b * e10 == a * d - b * c && a * e01 + b * e11 == 0 && c * e00 + d * e10 == 0
            && c * e01 + d * e11 == a * d - b * c) by (nonlinear_arith)
            requires
                e00 == d,
                e10 == -c,
                e01 == -b,
                e11 == a,
        ;
        let id = identity_spec(2);
        let dm = det(m);
        assert(id[0][0] == 1 && id[1][1] == 1 && id[0][1] == 0 && id[1][0] == 0);
        assert(s[0][0] == id[0][0] * dm && s[1][1] == id[1][1] * dm);
        assert(s[0][1] == id[0][1] * dm && s[1][0] == id[1][0] * dm);
        assert(id[0][0] * dm == dm && id[1][1] * dm == dm && id[0][1] * dm == 0 && id[1][0] * dm == 0)
            by (nonlinear_arith)
            requires
                id[0][0] == 1,
                id[1][1] == 1,
                id[0][1] == 0,
                id[1][0] == 0,
        ;
    }
    assert(p =~~= s);
}

} // verus!
