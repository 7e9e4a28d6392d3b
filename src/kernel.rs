//! What the contraction steps of a schedule compute, stated over integer
//! sequences: a step's output, and the dense tensor product (and its adjoint)
//! that the passes of one direction of a two-dimensional basis add up to.
use vstd::prelude::*;
use vstd::arithmetic::div_mod::{lemma_div_denominator, lemma_fundamental_div_mod_converse};
use crate::arith::lemma_ipow_small;
use crate::basis::BasisView;
use crate::plan::{
    Buffer, Contraction, expected_step, lemma_passes_cover_blocks, lemma_step_values, passes,
};

verus! {

/// Sum of `f(k)` over `0 <= k < n`.
pub open spec fn sum_to(n: int, f: spec_fn(int) -> int) -> int
    decreases n,
{
    if n <= 0 {
        0
    } else {
        sum_to(n - 1, f) + f(n - 1)
    }
}

/// Sums of equal terms are equal.
pub proof fn lemma_sum_congruent(n: int, f: spec_fn(int) -> int, g: spec_fn(int) -> int)
    requires
        forall|k: int| 0 <= k < n ==> #[trigger] f(k) == g(k),
    ensures
        sum_to(n, f) == sum_to(n, g),
    decreases n,
{
    if n > 0 {
        lemma_sum_congruent(n - 1, f, g);
    }
}

/// The factor `T(j, b)` of a step, read from its table.
pub open spec fn factor(s: Contraction, table: Seq<int>, j: int, b: int) -> int {
    if s.transpose {
        table[s.table_offset + b * s.to + j]
    } else {
        table[s.table_offset + j * s.from + b]
    }
}

/// The value a step computes at `(a, j, c)` of its `[pre][to][post]` output.
pub open spec fn step_value(s: Contraction, table: Seq<int>, src: Seq<int>, a: int, j: int, c: int) -> int {
    sum_to(
        s.from as int,
        |b: int| factor(s, table, j, b) * src[s.src_offset + (a * s.from + b) * s.post + c],
    )
}

/// The block a step computes, laid out `[pre][to][post]`, before it is stored
/// (or added) at the step's destination offset.
pub open spec fn run_step(s: Contraction, table: Seq<int>, src: Seq<int>) -> Seq<int> {
    Seq::new(
        (s.pre * s.to * s.post) as nat,
        |i: int|
            step_value(
                s,
                table,
                src,
                i / (s.to as int * s.post as int),
                (i / s.post as int) % (s.to as int),
                i % (s.post as int),
            ),
    )
}

/// Row-major position `(a * n1 + j) * n2 + c` decodes back to `(a, j, c)`.
proof fn lemma_decode(a: int, j: int, c: int, n1: int, n2: int)
    requires
        0 <= a,
        0 <= j < n1,
        0 <= c < n2,
    ensures
        ((a * n1 + j) * n2 + c) / (n1 * n2) == a,
        (((a * n1 + j) * n2 + c) / n2) % n1 == j,
        ((a * n1 + j) * n2 + c) % n2 == c,
        0 <= (a * n1 + j) * n2 + c,
{
    let i = (a * n1 + j) * n2 + c;
    assert(0 <= a * n1 + j) by (nonlinear_arith)
        requires
            0 <= a,
            0 <= j,
            n1 > 0,
    ;
    assert(0 <= (a * n1 + j) * n2) by (nonlinear_arith)
        requires
            0 <= a * n1 + j,
            n2 > 0,
    ;
    lemma_fundamental_div_mod_converse(i, n2, a * n1 + j, c);
    lemma_fundamental_div_mod_converse(a * n1 + j, n1, a, j);
    lemma_div_denominator(i, n2, n1);
    assert(n2 * n1 == n1 * n2) by (nonlinear_arith);
}

/// Each value of a step's output is the sum over the contracted index of the
/// table factor times the source value.
pub proof fn lemma_run_step_at(s: Contraction, table: Seq<int>, src: Seq<int>, a: int, j: int, c: int)
    requires
        0 <= a < s.pre,
        0 <= j < s.to,
        0 <= c < s.post,
    ensures
        0 <= (a * s.to + j) * s.post + c < run_step(s, table, src).len(),
        run_step(s, table, src)[(a * s.to + j) * s.post + c] == step_value(s, table, src, a, j, c),
{
    lemma_decode(a, j, c, s.to as int, s.post as int);
    assert((a * s.to + j) * s.post + c < s.pre * s.to * s.post) by (nonlinear_arith)
        requires
            0 <= a < s.pre,
            0 <= j < s.to,
            0 <= c < s.post,
    ;
}

/// The two passes of one direction of a two-dimensional tensor basis, applied
/// forward to a node block `u`, give the dense tensor product of their
/// one-dimensional factors: the value at point `(q0, q1)` of component `comp`
/// is the sum over nodes `(p0, p1)` of `t1[q1][p1] * t0[q0][p0] * u[comp][p1][p0]`,
/// where `t0` and `t1` are the tables the two passes read (the interpolation
/// factor, or the derivative factor along the direction's own axis).
pub proof fn lemma_tensor_2d_forward(
    b: BasisView,
    grad: bool,
    dir: int,
    t0: Seq<int>,
    t1: Seq<int>,
    u: Seq<int>,
    comp: int,
    q0: int,
    q1: int,
)
    requires
        b.wf(),
        b.tensor,
        b.dim == 2,
        0 <= comp < b.num_components,
        0 <= q0 < b.q1d,
        0 <= q1 < b.q1d,
    ensures
        ({
            let s0 = expected_step(b, false, grad, dir, 0);
            let s1 = expected_step(b, false, grad, dir, 1);
            let p = b.p1d;
            let q = b.q1d;
            let v = run_step(s1, t1, run_step(s0, t0, u));
            &&& s0.src == Buffer::Input
            &&& s1.src == s0.dst
            &&& s1.dst == Buffer::Output
            &&& v.len() == b.num_components * b.num_quad_points
            &&& v[(comp * q + q1) * q + q0] == sum_to(
                p,
                |p1: int|
                    t1[q1 * p + p1] * sum_to(p, |p0: int| t0[q0 * p + p0] * u[(comp * p + p1) * p + p0]),
            )
        }),
{
    let s0 = expected_step(b, false, grad, dir, 0);
    let s1 = expected_step(b, false, grad, dir, 1);
    let p = b.p1d;
    let q = b.q1d;
    let nc = b.num_components;
    lemma_step_values(b, false, grad, dir, 0);
    lemma_step_values(b, false, grad, dir, 1);
    assert(passes(b) == 2);
    lemma_ipow_small(p);
    lemma_ipow_small(q);
    assert((passes(b) - 1 - 1) as nat == 0 && (passes(b) - 1 - 0) as nat == 1);
    assert(s0.pre as int == nc * p && s0.post == 1 && s0.from as int == p && s0.to as int == q);
    assert(s1.pre as int == nc && s1.post as int == q && s1.from as int == p && s1.to as int == q);
    assert(s0.src_offset == 0 && s1.src_offset == 0 && s0.table_offset == 0 && s1.table_offset == 0);
    let w = run_step(s0, t0, u);
    let v = run_step(s1, t1, w);
    assert(v.len() == nc * q * q);
    assert(b.num_quad_points == q * q);
    assert(nc * q * q == nc * (q * q)) by (nonlinear_arith);
    lemma_run_step_at(s1, t1, w, comp, q1, q0);
    assert forall|p1: int| 0 <= p1 < p implies #[trigger] w[(comp * p + p1) * q + q0] == sum_to(
        p,
        |p0: int| t0[q0 * p + p0] * u[(comp * p + p1) * p + p0],
    ) by {
        let a = comp * p + p1;
        assert(0 <= a < nc * p) by (nonlinear_arith)
            requires
                0 <= comp < nc,
                0 <= p1 < p,
                a == comp * p + p1,
        ;
        lemma_run_step_at(s0, t0, u, a, q0, 0);
        assert((a * q + q0) * 1 + 0 == a * q + q0);
        let f = |p0: int| factor(s0, t0, q0, p0) * u[s0.src_offset + (a * s0.from + p0) * s0.post + 0];
        let g = |p0: int| t0[q0 * p + p0] * u[(comp * p + p1) * p + p0];
        assert forall|p0: int| 0 <= p0 < p implies #[trigger] f(p0) == g(p0) by {
            assert((a * p + p0) * 1 + 0 == (comp * p + p1) * p + p0);
        }
        lemma_sum_congruent(p, f, g);
    }
    let f1 = |p1: int| factor(s1, t1, q1, p1) * w[s1.src_offset + (comp * s1.from + p1) * s1.post + q0];
    let g1 = |p1: int|
        t1[q1 * p + p1] * sum_to(p, |p0: int| t0[q0 * p + p0] * u[(comp * p + p1) * p + p0]);
    assert forall|p1: int| 0 <= p1 < p implies #[trigger] f1(p1) == g1(p1) by {
        assert(w[(comp * p + p1) * q + q0] == sum_to(
            p,
            |p0: int| t0[q0 * p + p0] * u[(comp * p + p1) * p + p0],
        ));
    }
    lemma_sum_congruent(p, f1, g1);
}

/// The two passes of one direction of a two-dimensional tensor basis, applied
/// transposed to a quadrature block `u` (the direction's block starting at
/// `off`), give the adjoint of the dense tensor product: the value at node
/// `(p0, p1)` of component `comp` is the sum over points `(q0, q1)` of
/// `t1[q1][p1] * t0[q0][p0] * u[off + (comp, q1, q0)]`.
pub proof fn lemma_tensor_2d_transpose(
    b: BasisView,
    grad: bool,
    dir: int,
    t0: Seq<int>,
    t1: Seq<int>,
    u: Seq<int>,
    comp: int,
    p0: int,
    p1: int,
)
    requires
        b.wf(),
        b.tensor,
        b.dim == 2,
        0 <= dir < (if grad {
            b.dim
        } else {
            1
        }),
        0 <= comp < b.num_components,
        0 <= p0 < b.p1d,
        0 <= p1 < b.p1d,
    ensures
        ({
            let s0 = expected_step(b, true, grad, dir, 0);
            let s1 = expected_step(b, true, grad, dir, 1);
            let p = b.p1d;
            let q = b.q1d;
            let off = s0.src_offset as int;
            let v = run_step(s1, t1, run_step(s0, t0, u));
            &&& s0.src == Buffer::Input
            &&& s1.src == s0.dst
            &&& s1.dst == Buffer::Output
            &&& off == (if grad { dir * (b.num_components * b.num_quad_points) } else { 0 })
            &&& v.len() == b.num_components * b.num_nodes
            &&& v[(comp * p + p1) * p + p0] == sum_to(
                q,
                |q1: int|
                    t1[q1 * p + p1] * sum_to(
                        q,
                        |q0: int| t0[q0 * p + p0] * u[off + ((comp * q + q1) * q + q0)],
                    ),
            )
        }),
{
    let s0 = expected_step(b, true, grad, dir, 0);
    let s1 = expected_step(b, true, grad, dir, 1);
    let p = b.p1d;
    let q = b.q1d;
    let nc = b.num_components;
    let off = s0.src_offset as int;
    lemma_step_values(b, true, grad, dir, 0);
    lemma_step_values(b, true, grad, dir, 1);
    assert(passes(b) == 2);
    lemma_ipow_small(p);
    lemma_ipow_small(q);
    assert((passes(b) - 1 - 1) as nat == 0 && (passes(b) - 1 - 0) as nat == 1);
    assert(s0.pre as int == nc * q && s0.post == 1 && s0.from as int == q && s0.to as int == p);
    assert(s1.pre as int == nc && s1.post as int == p && s1.from as int == q && s1.to as int == p);
    assert(s1.src_offset == 0 && s0.table_offset == 0 && s1.table_offset == 0);
    lemma_transposed_offset(b, grad, dir);
    let w = run_step(s0, t0, u);
    let v = run_step(s1, t1, w);
    assert(b.num_nodes == p * p);
    assert(nc * p * p == nc * (p * p)) by (nonlinear_arith);
    lemma_run_step_at(s1, t1, w, comp, p1, p0);
    assert forall|q1: int| 0 <= q1 < q implies #[trigger] w[(comp * q + q1) * p + p0] == sum_to(
        q,
        |q0: int| t0[q0 * p + p0] * u[off + ((comp * q + q1) * q + q0)],
    ) by {
        let a = comp * q + q1;
        assert(0 <= a < nc * q) by (nonlinear_arith)
            requires
                0 <= comp < nc,
                0 <= q1 < q,
                a == comp * q + q1,
        ;
        lemma_run_step_at(s0, t0, u, a, p0, 0);
        assert((a * p + p0) * 1 + 0 == a * p + p0);
        let f = |q0: int| factor(s0, t0, p0, q0) * u[s0.src_offset + (a * s0.from + q0) * s0.post + 0];
        let g = |q0: int| t0[q0 * p + p0] * u[off + ((comp * q + q1) * q + q0)];
        assert forall|q0: int| 0 <= q0 < q implies #[trigger] f(q0) == g(q0) by {
            assert((a * q + q0) * 1 + 0 == (comp * q + q1) * q + q0);
        }
        lemma_sum_congruent(q, f, g);
    }
    let f1 = |q1: int| factor(s1, t1, p1, q1) * w[s1.src_offset + (comp * s1.from + q1) * s1.post + p0];
    let g1 = |q1: int|
        t1[q1 * p + p1] * sum_to(q, |q0: int| t0[q0 * p + p0] * u[off + ((comp * q + q1) * q + q0)]);
    assert forall|q1: int| 0 <= q1 < q implies #[trigger] f1(q1) == g1(q1) by {
        assert(w[(comp * q + q1) * p + p0] == sum_to(
            q,
            |q0: int| t0[q0 * p + p0] * u[off + ((comp * q + q1) * q + q0)],
        ));
    }
    lemma_sum_congruent(q, f1, g1);
}

/// The source offset of a transposed first pass, as an integer.
proof fn lemma_transposed_offset(b: BasisView, grad: bool, dir: int)
    requires
        b.wf(),
        0 <= dir < 3,
    ensures
        expected_step(b, true, grad, dir, 0).src_offset as int == (if grad {
            dir * (b.num_components * b.num_quad_points)
        } else {
            0
        }),
{
    let qb = b.num_components * b.num_quad_points;
    assert(0 <= dir * qb <= 3 * (i32::MAX * i32::MAX)) by (nonlinear_arith)
        requires
            0 <= dir < 3,
            1 <= b.num_components <= i32::MAX,
            1 <= b.num_quad_points <= i32::MAX,
            qb == b.num_components * b.num_quad_points,
    ;
}

/// The block written by one pass reading `m` values per line and writing `k`:
/// each value is the factor-weighted sum of the source line. Covers a tensor
/// basis of dimension one and every general basis, forward or transposed.
pub proof fn lemma_single_pass(
    b: BasisView,
    transpose: bool,
    grad: bool,
    dir: int,
    t0: Seq<int>,
    u: Seq<int>,
    comp: int,
    j0: int,
)
    requires
        b.wf(),
        passes(b) == 1,
        0 <= comp < b.num_components,
        0 <= j0 < (if transpose {
            b.p1d
        } else {
            b.q1d
        }),
    ensures
        ({
            let s0 = expected_step(b, transpose, grad, dir, 0);
            let m = if transpose {
                b.q1d
            } else {
                b.p1d
            };
            let k = if transpose {
                b.p1d
            } else {
                b.q1d
            };
            let v = run_step(s0, t0, u);
            &&& s0.src == Buffer::Input
            &&& s0.dst == Buffer::Output
            &&& s0.transpose == transpose
            &&& s0.from as int == m
            &&& s0.to as int == k
            &&& v.len() == b.num_components * (if transpose {
                b.num_nodes
            } else {
                b.num_quad_points
            })
            &&& v[comp * k + j0] == sum_to(
                m,
                |b0: int| factor(s0, t0, j0, b0) * u[s0.src_offset + (comp * m + b0)],
            )
        }),
{
    let s0 = expected_step(b, transpose, grad, dir, 0);
    let m = if transpose { b.q1d } else { b.p1d };
    let k = if transpose { b.p1d } else { b.q1d };
    let nc = b.num_components;
    lemma_step_values(b, transpose, grad, dir, 0);
    lemma_ipow_small(m);
    lemma_ipow_small(k);
    assert(s0.pre as int == nc && s0.post == 1);
    assert(b.dim == 1 ==> b.num_nodes == b.p1d && b.num_quad_points == b.q1d);
    lemma_run_step_at(s0, t0, u, comp, j0, 0);
    assert((comp * k + j0) * 1 + 0 == comp * k + j0) by (nonlinear_arith);
    let f = |b0: int| factor(s0, t0, j0, b0) * u[s0.src_offset + (comp * s0.from + b0) * s0.post + 0];
    let g = |b0: int| factor(s0, t0, j0, b0) * u[s0.src_offset + (comp * m + b0)];
    assert forall|b0: int| 0 <= b0 < m implies #[trigger] f(b0) == g(b0) by {
        assert((comp * m + b0) * 1 + 0 == comp * m + b0);
    }
    lemma_sum_congruent(m, f, g);
    assert(nc * k * 1 == nc * k) by (nonlinear_arith);
}

/// Three chained passes, each reading `m` values per line and writing `k`,
/// compose to the triple sum over the three contracted indices.
proof fn lemma_three_passes(
    s0: Contraction,
    s1: Contraction,
    s2: Contraction,
    t0: Seq<int>,
    t1: Seq<int>,
    t2: Seq<int>,
    u: Seq<int>,
    nc: int,
    m: int,
    k: int,
    comp: int,
    j0: int,
    j1: int,
    j2: int,
)
    requires
        m >= 1,
        k >= 1,
        0 <= comp < nc,
        0 <= j0 < k,
        0 <= j1 < k,
        0 <= j2 < k,
        s0.pre == nc * m * m,
        s1.pre == nc * m,
        s2.pre == nc,
        s0.from == m && s1.from == m && s2.from == m,
        s0.to == k && s1.to == k && s2.to == k,
        s0.post == 1,
        s1.post == k,
        s2.post == k * k,
        s1.src_offset == 0,
        s2.src_offset == 0,
    ensures
        run_step(s2, t2, run_step(s1, t1, run_step(s0, t0, u)))[((comp * k + j2) * k + j1) * k + j0]
            == sum_to(
            m,
            |b2: int|
                factor(s2, t2, j2, b2) * sum_to(
                    m,
                    |b1: int|
                        factor(s1, t1, j1, b1) * sum_to(
                            m,
                            |b0: int|
                                factor(s0, t0, j0, b0) * u[s0.src_offset + (((comp * m + b2) * m
                                    + b1) * m + b0)],
                        ),
                ),
        ),
{
    let w1 = run_step(s0, t0, u);
    let w2 = run_step(s1, t1, w1);
    assert forall|b2: int, b1: int| 0 <= b2 < m && 0 <= b1 < m implies #[trigger] w1[((comp * m
        + b2) * m + b1) * k + j0] == sum_to(
            m,
            |b0: int|
                factor(s0, t0, j0, b0) * u[s0.src_offset + (((comp * m + b2) * m + b1) * m
                    + b0)],
        ) by {
        let a0 = (comp * m + b2) * m + b1;
        assert(0 <= a0 < nc * m * m) by (nonlinear_arith)
            requires
                0 <= comp < nc,
                0 <= b2 < m,
                0 <= b1 < m,
                a0 == (comp * m + b2) * m + b1,
        ;
        lemma_run_step_at(s0, t0, u, a0, j0, 0);
        assert((a0 * k + j0) * 1 + 0 == a0 * k + j0);
        let f = |b0: int| factor(s0, t0, j0, b0) * u[s0.src_offset + (a0 * s0.from + b0) * s0.post + 0];
        let g = |b0: int| factor(s0, t0, j0, b0) * u[s0.src_offset + (((comp * m + b2) * m + b1) * m + b0)];
        assert forall|b0: int| 0 <= b0 < m implies #[trigger] f(b0) == g(b0) by {
            assert((a0 * m + b0) * 1 + 0 == a0 * m + b0);
        }
        lemma_sum_congruent(m, f, g);
    }
    assert forall|b2: int| 0 <= b2 < m implies #[trigger] w2[(comp * m + b2) * (k * k) + (j1 * k
        + j0)] == sum_to(
            m,
            |b1: int|
                factor(s1, t1, j1, b1) * sum_to(
                    m,
                    |b0: int|
                        factor(s0, t0, j0, b0) * u[s0.src_offset + (((comp * m + b2) * m + b1) * m
                            + b0)],
                )
        ) by {
        let a1 = comp * m + b2;
        assert(0 <= a1 < nc * m) by (nonlinear_arith)
            requires
                0 <= comp < nc,
                0 <= b2 < m,
                a1 == comp * m + b2,
        ;
        lemma_run_step_at(s1, t1, w1, a1, j1, j0);
        assert((a1 * k + j1) * k + j0 == a1 * (k * k) + (j1 * k + j0)) by (nonlinear_arith);
        let f = |b1: int| factor(s1, t1, j1, b1) * w1[s1.src_offset + (a1 * s1.from + b1) * s1.post + j0];
        let g = |b1: int| factor(s1, t1, j1, b1) * sum_to(
            m,
            |b0: int|
                factor(s0, t0, j0, b0) * u[s0.src_offset + (((comp * m + b2) * m + b1) * m
                    + b0)],
        );
        assert forall|b1: int| 0 <= b1 < m implies #[trigger] f(b1) == g(b1) by {
            assert(w1[((comp * m + b2) * m + b1) * k + j0] == sum_to(
                m,
                |b0: int|
                    factor(s0, t0, j0, b0) * u[s0.src_offset + (((comp * m + b2) * m + b1) * m
                        + b0)],
            ));
        }
        lemma_sum_congruent(m, f, g);
    }
    let c = j1 * k + j0;
    assert(0 <= c < k * k) by (nonlinear_arith)
        requires
            0 <= j0 < k,
            0 <= j1 < k,
            c == j1 * k + j0,
    ;
    lemma_run_step_at(s2, t2, w2, comp, j2, c);
    assert(((comp * k + j2) * k + j1) * k + j0 == (comp * k + j2) * (k * k) + c) by (nonlinear_arith)
        requires
            c == j1 * k + j0,
    ;
    let f = |b2: int| factor(s2, t2, j2, b2) * w2[s2.src_offset + (comp * s2.from + b2) * s2.post + c];
    let g = |b2: int| factor(s2, t2, j2, b2) * sum_to(
        m,
        |b1: int|
            factor(s1, t1, j1, b1) * sum_to(
                m,
                |b0: int|
                    factor(s0, t0, j0, b0) * u[s0.src_offset + (((comp * m + b2) * m + b1) * m
                        + b0)],
            )
    );
    assert forall|b2: int| 0 <= b2 < m implies #[trigger] f(b2) == g(b2) by {
        assert(w2[(comp * m + b2) * (k * k) + (j1 * k + j0)] == sum_to(
            m,
            |b1: int|
                factor(s1, t1, j1, b1) * sum_to(
                    m,
                    |b0: int|
                        factor(s0, t0, j0, b0) * u[s0.src_offset + (((comp * m + b2) * m + b1) * m
                            + b0)],
                )
        ));
    }
    lemma_sum_congruent(m, f, g);
}

/// The three passes of one direction of a three-dimensional tensor basis give
/// the dense tensor product of their one-dimensional factors, forward
/// (`m = p1d` nodes to `k = q1d` points per axis) or transposed (the adjoint,
/// `m = q1d` to `k = p1d`, reading the direction's block at the first pass'
/// source offset). Each pass reads its own table with no offset.
pub proof fn lemma_tensor_3d(
    b: BasisView,
    transpose: bool,
    grad: bool,
    dir: int,
    t0: Seq<int>,
    t1: Seq<int>,
    t2: Seq<int>,
    u: Seq<int>,
    comp: int,
    j0: int,
    j1: int,
    j2: int,
)
    requires
        b.wf(),
        b.tensor,
        b.dim == 3,
        0 <= comp < b.num_components,
        0 <= j0 < (if transpose { b.p1d } else { b.q1d }),
        0 <= j1 < (if transpose { b.p1d } else { b.q1d }),
        0 <= j2 < (if transpose { b.p1d } else { b.q1d }),
    ensures
        ({
            let s0 = expected_step(b, transpose, grad, dir, 0);
            let s1 = expected_step(b, transpose, grad, dir, 1);
            let s2 = expected_step(b, transpose, grad, dir, 2);
            let m = if transpose { b.q1d } else { b.p1d };
            let k = if transpose { b.p1d } else { b.q1d };
            let v = run_step(s2, t2, run_step(s1, t1, run_step(s0, t0, u)));
            &&& s0.src == Buffer::Input
            &&& s1.src == s0.dst
            &&& s2.src == s1.dst
            &&& s2.dst == Buffer::Output
            &&& s0.table_offset == 0 && s1.table_offset == 0 && s2.table_offset == 0
            &&& s0.transpose == transpose && s1.transpose == transpose && s2.transpose == transpose
            &&& s0.from as int == m && s0.to as int == k
            &&& s1.from as int == m && s1.to as int == k
            &&& s2.from as int == m && s2.to as int == k
            &&& v.len() == b.num_components * (if transpose {
                b.num_nodes
            } else {
                b.num_quad_points
            })
            &&& v[((comp * k + j2) * k + j1) * k + j0] == sum_to(
                m,
                |b2: int|
                    factor(s2, t2, j2, b2) * sum_to(
                        m,
                        |b1: int|
                            factor(s1, t1, j1, b1) * sum_to(
                                m,
                                |b0: int|
                                    factor(s0, t0, j0, b0) * u[s0.src_offset + (((comp * m + b2)
                                        * m + b1) * m + b0)],
                            ),
                    ),
            )
        }),
{
    let s0 = expected_step(b, transpose, grad, dir, 0);
    let s1 = expected_step(b, transpose, grad, dir, 1);
    let s2 = expected_step(b, transpose, grad, dir, 2);
    let m = if transpose { b.q1d } else { b.p1d };
    let k = if transpose { b.p1d } else { b.q1d };
    let nc = b.num_components;
    lemma_step_values(b, transpose, grad, dir, 0);
    lemma_step_values(b, transpose, grad, dir, 1);
    lemma_step_values(b, transpose, grad, dir, 2);
    assert(passes(b) == 3);
    lemma_ipow_small(m);
    lemma_ipow_small(k);
    assert((3 - 1 - 0) as nat == 2 && (3 - 1 - 1) as nat == 1 && (3 - 1 - 2) as nat == 0);
    assert(nc * (m * m) == nc * m * m) by (nonlinear_arith);
    assert(s0.pre == nc * m * m && s1.pre == nc * m && s2.pre == nc);
    assert(s0.post == 1 && s1.post == k && s2.post == k * k);
    lemma_three_passes(s0, s1, s2, t0, t1, t2, u, nc, m, k, comp, j0, j1, j2);
    assert(s2.pre * s2.to * s2.post == nc * k * (k * k));
    assert(nc * k * (k * k) == nc * (k * k * k)) by (nonlinear_arith);
}

/// A transposed gradient sums its directions into one output: the last pass
/// of every direction writes the whole output block from offset zero; the
/// first direction stores its values and every later one adds to them.
pub proof fn lemma_transposed_gradient_sums(b: BasisView, dir: int)
    requires
        b.wf(),
        0 <= dir < b.dim,
    ensures
        ({
            let last = expected_step(b, true, true, dir, passes(b) - 1);
            &&& last.dst == Buffer::Output
            &&& last.dst_offset == 0
            &&& last.accumulate == (dir > 0)
            &&& last.pre * last.to * last.post == b.num_components * b.num_nodes
        }),
{
    lemma_passes_cover_blocks(b, true, true, dir);
}

/// A transposed application overwrites its output: every pass of an
/// interpolation, and every pass of the first gradient direction, stores its
/// values; only the last pass of a later gradient direction adds to what the
/// earlier directions stored. Forward passes never add.
pub proof fn lemma_transpose_overwrites(b: BasisView, transpose: bool, grad: bool, dir: int, d: int)
    requires
        b.wf(),
        0 <= d < passes(b),
    ensures
        expected_step(b, transpose, grad, dir, d).accumulate <==> (transpose && grad && dir > 0 && d
            == passes(b) - 1),
        d < passes(b) - 1 ==> expected_step(b, transpose, grad, dir, d).dst != Buffer::Output,
{
}

} // verus!
