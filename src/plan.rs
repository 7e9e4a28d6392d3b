//! The apply operation: validation of a batched application and the
//! per-element schedule of one-dimensional contractions that carries it out.
//!
//! A contraction step reads a block laid out as `[pre][from][post]` and writes
//! one laid out as `[pre][to][post]`:
//!
//! `dst[dst_offset + (a * to + j) * post + c]  (=, or += when accumulate)`
//! `    sum over b < from of  T(j, b) * src[src_offset + (a * from + b) * post + c]`
//!
//! where `T(j, b)` is `table[table_offset + j * from + b]`, or
//! `table[table_offset + b * to + j]` when `transpose` is set. Tables are stored
//! row-major with one row per quadrature point. Node-space blocks are
//! `[component][node]`, quadrature-space blocks `[direction][component][point]`,
//! node and point indices running fastest along axis 0; element `e` owns the
//! `e`-th block of each buffer. Transposed applications overwrite their output.
use vstd::prelude::*;
use crate::arith::{
    ipow, lemma_ipow_monotone, lemma_ipow_positive, lemma_ipow_small, lemma_mixed_power_bound,
    max_int, pow_within, scale_small, wide_mul,
};
use crate::basis::{Basis, BasisView};
use crate::modes::{BasisError, EvalMode, TransposeMode};
use vstd::arithmetic::div_mod::{lemma_fundamental_div_mod, lemma_mod_bound};

verus! {

/// Which of the basis' tables a step multiplies by.
#[derive(Clone, Copy, Debug, PartialEq, Eq, Structural)]
pub enum Table {
    Interp,
    Grad,
}

/// Which per-element buffer a step reads or writes.
#[derive(Clone, Copy, Debug, PartialEq, Eq, Structural)]
pub enum Buffer {
    Input,
    Output,
    ScratchA,
    ScratchB,
}

/// One contraction along a single axis (see the module documentation).
#[derive(Clone, Copy, Debug, PartialEq, Eq, Structural)]
pub struct Contraction {
    pub table: Table,
    pub table_offset: u64,
    pub transpose: bool,
    pub pre: u64,
    pub from: u64,
    pub to: u64,
    pub post: u64,
    pub src: Buffer,
    pub src_offset: u64,
    pub dst: Buffer,
    pub dst_offset: u64,
    pub accumulate: bool,
}

impl Contraction {
    /// Whether every position the step can address fits in a `u64`.
    pub open spec fn addressable(&self) -> bool {
        &&& self.src_offset + self.pre * self.from * self.post <= u64::MAX
        &&& self.dst_offset + self.pre * self.to * self.post <= u64::MAX
        &&& self.table_offset + self.from * self.to <= u64::MAX
    }

    /// Tells whether [`Contraction::addressable`] holds.
    pub fn is_addressable(&self) -> (r: bool)
        ensures
            r == self.addressable(),
    {
        let pre = self.pre as u128;
        assert(pre * (self.from as u128) <= u64::MAX * u64::MAX) by (nonlinear_arith)
            requires
                pre <= u64::MAX,
                self.from <= u64::MAX,
        ;
        let read = pre * (self.from as u128);
        assert(pre * (self.to as u128) <= u64::MAX * u64::MAX) by (nonlinear_arith)
            requires
                pre <= u64::MAX,
                self.to <= u64::MAX,
        ;
        let written = pre * (self.to as u128);
        assert((self.from as u128) * (self.to as u128) <= u64::MAX * u64::MAX) by (nonlinear_arith)
            requires
                self.from <= u64::MAX,
                self.to <= u64::MAX,
        ;
        let table = (self.from as u128) * (self.to as u128);
        if table + self.table_offset as u128 > u64::MAX as u128 {
            return false;
        }
        let post = self.post as u128;
        if post > 0 && (read > u64::MAX as u128 || written > u64::MAX as u128) {
            assert(read * post >= read && written * post >= written) by (nonlinear_arith)
                requires
                    post >= 1,
                    read >= 0,
                    written >= 0,
            ;
            return false;
        }
        assert(read * post <= u64::MAX * u64::MAX) by (nonlinear_arith)
            requires
                post == 0 || read <= u64::MAX,
                post <= u64::MAX,
        ;
        assert(written * post <= u64::MAX * u64::MAX) by (nonlinear_arith)
            requires
                post == 0 || written <= u64::MAX,
                post <= u64::MAX,
        ;
        read * post + self.src_offset as u128 <= u64::MAX as u128 && written * post
            + self.dst_offset as u128 <= u64::MAX as u128
    }

    /// Position in the source buffer of the value at `(a, b, c)` of the
    /// `[pre][from][post]` block.
    pub fn src_index(&self, a: u64, b: u64, c: u64) -> (r: u64)
        requires
            self.addressable(),
            a < self.pre,
            b < self.from,
            c < self.post,
        ensures
            r == self.src_offset + (a * self.from + b) * self.post + c,
            r < self.src_offset + self.pre * self.from * self.post,
    {
        proof {
            block_position(a as int, b as int, c as int, self.pre as int, self.from as int, self.post as int);
        }
        self.src_offset + (a * self.from + b) * self.post + c
    }

    /// Position in the destination buffer of the value at `(a, j, c)` of the
    /// `[pre][to][post]` block.
    pub fn dst_index(&self, a: u64, j: u64, c: u64) -> (r: u64)
        requires
            self.addressable(),
            a < self.pre,
            j < self.to,
            c < self.post,
        ensures
            r == self.dst_offset + (a * self.to + j) * self.post + c,
            r < self.dst_offset + self.pre * self.to * self.post,
    {
        proof {
            block_position(a as int, j as int, c as int, self.pre as int, self.to as int, self.post as int);
        }
        self.dst_offset + (a * self.to + j) * self.post + c
    }

    /// Position in the table of the factor `T(j, b)` that weighs source row
    /// `b` in destination row `j`.
    pub fn table_index(&self, j: u64, b: u64) -> (r: u64)
        requires
            self.addressable(),
            j < self.to,
            b < self.from,
        ensures
            r == self.table_offset + (if self.transpose {
                b * self.to + j
            } else {
                j * self.from + b
            }),
            r < self.table_offset + self.from * self.to,
    {
        proof {
            block_position(0, j as int, b as int, 1, self.to as int, self.from as int);
            block_position(0, b as int, j as int, 1, self.from as int, self.to as int);
            assert(self.to * self.from == self.from * self.to) by (nonlinear_arith);
        }
        if self.transpose {
            self.table_offset + b * self.to + j
        } else {
            self.table_offset + j * self.from + b
        }
    }
}

/// Row-major position of `(a, b, c)` in an `n0 x n1 x n2` block lies inside it.
proof fn block_position(a: int, b: int, c: int, n0: int, n1: int, n2: int)
    requires
        0 <= a < n0,
        0 <= b < n1,
        0 <= c < n2,
    ensures
        0 <= (a * n1 + b) * n2 + c < n0 * n1 * n2,
        0 <= a * n1 <= a * n1 + b,
        0 <= (a * n1 + b) * n2 <= (a * n1 + b) * n2 + c,
        a * n1 + b <= (a * n1 + b) * n2,
{
    assert(a * n1 + b <= (n0 - 1) * n1 + (n1 - 1)) by (nonlinear_arith)
        requires
            0 <= a < n0,
            0 <= b < n1,
    ;
    assert(0 <= a * n1) by (nonlinear_arith)
        requires
            0 <= a,
            0 <= n1,
    ;
    let m = a * n1 + b;
    assert((n0 - 1) * n1 + (n1 - 1) == n0 * n1 - 1) by (nonlinear_arith);
    assert(m * n2 + c <= (n0 * n1 - 1) * n2 + (n2 - 1)) by (nonlinear_arith)
        requires
            0 <= m <= n0 * n1 - 1,
            0 <= c < n2,
    ;
    assert((n0 * n1 - 1) * n2 + (n2 - 1) == n0 * n1 * n2 - 1) by (nonlinear_arith);
    assert(0 <= m * n2 && m <= m * n2) by (nonlinear_arith)
        requires
            0 <= m,
            1 <= n2,
    ;
}

/// The work an application does on each element.
#[derive(Debug)]
pub enum Action {
    /// Copy the input block to the output block unchanged.
    Copy,
    /// Write the basis' quadrature weights into the output block, once for
    /// each component.
    Weights,
    /// Run these contractions in order.
    Contract(Vec<Contraction>),
}

/// A validated application: the same per-element work repeated over
/// `num_elements` consecutive blocks of the input and output buffers.
#[derive(Debug)]
pub struct ApplyPlan {
    pub num_elements: u64,
    pub input_block: u64,
    pub output_block: u64,
    /// Length of each of the two scratch buffers.
    pub scratch_len: u64,
    pub action: Action,
}

/// Contraction passes per direction: one per axis for a tensor basis, a single
/// dense product otherwise.
pub open spec fn passes(b: BasisView) -> int {
    if b.tensor {
        b.dim
    } else {
        1
    }
}

/// Number of derivative directions produced or consumed.
pub open spec fn directions(b: BasisView, emode: EvalMode) -> int {
    if emode == EvalMode::Grad {
        b.dim
    } else {
        1
    }
}

/// Values per element in node space.
pub open spec fn node_block(b: BasisView) -> int {
    b.num_components * b.num_nodes
}

/// Values per element in quadrature space for `emode`: one per component and
/// point, and per direction for a gradient. A weight block repeats the point
/// weights for each component.
pub open spec fn quad_block(b: BasisView, emode: EvalMode) -> int {
    directions(b, emode) * b.num_components * b.num_quad_points
}

/// Values each element reads.
pub open spec fn input_block(b: BasisView, tmode: TransposeMode, emode: EvalMode) -> int {
    if emode == EvalMode::Weight {
        0
    } else if tmode == TransposeMode::Transpose {
        quad_block(b, emode)
    } else {
        node_block(b)
    }
}

/// Values each element writes.
pub open spec fn output_block(b: BasisView, tmode: TransposeMode, emode: EvalMode) -> int {
    if tmode == TransposeMode::Transpose {
        node_block(b)
    } else {
        quad_block(b, emode)
    }
}

/// Scratch needed by a contraction schedule: the largest intermediate block.
pub open spec fn scratch_need(b: BasisView, emode: EvalMode) -> int {
    if emode == EvalMode::Interp || emode == EvalMode::Grad {
        b.num_components * max_int(b.num_nodes, b.num_quad_points)
    } else {
        0
    }
}

/// Pairings without a meaning: weights pulled back to nodes, and a non-empty
/// identity copy between spaces of different sizes.
pub open spec fn unsupported(b: BasisView, nelem: int, tmode: TransposeMode, emode: EvalMode) -> bool {
    ||| emode == EvalMode::Weight && tmode == TransposeMode::Transpose
    ||| emode == EvalMode::Identity && b.num_nodes != b.num_quad_points && nelem > 0
}

/// The buffers have exactly the lengths a batch of `nelem` elements needs (a
/// weight application reads no input, so its input is not looked at).
pub open spec fn lengths_ok(
    b: BasisView,
    nelem: int,
    tmode: TransposeMode,
    emode: EvalMode,
    u_len: int,
    v_len: int,
) -> bool {
    &&& (emode == EvalMode::Weight || u_len == nelem * input_block(b, tmode, emode))
    &&& v_len == nelem * output_block(b, tmode, emode)
}

/// Scratch buffer written by pass `d` (the buffers alternate).
pub open spec fn scratch_of(d: int) -> Buffer {
    if d % 2 == 0 {
        Buffer::ScratchA
    } else {
        Buffer::ScratchB
    }
}

/// Pass `d` of derivative direction `dir`. Forward, pass `d` maps `p1d` to
/// `q1d` values along axis `d`; axes before it already hold `q1d` values and
/// axes after it `p1d` values. Transposed, the roles of `p1d` and `q1d` swap
/// and the table is read by columns. For a gradient, axis `dir` uses the
/// derivative factor (a general basis: the `dir`-th block of its gradient).
pub open spec fn expected_step(b: BasisView, transpose: bool, grad: bool, dir: int, d: int) -> Contraction {
    let n = passes(b);
    let from = if transpose {
        b.q1d
    } else {
        b.p1d
    };
    let to = if transpose {
        b.p1d
    } else {
        b.q1d
    };
    let qblock = b.num_components * b.num_quad_points;
    Contraction {
        table: if grad && (!b.tensor || d == dir) {
            Table::Grad
        } else {
            Table::Interp
        },
        table_offset: (if grad && !b.tensor {
            dir * (b.num_quad_points * b.num_nodes)
        } else {
            0
        }) as u64,
        transpose,
        pre: (b.num_components * ipow(from, (n - 1 - d) as nat)) as u64,
        from: from as u64,
        to: to as u64,
        post: ipow(to, d as nat) as u64,
        src: if d == 0 {
            Buffer::Input
        } else {
            scratch_of(d - 1)
        },
        src_offset: (if d == 0 && grad && transpose {
            dir * qblock
        } else {
            0
        }) as u64,
        dst: if d == n - 1 {
            Buffer::Output
        } else {
            scratch_of(d)
        },
        dst_offset: (if d == n - 1 && grad && !transpose {
            dir * qblock
        } else {
            0
        }) as u64,
        accumulate: d == n - 1 && grad && transpose && dir > 0,
    }
}

/// Length of a table of the basis.
pub open spec fn table_len(b: BasisView, t: Table) -> int {
    match t {
        Table::Interp => b.q1d * b.p1d,
        Table::Grad => if b.tensor {
            b.q1d * b.p1d
        } else {
            b.dim * b.num_quad_points * b.num_nodes
        },
    }
}

/// Length of a per-element buffer.
pub open spec fn buffer_len(b: BasisView, tmode: TransposeMode, emode: EvalMode, buf: Buffer) -> int {
    match buf {
        Buffer::Input => input_block(b, tmode, emode),
        Buffer::Output => output_block(b, tmode, emode),
        _ => scratch_need(b, emode),
    }
}

/// Every index a step touches lies inside its table and its two buffers.
pub open spec fn step_fits(
    s: Contraction,
    b: BasisView,
    tmode: TransposeMode,
    emode: EvalMode,
) -> bool {
    &&& s.pre >= 1
    &&& s.from >= 1
    &&& s.to >= 1
    &&& s.post >= 1
    &&& s.src_offset + s.pre * s.from * s.post <= buffer_len(b, tmode, emode, s.src)
    &&& s.dst_offset + s.pre * s.to * s.post <= buffer_len(b, tmode, emode, s.dst)
    &&& s.table_offset + s.from * s.to <= table_len(b, s.table)
}

/// The schedule of an interpolation or gradient application: for each
/// direction in turn, its passes in order.
pub open spec fn schedule_ok(
    steps: Seq<Contraction>,
    b: BasisView,
    tmode: TransposeMode,
    emode: EvalMode,
) -> bool {
    let n = passes(b);
    &&& steps.len() == directions(b, emode) * n
    &&& forall|i: int|
        0 <= i < steps.len() ==> #[trigger] steps[i] == expected_step(
            b,
            tmode == TransposeMode::Transpose,
            emode == EvalMode::Grad,
            i / n,
            i % n,
        )
}

/// What the per-element work is for `emode`.
pub open spec fn action_ok(
    a: Action,
    b: BasisView,
    tmode: TransposeMode,
    emode: EvalMode,
) -> bool {
    match emode {
        EvalMode::Identity => a is Copy,
        EvalMode::Weight => a is Weights,
        _ => a matches Action::Contract(steps) && schedule_ok(steps@, b, tmode, emode),
    }
}

/// Pass `d` of direction `dir` stays inside its table and buffers.
proof fn lemma_step_fits(b: BasisView, tmode: TransposeMode, emode: EvalMode, dir: int, d: int)
    requires
        b.wf(),
        emode == EvalMode::Interp || emode == EvalMode::Grad,
        0 <= dir < directions(b, emode),
        0 <= d < passes(b),
    ensures
        step_fits(
            expected_step(b, tmode == TransposeMode::Transpose, emode == EvalMode::Grad, dir, d),
            b,
            tmode,
            emode,
        ),
{
    let transpose = tmode == TransposeMode::Transpose;
    let grad = emode == EvalMode::Grad;
    let s = expected_step(b, transpose, grad, dir, d);
    let n = passes(b);
    let from = if transpose { b.q1d } else { b.p1d };
    let to = if transpose { b.p1d } else { b.q1d };
    let nc = b.num_components;
    let fa = ipow(from, (n - 1 - d) as nat);
    let tb = ipow(to, d as nat);
    lemma_ipow_small(from);
    lemma_ipow_small(to);
    lemma_ipow_positive(from, (n - 1 - d) as nat);
    lemma_ipow_positive(to, d as nat);
    lemma_ipow_positive(from, (n - d) as nat);
    lemma_ipow_positive(to, (d + 1) as nat);
    // Powers of the two one-dimensional counts give the element's counts.
    let fnn = ipow(from, n as nat);
    let tnn = ipow(to, n as nat);
    assert(fnn <= i32::MAX && tnn <= i32::MAX && fnn >= 1 && tnn >= 1);
    assert((transpose ==> fnn == b.num_quad_points && tnn == b.num_nodes) && (!transpose ==> fnn
        == b.num_nodes && tnn == b.num_quad_points));
    // Sizes read and written, as products of powers.
    assert(ipow(from, (n - d) as nat) == from * fa);
    assert(ipow(to, (d + 1) as nat) == to * tb);
    let read = ipow(from, (n - d) as nat) * tb;
    let written = fa * ipow(to, (d + 1) as nat);
    assert(nc * fa * from * tb == nc * read) by (nonlinear_arith)
        requires
            read == ipow(from, (n - d) as nat) * tb,
            ipow(from, (n - d) as nat) == from * fa,
    ;
    assert(nc * fa * to * tb == nc * written) by (nonlinear_arith)
        requires
            written == fa * ipow(to, (d + 1) as nat),
            ipow(to, (d + 1) as nat) == to * tb,
    ;
    lemma_mixed_power_bound(from, to, (n - d) as nat, d as nat);
    lemma_mixed_power_bound(from, to, (n - 1 - d) as nat, (d + 1) as nat);
    assert(read <= max_int(fnn, tnn));
    assert(written <= max_int(fnn, tnn));
    assert(d == 0 ==> read == fnn) by {
        if d == 0 {
            assert(ipow(to, 0) == 1);
        }
    }
    assert(d == n - 1 ==> written == tnn) by {
        if d == n - 1 {
            assert(ipow(from, 0) == 1);
        }
    }
    let qb = nc * b.num_quad_points;
    let scratch = nc * max_int(b.num_nodes, b.num_quad_points);
    assert(nc * read <= scratch && nc * written <= scratch) by (nonlinear_arith)
        requires
            nc >= 1,
            read <= max_int(fnn, tnn),
            written <= max_int(fnn, tnn),
            max_int(fnn, tnn) == max_int(b.num_nodes, b.num_quad_points),
            scratch == nc * max_int(b.num_nodes, b.num_quad_points),
    ;
    // Offsets of the derivative blocks.
    assert(grad ==> dir * qb + qb <= b.dim * qb) by (nonlinear_arith)
        requires
            0 <= dir < b.dim,
            qb >= 0,
    ;
    assert(qb == nc * b.num_quad_points);
    assert(fa <= fnn) by {
        lemma_ipow_monotone(from, (n - 1 - d) as nat, n as nat);
    }
    assert(tb <= tnn) by {
        lemma_ipow_monotone(to, d as nat, n as nat);
    }
    assert(1 <= nc * fa <= i32::MAX * i32::MAX) by (nonlinear_arith)
        requires
            1 <= nc <= i32::MAX,
            1 <= fa <= i32::MAX,
    ;
    assert(s.pre as int == nc * fa);
    assert(s.post as int == tb);
    assert(s.from as int == from && s.to as int == to);
    // Tables.
    assert(from * to == b.q1d * b.p1d) by (nonlinear_arith)
        requires
            (from == b.q1d && to == b.p1d) || (from == b.p1d && to == b.q1d),
    ;
    if grad && !b.tensor {
        let t = b.num_quad_points * b.num_nodes;
        assert(t <= i32::MAX * i32::MAX) by (nonlinear_arith)
            requires
                1 <= b.num_quad_points <= i32::MAX,
                1 <= b.num_nodes <= i32::MAX,
                t == b.num_quad_points * b.num_nodes,
        ;
        assert(dir * t + t <= b.dim * t) by (nonlinear_arith)
            requires
                0 <= dir < b.dim,
                t >= 0,
        ;
        assert(0 <= dir * t <= 3 * i32::MAX * i32::MAX) by (nonlinear_arith)
            requires
                0 <= dir < 3,
                0 <= t <= i32::MAX * i32::MAX,
        ;
        assert(b.dim * t == b.dim * b.num_quad_points * b.num_nodes) by (nonlinear_arith)
            requires
                t == b.num_quad_points * b.num_nodes,
        ;
    }
    if grad {
        assert(qb <= i32::MAX * i32::MAX) by (nonlinear_arith)
            requires
                1 <= nc <= i32::MAX,
                1 <= b.num_quad_points <= i32::MAX,
                qb == nc * b.num_quad_points,
        ;
        assert(0 <= dir * qb <= 3 * i32::MAX * i32::MAX) by (nonlinear_arith)
            requires
                0 <= dir < 3,
                0 <= qb <= i32::MAX * i32::MAX,
        ;
    }
    assert(s.pre >= 1 && s.from >= 1 && s.to >= 1 && s.post >= 1);
    assert(directions(b, emode) * nc * b.num_quad_points == directions(b, emode) * qb)
        by (nonlinear_arith)
        requires
            qb == nc * b.num_quad_points,
    ;
    assert(node_block(b) == nc * b.num_nodes);
    assert(s.pre * s.from * s.post == nc * read);
    assert(s.pre * s.to * s.post == nc * written);
    if d == 0 {
        assert(nc * read == nc * fnn);
    }
    if d == n - 1 {
        assert(nc * written == nc * tnn);
    }
    assert(s.src_offset + s.pre * s.from * s.post <= buffer_len(b, tmode, emode, s.src));
    assert(s.dst_offset + s.pre * s.to * s.post <= buffer_len(b, tmode, emode, s.dst));
    assert(s.table_offset + s.from * s.to <= table_len(b, s.table));
}

/// A step that fits the buffers and tables of a basis addresses them with
/// `u64` positions.
proof fn lemma_fits_addressable(s: Contraction, b: BasisView, tmode: TransposeMode, emode: EvalMode)
    requires
        b.wf(),
        step_fits(s, b, tmode, emode),
    ensures
        s.addressable(),
{
    let nc = b.num_components;
    let big = i32::MAX * i32::MAX;
    assert(nc * b.num_nodes <= big && nc * b.num_quad_points <= big && b.num_quad_points
        * b.num_nodes <= big && nc * max_int(b.num_nodes, b.num_quad_points) <= big)
        by (nonlinear_arith)
        requires
            1 <= nc <= i32::MAX,
            1 <= b.num_nodes <= i32::MAX,
            1 <= b.num_quad_points <= i32::MAX,
            1 <= max_int(b.num_nodes, b.num_quad_points) <= i32::MAX,
            big == i32::MAX * i32::MAX,
    ;
    assert(b.q1d * b.p1d <= big) by (nonlinear_arith)
        requires
            1 <= b.q1d <= i32::MAX,
            1 <= b.p1d <= i32::MAX,
            big == i32::MAX * i32::MAX,
    ;
    assert(directions(b, emode) * (nc * b.num_quad_points) <= 3 * big) by (nonlinear_arith)
        requires
            1 <= directions(b, emode) <= 3,
            0 <= nc * b.num_quad_points <= big,
    ;
    assert(directions(b, emode) * nc * b.num_quad_points == directions(b, emode) * (nc
        * b.num_quad_points)) by (nonlinear_arith);
    assert(b.dim * b.num_quad_points * b.num_nodes <= 3 * big) by (nonlinear_arith)
        requires
            1 <= b.dim <= 3,
            0 <= b.num_quad_points * b.num_nodes <= big,
    ;
}

/// The fields of pass `d` as integers.
pub proof fn lemma_step_values(b: BasisView, transpose: bool, grad: bool, dir: int, d: int)
    requires
        b.wf(),
        0 <= d < passes(b),
    ensures
        ({
            let s = expected_step(b, transpose, grad, dir, d);
            let from = if transpose { b.q1d } else { b.p1d };
            let to = if transpose { b.p1d } else { b.q1d };
            &&& s.pre as int == b.num_components * ipow(from, (passes(b) - 1 - d) as nat)
            &&& s.post as int == ipow(to, d as nat)
            &&& s.from as int == from
            &&& s.to as int == to
        }),
{
    let n = passes(b);
    let from = if transpose { b.q1d } else { b.p1d };
    let to = if transpose { b.p1d } else { b.q1d };
    let nc = b.num_components;
    let fa = ipow(from, (n - 1 - d) as nat);
    let tb = ipow(to, d as nat);
    lemma_ipow_small(from);
    lemma_ipow_small(to);
    lemma_ipow_positive(from, (n - 1 - d) as nat);
    lemma_ipow_positive(to, d as nat);
    lemma_ipow_monotone(from, (n - 1 - d) as nat, n as nat);
    lemma_ipow_monotone(to, d as nat, n as nat);
    assert(ipow(from, n as nat) <= i32::MAX && ipow(to, n as nat) <= i32::MAX);
    assert(1 <= nc * fa <= i32::MAX * i32::MAX) by (nonlinear_arith)
        requires
            1 <= nc <= i32::MAX,
            1 <= fa <= i32::MAX,
    ;
}

/// Consecutive passes of one direction hand their values on: pass `d + 1`
/// reads, from offset zero, the scratch buffer that pass `d` wrote from offset
/// zero, and reads exactly as many values as pass `d` wrote. The two passes
/// never read and write the same buffer.
pub proof fn lemma_passes_chain(b: BasisView, transpose: bool, grad: bool, dir: int, d: int)
    requires
        b.wf(),
        0 <= d,
        d + 1 < passes(b),
    ensures
        ({
            let s = expected_step(b, transpose, grad, dir, d);
            let t = expected_step(b, transpose, grad, dir, d + 1);
            &&& t.src == s.dst
            &&& s.dst != s.src
            &&& t.dst != t.src
            &&& s.dst_offset == 0
            &&& t.src_offset == 0
            &&& t.pre * t.from * t.post == s.pre * s.to * s.post
        }),
{
    lemma_step_values(b, transpose, grad, dir, d);
    lemma_step_values(b, transpose, grad, dir, d + 1);
    let n = passes(b);
    let from = if transpose { b.q1d } else { b.p1d };
    let to = if transpose { b.p1d } else { b.q1d };
    let nc = b.num_components;
    let fa = ipow(from, (n - 2 - d) as nat);
    let tb = ipow(to, d as nat);
    assert(ipow(from, (n - 1 - d) as nat) == from * fa);
    assert(ipow(to, (d + 1) as nat) == to * tb);
    assert((nc * fa) * from * (to * tb) == (nc * (from * fa)) * to * tb) by (nonlinear_arith);
}

/// The passes of one direction read the whole input block of that direction
/// and write the whole output block of that direction: `ncomp * num_nodes`
/// values on the node side, `ncomp * num_quad_points` on the quadrature side.
pub proof fn lemma_passes_cover_blocks(b: BasisView, transpose: bool, grad: bool, dir: int)
    requires
        b.wf(),
    ensures
        ({
            let first = expected_step(b, transpose, grad, dir, 0);
            let last = expected_step(b, transpose, grad, dir, passes(b) - 1);
            let nodes = b.num_components * b.num_nodes;
            let points = b.num_components * b.num_quad_points;
            &&& first.src == Buffer::Input
            &&& last.dst == Buffer::Output
            &&& first.pre * first.from * first.post == (if transpose {
                points
            } else {
                nodes
            })
            &&& last.pre * last.to * last.post == (if transpose {
                nodes
            } else {
                points
            })
        }),
{
    let n = passes(b);
    lemma_step_values(b, transpose, grad, dir, 0);
    lemma_step_values(b, transpose, grad, dir, n - 1);
    let from = if transpose { b.q1d } else { b.p1d };
    let to = if transpose { b.p1d } else { b.q1d };
    let nc = b.num_components;
    lemma_ipow_small(from);
    lemma_ipow_small(to);
    assert(ipow(from, n as nat) == from * ipow(from, (n - 1) as nat));
    assert(ipow(to, n as nat) == to * ipow(to, (n - 1) as nat));
    assert((nc * ipow(from, (n - 1) as nat)) * from * 1 == nc * ipow(from, n as nat)) by (nonlinear_arith)
        requires
            ipow(from, n as nat) == from * ipow(from, (n - 1) as nat),
    ;
    assert((nc * 1) * to * ipow(to, (n - 1) as nat) == nc * ipow(to, n as nat)) by (nonlinear_arith)
        requires
            ipow(to, n as nat) == to * ipow(to, (n - 1) as nat),
    ;
}

/// The alternating scratch buffer written by pass `d`.
fn scratch_buffer(d: i32) -> (r: Buffer)
    requires
        d >= 0,
    ensures
        r == scratch_of(d as int),
{
    if d % 2 == 0 {
        Buffer::ScratchA
    } else {
        Buffer::ScratchB
    }
}

impl Basis {
    /// Pass `d` of derivative direction `dir`.
    fn make_step(&self, transpose: bool, grad: bool, dir: i32, d: i32) -> (r: Contraction)
        requires
            0 <= dir < (if grad {
                self@.dim
            } else {
                1
            }),
            0 <= d < passes(self@),
        ensures
            r == expected_step(self@, transpose, grad, dir as int, d as int),
    {
        let dim = self.get_dimension();
        let tensor = self.is_tensor();
        let ncomp = self.get_num_components();
        let nnodes = self.get_num_nodes();
        let nqpts = self.get_num_quadrature_points();
        let p1d = self.get_num_nodes_1d();
        let q1d = self.get_num_quadrature_points_1d();
        let n: i32 = if tensor {
            dim
        } else {
            1
        };
        let from = if transpose {
            q1d
        } else {
            p1d
        };
        let to = if transpose {
            p1d
        } else {
            q1d
        };
        proof {
            lemma_ipow_small(from as int);
            lemma_ipow_small(to as int);
        }
        let from_pow = pow_within(from, n - 1 - d, n);
        let to_pow = pow_within(to, d, n);
        let pre = wide_mul(ncomp, from_pow);
        let qblock = wide_mul(ncomp, nqpts);
        let table_offset: u64 = if grad && !tensor {
            scale_small(dir, wide_mul(nqpts, nnodes))
        } else {
            0
        };
        let src = if d == 0 {
            Buffer::Input
        } else {
            scratch_buffer(d - 1)
        };
        let src_offset: u64 = if d == 0 && grad && transpose {
            scale_small(dir, qblock)
        } else {
            0
        };
        let dst = if d == n - 1 {
            Buffer::Output
        } else {
            scratch_buffer(d)
        };
        let dst_offset: u64 = if d == n - 1 && grad && !transpose {
            scale_small(dir, qblock)
        } else {
            0
        };
        Contraction {
            table: if grad && (!tensor || d == dir) {
                Table::Grad
            } else {
                Table::Interp
            },
            table_offset,
            transpose,
            pre,
            from: from as u64,
            to: to as u64,
            post: to_pow as u64,
            src,
            src_offset,
            dst,
            dst_offset,
            accumulate: d == n - 1 && grad && transpose && dir > 0,
        }
    }

    /// Validates an application of the basis to `nelem` elements, reading a
    /// buffer of `u_len` values and writing one of `v_len`, and returns the
    /// per-element work. Each buffer must hold exactly `nelem` blocks; an empty
    /// batch does no work, whatever the pairing but weights pulled back.
    ///
    /// Fails with `InvalidArgument` for a negative `nelem`, then with
    /// `UnsupportedCombination` for a pairing without meaning, then with
    /// `ShapeMismatch` when a buffer length is not the one the batch needs.
    pub fn apply(
        &self,
        nelem: i32,
        tmode: TransposeMode,
        emode: EvalMode,
        u_len: usize,
        v_len: usize,
    ) -> (r: Result<ApplyPlan, BasisError>)
        ensures
            r == Err::<ApplyPlan, BasisError>(BasisError::InvalidArgument) <==> nelem < 0,
            r == Err::<ApplyPlan, BasisError>(BasisError::UnsupportedCombination) <==> nelem >= 0
                && unsupported(self@, nelem as int, tmode, emode),
            r == Err::<ApplyPlan, BasisError>(BasisError::ShapeMismatch) <==> nelem >= 0
                && !unsupported(self@, nelem as int, tmode, emode) && !lengths_ok(
                self@,
                nelem as int,
                tmode,
                emode,
                u_len as int,
                v_len as int,
            ),
            r is Ok <==> nelem >= 0 && !unsupported(self@, nelem as int, tmode, emode) && lengths_ok(
                self@,
                nelem as int,
                tmode,
                emode,
                u_len as int,
                v_len as int,
            ),
            nelem == 0 && !(emode == EvalMode::Weight && tmode == TransposeMode::Transpose) && (emode
                == EvalMode::Weight || u_len == 0) && v_len == 0 ==> (r matches Ok(plan)
                && plan.num_elements == 0),
            r matches Ok(plan) ==> {
                &&& plan.num_elements == nelem
                &&& plan.input_block == input_block(self@, tmode, emode)
                &&& plan.output_block == output_block(self@, tmode, emode)
                &&& plan.scratch_len == scratch_need(self@, emode)
                &&& action_ok(plan.action, self@, tmode, emode)
                &&& plan.action matches Action::Contract(steps) ==> forall|i: int|
                    0 <= i < steps@.len() ==> step_fits(#[trigger] steps@[i], self@, tmode, emode)
                        && steps@[i].addressable()
            },
    {
        if nelem < 0 {
            return Err(BasisError::InvalidArgument);
        }
        let dim = self.get_dimension();
        let tensor = self.is_tensor();
        let ncomp = self.get_num_components();
        let nnodes = self.get_num_nodes();
        let nqpts = self.get_num_quadrature_points();
        let transpose = match tmode {
            TransposeMode::Transpose => true,
            TransposeMode::NoTranspose => false,
        };
        let (weight, identity, grad) = match emode {
            EvalMode::Identity => (false, true, false),
            EvalMode::Interp => (false, false, false),
            EvalMode::Grad => (false, false, true),
            EvalMode::Weight => (true, false, false),
        };
        if (weight && transpose) || (identity && nnodes != nqpts && nelem > 0) {
            return Err(BasisError::UnsupportedCombination);
        }
        let dirs: i32 = if grad {
            dim
        } else {
            1
        };
        let nodes_per_elem = wide_mul(ncomp, nnodes);
        let quad_per_elem: u64 = scale_small(dirs, wide_mul(ncomp, nqpts));
        assert(quad_per_elem == quad_block(self@, emode)) by (nonlinear_arith)
            requires
                quad_per_elem == dirs * (ncomp * nqpts),
                dirs == directions(self@, emode),
                ncomp == self@.num_components,
                nqpts == self@.num_quad_points,
        ;
        let input_per_elem: u64 = if weight {
            0
        } else if transpose {
            quad_per_elem
        } else {
            nodes_per_elem
        };
        let output_per_elem: u64 = if transpose {
            nodes_per_elem
        } else {
            quad_per_elem
        };
        assert(nelem * input_per_elem < u128::MAX && nelem * output_per_elem < u128::MAX)
            by (nonlinear_arith)
            requires
                0 <= nelem <= i32::MAX,
                input_per_elem <= u64::MAX,
                output_per_elem <= u64::MAX,
        ;
        let need_in: u128 = (nelem as u128) * (input_per_elem as u128);
        let need_out: u128 = (nelem as u128) * (output_per_elem as u128);
        proof {
            if nelem == 0 {
                assert(need_in == 0 && need_out == 0) by (nonlinear_arith)
                    requires
                        nelem == 0,
                        need_in == nelem * input_per_elem,
                        need_out == nelem * output_per_elem,
                ;
            }
        }
        if (!weight && (u_len as u128) != need_in) || (v_len as u128) != need_out {
            return Err(BasisError::ShapeMismatch);
        }
        let action = if identity {
            Action::Copy
        } else if weight {
            Action::Weights
        } else {
            Action::Contract(self.schedule(transpose, grad))
        };
        proof {
            if let Action::Contract(steps) = &action {
                assert forall|i: int| 0 <= i < steps@.len() implies #[trigger] steps@[i].addressable() by {
                    lemma_fits_addressable(steps@[i], self@, tmode, emode);
                }
            }
        }
        let scratch_len: u64 = if identity || weight {
            0
        } else if nnodes >= nqpts {
            wide_mul(ncomp, nnodes)
        } else {
            wide_mul(ncomp, nqpts)
        };
        let plan = ApplyPlan {
            num_elements: nelem as u64,
            input_block: input_per_elem,
            output_block: output_per_elem,
            scratch_len,
            action,
        };
        Ok(plan)
    }

    /// The contractions of an interpolation (`grad == false`) or gradient
    /// application, each direction's passes in order.
    fn schedule(&self, transpose: bool, grad: bool) -> (steps: Vec<Contraction>)
        ensures
            schedule_ok(
                steps@,
                self@,
                if transpose {
                    TransposeMode::Transpose
                } else {
                    TransposeMode::NoTranspose
                },
                if grad {
                    EvalMode::Grad
                } else {
                    EvalMode::Interp
                },
            ),
            forall|i: int|
                0 <= i < steps@.len() ==> step_fits(
                    #[trigger] steps@[i],
                    self@,
                    if transpose {
                        TransposeMode::Transpose
                    } else {
                        TransposeMode::NoTranspose
                    },
                    if grad {
                        EvalMode::Grad
                    } else {
                        EvalMode::Interp
                    },
                ),
    {
        let tmode = if transpose {
            TransposeMode::Transpose
        } else {
            TransposeMode::NoTranspose
        };
        let emode = if grad {
            EvalMode::Grad
        } else {
            EvalMode::Interp
        };
        let dim = self.get_dimension();
        let n: i32 = if self.is_tensor() {
            dim
        } else {
            1
        };
        let dirs: i32 = if grad {
            dim
        } else {
            1
        };
        assert(1 <= dirs * n <= 9) by (nonlinear_arith)
            requires
                1 <= dirs <= 3,
                1 <= n <= 3,
        ;
        let total: i32 = dirs * n;
        let mut steps: Vec<Contraction> = Vec::new();
        let mut i: i32 = 0;
        while i < total
            invariant
                0 <= i <= total,
                total == dirs * n,
                n == passes(self@),
                dirs == directions(self@, emode),
                grad ==> dirs == self@.dim,
                !grad ==> dirs == 1,
                emode == (if grad {
                    EvalMode::Grad
                } else {
                    EvalMode::Interp
                }),
                tmode == (if transpose {
                    TransposeMode::Transpose
                } else {
                    TransposeMode::NoTranspose
                }),
                1 <= n <= 3,
                1 <= dirs <= 3,
                self@.wf(),
                steps@.len() == i,
                forall|k: int|
                    0 <= k < i ==> #[trigger] steps@[k] == expected_step(
                        self@,
                        transpose,
                        grad,
                        k / (n as int),
                        k % (n as int),
                    ) && step_fits(steps@[k], self@, tmode, emode),
            decreases total - i,
        {
            proof {
                lemma_fundamental_div_mod(i as int, n as int);
                lemma_mod_bound(i as int, n as int);
                assert(i / n < dirs) by (nonlinear_arith)
                    requires
                        i == n * (i / n) + i % n,
                        0 <= i % n < n,
                        0 <= i < dirs * n,
                        n >= 1,
                ;
                assert(i / n >= 0) by (nonlinear_arith)
                    requires
                        i == n * (i / n) + i % n,
                        0 <= i % n < n,
                        0 <= i,
                        n >= 1,
                ;
                lemma_step_fits(self@, tmode, emode, (i / n) as int, (i % n) as int);
            }
            let step = self.make_step(transpose, grad, i / n, i % n);
            let ghost before = steps@;
            steps.push(step);
            proof {
                assert forall|k: int| 0 <= k < i + 1 implies #[trigger] steps@[k] == expected_step(
                    self@,
                    transpose,
                    grad,
                    k / (n as int),
                    k % (n as int),
                ) && step_fits(steps@[k], self@, tmode, emode) by {
                    if k < i {
                        assert(steps@[k] == before[k]);
                    }
                }
            }
            i = i + 1;
        }
        steps
    }
}

} // verus!
