use ceed_basis::arith::checked_pow;
use ceed_basis::basis::Basis;
use ceed_basis::modes::{BasisError, ElemTopology, EvalMode, QuadMode, TransposeMode};
use ceed_basis::plan::{Action, Buffer, Contraction, Table};
use ceed_basis::quadrature::QuadratureRule;

fn lagrange(dim: i32, ncomp: i32, p: i32, q: i32, mode: QuadMode) -> Basis {
    Basis::create_tensor_H1_Lagrange(dim, ncomp, p, q, mode).unwrap()
}

fn steps_of(action: Action) -> Vec<Contraction> {
    match action {
        Action::Contract(steps) => steps,
        other => panic!("expected contractions, got {:?}", other),
    }
}

#[test]
fn lagrange_dimension() {
    let b = lagrange(2, 1, 3, 4, QuadMode::Gauss);
    assert_eq!(b.get_dimension(), 2);
    assert_eq!(b.get_topology(), ElemTopology::Quad);
}

#[test]
fn lagrange_num_components() {
    let b = lagrange(1, 2, 3, 4, QuadMode::Gauss);
    assert_eq!(b.get_num_components(), 2);
    assert_eq!(b.get_topology(), ElemTopology::Line);
}

#[test]
fn lagrange_sizes_are_tensor_powers() {
    let b = lagrange(2, 1, 3, 4, QuadMode::Gauss);
    assert_eq!(b.get_num_nodes(), 3 * 3);
    assert_eq!(b.get_num_quadrature_points(), 4 * 4);
    let c = lagrange(3, 1, 5, 2, QuadMode::GaussLobatto);
    assert_eq!(c.get_num_nodes(), 125);
    assert_eq!(c.get_num_quadrature_points(), 8);
    assert_eq!(c.get_topology(), ElemTopology::Hex);
    assert!(c.is_tensor());
    assert_eq!(c.get_num_nodes_1d(), 5);
    assert_eq!(c.get_num_quadrature_points_1d(), 2);
}

#[test]
fn lobatto_rule_needs_two_points() {
    assert_eq!(
        QuadratureRule::new(1, QuadMode::GaussLobatto),
        Err(BasisError::QuadratureRuleError)
    );
    assert_eq!(
        QuadratureRule::new(0, QuadMode::Gauss),
        Err(BasisError::QuadratureRuleError)
    );
    let g = QuadratureRule::new(1, QuadMode::Gauss).unwrap();
    assert_eq!(g.num_points(), 1);
    assert_eq!(g.kind(), QuadMode::Gauss);
}

#[test]
fn rule_exact_degrees() {
    assert_eq!(QuadratureRule::new(3, QuadMode::Gauss).unwrap().exact_degree(), 5);
    assert_eq!(QuadratureRule::new(3, QuadMode::GaussLobatto).unwrap().exact_degree(), 3);
    assert_eq!(QuadratureRule::new(2, QuadMode::GaussLobatto).unwrap().exact_degree(), 1);
}

#[test]
fn lagrange_rejects_bad_sizes() {
    for (dim, ncomp, p, q) in [(0, 1, 3, 4), (4, 1, 3, 4), (1, 0, 3, 4), (1, 1, 0, 4), (1, 1, 3, -1)] {
        assert_eq!(
            Basis::create_tensor_H1_Lagrange(dim, ncomp, p, q, QuadMode::Gauss).err(),
            Some(BasisError::InvalidArgument)
        );
    }
    // 2000^3 does not fit in an i32.
    assert_eq!(
        Basis::create_tensor_H1_Lagrange(3, 1, 2000, 2, QuadMode::Gauss).err(),
        Some(BasisError::InvalidArgument)
    );
    assert!(Basis::create_tensor_H1_Lagrange(3, 1, 1290, 2, QuadMode::Gauss).is_ok());
}

#[test]
fn lagrange_rule_errors() {
    let one = Basis::create_tensor_H1_Lagrange(2, 1, 1, 4, QuadMode::Gauss).unwrap();
    assert_eq!(one.get_num_nodes(), 1);
    assert_eq!(one.get_num_quadrature_points(), 16);
    assert_eq!(
        Basis::create_tensor_H1_Lagrange(2, 1, 3, 1, QuadMode::GaussLobatto).err(),
        Some(BasisError::QuadratureRuleError)
    );
    assert!(Basis::create_tensor_H1_Lagrange(2, 1, 3, 1, QuadMode::Gauss).is_ok());
}

#[test]
fn explicit_tensor_tables() {
    let b = Basis::create_tensor_H1(3, 2, 2, 3, 6, 6, 3, 3).unwrap();
    assert_eq!(b.get_num_nodes(), 8);
    assert_eq!(b.get_num_quadrature_points(), 27);
    assert_eq!(b.get_num_components(), 2);
    assert_eq!(b.get_topology(), ElemTopology::Hex);
    assert_eq!(
        Basis::create_tensor_H1(3, 2, 2, 3, 5, 6, 3, 3).err(),
        Some(BasisError::InvalidArgument)
    );
    assert_eq!(
        Basis::create_tensor_H1(3, 2, 2, 3, 6, 6, 3, 2).err(),
        Some(BasisError::InvalidArgument)
    );
    assert_eq!(
        Basis::create_tensor_H1(0, 2, 2, 3, 5, 6, 3, 3).err(),
        Some(BasisError::InvalidArgument)
    );
}

#[test]
fn general_tables() {
    // Linear triangle, 3 nodes, 4 points.
    let b = Basis::create_H1(ElemTopology::Triangle, 1, 3, 4, 12, 24, 8, 4).unwrap();
    assert_eq!(b.get_dimension(), 2);
    assert_eq!(b.get_topology(), ElemTopology::Triangle);
    assert_eq!(b.get_num_nodes(), 3);
    assert_eq!(b.get_num_quadrature_points(), 4);
    assert!(!b.is_tensor());
    assert_eq!(
        Basis::create_H1(ElemTopology::Triangle, 1, 3, 4, 12, 12, 8, 4).err(),
        Some(BasisError::InvalidArgument)
    );
    assert_eq!(
        Basis::create_H1(ElemTopology::Tet, 1, 0, 4, 0, 0, 12, 4).err(),
        Some(BasisError::InvalidArgument)
    );
}

#[test]
fn empty_batch_is_a_no_op() {
    let b = lagrange(2, 1, 3, 4, QuadMode::Gauss);
    let plan = b
        .apply(0, TransposeMode::NoTranspose, EvalMode::Interp, 0, 0)
        .unwrap();
    assert_eq!(plan.num_elements, 0);
    let plan = b
        .apply(0, TransposeMode::Transpose, EvalMode::Grad, 0, 0)
        .unwrap();
    assert_eq!(plan.num_elements, 0);
    // Node and point counts differ, but an empty copy is still a no-op.
    let plan = b
        .apply(0, TransposeMode::NoTranspose, EvalMode::Identity, 0, 0)
        .unwrap();
    assert_eq!(plan.num_elements, 0);
    let plan = b
        .apply(0, TransposeMode::NoTranspose, EvalMode::Weight, 3, 0)
        .unwrap();
    assert_eq!(plan.num_elements, 0);
    assert_eq!(
        b.apply(0, TransposeMode::NoTranspose, EvalMode::Interp, 0, 7).err(),
        Some(BasisError::ShapeMismatch)
    );
    assert_eq!(
        b.apply(0, TransposeMode::Transpose, EvalMode::Weight, 0, 0).err(),
        Some(BasisError::UnsupportedCombination)
    );
}

#[test]
fn apply_errors() {
    let b = lagrange(2, 1, 3, 4, QuadMode::Gauss);
    assert_eq!(
        b.apply(-1, TransposeMode::NoTranspose, EvalMode::Interp, 9, 16).err(),
        Some(BasisError::InvalidArgument)
    );
    assert_eq!(
        b.apply(1, TransposeMode::Transpose, EvalMode::Weight, 16, 9).err(),
        Some(BasisError::UnsupportedCombination)
    );
    assert_eq!(
        b.apply(1, TransposeMode::NoTranspose, EvalMode::Identity, 9, 16).err(),
        Some(BasisError::UnsupportedCombination)
    );
    assert_eq!(
        b.apply(2, TransposeMode::NoTranspose, EvalMode::Interp, 17, 32).err(),
        Some(BasisError::ShapeMismatch)
    );
    assert_eq!(
        b.apply(2, TransposeMode::NoTranspose, EvalMode::Grad, 18, 63).err(),
        Some(BasisError::ShapeMismatch)
    );
    assert!(b.apply(2, TransposeMode::NoTranspose, EvalMode::Grad, 18, 64).is_ok());
    // Longer buffers are refused too: nothing is silently left unused.
    assert_eq!(
        b.apply(2, TransposeMode::NoTranspose, EvalMode::Grad, 19, 64).err(),
        Some(BasisError::ShapeMismatch)
    );
    assert_eq!(
        b.apply(2, TransposeMode::Transpose, EvalMode::Interp, 32, 19).err(),
        Some(BasisError::ShapeMismatch)
    );
}

#[test]
fn weight_and_copy_plans() {
    let b = lagrange(2, 3, 3, 4, QuadMode::Gauss);
    let plan = b.apply(5, TransposeMode::NoTranspose, EvalMode::Weight, 0, 240).unwrap();
    assert_eq!(plan.input_block, 0);
    assert_eq!(plan.output_block, 48);
    assert_eq!(
        b.apply(5, TransposeMode::NoTranspose, EvalMode::Weight, 0, 80).err(),
        Some(BasisError::ShapeMismatch)
    );
    let line = lagrange(1, 2, 3, 2, QuadMode::Gauss);
    assert!(line.apply(1, TransposeMode::NoTranspose, EvalMode::Weight, 0, 4).is_ok());
    assert_eq!(plan.scratch_len, 0);
    assert!(matches!(plan.action, Action::Weights));
    let c = lagrange(1, 2, 4, 4, QuadMode::Gauss);
    let plan = c.apply(3, TransposeMode::Transpose, EvalMode::Identity, 24, 24).unwrap();
    assert_eq!(plan.input_block, 8);
    assert_eq!(plan.output_block, 8);
    assert!(matches!(plan.action, Action::Copy));
}

#[test]
fn tensor_interp_schedule() {
    let b = lagrange(2, 2, 3, 4, QuadMode::Gauss);
    let plan = b.apply(1, TransposeMode::NoTranspose, EvalMode::Interp, 18, 32).unwrap();
    assert_eq!(plan.num_elements, 1);
    assert_eq!(plan.input_block, 18);
    assert_eq!(plan.output_block, 32);
    assert_eq!(plan.scratch_len, 32);
    let steps = steps_of(plan.action);
    assert_eq!(steps.len(), 2);
    assert_eq!(
        steps[0],
        Contraction {
            table: Table::Interp,
            table_offset: 0,
            transpose: false,
            pre: 6,
            from: 3,
            to: 4,
            post: 1,
            src: Buffer::Input,
            src_offset: 0,
            dst: Buffer::ScratchA,
            dst_offset: 0,
            accumulate: false,
        }
    );
    assert_eq!(
        steps[1],
        Contraction {
            table: Table::Interp,
            table_offset: 0,
            transpose: false,
            pre: 2,
            from: 3,
            to: 4,
            post: 4,
            src: Buffer::ScratchA,
            src_offset: 0,
            dst: Buffer::Output,
            dst_offset: 0,
            accumulate: false,
        }
    );
}

#[test]
fn tensor_grad_transpose_schedule() {
    let b = lagrange(3, 1, 2, 3, QuadMode::Gauss);
    let plan = b.apply(1, TransposeMode::Transpose, EvalMode::Grad, 81, 8).unwrap();
    assert_eq!(plan.input_block, 81);
    assert_eq!(plan.output_block, 8);
    let steps = steps_of(plan.action);
    assert_eq!(steps.len(), 9);
    let tables: Vec<Table> = steps.iter().map(|s| s.table).collect();
    assert_eq!(
        tables,
        vec![
            Table::Grad, Table::Interp, Table::Interp,
            Table::Interp, Table::Grad, Table::Interp,
            Table::Interp, Table::Interp, Table::Grad,
        ]
    );
    let pres: Vec<u64> = steps.iter().map(|s| s.pre).collect();
    assert_eq!(pres, vec![9, 3, 1, 9, 3, 1, 9, 3, 1]);
    let posts: Vec<u64> = steps.iter().map(|s| s.post).collect();
    assert_eq!(posts, vec![1, 2, 4, 1, 2, 4, 1, 2, 4]);
    assert!(steps.iter().all(|s| s.transpose && s.from == 3 && s.to == 2));
    assert_eq!(steps[3].src, Buffer::Input);
    assert_eq!(steps[3].src_offset, 27);
    assert_eq!(steps[6].src_offset, 54);
    assert_eq!(steps[4].src, Buffer::ScratchA);
    assert_eq!(steps[4].dst, Buffer::ScratchB);
    assert_eq!(steps[5].src, Buffer::ScratchB);
    let acc: Vec<bool> = steps.iter().map(|s| s.accumulate).collect();
    assert_eq!(acc, vec![false, false, false, false, false, true, false, false, true]);
}

#[test]
fn general_grad_schedule() {
    let b = Basis::create_H1(ElemTopology::Quad, 2, 4, 5, 20, 40, 10, 5).unwrap();
    let plan = b.apply(2, TransposeMode::NoTranspose, EvalMode::Grad, 16, 40).unwrap();
    assert_eq!(plan.input_block, 8);
    assert_eq!(plan.output_block, 20);
    let steps = steps_of(plan.action);
    assert_eq!(steps.len(), 2);
    assert_eq!(
        steps[1],
        Contraction {
            table: Table::Grad,
            table_offset: 20,
            transpose: false,
            pre: 2,
            from: 4,
            to: 5,
            post: 1,
            src: Buffer::Input,
            src_offset: 0,
            dst: Buffer::Output,
            dst_offset: 10,
            accumulate: false,
        }
    );
    assert_eq!(steps[0].dst_offset, 0);
    assert_eq!(steps[0].table_offset, 0);
}

#[test]
fn tensor_axis_index() {
    let b = lagrange(3, 1, 2, 3, QuadMode::Gauss);
    // point 23 = 2 + 3 * (1 + 3 * 2)
    assert_eq!(b.axis_index(23, 0), 2);
    assert_eq!(b.axis_index(23, 1), 1);
    assert_eq!(b.axis_index(23, 2), 2);
}

#[test]
fn checked_powers() {
    assert_eq!(checked_pow(3, 0), Some(1));
    assert_eq!(checked_pow(7, 3), Some(343));
    assert_eq!(checked_pow(46341, 2), None);
    assert_eq!(checked_pow(46340, 2), Some(2147395600));
}

#[test]
fn step_positions() {
    let b = lagrange(2, 2, 3, 4, QuadMode::Gauss);
    let plan = b.apply(1, TransposeMode::NoTranspose, EvalMode::Interp, 18, 32).unwrap();
    let steps = steps_of(plan.action);
    let s = steps[1];
    assert!(s.is_addressable());
    // [pre=2][from=3][post=4] -> [2][4][4]
    assert_eq!(s.src_index(1, 2, 3), (1 * 3 + 2) * 4 + 3);
    assert_eq!(s.dst_index(1, 3, 3), 31);
    assert_eq!(s.table_index(3, 2), 3 * 3 + 2);
    let t = Contraction { transpose: true, table_offset: 5, ..s };
    assert_eq!(t.table_index(3, 2), 5 + 2 * 4 + 3);
    let g = lagrange(2, 1, 3, 4, QuadMode::Gauss);
    let plan = g.apply(1, TransposeMode::NoTranspose, EvalMode::Grad, 9, 32).unwrap();
    let steps = steps_of(plan.action);
    assert_eq!(steps[3].dst_offset, 16);
    assert_eq!(steps[3].dst_index(0, 0, 0), 16);
    let huge = Contraction { pre: u64::MAX, post: 2, ..s };
    assert!(!huge.is_addressable());
}

#[test]
fn single_node_lagrange_matches_explicit_tables() {
    let a = Basis::create_tensor_H1_Lagrange(3, 2, 1, 3, QuadMode::GaussLobatto).unwrap();
    let b = Basis::create_tensor_H1(3, 2, 1, 3, 3, 3, 3, 3).unwrap();
    assert_eq!(a.get_num_nodes(), 1);
    assert_eq!(a.get_num_quadrature_points(), 27);
    assert_eq!(a.get_num_nodes(), b.get_num_nodes());
    assert_eq!(a.get_num_quadrature_points(), b.get_num_quadrature_points());
    assert_eq!(a.get_topology(), b.get_topology());
    let pa = a.apply(2, TransposeMode::NoTranspose, EvalMode::Grad, 4, 324).unwrap();
    let pb = b.apply(2, TransposeMode::NoTranspose, EvalMode::Grad, 4, 324).unwrap();
    assert_eq!(steps_of(pa.action), steps_of(pb.action));
}
