//! The basis record: sizes and shape of one reference element's node and
//! quadrature spaces, fixed at construction.
use vstd::prelude::*;
use crate::arith::{checked_pow, ipow, wide_mul, lemma_ipow_monotone, lemma_ipow_positive};
use crate::modes::{
    BasisError, ElemTopology, QuadMode, dimension_of, tensor_topology, tensor_topology_of,
    topology_dim,
};
use crate::quadrature::min_points;

verus! {

/// Mathematical content of a [`Basis`].
pub struct BasisView {
    pub dim: int,
    pub topology: ElemTopology,
    pub num_components: int,
    pub num_nodes: int,
    pub num_quad_points: int,
    /// Built as a tensor product of one-dimensional factors.
    pub tensor: bool,
    /// Nodes along one axis (tensor), or all nodes (general).
    pub p1d: int,
    /// Quadrature points along one axis (tensor), or all of them (general).
    pub q1d: int,
}

impl BasisView {
    /// What every basis satisfies.
    pub open spec fn wf(self) -> bool {
        &&& 1 <= self.dim <= 3
        &&& topology_dim(self.topology) == self.dim
        &&& 1 <= self.num_components <= i32::MAX
        &&& 1 <= self.num_nodes <= i32::MAX
        &&& 1 <= self.num_quad_points <= i32::MAX
        &&& 1 <= self.p1d <= i32::MAX
        &&& 1 <= self.q1d <= i32::MAX
        &&& self.tensor ==> {
            &&& self.topology == tensor_topology(self.dim)
            &&& self.num_nodes == ipow(self.p1d, self.dim as nat)
            &&& self.num_quad_points == ipow(self.q1d, self.dim as nat)
        }
        &&& !self.tensor ==> self.p1d == self.num_nodes && self.q1d == self.num_quad_points
    }
}

/// Size parameters a tensor-product basis accepts: dimension 1 to 3, positive
/// counts, and `p^dim`, `q^dim` that fit in an `i32`.
pub open spec fn tensor_sizes_ok(dim: int, ncomp: int, p: int, q: int) -> bool {
    &&& 1 <= dim <= 3
    &&& ncomp >= 1
    &&& p >= 1
    &&& q >= 1
    &&& ipow(p, dim as nat) <= i32::MAX
    &&& ipow(q, dim as nat) <= i32::MAX
}

/// The tensor-product basis with `p` nodes and `q` points per axis.
pub open spec fn tensor_view(dim: int, ncomp: int, p: int, q: int) -> BasisView {
    BasisView {
        dim,
        topology: tensor_topology(dim),
        num_components: ncomp,
        num_nodes: ipow(p, dim as nat),
        num_quad_points: ipow(q, dim as nat),
        tensor: true,
        p1d: p,
        q1d: q,
    }
}

/// Table lengths of an explicit tensor-product basis: `q x p` interpolation
/// and gradient factors, `q` reference points and `q` weights.
pub open spec fn tensor_tables_ok(
    p: int,
    q: int,
    interp_len: int,
    grad_len: int,
    qref_len: int,
    qweight_len: int,
) -> bool {
    &&& interp_len == q * p
    &&& grad_len == q * p
    &&& qref_len == q
    &&& qweight_len == q
}

/// The general basis on `topo` with explicit node and point counts.
pub open spec fn general_view(topo: ElemTopology, ncomp: int, nnodes: int, nqpts: int) -> BasisView {
    BasisView {
        dim: topology_dim(topo),
        topology: topo,
        num_components: ncomp,
        num_nodes: nnodes,
        num_quad_points: nqpts,
        tensor: false,
        p1d: nnodes,
        q1d: nqpts,
    }
}

/// Table lengths of a general basis: `nqpts x nnodes` interpolation,
/// `dim * nqpts x nnodes` gradient, `nqpts` points of `dim` coordinates and
/// `nqpts` weights.
pub open spec fn general_tables_ok(
    dim: int,
    nnodes: int,
    nqpts: int,
    interp_len: int,
    grad_len: int,
    qref_len: int,
    qweight_len: int,
) -> bool {
    &&& interp_len == nqpts * nnodes
    &&& grad_len == dim * nqpts * nnodes
    &&& qref_len == dim * nqpts
    &&& qweight_len == nqpts
}

/// Shape of the map between one reference element's nodes and its quadrature
/// points. Immutable once built; the numeric tables travel beside it.
#[derive(Clone, Copy, Debug)]
pub struct Basis {
    dim: i32,
    topology: ElemTopology,
    num_components: i32,
    num_nodes: i32,
    num_quad_points: i32,
    tensor: bool,
    p1d: i32,
    q1d: i32,
}

impl View for Basis {
    type V = BasisView;

    closed spec fn view(&self) -> BasisView {
        BasisView {
            dim: self.dim as int,
            topology: self.topology,
            num_components: self.num_components as int,
            num_nodes: self.num_nodes as int,
            num_quad_points: self.num_quad_points as int,
            tensor: self.tensor,
            p1d: self.p1d as int,
            q1d: self.q1d as int,
        }
    }
}

/// Checks the tensor size parameters and returns `(p^dim, q^dim)`.
fn tensor_sizes(dim: i32, ncomp: i32, p: i32, q: i32) -> (r: Option<(i32, i32)>)
    ensures
        r is Some <==> tensor_sizes_ok(dim as int, ncomp as int, p as int, q as int),
        r matches Some((n, m)) ==> n == ipow(p as int, dim as nat) && m == ipow(
            q as int,
            dim as nat,
        ),
{
    if dim < 1 || dim > 3 || ncomp < 1 || p < 1 || q < 1 {
        return None;
    }
    let nodes = checked_pow(p, dim);
    let points = checked_pow(q, dim);
    match (nodes, points) {
        (Some(n), Some(m)) => Some((n, m)),
        _ => None,
    }
}

impl Basis {
    #[verifier::type_invariant]
    spec fn inv(&self) -> bool {
        self@.wf()
    }

    proof fn lemma_tensor_wf(dim: int, ncomp: int, p: int, q: int)
        requires
            tensor_sizes_ok(dim, ncomp, p, q),
            ncomp <= i32::MAX,
            p <= i32::MAX,
            q <= i32::MAX,
        ensures
            tensor_view(dim, ncomp, p, q).wf(),
    {
        lemma_ipow_positive(p, dim as nat);
        lemma_ipow_positive(q, dim as nat);
        assert(topology_dim(tensor_topology(dim)) == dim);
    }

    /// A tensor-product basis from explicit one-dimensional tables of the given
    /// lengths. Fails with `InvalidArgument` on bad size parameters or when a
    /// table length disagrees with them.
    #[allow(non_snake_case)]
    pub fn create_tensor_H1(
        dim: i32,
        ncomp: i32,
        p1d: i32,
        q1d: i32,
        interp1d_len: usize,
        grad1d_len: usize,
        qref1d_len: usize,
        qweight1d_len: usize,
    ) -> (r: Result<Basis, BasisError>)
        ensures
            r is Ok <==> tensor_sizes_ok(dim as int, ncomp as int, p1d as int, q1d as int)
                && tensor_tables_ok(
                p1d as int,
                q1d as int,
                interp1d_len as int,
                grad1d_len as int,
                qref1d_len as int,
                qweight1d_len as int,
            ),
            r is Err ==> r == Err::<Basis, BasisError>(BasisError::InvalidArgument),
            r matches Ok(b) ==> b@ == tensor_view(dim as int, ncomp as int, p1d as int, q1d as int),
    {
        let (n, m) = match tensor_sizes(dim, ncomp, p1d, q1d) {
            Some(s) => s,
            None => return Err(BasisError::InvalidArgument),
        };
        let table: u64 = wide_mul(q1d, p1d);
        if interp1d_len as u64 != table || grad1d_len as u64 != table || qref1d_len as u64
            != q1d as u64 || qweight1d_len as u64 != q1d as u64 {
            return Err(BasisError::InvalidArgument);
        }
        proof {
            Self::lemma_tensor_wf(dim as int, ncomp as int, p1d as int, q1d as int);
        }
        Ok(
            Basis {
                dim,
                topology: tensor_topology_of(dim),
                num_components: ncomp,
                num_nodes: n,
                num_quad_points: m,
                tensor: true,
                p1d,
                q1d,
            },
        )
    }

    /// A tensor-product Lagrange basis of `p` nodes per axis, placed at the
    /// Gauss-Lobatto points (a single node sits at the centre), evaluated on a
    /// `q`-point rule of family `qmode`.
    /// Fails with `InvalidArgument` on bad size parameters, then with
    /// `QuadratureRuleError` when `q` is too small for `qmode`.
    #[allow(non_snake_case)]
    pub fn create_tensor_H1_Lagrange(dim: i32, ncomp: i32, p: i32, q: i32, qmode: QuadMode) -> (r:
        Result<Basis, BasisError>)
        ensures
            r is Ok <==> tensor_sizes_ok(dim as int, ncomp as int, p as int, q as int)
                && q >= min_points(qmode),
            r == Err::<Basis, BasisError>(BasisError::InvalidArgument) <==> !tensor_sizes_ok(
                dim as int,
                ncomp as int,
                p as int,
                q as int,
            ),
            r == Err::<Basis, BasisError>(BasisError::QuadratureRuleError) <==> tensor_sizes_ok(
                dim as int,
                ncomp as int,
                p as int,
                q as int,
            ) && q < min_points(qmode),
            r matches Ok(b) ==> b@ == tensor_view(dim as int, ncomp as int, p as int, q as int),
            r matches Ok(b) ==> b@.num_nodes == ipow(p as int, dim as nat) && b@.num_quad_points
                == ipow(q as int, dim as nat),
    {
        let (n, m) = match tensor_sizes(dim, ncomp, p, q) {
            Some(s) => s,
            None => return Err(BasisError::InvalidArgument),
        };
        let least: i32 = match qmode {
            QuadMode::Gauss => 1,
            QuadMode::GaussLobatto => 2,
        };
        if q < least {
            return Err(BasisError::QuadratureRuleError);
        }
        proof {
            Self::lemma_tensor_wf(dim as int, ncomp as int, p as int, q as int);
        }
        Ok(
            Basis {
                dim,
                topology: tensor_topology_of(dim),
                num_components: ncomp,
                num_nodes: n,
                num_quad_points: m,
                tensor: true,
                p1d: p,
                q1d: q,
            },
        )
    }

    /// A general (non-tensor) basis on `topo` from full tables of the given
    /// lengths. Fails with `InvalidArgument` on a non-positive count or when a
    /// table length disagrees with the counts.
    #[allow(non_snake_case)]
    pub fn create_H1(
        topo: ElemTopology,
        ncomp: i32,
        nnodes: i32,
        nqpts: i32,
        interp_len: usize,
        grad_len: usize,
        qref_len: usize,
        qweight_len: usize,
    ) -> (r: Result<Basis, BasisError>)
        ensures
            r is Ok <==> ncomp >= 1 && nnodes >= 1 && nqpts >= 1 && general_tables_ok(
                topology_dim(topo),
                nnodes as int,
                nqpts as int,
                interp_len as int,
                grad_len as int,
                qref_len as int,
                qweight_len as int,
            ),
            r is Err ==> r == Err::<Basis, BasisError>(BasisError::InvalidArgument),
            r matches Ok(b) ==> b@ == general_view(topo, ncomp as int, nnodes as int, nqpts as int),
    {
        if ncomp < 1 || nnodes < 1 || nqpts < 1 {
            return Err(BasisError::InvalidArgument);
        }
        let dim = dimension_of(topo);
        let table: u64 = wide_mul(nqpts, nnodes);
        let grad_table: u64 = (dim as u64) * table;
        let points: u64 = wide_mul(dim, nqpts);
        assert(grad_table == topology_dim(topo) * nqpts * nnodes) by (nonlinear_arith)
            requires
                grad_table == dim * table,
                table == nqpts * nnodes,
                dim == topology_dim(topo),
        ;
        if interp_len as u64 != table || grad_len as u64 != grad_table || qref_len as u64 != points
            || qweight_len as u64 != nqpts as u64 {
            return Err(BasisError::InvalidArgument);
        }
        Ok(
            Basis {
                dim,
                topology: topo,
                num_components: ncomp,
                num_nodes: nnodes,
                num_quad_points: nqpts,
                tensor: false,
                p1d: nnodes,
                q1d: nqpts,
            },
        )
    }

    /// Spatial dimension of the reference element.
    pub fn get_dimension(&self) -> (r: i32)
        ensures
            r == self@.dim,
            1 <= r <= 3,
            self@.wf(),
    {
        proof {
            use_type_invariant(self);
        }
        self.dim
    }

    /// Reference element shape, as set at construction.
    pub fn get_topology(&self) -> (r: ElemTopology)
        ensures
            r == self@.topology,
            topology_dim(r) == self@.dim,
    {
        proof {
            use_type_invariant(self);
        }
        self.topology
    }

    /// Number of field components evaluated together.
    pub fn get_num_components(&self) -> (r: i32)
        ensures
            r == self@.num_components,
            r >= 1,
    {
        proof {
            use_type_invariant(self);
        }
        self.num_components
    }

    /// Nodes per element and component (`p1d^dim` for a tensor basis).
    pub fn get_num_nodes(&self) -> (r: i32)
        ensures
            r == self@.num_nodes,
            r >= 1,
            self@.tensor ==> r == ipow(self@.p1d, self@.dim as nat),
    {
        proof {
            use_type_invariant(self);
        }
        self.num_nodes
    }

    /// Quadrature points per element (`q1d^dim` for a tensor basis).
    pub fn get_num_quadrature_points(&self) -> (r: i32)
        ensures
            r == self@.num_quad_points,
            r >= 1,
            self@.tensor ==> r == ipow(self@.q1d, self@.dim as nat),
    {
        proof {
            use_type_invariant(self);
        }
        self.num_quad_points
    }

    /// Whether the basis is a tensor product of one-dimensional factors.
    pub fn is_tensor(&self) -> (r: bool)
        ensures
            r == self@.tensor,
    {
        self.tensor
    }

    /// Nodes along one axis of a tensor basis; all nodes of a general one.
    pub fn get_num_nodes_1d(&self) -> (r: i32)
        ensures
            r == self@.p1d,
            r >= 1,
    {
        proof {
            use_type_invariant(self);
        }
        self.p1d
    }

    /// Quadrature points along one axis of a tensor basis; all points of a
    /// general one.
    pub fn get_num_quadrature_points_1d(&self) -> (r: i32)
        ensures
            r == self@.q1d,
            r >= 1,
    {
        proof {
            use_type_invariant(self);
        }
        self.q1d
    }

    /// Position along `axis` of tensor quadrature point `point`, whose index
    /// runs fastest along axis 0: `(point / q1d^axis) % q1d`.
    pub fn axis_index(&self, point: i32, axis: i32) -> (r: i32)
        requires
            self@.tensor,
            0 <= point < self@.num_quad_points,
            0 <= axis < self@.dim,
        ensures
            r as int == (point as int / ipow(self@.q1d, axis as nat)) % self@.q1d,
            0 <= r < self@.q1d,
    {
        proof {
            use_type_invariant(self);
            lemma_ipow_monotone(self.q1d as int, axis as nat, self.dim as nat);
            lemma_ipow_positive(self.q1d as int, axis as nat);
        }
        let stride = match checked_pow(self.q1d, axis) {
            Some(s) => s,
            None => {
                return 0;
            },
        };
        (point / stride) % self.q1d
    }
}

} // verus!
