//! Element shapes, evaluation selectors and the error kinds of basis operations.
use vstd::prelude::*;

verus! {

/// Reference element shape.
#[derive(Clone, Copy, Debug, PartialEq, Eq, Structural)]
pub enum ElemTopology {
    Line,
    Triangle,
    Quad,
    Tet,
    Prism,
    Hex,
}

/// One-dimensional quadrature rule family.
#[derive(Clone, Copy, Debug, PartialEq, Eq, Structural)]
pub enum QuadMode {
    Gauss,
    GaussLobatto,
}

/// Direction of a basis application.
#[derive(Clone, Copy, Debug, PartialEq, Eq, Structural)]
pub enum TransposeMode {
    /// Node space to quadrature space.
    NoTranspose,
    /// Quadrature space back to node space (the adjoint).
    Transpose,
}

/// What a basis application evaluates.
#[derive(Clone, Copy, Debug, PartialEq, Eq, Structural)]
pub enum EvalMode {
    /// Identity copy between two spaces of equal size.
    Identity,
    /// Values at quadrature points.
    Interp,
    /// Reference derivatives at quadrature points, one block per direction.
    Grad,
    /// Quadrature weights.
    Weight,
}

/// Why a construction or an application was refused.
#[derive(Clone, Copy, Debug, PartialEq, Eq, Structural)]
pub enum BasisError {
    /// A non-positive, out-of-range or too large size parameter, or a table
    /// length at construction that disagrees with the sizes.
    InvalidArgument,
    /// An input or output buffer whose length is not the one a batch needs.
    ShapeMismatch,
    /// An evaluation/transpose pairing with no defined meaning.
    UnsupportedCombination,
    /// Too few points for the requested quadrature rule family.
    QuadratureRuleError,
}

/// Spatial dimension of a reference element.
pub open spec fn topology_dim(t: ElemTopology) -> int {
    match t {
        ElemTopology::Line => 1,
        ElemTopology::Triangle | ElemTopology::Quad => 2,
        ElemTopology::Tet | ElemTopology::Prism | ElemTopology::Hex => 3,
    }
}

/// The tensor-product element of a given dimension.
pub open spec fn tensor_topology(dim: int) -> ElemTopology {
    if dim == 1 {
        ElemTopology::Line
    } else if dim == 2 {
        ElemTopology::Quad
    } else {
        ElemTopology::Hex
    }
}

/// Spatial dimension of a reference element.
pub fn dimension_of(t: ElemTopology) -> (r: i32)
    ensures
        r as int == topology_dim(t),
{
    match t {
        ElemTopology::Line => 1,
        ElemTopology::Triangle | ElemTopology::Quad => 2,
        ElemTopology::Tet | ElemTopology::Prism | ElemTopology::Hex => 3,
    }
}

/// The tensor-product element (line, quadrilateral, hexahedron) of dimension `dim`.
pub fn tensor_topology_of(dim: i32) -> (r: ElemTopology)
    requires
        1 <= dim <= 3,
    ensures
        r == tensor_topology(dim as int),
        topology_dim(r) == dim,
{
    if dim == 1 {
        ElemTopology::Line
    } else if dim == 2 {
        ElemTopology::Quad
    } else {
        ElemTopology::Hex
    }
}

} // verus!
