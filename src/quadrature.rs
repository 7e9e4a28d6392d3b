//! One-dimensional quadrature rules: which point counts each family admits and
//! the polynomial degree it integrates exactly.
use vstd::prelude::*;
use crate::modes::{BasisError, QuadMode};

verus! {

/// Fewest points a rule family can have: Gauss needs one, Gauss-Lobatto needs
/// both endpoints.
pub open spec fn min_points(kind: QuadMode) -> int {
    match kind {
        QuadMode::Gauss => 1,
        QuadMode::GaussLobatto => 2,
    }
}

/// Highest polynomial degree integrated exactly on `[-1, 1]` by `n` points.
pub open spec fn exactness_degree(n: int, kind: QuadMode) -> int {
    match kind {
        QuadMode::Gauss => 2 * n - 1,
        QuadMode::GaussLobatto => 2 * n - 3,
    }
}

/// A validated request for an `n`-point rule of one family. The abscissae and
/// weights themselves are produced by the numeric kernel from this request.
#[derive(Clone, Copy, Debug, PartialEq, Eq, Structural)]
pub struct QuadratureRule {
    num_points: i32,
    kind: QuadMode,
}

impl QuadratureRule {
    pub closed spec fn spec_num_points(&self) -> int {
        self.num_points as int
    }

    pub closed spec fn spec_kind(&self) -> QuadMode {
        self.kind
    }

    #[verifier::type_invariant]
    spec fn valid(&self) -> bool {
        self.num_points >= min_points(self.kind)
    }

    /// Accepts `n` points of family `kind`, or fails with
    /// `QuadratureRuleError` when `n` is below what the family needs.
    pub fn new(n: i32, kind: QuadMode) -> (r: Result<QuadratureRule, BasisError>)
        ensures
            r is Ok <==> n >= min_points(kind),
            r matches Ok(rule) ==> rule.spec_num_points() == n && rule.spec_kind() == kind,
            r is Err ==> r == Err::<QuadratureRule, BasisError>(BasisError::QuadratureRuleError),
    {
        let least: i32 = match kind {
            QuadMode::Gauss => 1,
            QuadMode::GaussLobatto => 2,
        };
        if n < least {
            Err(BasisError::QuadratureRuleError)
        } else {
            Ok(QuadratureRule { num_points: n, kind })
        }
    }

    pub fn num_points(&self) -> (r: i32)
        ensures
            r == self.spec_num_points(),
            r >= min_points(self.spec_kind()),
    {
        proof {
            use_type_invariant(self);
        }
        self.num_points
    }

    pub fn kind(&self) -> (r: QuadMode)
        ensures
            r == self.spec_kind(),
    {
        self.kind
    }

    /// Highest polynomial degree the rule integrates exactly: `2n - 1` for
    /// Gauss, `2n - 3` for Gauss-Lobatto.
    pub fn exact_degree(&self) -> (r: i64)
        ensures
            r == exactness_degree(self.spec_num_points(), self.spec_kind()),
            r >= 1,
    {
        proof {
            use_type_invariant(self);
        }
        let n = self.num_points as i64;
        match self.kind {
            QuadMode::Gauss => 2 * n - 1,
            QuadMode::GaussLobatto => 2 * n - 3,
        }
    }
}

} // verus!
