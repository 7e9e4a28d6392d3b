//! Nodal/quadrature basis shapes for high-order finite elements: construction
//! checks, introspection, and the batched apply schedule (sum-factorized
//! tensor contractions) that a numeric kernel carries out.
pub mod arith;
pub mod basis;
pub mod kernel;
pub mod modes;
pub mod plan;
pub mod quadrature;
