//! Topology and structural layer of a bi-level Stackelberg supply-chain
//! equilibrium solver: relational sets over suppliers, materials, modules,
//! alternatives, products and retailers, dense index maps keyed by entity id,
//! and the combinatorial decision rules of the follower and leader solvers.
#![allow(non_snake_case)]

pub mod mrgame;
pub mod relation;
pub mod solver;
pub mod solver_mrgame;
