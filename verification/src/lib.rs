//! A self-sustaining cellular-automaton engine: a rectangular grid of
//! binary-state cells advanced through discrete generations under
//! Conway-style adjacency rules, with an autonomous reseed policy that
//! re-randomises the grid when the population collapses, the state
//! stagnates, or a generation ceiling is reached.

pub mod game;
