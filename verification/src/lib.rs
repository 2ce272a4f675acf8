//! Fuzzy c-means clustering: the exact side of the algorithm.
//!
//! A clustering run alternates two real-valued computations, memberships
//! from centres and centres from memberships, and ends with a hard label
//! for every point. This library holds what such a run decides rather than
//! what it calculates: which centre is nearest, when a point sits on a
//! centre and so has no finite weight, which centres can move, which step
//! comes next, and whether a configuration, a data table or a command line
//! is admissible. Every decision is a function of plain values with a
//! contract.
//!
//! Numbers come in two forms. Points on the lattice of `i32` coordinates are
//! handled exactly: `distance` computes their squared distances without
//! rounding or overflow, and `nearest` and `membership` decide over the
//! points themselves. Real numbers never enter as such. Where their order is
//! all that matters they are handed over as ranks (`ieee`), integers ordered
//! like the reals they stand for, in tables with one row per point and one
//! entry per centre.
//!
//! - `ieee`: bit patterns of doubles, and the rank of a distance.
//! - `text`: strings as sequences of characters.
//! - `distance`: squared Euclidean distance on the lattice.
//! - `grid`: lattice matrices, stored in `ndarray` arrays.
//! - `nearest`: hard assignment, ties to the lowest index.
//! - `membership`: the plan of each membership row, and the centres that
//!   can move.
//! - `driver`: admissible configurations and the order of the steps.
//! - `table`: delimited text in and out, framed by `csv`.
//! - `config`: the parameters of the command line.
//! - `help`: the help text.

pub mod ieee;
pub mod text;
pub mod distance;
pub mod grid;
pub mod nearest;
pub mod membership;
pub mod driver;
pub mod table;
pub mod config;
pub mod help;
