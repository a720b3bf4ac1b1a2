//! Utilities around the LaTeX toolchain.

pub mod latex;
