//! Template support: LaTeX escaping and the choice of template files.

pub mod engine;
