//! Core logic of a JSON Resume builder: the resume data model, the
//! validation rules, keyword extraction, LaTeX escaping and the decisions
//! around LaTeX compilation, each with its contract.

pub mod keywords;
pub mod models;
pub mod output;
pub mod templates;
pub mod text;
pub mod utils;
pub mod validation;
