//! The JSON Resume data model.

pub mod resume;
