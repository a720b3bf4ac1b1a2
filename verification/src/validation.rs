//! Validation of resumes: schema rules, content quality and ATS checks.

pub mod dates;
pub mod patterns;
pub mod resume_validator;
pub mod rules;
