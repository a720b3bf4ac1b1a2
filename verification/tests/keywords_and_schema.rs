use jsonresume_builder::keywords::rank_keywords;
use jsonresume_builder::models::resume::{
    extract_keywords_from_text, Basics, Resume, SchemaError, Skill, Work,
};

fn resume_named(name: &str) -> Resume {
    Resume {
        schema: String::new(),
        basics: Basics {
            name: name.to_string(),
            label: None,
            image: None,
            email: None,
            phone: None,
            url: None,
            summary: None,
            location: None,
            profiles: vec![],
        },
        work: vec![],
        volunteer: vec![],
        education: vec![],
        awards: vec![],
        certificates: vec![],
        publications: vec![],
        skills: vec![],
        languages: vec![],
        interests: vec![],
        references: vec![],
        projects: vec![],
        meta: None,
    }
}

fn job(name: &str, position: &str, highlights: &[&str]) -> Work {
    Work {
        name: name.to_string(),
        position: position.to_string(),
        url: None,
        start_date: None,
        end_date: None,
        summary: None,
        highlights: highlights.iter().map(|h| h.to_string()).collect(),
        location: None,
    }
}

#[test]
fn schema_check_accepts_complete_resume() {
    let mut r = resume_named("Ada");
    r.work = vec![job("Acme", "Engineer", &[])];
    assert_eq!(r.validate(), Ok(()));
}

#[test]
fn schema_check_reports_missing_name_first() {
    let mut r = resume_named("");
    r.work = vec![job("", "", &[])];
    let e = r.validate().unwrap_err();
    assert_eq!(e, SchemaError::MissingName);
    assert_eq!(e.message(), "Resume basics.name is required");
}

#[test]
fn schema_check_reports_first_work_entry_problem() {
    let mut r = resume_named("Ada");
    r.work = vec![job("Acme", "Engineer", &[]), job("", "Engineer", &[]), job("X", "", &[])];
    let e = r.validate().unwrap_err();
    assert_eq!(e, SchemaError::MissingWorkName(1));
    assert_eq!(e.message(), "Work[1].name is required");
}

#[test]
fn schema_check_reports_missing_position() {
    let mut r = resume_named("Ada");
    r.work = vec![job("Acme", "", &[])];
    let e = r.validate().unwrap_err();
    assert_eq!(e, SchemaError::MissingWorkPosition(0));
    assert_eq!(e.message(), "Work[0].position is required");
}

#[test]
fn keywords_are_trimmed_filtered_and_lowercased() {
    let ks = extract_keywords_from_text("Led a team of 5 engineers, improving C++ builds!");
    assert_eq!(ks, vec!["led", "team", "engineers", "improving", "builds"]);
}

#[test]
fn keywords_handle_unicode_case_and_punctuation() {
    let ks = extract_keywords_from_text("«Zürich» ÉCOLE\u{00A0}über");
    assert_eq!(ks, vec!["zürich", "école", "über"]);
}

#[test]
fn keywords_of_blank_text_are_empty() {
    assert!(extract_keywords_from_text("  \t\n ").is_empty());
    assert!(extract_keywords_from_text("").is_empty());
}

#[test]
fn all_keywords_are_sorted_and_distinct() {
    let mut r = resume_named("Ada");
    r.skills = vec![Skill {
        name: "Languages".to_string(),
        level: None,
        keywords: vec!["Rust".to_string(), "Go".to_string()],
    }];
    let mut j = job("Acme", "Engineer", &["Rust rust RUST systems"]);
    j.summary = Some("Systems work".to_string());
    r.work = vec![j];
    assert_eq!(
        r.get_all_keywords(),
        vec!["Go", "Languages", "Rust", "rust", "systems", "work"]
    );
}

#[test]
fn ranking_orders_by_count_then_first_occurrence() {
    let ks: Vec<String> = ["b", "a", "b", "c", "a", "b"].iter().map(|s| s.to_string()).collect();
    let r = rank_keywords(&ks);
    assert_eq!(
        r,
        vec![("b".to_string(), 3), ("a".to_string(), 2), ("c".to_string(), 1)]
    );
}

#[test]
fn ranking_keeps_first_occurrence_order_on_ties() {
    let ks: Vec<String> = ["zeta", "alpha", "mid"].iter().map(|s| s.to_string()).collect();
    let r = rank_keywords(&ks);
    assert_eq!(
        r,
        vec![("zeta".to_string(), 1), ("alpha".to_string(), 1), ("mid".to_string(), 1)]
    );
    assert!(rank_keywords(&Vec::new()).is_empty());
}
