use jsonresume_builder::models::resume::{Basics, Education, Project, Resume, Skill, Work};
use jsonresume_builder::validation::dates::{
    compare_date_values, date_value_from_captures, parse_u32_text,
};
use jsonresume_builder::validation::resume_validator::ResumeValidator;

fn base(name: &str) -> Resume {
    Resume {
        schema: String::new(),
        basics: Basics {
            name: name.to_string(),
            label: None,
            image: None,
            email: Some("test@example.com".to_string()),
            phone: None,
            url: None,
            summary: None,
            location: None,
            profiles: vec![],
        },
        work: vec![],
        volunteer: vec![],
        education: vec![],
        awards: vec![],
        certificates: vec![],
        publications: vec![],
        skills: vec![],
        languages: vec![],
        interests: vec![],
        references: vec![],
        projects: vec![],
        meta: None,
    }
}

fn work(name: &str, position: &str) -> Work {
    Work {
        name: name.to_string(),
        position: position.to_string(),
        url: None,
        start_date: None,
        end_date: None,
        summary: None,
        highlights: vec![],
        location: None,
    }
}

fn skill(name: &str, keywords: &[&str]) -> Skill {
    Skill {
        name: name.to_string(),
        level: None,
        keywords: keywords.iter().map(|k| k.to_string()).collect(),
    }
}

#[test]
fn minimal_resume_report_in_full() {
    let r = base("Test User");
    let rep = ResumeValidator::new().validate(&r).unwrap();
    assert!(rep.is_valid);
    assert!(rep.errors.is_empty());
    assert_eq!(
        rep.warnings,
        vec![
            "Phone number is recommended for ATS optimization",
            "Summary is highly recommended for professional resumes",
            "Skills section is recommended for ATS optimization",
            "Consider adding more keywords for better ATS optimization",
            "Consider adding quantified achievements with metrics and numbers",
            "Resume is 2 words \u{2014} content appears very thin. Consider expanding.",
        ]
    );
}

#[test]
fn errors_come_in_order_and_decide_validity() {
    let mut r = base("");
    r.basics.email = Some("notanemail".to_string());
    let mut w = work("", "");
    w.start_date = Some("2021-05".to_string());
    w.end_date = Some("2020-01".to_string());
    r.work = vec![work("Acme", "Engineer"), w];
    let mut e = Education {
        institution: String::new(),
        url: None,
        area: None,
        study_type: None,
        start_date: Some("2019".to_string()),
        end_date: Some("2018-12".to_string()),
        score: None,
        courses: vec![],
    };
    r.education = vec![e.clone()];
    let rep = ResumeValidator::new().validate(&r).unwrap();
    assert!(!rep.is_valid);
    assert_eq!(
        rep.errors,
        vec![
            "Name is required in basics",
            "Invalid email format: notanemail",
            "Work[1]: company name is required",
            "Work[1]: position is required",
            "Work[1]: end date cannot be before start date",
            "Education[0]: institution is required",
            "Education[0]: end date cannot be before start date",
        ]
    );
    e.institution = "MIT".to_string();
    e.end_date = Some("Present".to_string());
    r.education = vec![e];
    r.basics.name = "Ada".to_string();
    r.basics.email = None;
    r.work = vec![work("Acme", "Engineer")];
    let rep = ResumeValidator::new().validate(&r).unwrap();
    assert!(rep.is_valid);
    assert!(rep.errors.is_empty());
    assert!(rep.warnings.iter().any(|w| w == "Email is recommended for ATS optimization"));
}

#[test]
fn phone_and_summary_warnings() {
    let mut r = base("Ada");
    r.work = vec![work("Acme", "Engineer")];
    r.basics.phone = Some("+44 77 00".to_string());
    r.basics.summary = Some("x".repeat(301));
    let rep = ResumeValidator::new().validate(&r).unwrap();
    assert_eq!(rep.warnings[0], "Phone number appears incomplete");
    assert_eq!(rep.warnings[1], "Summary should be under 300 characters for impact");
    r.basics.phone = Some("+44 7700 000000".to_string());
    r.basics.summary = Some("é".repeat(24));
    let rep = ResumeValidator::new().validate(&r).unwrap();
    assert_eq!(
        rep.warnings[0],
        "Summary should be at least 50 characters for professional appearance"
    );
    r.basics.summary = Some("é".repeat(25));
    let rep = ResumeValidator::new().validate(&r).unwrap();
    assert!(!rep.warnings.iter().any(|w| w.starts_with("Summary")));
}

#[test]
fn highlight_and_quantification_messages() {
    let mut r = base("Ada");
    let mut w = work("Acme", "Engineer");
    w.highlights = vec![
        "Led 3 teams".to_string(),
        "Worked on things".to_string(),
        "Helped out".to_string(),
    ];
    r.work = vec![w];
    let rep = ResumeValidator::new().validate(&r).unwrap();
    assert!(rep.warnings.iter().any(|m| m
        == "Work[0].highlight[1]: Consider starting with an action verb (e.g., 'Led', 'Delivered', 'Architected')"));
    assert!(rep.warnings.iter().any(|m| m.starts_with("Work[0].highlight[2]")));
    assert!(!rep.warnings.iter().any(|m| m.starts_with("Work[0].highlight[0]")));
    assert!(rep.warnings.iter().any(|m| m
        == "Only 33% of achievements are quantified. Consider adding metrics and numbers for impact (e.g., 'Reduced costs by 35%', 'Led team of 5 engineers')"));
}

#[test]
fn half_quantified_gets_no_ratio_warning() {
    let mut r = base("Ada");
    let mut w = work("Acme", "Engineer");
    w.highlights = vec!["Led 3 teams".to_string(), "Led many teams".to_string()];
    r.work = vec![w];
    let rep = ResumeValidator::new().validate(&r).unwrap();
    assert!(!rep.warnings.iter().any(|m| m.contains("quantified")));
}

#[test]
fn skill_warnings_are_case_insensitive_and_exact() {
    let mut r = base("Ada");
    r.work = vec![work("Acme", "Engineer")];
    r.skills = vec![skill("Rust", &["x", "cargo"]), skill("RUST", &[]), skill("Ünïcode", &["é"])];
    let rep = ResumeValidator::new().validate(&r).unwrap();
    let skill_warnings: Vec<&String> =
        rep.warnings.iter().filter(|w| w.starts_with("Skills[")).collect();
    assert_eq!(
        skill_warnings,
        vec![
            "Skills[1]: duplicate skill category: RUST",
            "Skills[0]: keyword 'x' is too short",
            "Skills[1]: category 'RUST' has no keywords",
        ]
    );
}

#[test]
fn project_warnings_are_exact() {
    let mut r = base("Ada");
    r.work = vec![work("Acme", "Engineer")];
    r.projects = vec![Project {
        name: String::new(),
        description: Some("é".repeat(501)),
        highlights: vec![],
        start_date: None,
        end_date: None,
        url: None,
        roles: vec![],
        entity: None,
        project_type: None,
    }];
    let rep = ResumeValidator::new().validate(&r).unwrap();
    assert!(rep.warnings.iter().any(|w| w == "Projects[0]: project name is recommended"));
    assert!(rep
        .warnings
        .iter()
        .any(|w| w == "Projects[0]: description should be under 1000 characters"));
}

#[test]
fn weasel_and_passive_messages() {
    let mut r = base("Ada");
    let mut w = work("Acme", "Engineer");
    w.summary = Some(
        "Really quite VERY good; basically involved in everything. Helped with delivery.".to_string(),
    );
    r.work = vec![w];
    let rep = ResumeValidator::new().validate(&r).unwrap();
    assert!(rep
        .warnings
        .iter()
        .any(|m| m == "Consider removing weasel words: basically, very, really, quite"));
    let passive: Vec<&String> =
        rep.warnings.iter().filter(|m| m.contains("active voice")).collect();
    assert_eq!(
        passive,
        vec![
            "Consider using active voice instead of: 'helped with'",
            "Consider using active voice instead of: 'involved in'",
        ]
    );
}

#[test]
fn word_count_counts_all_text() {
    let mut r = base("Test User");
    r.basics.summary = Some("Short summary.".to_string());
    let rep = ResumeValidator::new().validate(&r).unwrap();
    assert!(rep
        .warnings
        .iter()
        .any(|w| w == "Resume is 4 words \u{2014} content appears very thin. Consider expanding."));
    assert_eq!(
        ResumeValidator::new().get_all_text_content(&r),
        "Test User Short summary."
    );
}

#[test]
fn date_comparison_laws_on_examples() {
    let v = ResumeValidator::new();
    for d in ["2020", "2020-05", "2020-05-31", "Present", ""] {
        assert!(!v.is_date_after(d, d));
    }
    assert!(v.is_date_after("2021-01", "2020-12"));
    assert!(!v.is_date_after("2020-12", "2021-01"));
    assert!(v.is_date_after("2021", "2020-06"));
    assert!(!v.is_date_after("2020-06", "2021"));
    assert!(!v.is_date_after("2020", "Present"));
}

#[test]
fn dates_are_found_anywhere_and_digits_must_be_ascii() {
    let v = ResumeValidator::new();
    assert_eq!(v.extract_date_value("since March 2019-03"), Some((2019, Some(3))));
    assert_eq!(v.extract_date_value("Jan 2018 - Feb 2019"), Some((2018, None)));
    assert_eq!(v.extract_date_value("\u{0662}\u{0660}\u{0662}\u{0664}"), None);
    assert_eq!(v.extract_date_value("20-24"), None);
}

#[test]
fn parsing_numbers_like_from_str() {
    assert_eq!(parse_u32_text("2024"), Some(2024));
    assert_eq!(parse_u32_text("+12"), Some(12));
    assert_eq!(parse_u32_text("007"), Some(7));
    assert_eq!(parse_u32_text("4294967295"), Some(u32::MAX));
    assert_eq!(parse_u32_text("4294967296"), None);
    assert_eq!(parse_u32_text(""), None);
    assert_eq!(parse_u32_text("+"), None);
    assert_eq!(parse_u32_text("-1"), None);
    assert_eq!(parse_u32_text("1 "), None);
}

#[test]
fn captures_to_date_values() {
    let s = |t: &str| Some(t.to_string());
    assert_eq!(date_value_from_captures(&None), None);
    assert_eq!(
        date_value_from_captures(&Some(vec![s("2024-03"), s("2024"), s("03"), None])),
        Some((2024, Some(3)))
    );
    assert_eq!(
        date_value_from_captures(&Some(vec![s("2024"), None, None, s("2024")])),
        Some((2024, None))
    );
    assert_eq!(date_value_from_captures(&Some(vec![s("x")])), None);
    assert!(compare_date_values(Some((2020, Some(11))), Some((2020, Some(3)))));
    assert!(!compare_date_values(Some((2020, None)), Some((2020, Some(6)))));
    assert!(!compare_date_values(None, Some((1, None))));
}

#[test]
fn quantification_and_verbs_are_checked() {
    let v = ResumeValidator::new();
    assert!(v.has_quantification("Cut costs by 35%"));
    assert!(!v.has_quantification("Cut costs substantially"));
    assert!(v.has_action_verb("shipped it"));
    assert!(v.has_action_verb("LED the team"));
    assert!(!v.has_action_verb("We led the team"));
}

fn share_warning(quantified: usize, total: usize) -> Option<String> {
    let mut r = base("Ada");
    let mut w = work("Acme", "Engineer");
    w.highlights = (0..total)
        .map(|i| if i < quantified { "Led 3 teams".to_string() } else { "Led teams".to_string() })
        .collect();
    r.work = vec![w];
    let rep = ResumeValidator::new().validate(&r).unwrap();
    rep.warnings.into_iter().find(|m| m.starts_with("Only "))
}

#[test]
fn quantified_share_is_truncated_like_the_floating_point_product() {
    let line = |p: &str| {
        Some(format!(
            "Only {}% of achievements are quantified. Consider adding metrics and numbers for impact (e.g., 'Reduced costs by 35%', 'Led team of 5 engineers')",
            p
        ))
    };
    assert_eq!(share_warning(1, 7), line("14"));
    assert_eq!(share_warning(28, 100), line("28"));
    assert_eq!(share_warning(29, 100), line("28"));
    assert_eq!(share_warning(30, 100), line("30"));
    assert_eq!(share_warning(0, 4), line("0"));
    assert_eq!(share_warning(50, 100), None);
    let float_share = ((29usize as f64 / 100usize as f64) * 100.0) as u32;
    assert_eq!(float_share, 28);
}

#[test]
fn resume_without_work_is_valid() {
    let mut r = base("Ada");
    r.basics.summary = Some("Engineer who builds reliable systems for teams of all sizes.".to_string());
    let rep = ResumeValidator::new().validate(&r).unwrap();
    assert!(rep.errors.is_empty());
    assert!(rep.is_valid);
}

#[test]
fn highly_and_excellent_are_weasel_words() {
    let mut r = base("Test User");
    r.basics.summary = Some("A highly motivated engineer".to_string());
    let rep = ResumeValidator::new().validate(&r).unwrap();
    let weasel: Vec<_> = rep.warnings.iter().filter(|w| w.contains("weasel")).collect();
    assert_eq!(weasel, vec!["Consider removing weasel words: highly"]);
    r.basics.summary = Some("Very excellent and highly skilled".to_string());
    let rep = ResumeValidator::new().validate(&r).unwrap();
    assert!(rep
        .warnings
        .iter()
        .any(|w| w == "Consider removing weasel words: very, highly, excellent"));
}
