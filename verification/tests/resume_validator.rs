use jsonresume_builder::models::resume::{Basics, Education, Project, Resume, Skill, Work};
use jsonresume_builder::validation::resume_validator::ResumeValidator;


fn minimal_resume(name: &str) -> Resume {
    Resume {
        schema: "https://raw.githubusercontent.com/jsonresume/resume-schema/v1.0.0/schema.json"
            .to_string(),
        basics: Basics {
            name: name.to_string(),
            label: None,
            image: None,
            email: Some("test@example.com".to_string()),
            phone: None,
            url: None,
            summary: None,
            location: None,
            profiles: vec![],
        },
        work: vec![],
        volunteer: vec![],
        education: vec![],
        awards: vec![],
        certificates: vec![],
        publications: vec![],
        skills: vec![],
        languages: vec![],
        interests: vec![],
        references: vec![],
        projects: vec![],
        meta: None,
    }
}

#[test]
fn test_validation_empty_name() {
    let resume = minimal_resume("");
    let validator = ResumeValidator::new();
    let result = validator.validate(&resume).unwrap();
    assert!(!result.is_valid);
    assert!(result.errors.iter().any(|e| e.contains("Name is required")));
}

// -----------------------------------------------------------------------
// Action verb tests
// -----------------------------------------------------------------------

#[test]
fn test_has_action_verb_original_verbs() {
    let v = ResumeValidator::new();
    for verb in &[
        "Led",
        "Managed",
        "Developed",
        "Implemented",
        "Architected",
        "Engineered",
        "Built",
        "Created",
        "Designed",
        "Launched",
        "Established",
        "Spearheaded",
        "Directed",
        "Coordinated",
        "Optimized",
        "Reduced",
        "Increased",
        "Improved",
        "Automated",
        "Streamlined",
        "Migrated",
        "Deployed",
        "Configured",
    ] {
        let text = format!("{} something important", verb);
        assert!(
            v.has_action_verb(&text),
            "Expected action verb recognised: {}",
            verb
        );
    }
}

#[test]
fn test_has_action_verb_expanded_verbs() {
    let v = ResumeValidator::new();
    // These previously caused false-positive warnings
    for verb in &[
        "Delivered",
        "Prototyped",
        "Pioneered",
        "Transformed",
        "Executed",
        "Championed",
    ] {
        let text = format!("{} something important", verb);
        assert!(
            v.has_action_verb(&text),
            "Expected expanded verb recognised: {}",
            verb
        );
    }
}

#[test]
fn test_has_action_verb_rejects_non_verbs() {
    let v = ResumeValidator::new();
    assert!(!v.has_action_verb("A cross-functional team of 8 engineers"));
    assert!(!v.has_action_verb("The platform achieved 99.9% uptime"));
    assert!(!v.has_action_verb(""));
}

#[test]
fn test_has_action_verb_word_boundary() {
    let v = ResumeValidator::new();
    // "Deployedby" is not a real word but tests that prefix-only match is rejected
    assert!(!v.has_action_verb("Deployedby something"));
}

// -----------------------------------------------------------------------
// Weasel word tests
// -----------------------------------------------------------------------

#[test]
fn test_weasel_word_no_false_positive_delivery() {
    let v = ResumeValidator::new();
    let mut resume = minimal_resume("Test User");
    resume.basics.summary =
        Some("Architected a prescription delivery platform with 99.95% uptime.".to_string());
    // "delivery" must NOT trigger the "very" weasel-word warning
    let result = v.validate(&resume).unwrap();
    let weasel_warnings: Vec<_> = result
        .warnings
        .iter()
        .filter(|w| w.contains("weasel"))
        .collect();
    assert!(
        weasel_warnings.is_empty(),
        "False positive weasel word warning from 'delivery': {:?}",
        weasel_warnings
    );
}

#[test]
fn test_weasel_word_no_false_positive_recovery() {
    let v = ResumeValidator::new();
    let mut resume = minimal_resume("Test User");
    resume.basics.summary = Some("Implemented automated failure recovery systems.".to_string());
    let result = v.validate(&resume).unwrap();
    let weasel_warnings: Vec<_> = result
        .warnings
        .iter()
        .filter(|w| w.contains("weasel"))
        .collect();
    assert!(
        weasel_warnings.is_empty(),
        "False positive weasel word warning from 'recovery': {:?}",
        weasel_warnings
    );
}

#[test]
fn test_weasel_word_detects_real_usage() {
    let v = ResumeValidator::new();
    let resume = {
        let mut r = minimal_resume("Test User");
        r.basics.summary = Some(
            "A very experienced engineer who really excels at basically everything."
                .to_string(),
        );
        r
    };
    let result = v.validate(&resume).unwrap();
    let weasel_warnings: Vec<_> = result
        .warnings
        .iter()
        .filter(|w| w.contains("weasel"))
        .collect();
    assert!(
        !weasel_warnings.is_empty(),
        "Expected weasel word warning to fire"
    );
    let warning = &weasel_warnings[0];
    assert!(
        warning.contains("very"),
        "Expected 'very' in warning: {}",
        warning
    );
    assert!(
        warning.contains("really"),
        "Expected 'really' in warning: {}",
        warning
    );
    assert!(
        warning.contains("basically"),
        "Expected 'basically' in warning: {}",
        warning
    );
}

// -----------------------------------------------------------------------
// Education date tests
// -----------------------------------------------------------------------

#[test]
fn test_education_present_end_date_no_error() {
    let v = ResumeValidator::new();
    let mut resume = minimal_resume("Test User");
    resume.education = vec![Education {
        institution: "Linux Community".to_string(),
        url: None,
        area: Some("Technical Foundation".to_string()),
        study_type: Some("Self-Directed".to_string()),
        start_date: Some("1994".to_string()),
        end_date: Some("Present".to_string()),
        score: None,
        courses: vec![],
    }];
    let result = v.validate(&resume).unwrap();
    assert!(
        !result
            .errors
            .iter()
            .any(|e| e.contains("end date cannot be before")),
        "Education with 'Present' end date must not produce a date error"
    );
}

// -----------------------------------------------------------------------
// extract_date_value unit tests
// -----------------------------------------------------------------------

#[test]
fn extract_date_value_empty_string_returns_none() {
    let v = ResumeValidator::new();
    assert_eq!(v.extract_date_value(""), None);
}

#[test]
fn extract_date_value_present_returns_none() {
    let v = ResumeValidator::new();
    assert_eq!(v.extract_date_value("Present"), None);
}

#[test]
fn extract_date_value_bare_year_returns_some() {
    let v = ResumeValidator::new();
    assert_eq!(v.extract_date_value("2024"), Some((2024, None)));
}

#[test]
fn extract_date_value_year_month_returns_some() {
    let v = ResumeValidator::new();
    assert_eq!(v.extract_date_value("2024-03"), Some((2024, Some(3))));
}

#[test]
fn extract_date_value_full_date_returns_year_and_month() {
    let v = ResumeValidator::new();
    assert_eq!(v.extract_date_value("2024-01-15"), Some((2024, Some(1))));
}

// -----------------------------------------------------------------------
// is_date_after unit tests
// -----------------------------------------------------------------------

#[test]
fn is_date_after_start_greater_returns_true() {
    let v = ResumeValidator::new();
    assert!(v.is_date_after("2020", "2019"));
}

#[test]
fn is_date_after_equal_years_returns_false() {
    let v = ResumeValidator::new();
    assert!(!v.is_date_after("2020", "2020"));
}

#[test]
fn is_date_after_start_less_than_end_returns_false() {
    let v = ResumeValidator::new();
    assert!(!v.is_date_after("2019", "2020"));
}

// -----------------------------------------------------------------------
// is_date_after — month-granular tests
// -----------------------------------------------------------------------

#[test]
fn is_date_after_same_year_end_month_before_start_month_is_inversion() {
    // Nov 2020 start, Mar 2020 end — end is before start within same year.
    let v = ResumeValidator::new();
    assert!(v.is_date_after("2020-11", "2020-03"));
}

#[test]
fn is_date_after_same_year_equal_months_returns_false() {
    let v = ResumeValidator::new();
    assert!(!v.is_date_after("2020-06", "2020-06"));
}

#[test]
fn is_date_after_same_year_end_month_after_start_month_returns_false() {
    let v = ResumeValidator::new();
    assert!(!v.is_date_after("2020-03", "2020-11"));
}

#[test]
fn is_date_after_full_date_month_granular() {
    // 2021-05-01 start, 2021-02-28 end — inversion within same year.
    let v = ResumeValidator::new();
    assert!(v.is_date_after("2021-05-01", "2021-02-28"));
}

#[test]
fn is_date_after_year_only_vs_year_month_falls_back_to_year() {
    // "2020" vs "2020-06" — start is bare year, compare years only.
    let v = ResumeValidator::new();
    assert!(!v.is_date_after("2020", "2020-06")); // years equal → false
}

// -----------------------------------------------------------------------
// Email validation tests
// -----------------------------------------------------------------------

#[test]
fn test_email_valid_formats_no_error() {
    let v = ResumeValidator::new();
    let valid_emails = &[
        "user@example.com",
        "first.last@domain.org",
        "user+tag@sub.domain.co.uk",
        "user123@domain.io",
    ];
    for email in valid_emails {
        let mut resume = minimal_resume("Test User");
        resume.basics.email = Some(email.to_string());
        let result = v.validate(&resume).unwrap();
        assert!(
            !result.errors.iter().any(|e| e.contains("Invalid email")),
            "Valid email '{}' should not produce an error, got: {:?}",
            email,
            result.errors
        );
    }
}

#[test]
fn test_email_invalid_no_at_symbol() {
    let v = ResumeValidator::new();
    let mut resume = minimal_resume("Test User");
    resume.basics.email = Some("notanemail".to_string());
    let result = v.validate(&resume).unwrap();
    assert!(
        result.errors.iter().any(|e| e.contains("Invalid email")),
        "Missing @ should produce an error, got: {:?}",
        result.errors
    );
}

#[test]
fn test_email_invalid_no_tld() {
    let v = ResumeValidator::new();
    let mut resume = minimal_resume("Test User");
    resume.basics.email = Some("user@domain".to_string());
    let result = v.validate(&resume).unwrap();
    assert!(
        result.errors.iter().any(|e| e.contains("Invalid email")),
        "Email without TLD should produce an error, got: {:?}",
        result.errors
    );
}

#[test]
fn test_email_invalid_spaces() {
    let v = ResumeValidator::new();
    let mut resume = minimal_resume("Test User");
    resume.basics.email = Some("user @example.com".to_string());
    let result = v.validate(&resume).unwrap();
    assert!(
        result.errors.iter().any(|e| e.contains("Invalid email")),
        "Email with spaces should produce an error, got: {:?}",
        result.errors
    );
}

// -----------------------------------------------------------------------
// validate_work — additional coverage
// -----------------------------------------------------------------------

fn make_work(name: &str, position: &str) -> Work {
    Work {
        name: name.to_string(),
        position: position.to_string(),
        url: None,
        start_date: None,
        end_date: None,
        summary: None,
        highlights: vec![],
        location: None,
    }
}

#[test]
fn test_work_date_ordering_error() {
    let v = ResumeValidator::new();
    let mut resume = minimal_resume("Test User");
    let mut job = make_work("Acme Corp", "Engineer");
    job.start_date = Some("2020".to_string());
    job.end_date = Some("2018".to_string()); // end before start
    resume.work = vec![job];
    let result = v.validate(&resume).unwrap();
    assert!(
        result
            .errors
            .iter()
            .any(|e| e.contains("end date cannot be before start date")),
        "Expected work date ordering error, got: {:?}",
        result.errors
    );
}

#[test]
fn test_work_summary_length_warning() {
    let v = ResumeValidator::new();
    let mut resume = minimal_resume("Test User");
    let mut job = make_work("Acme Corp", "Engineer");
    job.summary = Some("x".repeat(501)); // > 500 chars
    resume.work = vec![job];
    let result = v.validate(&resume).unwrap();
    assert!(
        result
            .warnings
            .iter()
            .any(|w| w.contains("summary should be under 500 characters")),
        "Expected work summary length warning, got: {:?}",
        result.warnings
    );
}

#[test]
fn test_work_highlights_without_action_verbs_warning() {
    let v = ResumeValidator::new();
    let mut resume = minimal_resume("Test User");
    let mut job = make_work("Acme Corp", "Engineer");
    job.highlights = vec![
        "A cross-functional team collaboration effort".to_string(), // no action verb at start
    ];
    resume.work = vec![job];
    let result = v.validate(&resume).unwrap();
    assert!(
        result.warnings.iter().any(|w| w.contains("action verb")),
        "Expected action verb warning for bullet lacking action verb, got: {:?}",
        result.warnings
    );
}

#[test]
fn test_work_highlights_with_action_verb_no_warning() {
    let v = ResumeValidator::new();
    let mut resume = minimal_resume("Test User");
    let mut job = make_work("Acme Corp", "Engineer");
    job.highlights =
        vec!["Led a team of 5 engineers to deliver the platform on time".to_string()];
    resume.work = vec![job];
    let result = v.validate(&resume).unwrap();
    assert!(
        !result.warnings.iter().any(|w| w.contains("action verb")),
        "Unexpected action verb warning for strong bullet, got: {:?}",
        result.warnings
    );
}

// -----------------------------------------------------------------------
// validate_education — additional coverage
// -----------------------------------------------------------------------

fn make_education(institution: &str) -> Education {
    Education {
        institution: institution.to_string(),
        url: None,
        area: None,
        study_type: None,
        start_date: None,
        end_date: None,
        score: None,
        courses: vec![],
    }
}

#[test]
fn test_education_missing_institution_error() {
    let v = ResumeValidator::new();
    let mut resume = minimal_resume("Test User");
    resume.education = vec![make_education("")]; // empty institution
    let result = v.validate(&resume).unwrap();
    assert!(
        result
            .errors
            .iter()
            .any(|e| e.contains("institution is required")),
        "Expected missing institution error, got: {:?}",
        result.errors
    );
}

#[test]
fn test_education_date_ordering_error() {
    let v = ResumeValidator::new();
    let mut resume = minimal_resume("Test User");
    let mut edu = make_education("MIT");
    edu.start_date = Some("2022".to_string());
    edu.end_date = Some("2019".to_string()); // end before start
    resume.education = vec![edu];
    let result = v.validate(&resume).unwrap();
    assert!(
        result
            .errors
            .iter()
            .any(|e| e.contains("end date cannot be before start date")),
        "Expected education date ordering error, got: {:?}",
        result.errors
    );
}

// -----------------------------------------------------------------------
// validate_skills — coverage
// -----------------------------------------------------------------------

fn make_skill(name: &str, keywords: Vec<String>) -> Skill {
    Skill {
        name: name.to_string(),
        level: None,
        keywords,
    }
}

#[test]
fn test_skills_empty_list_warning() {
    let v = ResumeValidator::new();
    let mut resume = minimal_resume("Test User");
    resume.skills = vec![]; // present but empty
    let result = v.validate(&resume).unwrap();
    assert!(
        result
            .warnings
            .iter()
            .any(|w| w.contains("Skills section is recommended")),
        "Expected empty skills list warning, got: {:?}",
        result.warnings
    );
}

#[test]
fn test_skills_duplicate_skill_warning() {
    let v = ResumeValidator::new();
    let mut resume = minimal_resume("Test User");
    resume.skills = vec![
        make_skill("Rust", vec!["Rust".to_string()]),
        make_skill("Rust", vec!["cargo".to_string()]), // duplicate name
    ];
    let result = v.validate(&resume).unwrap();
    assert!(
        result
            .warnings
            .iter()
            .any(|w| w.contains("duplicate skill category")),
        "Expected duplicate skill warning, got: {:?}",
        result.warnings
    );
}

#[test]
fn test_skills_short_keyword_warning() {
    let v = ResumeValidator::new();
    let mut resume = minimal_resume("Test User");
    resume.skills = vec![make_skill(
        "Languages",
        vec!["x".to_string()], // single-char keyword (< 2 chars)
    )];
    let result = v.validate(&resume).unwrap();
    assert!(
        result
            .warnings
            .iter()
            .any(|w| w.contains("keyword") && w.contains("too short")),
        "Expected short keyword warning, got: {:?}",
        result.warnings
    );
}

// -----------------------------------------------------------------------
// validate_projects — coverage
// -----------------------------------------------------------------------

fn make_project(name: &str, description: Option<String>) -> Project {
    Project {
        name: name.to_string(),
        description,
        highlights: vec![],
        start_date: None,
        end_date: None,
        url: None,
        roles: vec![],
        entity: None,
        project_type: None,
    }
}

#[test]
fn test_projects_empty_name_warning() {
    let v = ResumeValidator::new();
    let mut resume = minimal_resume("Test User");
    resume.projects = vec![make_project("", None)];
    let result = v.validate(&resume).unwrap();
    assert!(
        result
            .warnings
            .iter()
            .any(|w| w.contains("project name is recommended")),
        "Expected empty project name warning, got: {:?}",
        result.warnings
    );
}

#[test]
fn test_projects_description_too_long_warning() {
    let v = ResumeValidator::new();
    let mut resume = minimal_resume("Test User");
    resume.projects = vec![make_project(
        "MyProject",
        Some("x".repeat(1001)), // > 1000 chars
    )];
    let result = v.validate(&resume).unwrap();
    assert!(
        result
            .warnings
            .iter()
            .any(|w| w.contains("description should be under 1000 characters")),
        "Expected project description length warning, got: {:?}",
        result.warnings
    );
}

// -----------------------------------------------------------------------
// validate_ats_optimization — coverage
// -----------------------------------------------------------------------

#[test]
fn test_ats_keyword_count_low_warning() {
    // A minimal resume with no skills and no work has 0 keywords
    let v = ResumeValidator::new();
    let resume = minimal_resume("Test User");
    let result = v.validate(&resume).unwrap();
    assert!(
        result
            .warnings
            .iter()
            .any(|w| w.contains("more keywords for better ATS")),
        "Expected low keyword count ATS warning, got: {:?}",
        result.warnings
    );
}

#[test]
fn test_ats_quantification_ratio_low_warning() {
    let v = ResumeValidator::new();
    let mut resume = minimal_resume("Test User");
    let mut job = make_work("Acme Corp", "Engineer");
    // Two highlights, neither contains a digit
    job.highlights = vec![
        "Led team meetings regularly".to_string(),
        "Reviewed pull requests".to_string(),
    ];
    resume.work = vec![job];
    let result = v.validate(&resume).unwrap();
    assert!(
        result
            .warnings
            .iter()
            .any(|w| w.contains("quantified") && w.contains("%")),
        "Expected quantification ratio warning, got: {:?}",
        result.warnings
    );
}

// -----------------------------------------------------------------------
// check_passive_voice — coverage
// -----------------------------------------------------------------------

#[test]
fn test_passive_voice_detects_phrase() {
    let v = ResumeValidator::new();
    let mut resume = minimal_resume("Test User");
    let mut job = make_work("Acme Corp", "Engineer");
    job.summary = Some("Was responsible for maintaining the CI pipeline.".to_string());
    resume.work = vec![job];
    let result = v.validate(&resume).unwrap();
    assert!(
        result
            .warnings
            .iter()
            .any(|w| w.contains("was responsible for")),
        "Expected passive voice warning for 'was responsible for', got: {:?}",
        result.warnings
    );
}

#[test]
fn test_passive_voice_reports_each_phrase_separately() {
    let v = ResumeValidator::new();
    let mut resume = minimal_resume("Test User");
    let mut job = make_work("Acme Corp", "Engineer");
    // Two distinct passive-voice phrases in the same field
    job.summary =
        Some("Was responsible for code reviews. Assisted in deployment processes.".to_string());
    resume.work = vec![job];
    let result = v.validate(&resume).unwrap();
    let passive_warnings: Vec<_> = result
        .warnings
        .iter()
        .filter(|w| w.contains("active voice"))
        .collect();
    assert!(
        passive_warnings.len() >= 2,
        "Expected at least 2 separate passive voice warnings, got: {:?}",
        passive_warnings
    );
    assert!(
        passive_warnings
            .iter()
            .any(|w| w.contains("was responsible for")),
        "Expected warning containing 'was responsible for'"
    );
    assert!(
        passive_warnings.iter().any(|w| w.contains("assisted in")),
        "Expected warning containing 'assisted in'"
    );
}

// -----------------------------------------------------------------------
// check_length_optimization — coverage
// -----------------------------------------------------------------------

#[test]
fn test_length_too_short_warning() {
    // A minimal resume with only a short summary is well under 150 words
    let v = ResumeValidator::new();
    let mut resume = minimal_resume("Test User");
    resume.basics.summary = Some("Short summary.".to_string());
    let result = v.validate(&resume).unwrap();
    assert!(
        result
            .warnings
            .iter()
            .any(|w| w.contains("content appears very thin")),
        "Expected thin-content warning, got: {:?}",
        result.warnings
    );
}

#[test]
fn test_length_too_long_warning() {
    let v = ResumeValidator::new();
    let mut resume = minimal_resume("Test User");
    // Construct a summary that pushes word count past 3000
    let long_summary = (0..3100)
        .map(|i| format!("word{}", i))
        .collect::<Vec<_>>()
        .join(" ");
    resume.basics.summary = Some(long_summary);
    let result = v.validate(&resume).unwrap();
    assert!(
        result
            .warnings
            .iter()
            .any(|w| w.contains("consider trimming")),
        "Expected too-long warning, got: {:?}",
        result.warnings
    );
}
