//! Validates a resume against the JSON Resume schema and resume-writing
//! practice, producing errors (which make the resume invalid) and warnings
//! (which do not).

use vstd::prelude::*;
use vstd::string::StringExecFns;

use crate::models::resume::{Basics, Project, Resume, Skill, Work};
use crate::text::{
    byte_len_capped, chars_of, contains_text, count_words, extend_strings, join_strings,
    push_decimal, push_string, same_text, strs, to_lowercase,
};
use crate::validation::dates::{compare_date_values, date_after, date_value, date_value_from_captures, DateValue};
use crate::validation::patterns::{
    escape_for_regex, pattern_captures, pattern_compiles, pattern_is_match, regex_compiles,
    regex_is_match, ACTION_VERB_PATTERN, DATE_PATTERN, DIGIT_PATTERN, EMAIL_PATTERN,
    WEASEL_PATTERN,
};
use crate::validation::rules::{
    all_text, ascii_digit_count, at, ats_warnings, basics_errors, basics_warnings, count_true,
    dates_inverted, duplicate_warnings, education_entry_errors, education_errors,
    expected_findings, findings_fit, found_words, highlight_total, highlight_warnings, job_errors,
    job_warnings, jobs_errors, jobs_text, jobs_warnings, length_warnings, msg_if, optional_part,
    passive_phrases, passive_warnings, project_warnings, projects_text, projects_warnings,
    quantified_count, report_errors, report_warnings, short_keyword_warnings, skill_quality_warnings,
    skills_quality_warnings, skills_text, skills_warnings, text_parts, volunteer_text,
    weasel_warnings, weasel_words, word_pattern, work_errors, work_warnings, FindingsView,
};

verus! {

/// The outcome of validating a resume.
pub struct ValidationReport {
    pub is_valid: bool,
    pub errors: Vec<String>,
    pub warnings: Vec<String>,
}

/// A validation report as values.
pub struct ReportView {
    pub is_valid: bool,
    pub errors: Seq<Seq<char>>,
    pub warnings: Seq<Seq<char>>,
}

impl View for ValidationReport {
    type V = ReportView;

    open spec fn view(&self) -> ReportView {
        ReportView {
            is_valid: self.is_valid,
            errors: strs(self.errors@),
            warnings: strs(self.warnings@),
        }
    }
}

/// Validates resumes against the schema rules and best practices.
pub struct ResumeValidator {}

impl ResumeValidator {
    /// A validator; it holds no settings.
    pub fn new() -> (r: Self)
        ensures
            r == (ResumeValidator {  }),
    {
        ResumeValidator {  }
    }

    /// Whether a highlight starts with a recognised action verb, followed by a
    /// word boundary (so "Deployed" counts and "Deployedby" does not).
    pub fn has_action_verb(&self, text: &str) -> (r: bool)
        requires
            regex_compiles(ACTION_VERB_PATTERN@),
        ensures
            r == regex_is_match(ACTION_VERB_PATTERN@, text@),
    {
        match pattern_is_match(ACTION_VERB_PATTERN, text) {
            Some(b) => b,
            None => false,
        }
    }

    /// Whether the text contains any digit (numbers, percentages, amounts,
    /// decimals, ranges).
    pub fn has_quantification(&self, text: &str) -> (r: bool)
        requires
            regex_compiles(DIGIT_PATTERN@),
        ensures
            r == regex_is_match(DIGIT_PATTERN@, text@),
    {
        match pattern_is_match(DIGIT_PATTERN, text) {
            Some(b) => b,
            None => false,
        }
    }

    /// The year, and month where given, of the first `YYYY-MM(-DD)` or `YYYY`
    /// in `date_str`; `None` where there is none or it does not parse.
    pub fn extract_date_value(&self, date_str: &str) -> (r: Option<DateValue>)
        requires
            regex_compiles(DATE_PATTERN@),
        ensures
            r == date_value(date_str@),
    {
        match pattern_captures(DATE_PATTERN, date_str) {
            Some(caps) => date_value_from_captures(&caps),
            None => None,
        }
    }

    /// Whether `end` lies strictly before `start`: month-granular where both
    /// dates have a month, year-granular otherwise, never where either date
    /// has no year.
    pub fn is_date_after(&self, start: &str, end: &str) -> (r: bool)
        requires
            regex_compiles(DATE_PATTERN@),
        ensures
            r == date_after(date_value(start@), date_value(end@)),
    {
        let s = self.extract_date_value(start);
        let e = self.extract_date_value(end);
        compare_date_values(s, e)
    }
}

impl Default for ResumeValidator {
    fn default() -> (r: Self)
        ensures
            r == (ResumeValidator {  }),
    {
        Self::new()
    }
}

} // verus!

verus! {

/// Appends the text of an optional field, where present.
fn push_optional(parts: &mut Vec<String>, o: &Option<String>)
    ensures
        strs(final(parts)@) == strs(old(parts)@) + optional_part(*o),
{
    match o {
        Some(s) => {
            push_string(parts, s.clone());
            assert(strs(parts@) =~= strs(old(parts)@) + optional_part(*o));
        },
        None => {
            assert(strs(parts@) =~= strs(old(parts)@) + optional_part(*o));
        },
    }
}

impl ResumeValidator {
    /// All human-readable text of the resume, for the content-quality checks:
    /// the pieces that `text_parts` lists, joined by single spaces.
    pub fn get_all_text_content(&self, resume: &Resume) -> (r: String)
        ensures
            r@ == all_text(*resume),
    {
        let mut parts: Vec<String> = Vec::new();
        push_string(&mut parts, resume.basics.name.clone());
        push_optional(&mut parts, &resume.basics.label);
        push_optional(&mut parts, &resume.basics.summary);
        let ghost head = strs(parts@);
        let mut i: usize = 0;
        while i < resume.work.len()
            invariant
                i <= resume.work.len(),
                strs(parts@) == head + jobs_text(resume.work@, i as int),
            decreases resume.work.len() - i,
        {
            let job = &resume.work[i];
            push_string(&mut parts, job.position.clone());
            push_string(&mut parts, job.name.clone());
            push_optional(&mut parts, &job.summary);
            extend_strings(&mut parts, &job.highlights);
            assert(strs(parts@) =~= head + jobs_text(resume.work@, i + 1));
            i = i + 1;
        }
        let ghost head = strs(parts@);
        let mut i: usize = 0;
        while i < resume.volunteer.len()
            invariant
                i <= resume.volunteer.len(),
                strs(parts@) == head + volunteer_text(resume.volunteer@, i as int),
            decreases resume.volunteer.len() - i,
        {
            let vol = &resume.volunteer[i];
            push_optional(&mut parts, &vol.summary);
            extend_strings(&mut parts, &vol.highlights);
            assert(strs(parts@) =~= head + volunteer_text(resume.volunteer@, i + 1));
            i = i + 1;
        }
        let ghost head = strs(parts@);
        let mut i: usize = 0;
        while i < resume.skills.len()
            invariant
                i <= resume.skills.len(),
                strs(parts@) == head + skills_text(resume.skills@, i as int),
            decreases resume.skills.len() - i,
        {
            extend_strings(&mut parts, &resume.skills[i].keywords);
            assert(strs(parts@) =~= head + skills_text(resume.skills@, i + 1));
            i = i + 1;
        }
        let ghost head = strs(parts@);
        let mut i: usize = 0;
        while i < resume.projects.len()
            invariant
                i <= resume.projects.len(),
                strs(parts@) == head + projects_text(resume.projects@, i as int),
            decreases resume.projects.len() - i,
        {
            let project = &resume.projects[i];
            push_string(&mut parts, project.name.clone());
            push_optional(&mut parts, &project.description);
            extend_strings(&mut parts, &project.highlights);
            assert(strs(parts@) =~= head + projects_text(resume.projects@, i + 1));
            i = i + 1;
        }
        assert(strs(parts@) =~= text_parts(*resume));
        join_strings(&parts, " ")
    }
}

} // verus!

verus! {

/// Why a resume could not be validated.
#[derive(Debug)]
pub enum ValidationError {
    /// The regex crate rejected one of the validator's own patterns (the
    /// pattern's text is given).
    PatternRejected(String),
}

/// Every pattern the validator compiles: the fixed ones, then one per
/// weasel word.
pub open spec fn checked_patterns() -> Seq<Seq<char>> {
    seq![EMAIL_PATTERN@, DIGIT_PATTERN@, ACTION_VERB_PATTERN@, DATE_PATTERN@, WEASEL_PATTERN@]
        + Seq::new(weasel_words().len(), |k: int| word_pattern(weasel_words()[k]))
}

/// Whether the regex crate accepts every pattern the validator uses.
pub open spec fn patterns_accepted() -> bool {
    forall|k: int| 0 <= k < checked_patterns().len() ==> regex_compiles(#[trigger] checked_patterns()[k])
}

/// The first pattern of `ps` that the regex crate rejects.
pub open spec fn first_rejected(ps: Seq<Seq<char>>) -> Option<Seq<char>>
    decreases ps.len(),
{
    if ps.len() == 0 {
        None
    } else if !regex_compiles(ps[0]) {
        Some(ps[0])
    } else {
        first_rejected(ps.drop_first())
    }
}

/// The weasel words.
fn weasel_word_list() -> (r: Vec<&'static str>)
    ensures
        r@.map_values(|s: &str| s@) == weasel_words(),
{
    let r = vec![
        "basically",
        "simply",
        "probably",
        "might",
        "could",
        "perhaps",
        "very",
        "really",
        "quite",
        "somewhat",
        "fairly",
        "significantly",
        "various",
        "numerous",
        "highly",
        "excellent",
    ];
    assert(r@.map_values(|s: &str| s@) =~= weasel_words());
    r
}

/// The pattern that finds `w` as a whole word in any case:
/// `(?i)\b`, the escaped word, `\b`.
fn word_pattern_text(w: &str) -> (r: String)
    ensures
        r@ == word_pattern(w@),
{
    let mut p = String::from_str("(?i)\\b");
    let e = escape_for_regex(w);
    p.append(e.as_str());
    p.append("\\b");
    p
}

/// The texts of all patterns the validator uses, in `checked_patterns` order.
fn pattern_texts() -> (r: Vec<String>)
    ensures
        strs(r@) == checked_patterns(),
{
    let mut r: Vec<String> = Vec::new();
    push_string(&mut r, String::from_str(EMAIL_PATTERN));
    push_string(&mut r, String::from_str(DIGIT_PATTERN));
    push_string(&mut r, String::from_str(ACTION_VERB_PATTERN));
    push_string(&mut r, String::from_str(DATE_PATTERN));
    push_string(&mut r, String::from_str(WEASEL_PATTERN));
    let ghost head = strs(r@);
    let ws = weasel_word_list();
    let ghost tail = Seq::new(weasel_words().len(), |k: int| word_pattern(weasel_words()[k]));
    let mut k: usize = 0;
    while k < ws.len()
        invariant
            k <= ws.len() == weasel_words().len(),
            ws@.map_values(|s: &str| s@) == weasel_words(),
            tail.len() == weasel_words().len(),
            forall|m: int| 0 <= m < tail.len() ==> #[trigger] tail[m] == word_pattern(weasel_words()[m]),
            strs(r@) == head + tail.take(k as int),
        decreases ws.len() - k,
    {
        let p = word_pattern_text(ws[k]);
        assert(ws@.map_values(|s: &str| s@)[k as int] == ws@[k as int]@);
        push_string(&mut r, p);
        assert(tail.take(k + 1) =~= tail.take(k as int).push(tail[k as int]));
        assert(strs(r@) =~= head + tail.take(k + 1));
        k = k + 1;
    }
    assert(tail.take(ws.len() as int) =~= tail);
    assert(strs(r@) =~= checked_patterns());
    r
}

/// Checks that the regex crate accepts every pattern; names the first one
/// it rejects.
pub fn check_patterns() -> (r: Result<(), ValidationError>)
    ensures
        r is Ok <==> patterns_accepted(),
        r matches Err(ValidationError::PatternRejected(p)) ==> first_rejected(checked_patterns())
            == Some(p@),
{
    let ps = pattern_texts();
    assert(checked_patterns().skip(0) =~= checked_patterns());
    let mut i: usize = 0;
    while i < ps.len()
        invariant
            i <= ps.len(),
            strs(ps@) == checked_patterns(),
            forall|k: int| 0 <= k < i ==> regex_compiles(#[trigger] checked_patterns()[k]),
            first_rejected(checked_patterns()) == first_rejected(checked_patterns().skip(i as int)),
        decreases ps.len() - i,
    {
        let ghost rest = checked_patterns().skip(i as int);
        assert(rest[0] == checked_patterns()[i as int]);
        assert(rest.drop_first() =~= checked_patterns().skip(i + 1));
        if !pattern_compiles(ps[i].as_str()) {
            return Err(ValidationError::PatternRejected(ps[i].clone()));
        }
        i = i + 1;
    }
    Ok(())
}

} // verus!

verus! {

/// The views of a sequence of flag vectors.
pub open spec fn flag_rows(v: Seq<Vec<bool>>) -> Seq<Seq<bool>> {
    v.map_values(|row: Vec<bool>| row@)
}

/// What the regular expressions and case mapping found in a resume: the
/// inputs of the report that come from outside calls.
pub struct TextFindings {
    /// Whether `basics.email` matches the email pattern (false without one).
    pub email_matches: bool,
    /// Per work entry: both dates given and the end before the start.
    pub work_dates_inverted: Vec<bool>,
    /// Per education entry: both dates given and the end before the start.
    pub education_dates_inverted: Vec<bool>,
    /// Per work entry, per highlight: starts with an action verb.
    pub action_verbs: Vec<Vec<bool>>,
    /// Per work entry, per highlight: holds a digit.
    pub quantified: Vec<Vec<bool>>,
    /// Per skill category: its name in lowercase.
    pub skill_names_lower: Vec<String>,
    /// The number of distinct keywords of the resume.
    pub keyword_count: usize,
    /// Whether any weasel word occurs in the resume's text.
    pub weasel_any: bool,
    /// Per weasel word: whether it occurs in the resume's text.
    pub weasel_found: Vec<bool>,
    /// The resume's text in lowercase.
    pub text_lower: String,
}

impl View for TextFindings {
    type V = FindingsView;

    open spec fn view(&self) -> FindingsView {
        FindingsView {
            email_matches: self.email_matches,
            work_dates_inverted: self.work_dates_inverted@,
            education_dates_inverted: self.education_dates_inverted@,
            action_verbs: flag_rows(self.action_verbs@),
            quantified: flag_rows(self.quantified@),
            skill_names_lower: strs(self.skill_names_lower@),
            keyword_count: self.keyword_count as nat,
            weasel_any: self.weasel_any,
            weasel_found: self.weasel_found@,
            text_lower: self.text_lower@,
        }
    }
}

/// No byte sequence is below itself.
proof fn lemma_bytes_lt_irreflexive(a: Seq<u8>)
    ensures
        !crate::text::bytes_lt(a, a),
    decreases a.len(),
{
    if a.len() > 0 {
        lemma_bytes_lt_irreflexive(a.drop_first());
    }
}

/// A strictly increasing sequence holds as many items as distinct values.
proof fn lemma_increasing_count(s: Seq<Seq<char>>)
    requires
        crate::text::strictly_increasing(s),
    ensures
        s.len() == s.to_set().len(),
{
    assert(s.no_duplicates()) by {
        assert forall|i: int, j: int| 0 <= i < s.len() && 0 <= j < s.len() && i != j implies s[i]
            != s[j] by {
            if s[i] == s[j] {
                lemma_bytes_lt_irreflexive(vstd::utf8::encode_utf8(s[i]));
                if i < j {
                    assert(crate::text::text_lt(s[i], s[j]));
                } else {
                    assert(crate::text::text_lt(s[j], s[i]));
                }
            }
        }
    }
    s.unique_seq_to_set();
}

impl ResumeValidator {
    /// Whether both dates are given and the end lies before the start.
    fn dates_inverted_exec(&self, start: &Option<String>, end: &Option<String>) -> (r: bool)
        requires
            regex_compiles(DATE_PATTERN@),
        ensures
            r == dates_inverted(*start, *end),
    {
        match (start, end) {
            (Some(s), Some(e)) => self.is_date_after(s.as_str(), e.as_str()),
            _ => false,
        }
    }

    /// Runs the regular expressions and case mapping over the resume.
    pub fn collect_findings(&self, resume: &Resume) -> (f: TextFindings)
        requires
            patterns_accepted(),
        ensures
            f@ == expected_findings(*resume),
    {
        proof {
            assert(checked_patterns()[0] == EMAIL_PATTERN@);
            assert(checked_patterns()[1] == DIGIT_PATTERN@);
            assert(checked_patterns()[2] == ACTION_VERB_PATTERN@);
            assert(checked_patterns()[3] == DATE_PATTERN@);
            assert(checked_patterns()[4] == WEASEL_PATTERN@);
        }
        let ghost expected = expected_findings(*resume);
        let email_matches = match &resume.basics.email {
            Some(e) => match pattern_is_match(EMAIL_PATTERN, e.as_str()) {
                Some(b) => b,
                None => false,
            },
            None => false,
        };
        let mut work_dates_inverted: Vec<bool> = Vec::new();
        let mut action_verbs: Vec<Vec<bool>> = Vec::new();
        let mut quantified: Vec<Vec<bool>> = Vec::new();
        let mut i: usize = 0;
        while i < resume.work.len()
            invariant
                i <= resume.work.len(),
                regex_compiles(DATE_PATTERN@),
                regex_compiles(ACTION_VERB_PATTERN@),
                regex_compiles(DIGIT_PATTERN@),
                expected == expected_findings(*resume),
                work_dates_inverted@ == expected.work_dates_inverted.take(i as int),
                flag_rows(action_verbs@) == expected.action_verbs.take(i as int),
                flag_rows(quantified@) == expected.quantified.take(i as int),
            decreases resume.work.len() - i,
        {
            let job = &resume.work[i];
            let inv = self.dates_inverted_exec(&job.start_date, &job.end_date);
            work_dates_inverted.push(inv);
            assert(work_dates_inverted@ =~= expected.work_dates_inverted.take(i + 1));
            let mut verbs: Vec<bool> = Vec::new();
            let mut quant: Vec<bool> = Vec::new();
            let mut h: usize = 0;
            while h < job.highlights.len()
                invariant
                    h <= job.highlights.len(),
                    regex_compiles(ACTION_VERB_PATTERN@),
                    regex_compiles(DIGIT_PATTERN@),
                    verbs@ == expected.action_verbs[i as int].take(h as int),
                    quant@ == expected.quantified[i as int].take(h as int),
                    expected == expected_findings(*resume),
                    i < resume.work.len(),
                    job == &resume.work[i as int],
                    work_dates_inverted@ == expected.work_dates_inverted.take(i + 1),
                    flag_rows(action_verbs@) == expected.action_verbs.take(i as int),
                    flag_rows(quantified@) == expected.quantified.take(i as int),
                decreases job.highlights.len() - h,
            {
                let v = self.has_action_verb(job.highlights[h].as_str());
                let q = self.has_quantification(job.highlights[h].as_str());
                verbs.push(v);
                quant.push(q);
                assert(verbs@ =~= expected.action_verbs[i as int].take(h + 1));
                assert(quant@ =~= expected.quantified[i as int].take(h + 1));
                h = h + 1;
            }
            assert(verbs@ =~= expected.action_verbs[i as int]);
            assert(quant@ =~= expected.quantified[i as int]);
            let ghost old_verbs = action_verbs@;
            let ghost old_quant = quantified@;
            action_verbs.push(verbs);
            quantified.push(quant);
            assert(action_verbs@ == old_verbs.push(verbs));
            assert(flag_rows(action_verbs@) =~= flag_rows(old_verbs).push(verbs@));
            assert(flag_rows(quantified@) =~= flag_rows(old_quant).push(quant@));
            assert(work_dates_inverted@ =~= expected.work_dates_inverted.take(i + 1));
            assert(flag_rows(action_verbs@) =~= expected.action_verbs.take(i + 1));
            assert(flag_rows(quantified@) =~= expected.quantified.take(i + 1));
            i = i + 1;
        }
        let mut education_dates_inverted: Vec<bool> = Vec::new();
        let mut i: usize = 0;
        while i < resume.education.len()
            invariant
                i <= resume.education.len(),
                regex_compiles(DATE_PATTERN@),
                expected == expected_findings(*resume),
                education_dates_inverted@ == expected.education_dates_inverted.take(i as int),
            decreases resume.education.len() - i,
        {
            let e = &resume.education[i];
            let inv = self.dates_inverted_exec(&e.start_date, &e.end_date);
            education_dates_inverted.push(inv);
            assert(education_dates_inverted@ =~= expected.education_dates_inverted.take(i + 1));
            i = i + 1;
        }
        let mut skill_names_lower: Vec<String> = Vec::new();
        let mut i: usize = 0;
        while i < resume.skills.len()
            invariant
                i <= resume.skills.len(),
                expected == expected_findings(*resume),
                strs(skill_names_lower@) == expected.skill_names_lower.take(i as int),
            decreases resume.skills.len() - i,
        {
            let lower = to_lowercase(resume.skills[i].name.as_str());
            push_string(&mut skill_names_lower, lower);
            assert(strs(skill_names_lower@) =~= expected.skill_names_lower.take(i + 1));
            i = i + 1;
        }
        let keywords = resume.get_all_keywords();
        proof {
            lemma_increasing_count(strs(keywords@));
        }
        let keyword_count = keywords.len();
        let text = self.get_all_text_content(resume);
        let weasel_any = match pattern_is_match(WEASEL_PATTERN, text.as_str()) {
            Some(b) => b,
            None => false,
        };
        let ws = weasel_word_list();
        let mut weasel_found: Vec<bool> = Vec::new();
        let mut k: usize = 0;
        while k < ws.len()
            invariant
                k <= ws.len() == weasel_words().len(),
                ws@.map_values(|s: &str| s@) == weasel_words(),
                patterns_accepted(),
                text@ == all_text(*resume),
                expected == expected_findings(*resume),
                weasel_found@ == expected.weasel_found.take(k as int),
            decreases ws.len() - k,
        {
            let p = word_pattern_text(ws[k]);
            assert(ws@.map_values(|s: &str| s@)[k as int] == ws@[k as int]@);
            assert(checked_patterns()[5 + k] == word_pattern(weasel_words()[k as int]));
            let found = match pattern_is_match(p.as_str(), text.as_str()) {
                Some(b) => b,
                None => false,
            };
            weasel_found.push(found);
            assert(weasel_found@ =~= expected.weasel_found.take(k + 1));
            k = k + 1;
        }
        let text_lower = to_lowercase(text.as_str());
        let f = TextFindings {
            email_matches,
            work_dates_inverted,
            education_dates_inverted,
            action_verbs,
            quantified,
            skill_names_lower,
            keyword_count,
            weasel_any,
            weasel_found,
            text_lower,
        };
        assert(f@.work_dates_inverted =~= expected.work_dates_inverted);
        assert(f@.education_dates_inverted =~= expected.education_dates_inverted);
        assert(f@.action_verbs =~= expected.action_verbs);
        assert(f@.quantified =~= expected.quantified);
        assert(f@.skill_names_lower =~= expected.skill_names_lower);
        assert(f@.weasel_found =~= expected.weasel_found);
        f
    }
}

} // verus!

verus! {

/// `prefix`, the decimal index `i`, then `suffix`.
fn indexed(prefix: &str, i: usize, suffix: &str) -> (r: String)
    ensures
        r@ == at(prefix@, i as int, suffix@),
{
    let mut m = String::from_str(prefix);
    push_decimal(&mut m, i);
    m.append(suffix);
    m
}

/// The number of ASCII digits in `s`.
fn count_ascii_digits(s: &str) -> (r: usize)
    ensures
        r == ascii_digit_count(s@),
{
    let cs = chars_of(s);
    let mut n: usize = 0;
    let mut i: usize = 0;
    while i < cs.len()
        invariant
            cs@ == s@,
            i <= cs.len(),
            n <= i,
            n == ascii_digit_count(cs@.take(i as int)),
        decreases cs.len() - i,
    {
        assert(cs@.take(i + 1).drop_last() =~= cs@.take(i as int));
        if '0' <= cs[i] && cs[i] <= '9' {
            n = n + 1;
        }
        i = i + 1;
    }
    assert(cs@.take(cs.len() as int) =~= cs@);
    n
}

/// The total number of highlights grows with the number of entries counted.
proof fn lemma_highlight_total_grows(jobs: Seq<Work>, i: int, n: int)
    requires
        0 <= i <= n,
    ensures
        highlight_total(jobs, i) <= highlight_total(jobs, n),
    decreases n - i,
{
    if i < n {
        lemma_highlight_total_grows(jobs, i, n - 1);
    }
}

impl ResumeValidator {
    /// Checks the basics: the name is required and the email must match the
    /// email pattern (errors); email, phone and summary are recommended, the
    /// phone needs ten digits and the summary 50 to 300 bytes (warnings).
    pub fn validate_basics(
        &self,
        basics: &Basics,
        email_matches: bool,
        errors: &mut Vec<String>,
        warnings: &mut Vec<String>,
    )
        ensures
            strs(final(errors)@) == strs(old(errors)@) + basics_errors(*basics, email_matches),
            strs(final(warnings)@) == strs(old(warnings)@) + basics_warnings(*basics),
    {
        self.basics_errors_into(basics, email_matches, errors);
        self.basics_warnings_into(basics, warnings);
    }

    /// Checks the work section, which may be empty: each entry needs a company
    /// name, a position and dates in order (errors); summaries up to 500 bytes and
    /// highlights that start with an action verb (warnings).
    pub fn validate_work(
        &self,
        work: &Vec<Work>,
        dates_inverted: &Vec<bool>,
        has_action_verb: &Vec<Vec<bool>>,
        errors: &mut Vec<String>,
        warnings: &mut Vec<String>,
    )
        requires
            dates_inverted.len() == work.len(),
            has_action_verb.len() == work.len(),
            forall|i: int| 0 <= i < work.len() ==> #[trigger] has_action_verb@[i]@.len() == work@[i].highlights@.len(),
        ensures
            strs(final(errors)@) == strs(old(errors)@) + work_errors(work@, dates_inverted@),
            strs(final(warnings)@) == strs(old(warnings)@) + work_warnings(
                work@,
                flag_rows(has_action_verb@),
            ),
    {
        self.work_errors_into(work, dates_inverted, errors);
        self.work_warnings_into(work, has_action_verb, warnings);
    }

    fn basics_errors_into(&self, b: &Basics, email_matches: bool, out: &mut Vec<String>)
        ensures
            strs(final(out)@) == strs(old(out)@) + basics_errors(*b, email_matches),
    {
        let ghost start = strs(out@);
        if b.name.as_str().is_empty() {
            push_string(out, String::from_str("Name is required in basics"));
        }
        let ghost mid = strs(out@);
        assert(mid =~= start + msg_if(b.name@.len() == 0, "Name is required in basics"@));
        match &b.email {
            Some(e) => {
                if !email_matches {
                    let mut m = String::from_str("Invalid email format: ");
                    m.append(e.as_str());
                    push_string(out, m);
                }
            },
            None => {},
        }
        assert(strs(out@) =~= start + basics_errors(*b, email_matches));
    }

    fn basics_warnings_into(&self, b: &Basics, out: &mut Vec<String>)
        ensures
            strs(final(out)@) == strs(old(out)@) + basics_warnings(*b),
    {
        let ghost start = strs(out@);
        if b.email.is_none() {
            push_string(out, String::from_str("Email is recommended for ATS optimization"));
        }
        let ghost s1 = strs(out@);
        match &b.phone {
            Some(p) => {
                if count_ascii_digits(p.as_str()) < 10 {
                    push_string(out, String::from_str("Phone number appears incomplete"));
                }
            },
            None => {
                push_string(out, String::from_str("Phone number is recommended for ATS optimization"));
            },
        }
        let ghost s2 = strs(out@);
        match &b.summary {
            Some(s) => {
                let len = byte_len_capped(s.as_str(), 301);
                if len < 50 {
                    push_string(
                        out,
                        String::from_str(
                            "Summary should be at least 50 characters for professional appearance",
                        ),
                    );
                }
                if len > 300 {
                    push_string(
                        out,
                        String::from_str("Summary should be under 300 characters for impact"),
                    );
                }
            },
            None => {
                push_string(
                    out,
                    String::from_str("Summary is highly recommended for professional resumes"),
                );
            },
        }
        assert(strs(out@) =~= start + basics_warnings(*b));
    }

    fn job_errors_into(&self, job: &Work, i: usize, inverted: bool, out: &mut Vec<String>)
        ensures
            strs(final(out)@) == strs(old(out)@) + job_errors(*job, i as int, inverted),
    {
        let ghost start = strs(out@);
        if job.name.as_str().is_empty() {
            push_string(out, indexed("Work[", i, "]: company name is required"));
        }
        if job.position.as_str().is_empty() {
            push_string(out, indexed("Work[", i, "]: position is required"));
        }
        let due = job.start_date.is_some() && match &job.end_date {
            Some(e) => !same_text(e.as_str(), "Present"),
            None => false,
        } && inverted;
        if due {
            push_string(out, indexed("Work[", i, "]: end date cannot be before start date"));
        }
        assert(strs(out@) =~= start + job_errors(*job, i as int, inverted));
    }

    fn work_errors_into(&self, jobs: &Vec<Work>, inverted: &Vec<bool>, out: &mut Vec<String>)
        requires
            inverted.len() == jobs.len(),
        ensures
            strs(final(out)@) == strs(old(out)@) + work_errors(jobs@, inverted@),
    {
        let ghost start = strs(out@);
        let mut i: usize = 0;
        while i < jobs.len()
            invariant
                i <= jobs.len() == inverted.len(),
                strs(out@) == start + jobs_errors(jobs@, inverted@, i as int),
            decreases jobs.len() - i,
        {
            self.job_errors_into(&jobs[i], i, inverted[i], out);
            assert(strs(out@) =~= start + jobs_errors(jobs@, inverted@, i + 1));
            i = i + 1;
        }
    }

    /// Checks each education entry: an institution is required and the dates
    /// must be in order (errors).
    pub fn validate_education(
        &self,
        entries: &Vec<crate::models::resume::Education>,
        inverted: &Vec<bool>,
        out: &mut Vec<String>,
    )
        requires
            inverted.len() == entries.len(),
        ensures
            strs(final(out)@) == strs(old(out)@) + education_errors(
                entries@,
                inverted@,
                entries@.len() as int,
            ),
    {
        let ghost start = strs(out@);
        let mut i: usize = 0;
        while i < entries.len()
            invariant
                i <= entries.len() == inverted.len(),
                strs(out@) == start + education_errors(entries@, inverted@, i as int),
            decreases entries.len() - i,
        {
            let e = &entries[i];
            let ghost before = strs(out@);
            if e.institution.as_str().is_empty() {
                push_string(out, indexed("Education[", i, "]: institution is required"));
            }
            let due = e.start_date.is_some() && match &e.end_date {
                Some(d) => !same_text(d.as_str(), "Present"),
                None => false,
            } && inverted[i];
            if due {
                push_string(
                    out,
                    indexed("Education[", i, "]: end date cannot be before start date"),
                );
            }
            assert(strs(out@) =~= before + education_entry_errors(*e, i as int, inverted@[i as int]));
            assert(strs(out@) =~= start + education_errors(entries@, inverted@, i + 1));
            i = i + 1;
        }
    }
}

} // verus!

verus! {

impl ResumeValidator {
    fn job_warnings_into(&self, job: &Work, i: usize, has_verb: &Vec<bool>, out: &mut Vec<String>)
        requires
            has_verb.len() == job.highlights.len(),
        ensures
            strs(final(out)@) == strs(old(out)@) + job_warnings(*job, i as int, has_verb@),
    {
        let ghost start = strs(out@);
        match &job.summary {
            Some(s) => {
                if byte_len_capped(s.as_str(), 501) > 500 {
                    push_string(
                        out,
                        indexed("Work[", i, "]: summary should be under 500 characters for readability"),
                    );
                }
            },
            None => {},
        }
        let ghost head = strs(out@);
        let mut j: usize = 0;
        while j < job.highlights.len()
            invariant
                j <= job.highlights.len() == has_verb.len(),
                strs(out@) == head + highlight_warnings(i as int, has_verb@, j as int),
            decreases job.highlights.len() - j,
        {
            if !has_verb[j] {
                let mut m = String::from_str("Work[");
                push_decimal(&mut m, i);
                m.append("].highlight[");
                push_decimal(&mut m, j);
                m.append(
                    "]: Consider starting with an action verb (e.g., 'Led', 'Delivered', 'Architected')",
                );
                push_string(out, m);
            }
            assert(strs(out@) =~= head + highlight_warnings(i as int, has_verb@, j + 1));
            j = j + 1;
        }
        assert(strs(out@) =~= start + job_warnings(*job, i as int, has_verb@));
    }

    fn work_warnings_into(&self, jobs: &Vec<Work>, has_verb: &Vec<Vec<bool>>, out: &mut Vec<String>)
        requires
            has_verb.len() == jobs.len(),
            forall|i: int| 0 <= i < jobs.len() ==> #[trigger] has_verb@[i]@.len() == jobs@[i].highlights@.len(),
        ensures
            strs(final(out)@) == strs(old(out)@) + work_warnings(jobs@, flag_rows(has_verb@)),
    {
        let ghost start = strs(out@);
        if jobs.len() == 0 {
            assert(strs(out@) =~= start + work_warnings(jobs@, flag_rows(has_verb@)));
            return ;
        }
        let mut i: usize = 0;
        while i < jobs.len()
            invariant
                i <= jobs.len() == has_verb.len(),
                forall|k: int| 0 <= k < jobs.len() ==> #[trigger] has_verb@[k]@.len() == jobs@[k].highlights@.len(),
                strs(out@) == start + jobs_warnings(jobs@, flag_rows(has_verb@), i as int),
            decreases jobs.len() - i,
        {
            assert(has_verb@[i as int]@.len() == jobs@[i as int].highlights@.len());
            self.job_warnings_into(&jobs[i], i, &has_verb[i], out);
            assert(flag_rows(has_verb@)[i as int] == has_verb@[i as int]@);
            assert(strs(out@) =~= start + jobs_warnings(jobs@, flag_rows(has_verb@), i + 1));
            i = i + 1;
        }
    }

    /// Checks the skills section: it is recommended; categories must not repeat
    /// (ignoring case), must have keywords, and keywords must have two bytes or
    /// more (warnings). `lower` holds each category's name in lowercase.
    pub fn validate_skills(&self, skills: &Vec<Skill>, lower: &Vec<String>, out: &mut Vec<String>)
        requires
            lower.len() == skills.len(),
        ensures
            strs(final(out)@) == strs(old(out)@) + skills_warnings(skills@, strs(lower@)),
    {
        let ghost start = strs(out@);
        if skills.len() == 0 {
            push_string(out, String::from_str("Skills section is recommended for ATS optimization"));
            assert(strs(out@) =~= start + skills_warnings(skills@, strs(lower@)));
            return ;
        }
        let mut i: usize = 0;
        while i < skills.len()
            invariant
                i <= skills.len() == lower.len(),
                strs(out@) == start + duplicate_warnings(skills@, strs(lower@), i as int),
            decreases skills.len() - i,
        {
            let mut seen = false;
            let mut k: usize = 0;
            while k < i
                invariant
                    k <= i < lower.len(),
                    seen == strs(lower@).take(k as int).contains(strs(lower@)[i as int]),
                decreases i - k,
            {
                let ghost names = strs(lower@);
                assert(names.take(k + 1) =~= names.take(k as int).push(names[k as int]));
                assert(names[k as int] == lower@[k as int]@ && names[i as int] == lower@[i as int]@);
                if lower[k] == lower[i] {
                    seen = true;
                    assert(names.take(k + 1)[k as int] == names[i as int]);
                } else {
                    assert(names.take(k + 1).contains(names[i as int]) ==> names.take(k as int).contains(
                        names[i as int],
                    )) by {
                        if names.take(k + 1).contains(names[i as int]) {
                            let m = choose|m: int| 0 <= m < k + 1 && #[trigger] names.take(k + 1)[m] == names[i as int];
                            assert(m < k);
                            assert(names.take(k as int)[m] == names[i as int]);
                        }
                    }
                }
                if seen {
                    assert(names.take(k + 1).contains(names[i as int])) by {
                        if names.take(k as int).contains(names[i as int]) {
                            let m = choose|m: int| 0 <= m < k && #[trigger] names.take(k as int)[m] == names[i as int];
                            assert(names.take(k + 1)[m] == names[i as int]);
                        }
                    }
                }
                k = k + 1;
            }
            assert(strs(lower@).take(i as int) == strs(lower@).take(k as int));
            if seen {
                let mut m = indexed("Skills[", i, "]: duplicate skill category: ");
                m.append(skills[i].name.as_str());
                push_string(out, m);
            }
            assert(strs(out@) =~= start + duplicate_warnings(skills@, strs(lower@), i + 1));
            i = i + 1;
        }
        let ghost head = strs(out@);
        let mut i: usize = 0;
        while i < skills.len()
            invariant
                i <= skills.len(),
                strs(out@) == head + skills_quality_warnings(skills@, i as int),
            decreases skills.len() - i,
        {
            let skill = &skills[i];
            let ghost before = strs(out@);
            if skill.keywords.len() == 0 {
                let mut m = indexed("Skills[", i, "]: category '");
                m.append(skill.name.as_str());
                m.append("' has no keywords");
                push_string(out, m);
            }
            let ghost mid = strs(out@);
            let mut k: usize = 0;
            while k < skill.keywords.len()
                invariant
                    k <= skill.keywords.len(),
                    strs(out@) == mid + short_keyword_warnings(i as int, skill.keywords@, k as int),
                decreases skill.keywords.len() - k,
            {
                if byte_len_capped(skill.keywords[k].as_str(), 2) < 2 {
                    let mut m = indexed("Skills[", i, "]: keyword '");
                    m.append(skill.keywords[k].as_str());
                    m.append("' is too short");
                    push_string(out, m);
                }
                assert(strs(out@) =~= mid + short_keyword_warnings(i as int, skill.keywords@, k + 1));
                k = k + 1;
            }
            assert(strs(out@) =~= before + skill_quality_warnings(*skill, i as int));
            assert(strs(out@) =~= head + skills_quality_warnings(skills@, i + 1));
            i = i + 1;
        }
        assert(strs(out@) =~= start + skills_warnings(skills@, strs(lower@)));
    }

    /// Checks each project: a name is recommended and the description should
    /// stay within 1000 bytes (warnings).
    pub fn validate_projects(&self, projects: &Vec<Project>, out: &mut Vec<String>)
        ensures
            strs(final(out)@) == strs(old(out)@) + projects_warnings(
                projects@,
                projects@.len() as int,
            ),
    {
        let ghost start = strs(out@);
        let mut i: usize = 0;
        while i < projects.len()
            invariant
                i <= projects.len(),
                strs(out@) == start + projects_warnings(projects@, i as int),
            decreases projects.len() - i,
        {
            let p = &projects[i];
            let ghost before = strs(out@);
            if p.name.as_str().is_empty() {
                push_string(out, indexed("Projects[", i, "]: project name is recommended"));
            }
            match &p.description {
                Some(d) => {
                    if byte_len_capped(d.as_str(), 1001) > 1000 {
                        push_string(
                            out,
                            indexed("Projects[", i, "]: description should be under 1000 characters"),
                        );
                    }
                },
                None => {},
            }
            assert(strs(out@) =~= before + project_warnings(*p, i as int));
            assert(strs(out@) =~= start + projects_warnings(projects@, i + 1));
            i = i + 1;
        }
    }
}

} // verus!

verus! {

/// The passive-voice phrases.
fn passive_phrase_list() -> (r: Vec<&'static str>)
    ensures
        r@.map_values(|s: &str| s@) == passive_phrases(),
{
    let r = vec![
        "was responsible for",
        "was tasked with",
        "helped with",
        "assisted in",
        "participated in",
        "involved in",
    ];
    assert(r@.map_values(|s: &str| s@) =~= passive_phrases());
    r
}

proof fn lemma_percent_bound(q: nat, t: nat)
    requires
        q <= t,
        t > 0,
    ensures
        100 * q / t <= 100,
{
    assert(100 * q <= 100 * t) by (nonlinear_arith)
        requires
            q <= t,
    ;
    assert(100 * q / t <= 100 * t / t) by (nonlinear_arith)
        requires
            100 * q <= 100 * t,
            t > 0,
    ;
    assert(100 * t / t == 100) by (nonlinear_arith)
        requires
            t > 0,
    ;
}

impl ResumeValidator {
    /// ATS checks: at least 20 keywords, and at least half of the work
    /// highlights quantified (warnings). `quantified` flags each highlight that
    /// holds a digit.
    pub fn validate_ats_optimization(
        &self,
        jobs: &Vec<Work>,
        keyword_count: usize,
        quantified: &Vec<Vec<bool>>,
        out: &mut Vec<String>,
    )
        requires
            quantified.len() == jobs.len(),
            forall|i: int| 0 <= i < jobs.len() ==> #[trigger] quantified@[i]@.len() == jobs@[i].highlights@.len(),
            highlight_total(jobs@, jobs@.len() as int) <= usize::MAX,
        ensures
            strs(final(out)@) == strs(old(out)@) + ats_warnings(
                jobs@,
                keyword_count as nat,
                flag_rows(quantified@),
            ),
    {
        let ghost start = strs(out@);
        if keyword_count < 20 {
            push_string(
                out,
                String::from_str("Consider adding more keywords for better ATS optimization"),
            );
        }
        let ghost head = strs(out@);
        let ghost rows = flag_rows(quantified@);
        let mut total: usize = 0;
        let mut q: usize = 0;
        let mut i: usize = 0;
        while i < jobs.len()
            invariant
                i <= jobs.len() == quantified.len(),
                forall|k: int| 0 <= k < jobs.len() ==> #[trigger] quantified@[k]@.len() == jobs@[k].highlights@.len(),
                highlight_total(jobs@, jobs@.len() as int) <= usize::MAX,
                rows == flag_rows(quantified@),
                total == highlight_total(jobs@, i as int),
                q == quantified_count(rows, i as int),
                q <= total,
            decreases jobs.len() - i,
        {
            proof {
                lemma_highlight_total_grows(jobs@, i + 1, jobs@.len() as int);
            }
            let row = &quantified[i];
            assert(rows[i as int] == row@);
            assert(row@.len() == jobs@[i as int].highlights@.len());
            let mut j: usize = 0;
            let ghost q0 = q;
            assert(highlight_total(jobs@, i + 1) == total + row.len());
            while j < row.len()
                invariant
                    j <= row.len(),
                    q0 + row.len() <= usize::MAX,
                    q == q0 + count_true(row@.take(j as int)),
                    q <= q0 + j,
                decreases row.len() - j,
            {
                assert(row@.take(j + 1).drop_last() =~= row@.take(j as int));
                if row[j] {
                    q = q + 1;
                }
                j = j + 1;
            }
            assert(row@.take(row.len() as int) =~= row@);
            total = total + row.len();
            i = i + 1;
        }
        if total > 0 {
            if (q as u128) * 2 < total as u128 {
                proof {
                    lemma_percent_bound(q as nat, total as nat);
                }
                let pct: usize = if (q as u128) * 100 == (total as u128) * 29 {
                    28
                } else {
                    ((q as u128) * 100 / (total as u128)) as usize
                };
                let mut m = String::from_str("Only ");
                push_decimal(&mut m, pct);
                m.append(
                    "% of achievements are quantified. Consider adding metrics and numbers for impact (e.g., 'Reduced costs by 35%', 'Led team of 5 engineers')",
                );
                push_string(out, m);
            }
        } else {
            push_string(
                out,
                String::from_str("Consider adding quantified achievements with metrics and numbers"),
            );
        }
        assert(strs(out@) =~= start + ats_warnings(jobs@, keyword_count as nat, rows));
    }

    /// Content-quality checks over the resume's text: weasel words, passive
    /// voice, length.
    pub fn validate_content_quality(
        &self,
        weasel_any: bool,
        weasel_found: &Vec<bool>,
        lower_text: &String,
        text: &String,
        warnings: &mut Vec<String>,
    )
        requires
            weasel_found.len() == weasel_words().len(),
        ensures
            strs(final(warnings)@) == strs(old(warnings)@) + weasel_warnings(weasel_any, weasel_found@)
                + passive_warnings(lower_text@, passive_phrases().len() as int) + length_warnings(
                text@,
            ),
    {
        let ghost start = strs(warnings@);
        self.check_weasel_words(weasel_any, weasel_found, warnings);
        self.check_passive_voice(lower_text, warnings);
        self.check_length_optimization(text, warnings);
        assert(strs(warnings@) =~= start + weasel_warnings(weasel_any, weasel_found@)
            + passive_warnings(lower_text@, passive_phrases().len() as int) + length_warnings(text@));
    }

    /// Reports the weasel words that occur, as whole words in any case, in the
    /// list's order. `any` answers the combined pattern, `found` each word's own.
    pub fn check_weasel_words(&self, any: bool, found: &Vec<bool>, out: &mut Vec<String>)
        requires
            found.len() == weasel_words().len(),
        ensures
            strs(final(out)@) == strs(old(out)@) + weasel_warnings(any, found@),
    {
        let ghost start = strs(out@);
        let ws = weasel_word_list();
        let mut listed: Vec<String> = Vec::new();
        let mut k: usize = 0;
        while k < ws.len()
            invariant
                k <= ws.len() == found.len() == weasel_words().len(),
                ws@.map_values(|s: &str| s@) == weasel_words(),
                strs(listed@) == found_words(weasel_words(), found@, k as int),
            decreases ws.len() - k,
        {
            assert(ws@.map_values(|s: &str| s@)[k as int] == ws@[k as int]@);
            if found[k] {
                push_string(&mut listed, String::from_str(ws[k]));
            }
            assert(strs(listed@) =~= found_words(weasel_words(), found@, k + 1));
            k = k + 1;
        }
        if any && listed.len() > 0 {
            let mut m = String::from_str("Consider removing weasel words: ");
            let joined = join_strings(&listed, ", ");
            m.append(joined.as_str());
            push_string(out, m);
        }
        assert(strs(out@) =~= start + weasel_warnings(any, found@));
    }

    /// Reports each passive-voice phrase that occurs in the lowercase text,
    /// one warning per phrase.
    pub fn check_passive_voice(&self, lower_text: &String, out: &mut Vec<String>)
        ensures
            strs(final(out)@) == strs(old(out)@) + passive_warnings(
                lower_text@,
                passive_phrases().len() as int,
            ),
    {
        let ghost start = strs(out@);
        let ps = passive_phrase_list();
        let mut k: usize = 0;
        while k < ps.len()
            invariant
                k <= ps.len() == passive_phrases().len(),
                ps@.map_values(|s: &str| s@) == passive_phrases(),
                strs(out@) == start + passive_warnings(lower_text@, k as int),
            decreases ps.len() - k,
        {
            assert(ps@.map_values(|s: &str| s@)[k as int] == ps@[k as int]@);
            if contains_text(lower_text.as_str(), ps[k]) {
                let mut m = String::from_str("Consider using active voice instead of: '");
                m.append(ps[k]);
                m.append("'");
                push_string(out, m);
            }
            assert(strs(out@) =~= start + passive_warnings(lower_text@, k + 1));
            k = k + 1;
        }
    }

    /// Warns where the text has fewer than 150 words or more than 3000.
    pub fn check_length_optimization(&self, text: &String, out: &mut Vec<String>)
        ensures
            strs(final(out)@) == strs(old(out)@) + length_warnings(text@),
    {
        let ghost start = strs(out@);
        let n = count_words(text.as_str());
        if n < 150 {
            let mut m = String::from_str("Resume is ");
            push_decimal(&mut m, n);
            m.append(" words \u{2014} content appears very thin. Consider expanding.");
            push_string(out, m);
        } else if n > 3000 {
            let mut m = String::from_str("Resume is ");
            push_decimal(&mut m, n);
            m.append(" words \u{2014} consider trimming for readability.");
            push_string(out, m);
        }
        assert(strs(out@) =~= start + length_warnings(text@));
    }
}

} // verus!

verus! {

/// Whether the resume's highlights, all work entries together, can be
/// counted in a `usize` (as they must be, to be held in memory).
pub open spec fn highlights_countable(r: Resume) -> bool {
    highlight_total(r.work@, r.work@.len() as int) <= usize::MAX
}

/// The report for resume `r` given findings `f`: valid exactly when there is
/// no error.
pub open spec fn report_for(r: Resume, f: FindingsView) -> ReportView {
    ReportView {
        is_valid: report_errors(r, f).len() == 0,
        errors: report_errors(r, f),
        warnings: report_warnings(r, f),
    }
}

impl ResumeValidator {
    /// Builds the report of a resume from what the regular expressions and
    /// case mapping found in it.
    pub fn build_report(&self, resume: &Resume, findings: &TextFindings) -> (rep: ValidationReport)
        requires
            findings_fit(*resume, findings@),
            highlights_countable(*resume),
        ensures
            rep@ == report_for(*resume, findings@),
    {
        let mut errors: Vec<String> = Vec::new();
        let mut warnings: Vec<String> = Vec::new();
        proof {
            assert forall|i: int| 0 <= i < resume.work@.len() implies #[trigger] findings.action_verbs@[i]@.len()
                == resume.work@[i].highlights@.len() by {
                assert(findings@.action_verbs[i] == findings.action_verbs@[i]@);
            }
            assert forall|i: int| 0 <= i < resume.work@.len() implies #[trigger] findings.quantified@[i]@.len()
                == resume.work@[i].highlights@.len() by {
                assert(findings@.quantified[i] == findings.quantified@[i]@);
            }
        }
        self.validate_basics(&resume.basics, findings.email_matches, &mut errors, &mut warnings);
        self.validate_work(
            &resume.work,
            &findings.work_dates_inverted,
            &findings.action_verbs,
            &mut errors,
            &mut warnings,
        );
        self.validate_education(&resume.education, &findings.education_dates_inverted, &mut errors);
        self.validate_skills(&resume.skills, &findings.skill_names_lower, &mut warnings);
        self.validate_projects(&resume.projects, &mut warnings);
        self.validate_ats_optimization(&resume.work, findings.keyword_count, &findings.quantified, &mut warnings);
        let text = self.get_all_text_content(resume);
        self.validate_content_quality(
            findings.weasel_any,
            &findings.weasel_found,
            &findings.text_lower,
            &text,
            &mut warnings,
        );
        assert(strs(errors@) =~= report_errors(*resume, findings@));
        assert(strs(warnings@) =~= report_warnings(*resume, findings@));
        let is_valid = errors.len() == 0;
        ValidationReport { is_valid, errors, warnings }
    }

    /// Validates a resume against the JSON Resume schema and best practices.
    ///
    /// The report lists errors (name, email format, work and education
    /// required fields and date ordering) and warnings (recommended fields,
    /// lengths, action verbs, duplicate or weak skills, keyword count,
    /// quantified achievements, weasel words, passive voice, overall length);
    /// the resume is valid exactly when there is no error, whatever the
    /// warnings. The only failure is the regex crate rejecting one of the
    /// validator's own patterns.
    pub fn validate(&self, resume: &Resume) -> (r: Result<ValidationReport, ValidationError>)
        requires
            highlights_countable(*resume),
        ensures
            r is Ok <==> patterns_accepted(),
            r matches Err(ValidationError::PatternRejected(p)) ==> first_rejected(checked_patterns())
                == Some(p@),
            r matches Ok(rep) ==> rep@ == report_for(*resume, expected_findings(*resume)),
    {
        match check_patterns() {
            Err(e) => Err(e),
            Ok(()) => {
                let findings = self.collect_findings(resume);
                proof {
                    let f = findings@;
                    assert forall|i: int| 0 <= i < resume.work@.len() implies #[trigger] f.action_verbs[i].len()
                        == resume.work@[i].highlights@.len() by {}
                    assert forall|i: int| 0 <= i < resume.work@.len() implies #[trigger] f.quantified[i].len()
                        == resume.work@[i].highlights@.len() by {}
                }
                Ok(self.build_report(resume, &findings))
            },
        }
    }
}

} // verus!

verus! {

/// A resume is valid exactly when it has no error: warnings never make it
/// invalid.
pub proof fn validity_depends_only_on_errors(r: Resume, f: FindingsView)
    ensures
        report_for(r, f).is_valid <==> report_for(r, f).errors.len() == 0,
{
}

/// An entry whose end date is `Present` never gets a date-ordering error,
/// whatever its start date.
pub proof fn present_end_date_is_never_inverted(start: Option<String>, end: Option<String>, inverted: bool)
    requires
        end matches Some(e) && e@ == "Present"@,
    ensures
        !crate::validation::rules::date_error_due(start, end, inverted),
{
}

} // verus!
