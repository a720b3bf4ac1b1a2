//! What a validation report holds, stated over the resume and over the
//! findings that the regular expressions and Unicode case mapping give.

use vstd::prelude::*;

use crate::models::resume::{
    keyword_candidates, Basics, Education, Project, Resume, Skill, Work,
};
use crate::text::{
    decimal, join, lemma_concat_contains, lemma_strs_contains, lowercase, occurs_in, strs, utf8_len,
    words,
};
use crate::validation::patterns::{
    regex_escaped, regex_is_match, ACTION_VERB_PATTERN, DIGIT_PATTERN, EMAIL_PATTERN,
    WEASEL_PATTERN,
};
use crate::validation::dates::{date_after, date_value};

verus! {

/// `prefix`, the decimal index `i`, then `suffix`: the shape of most messages.
pub open spec fn at(prefix: Seq<char>, i: int, suffix: Seq<char>) -> Seq<char> {
    prefix + decimal(i as nat) + suffix
}

/// A one-message list where `cond` holds, else an empty one.
pub open spec fn msg_if(cond: bool, msg: Seq<char>) -> Seq<Seq<char>> {
    if cond {
        seq![msg]
    } else {
        seq![]
    }
}

/// The number of ASCII digits in `s`.
pub open spec fn ascii_digit_count(s: Seq<char>) -> nat
    decreases s.len(),
{
    if s.len() == 0 {
        0
    } else {
        ascii_digit_count(s.drop_last()) + if '0' <= s.last() && s.last() <= '9' {
            1nat
        } else {
            0nat
        }
    }
}

// ----- Basics -----

/// Errors of the basics: a missing name; an email that does not match the
/// email pattern.
pub open spec fn basics_errors(b: Basics, email_matches: bool) -> Seq<Seq<char>> {
    msg_if(b.name@.len() == 0, "Name is required in basics"@) + match b.email {
        Some(e) => msg_if(!email_matches, "Invalid email format: "@ + e@),
        None => seq![],
    }
}

/// Warnings of the basics: no email; a phone with fewer than ten digits or
/// none; a summary under 50 or over 300 bytes, or none.
pub open spec fn basics_warnings(b: Basics) -> Seq<Seq<char>> {
    (match b.email {
        Some(_) => seq![],
        None => seq!["Email is recommended for ATS optimization"@],
    }) + (match b.phone {
        Some(p) => msg_if(ascii_digit_count(p@) < 10, "Phone number appears incomplete"@),
        None => seq!["Phone number is recommended for ATS optimization"@],
    }) + match b.summary {
        Some(s) => msg_if(
            utf8_len(s@) < 50,
            "Summary should be at least 50 characters for professional appearance"@,
        ) + msg_if(utf8_len(s@) > 300, "Summary should be under 300 characters for impact"@),
        None => seq!["Summary is highly recommended for professional resumes"@],
    }
}

// ----- Work -----

/// Whether a date-ordering error is due: both dates given, the end date is
/// not `Present`, and the end lies before the start.
pub open spec fn date_error_due(start: Option<String>, end: Option<String>, inverted: bool) -> bool {
    &&& start is Some
    &&& end matches Some(e) && e@ != "Present"@
    &&& inverted
}

/// Errors of work entry `i`: no company name, no position, dates out of order.
pub open spec fn job_errors(job: Work, i: int, inverted: bool) -> Seq<Seq<char>> {
    msg_if(job.name@.len() == 0, at("Work["@, i, "]: company name is required"@)) + msg_if(
        job.position@.len() == 0,
        at("Work["@, i, "]: position is required"@),
    ) + msg_if(
        date_error_due(job.start_date, job.end_date, inverted),
        at("Work["@, i, "]: end date cannot be before start date"@),
    )
}

/// Errors of the first `n` work entries.
pub open spec fn jobs_errors(jobs: Seq<Work>, inverted: Seq<bool>, n: int) -> Seq<Seq<char>>
    decreases n,
{
    if n <= 0 {
        seq![]
    } else {
        jobs_errors(jobs, inverted, n - 1) + job_errors(jobs[n - 1], n - 1, inverted[n - 1])
    }
}

/// Errors of the work section: each entry's errors, in order. The section is
/// optional, so an empty one has none.
pub open spec fn work_errors(jobs: Seq<Work>, inverted: Seq<bool>) -> Seq<Seq<char>> {
    jobs_errors(jobs, inverted, jobs.len() as int)
}

/// Warnings for the first `n` highlights of work entry `i` that do not start
/// with an action verb.
pub open spec fn highlight_warnings(i: int, has_verb: Seq<bool>, n: int) -> Seq<Seq<char>>
    decreases n,
{
    if n <= 0 {
        seq![]
    } else {
        highlight_warnings(i, has_verb, n - 1) + msg_if(
            !has_verb[n - 1],
            "Work["@ + decimal(i as nat) + "].highlight["@ + decimal((n - 1) as nat)
                + "]: Consider starting with an action verb (e.g., 'Led', 'Delivered', 'Architected')"@,
        )
    }
}

/// Warnings of work entry `i`: a summary over 500 bytes, then its highlights.
pub open spec fn job_warnings(job: Work, i: int, has_verb: Seq<bool>) -> Seq<Seq<char>> {
    (match job.summary {
        Some(s) => msg_if(
            utf8_len(s@) > 500,
            at("Work["@, i, "]: summary should be under 500 characters for readability"@),
        ),
        None => seq![],
    }) + highlight_warnings(i, has_verb, job.highlights@.len() as int)
}

/// Warnings of the first `n` work entries.
pub open spec fn jobs_warnings(jobs: Seq<Work>, has_verb: Seq<Seq<bool>>, n: int) -> Seq<Seq<char>>
    decreases n,
{
    if n <= 0 {
        seq![]
    } else {
        jobs_warnings(jobs, has_verb, n - 1) + job_warnings(jobs[n - 1], n - 1, has_verb[n - 1])
    }
}

/// Warnings of the work section (none where it is empty).
pub open spec fn work_warnings(jobs: Seq<Work>, has_verb: Seq<Seq<bool>>) -> Seq<Seq<char>> {
    if jobs.len() == 0 {
        seq![]
    } else {
        jobs_warnings(jobs, has_verb, jobs.len() as int)
    }
}

// ----- Education -----

/// Errors of education entry `i`: no institution, dates out of order.
pub open spec fn education_entry_errors(e: Education, i: int, inverted: bool) -> Seq<Seq<char>> {
    msg_if(e.institution@.len() == 0, at("Education["@, i, "]: institution is required"@)) + msg_if(
        date_error_due(e.start_date, e.end_date, inverted),
        at("Education["@, i, "]: end date cannot be before start date"@),
    )
}

/// Errors of the first `n` education entries.
pub open spec fn education_errors(es: Seq<Education>, inverted: Seq<bool>, n: int) -> Seq<Seq<char>>
    decreases n,
{
    if n <= 0 {
        seq![]
    } else {
        education_errors(es, inverted, n - 1) + education_entry_errors(
            es[n - 1],
            n - 1,
            inverted[n - 1],
        )
    }
}

// ----- Skills -----

/// Warnings for the first `n` skill categories whose lowercase name repeats an
/// earlier one.
pub open spec fn duplicate_warnings(skills: Seq<Skill>, lower: Seq<Seq<char>>, n: int) -> Seq<
    Seq<char>,
>
    decreases n,
{
    if n <= 0 {
        seq![]
    } else {
        duplicate_warnings(skills, lower, n - 1) + msg_if(
            lower.take(n - 1).contains(lower[n - 1]),
            at("Skills["@, n - 1, "]: duplicate skill category: "@) + skills[n - 1].name@,
        )
    }
}

/// Warnings for the first `n` keywords of skill category `i` shorter than two
/// bytes.
pub open spec fn short_keyword_warnings(i: int, keywords: Seq<String>, n: int) -> Seq<Seq<char>>
    decreases n,
{
    if n <= 0 {
        seq![]
    } else {
        short_keyword_warnings(i, keywords, n - 1) + msg_if(
            utf8_len(keywords[n - 1]@) < 2,
            at("Skills["@, i, "]: keyword '"@) + keywords[n - 1]@ + "' is too short"@,
        )
    }
}

/// Warnings of skill category `i`: no keywords, then each short keyword.
pub open spec fn skill_quality_warnings(skill: Skill, i: int) -> Seq<Seq<char>> {
    msg_if(
        skill.keywords@.len() == 0,
        at("Skills["@, i, "]: category '"@) + skill.name@ + "' has no keywords"@,
    ) + short_keyword_warnings(i, skill.keywords@, skill.keywords@.len() as int)
}

/// Keyword warnings of the first `n` skill categories.
pub open spec fn skills_quality_warnings(skills: Seq<Skill>, n: int) -> Seq<Seq<char>>
    decreases n,
{
    if n <= 0 {
        seq![]
    } else {
        skills_quality_warnings(skills, n - 1) + skill_quality_warnings(skills[n - 1], n - 1)
    }
}

/// Warnings of the skills section: it is recommended; then the duplicate
/// categories, then the keyword warnings of each category.
pub open spec fn skills_warnings(skills: Seq<Skill>, lower: Seq<Seq<char>>) -> Seq<Seq<char>> {
    if skills.len() == 0 {
        seq!["Skills section is recommended for ATS optimization"@]
    } else {
        duplicate_warnings(skills, lower, skills.len() as int) + skills_quality_warnings(
            skills,
            skills.len() as int,
        )
    }
}

// ----- Projects -----

/// Warnings of project `i`: no name; a description over 1000 bytes.
pub open spec fn project_warnings(p: Project, i: int) -> Seq<Seq<char>> {
    msg_if(p.name@.len() == 0, at("Projects["@, i, "]: project name is recommended"@)) + match p.description {
        Some(d) => msg_if(
            utf8_len(d@) > 1000,
            at("Projects["@, i, "]: description should be under 1000 characters"@),
        ),
        None => seq![],
    }
}

/// Warnings of the first `n` projects.
pub open spec fn projects_warnings(ps: Seq<Project>, n: int) -> Seq<Seq<char>>
    decreases n,
{
    if n <= 0 {
        seq![]
    } else {
        projects_warnings(ps, n - 1) + project_warnings(ps[n - 1], n - 1)
    }
}

// ----- ATS optimisation -----

/// The number of `true` items.
pub open spec fn count_true(s: Seq<bool>) -> nat
    decreases s.len(),
{
    if s.len() == 0 {
        0
    } else {
        count_true(s.drop_last()) + if s.last() {
            1nat
        } else {
            0nat
        }
    }
}

/// The number of quantified highlights among the first `n` work entries.
pub open spec fn quantified_count(q: Seq<Seq<bool>>, n: int) -> nat
    decreases n,
{
    if n <= 0 {
        0
    } else {
        quantified_count(q, n - 1) + count_true(q[n - 1])
    }
}

/// The number of highlights of the first `n` work entries.
pub open spec fn highlight_total(jobs: Seq<Work>, n: int) -> nat
    decreases n,
{
    if n <= 0 {
        0
    } else {
        highlight_total(jobs, n - 1) + jobs[n - 1].highlights@.len()
    }
}

/// The share `q` of `t` highlights as reported, in whole percent: the
/// double-precision quotient `q / t` times `100.0`, truncated. For a share
/// under one half and fewer than 2^45 highlights, that is the exact share
/// rounded down, except at exactly 29%, where `0.29 * 100.0` evaluates to
/// 28.999999999999996 and so reads 28.
pub open spec fn shown_percent(q: nat, t: nat) -> nat {
    if 100 * q == 29 * t {
        28
    } else {
        100 * q / t
    }
}

/// ATS warnings: fewer than 20 keywords; fewer than half of the highlights
/// quantified (with the share in whole percent, see `shown_percent`), or no
/// highlights at all.
pub open spec fn ats_warnings(jobs: Seq<Work>, keyword_count: nat, quantified: Seq<Seq<bool>>) -> Seq<
    Seq<char>,
> {
    let total = highlight_total(jobs, jobs.len() as int);
    let q = quantified_count(quantified, jobs.len() as int);
    msg_if(keyword_count < 20, "Consider adding more keywords for better ATS optimization"@) + if total
        > 0 {
        msg_if(
            2 * q < total,
            "Only "@ + decimal(shown_percent(q, total))
                + "% of achievements are quantified. Consider adding metrics and numbers for impact (e.g., 'Reduced costs by 35%', 'Led team of 5 engineers')"@,
        )
    } else {
        seq!["Consider adding quantified achievements with metrics and numbers"@]
    }
}

// ----- Content quality -----

/// The weasel words, in the order they are reported.
pub open spec fn weasel_words() -> Seq<Seq<char>> {
    seq![
        "basically"@,
        "simply"@,
        "probably"@,
        "might"@,
        "could"@,
        "perhaps"@,
        "very"@,
        "really"@,
        "quite"@,
        "somewhat"@,
        "fairly"@,
        "significantly"@,
        "various"@,
        "numerous"@,
        "highly"@,
        "excellent"@,
    ]
}

/// The pattern that finds `w` as a whole word, in any case.
pub open spec fn word_pattern(w: Seq<char>) -> Seq<char> {
    "(?i)\\b"@ + regex_escaped(w) + "\\b"@
}

/// The words among the first `n` whose flag is set.
pub open spec fn found_words(ws: Seq<Seq<char>>, found: Seq<bool>, n: int) -> Seq<Seq<char>>
    decreases n,
{
    if n <= 0 {
        seq![]
    } else {
        found_words(ws, found, n - 1) + if found[n - 1] {
            seq![ws[n - 1]]
        } else {
            seq![]
        }
    }
}

/// The weasel-word warning: where any weasel word occurs, the ones found, in
/// list order.
pub open spec fn weasel_warnings(any: bool, found: Seq<bool>) -> Seq<Seq<char>> {
    let f = found_words(weasel_words(), found, weasel_words().len() as int);
    msg_if(any && f.len() > 0, "Consider removing weasel words: "@ + join(f, ", "@))
}

/// The phrases that indicate passive voice.
pub open spec fn passive_phrases() -> Seq<Seq<char>> {
    seq![
        "was responsible for"@,
        "was tasked with"@,
        "helped with"@,
        "assisted in"@,
        "participated in"@,
        "involved in"@,
    ]
}

/// One warning for each of the first `n` passive phrases that occurs in the
/// lowercase text.
pub open spec fn passive_warnings(lower_text: Seq<char>, n: int) -> Seq<Seq<char>>
    decreases n,
{
    if n <= 0 {
        seq![]
    } else {
        passive_warnings(lower_text, n - 1) + msg_if(
            occurs_in(lower_text, passive_phrases()[n - 1]),
            "Consider using active voice instead of: '"@ + passive_phrases()[n - 1] + "'"@,
        )
    }
}

/// The length warning: under 150 words, or over 3000.
pub open spec fn length_warnings(text: Seq<char>) -> Seq<Seq<char>> {
    let n = words(text).len();
    if n < 150 {
        seq![
            "Resume is "@ + decimal(n)
                + " words \u{2014} content appears very thin. Consider expanding."@,
        ]
    } else if n > 3000 {
        seq!["Resume is "@ + decimal(n) + " words \u{2014} consider trimming for readability."@]
    } else {
        seq![]
    }
}

// ----- The text the content checks read -----

/// The text of an optional field, where present.
pub open spec fn optional_part(o: Option<String>) -> Seq<Seq<char>> {
    match o {
        Some(s) => seq![s@],
        None => seq![],
    }
}

/// The text of the first `n` work entries: position, company, summary,
/// highlights.
pub open spec fn jobs_text(jobs: Seq<Work>, n: int) -> Seq<Seq<char>>
    decreases n,
{
    if n <= 0 {
        seq![]
    } else {
        let j = jobs[n - 1];
        jobs_text(jobs, n - 1) + seq![j.position@, j.name@] + optional_part(j.summary) + strs(
            j.highlights@,
        )
    }
}

/// The text of the first `n` volunteer entries: summary, highlights.
pub open spec fn volunteer_text(vs: Seq<crate::models::resume::Volunteer>, n: int) -> Seq<Seq<char>>
    decreases n,
{
    if n <= 0 {
        seq![]
    } else {
        volunteer_text(vs, n - 1) + optional_part(vs[n - 1].summary) + strs(vs[n - 1].highlights@)
    }
}

/// The keywords of the first `n` skill categories.
pub open spec fn skills_text(skills: Seq<Skill>, n: int) -> Seq<Seq<char>>
    decreases n,
{
    if n <= 0 {
        seq![]
    } else {
        skills_text(skills, n - 1) + strs(skills[n - 1].keywords@)
    }
}

/// The text of the first `n` projects: name, description, highlights.
pub open spec fn projects_text(ps: Seq<Project>, n: int) -> Seq<Seq<char>>
    decreases n,
{
    if n <= 0 {
        seq![]
    } else {
        let p = ps[n - 1];
        projects_text(ps, n - 1) + seq![p.name@] + optional_part(p.description) + strs(
            p.highlights@,
        )
    }
}

/// The pieces of human-readable text of a resume, in order: name, label,
/// summary; each work entry's position, company, summary and highlights;
/// each volunteer summary and highlights; every skill keyword; each
/// project's name, description and highlights.
pub open spec fn text_parts(r: Resume) -> Seq<Seq<char>> {
    seq![r.basics.name@] + optional_part(r.basics.label) + optional_part(r.basics.summary)
        + jobs_text(r.work@, r.work@.len() as int) + volunteer_text(
        r.volunteer@,
        r.volunteer@.len() as int,
    ) + skills_text(r.skills@, r.skills@.len() as int) + projects_text(
        r.projects@,
        r.projects@.len() as int,
    )
}

/// All human-readable text of a resume, the pieces joined by single spaces.
pub open spec fn all_text(r: Resume) -> Seq<char> {
    join(text_parts(r), " "@)
}

// ----- Findings and the report -----

/// What the regular expressions and case mapping found in a resume, in the
/// shape of the resume.
pub struct FindingsView {
    pub email_matches: bool,
    pub work_dates_inverted: Seq<bool>,
    pub education_dates_inverted: Seq<bool>,
    pub action_verbs: Seq<Seq<bool>>,
    pub quantified: Seq<Seq<bool>>,
    pub skill_names_lower: Seq<Seq<char>>,
    pub keyword_count: nat,
    pub weasel_any: bool,
    pub weasel_found: Seq<bool>,
    pub text_lower: Seq<char>,
}

/// Whether an entry's dates are both given and the end lies before the start.
pub open spec fn dates_inverted(start: Option<String>, end: Option<String>) -> bool {
    match (start, end) {
        (Some(s), Some(e)) => date_after(date_value(s@), date_value(e@)),
        _ => false,
    }
}

/// The findings for resume `r`.
pub open spec fn expected_findings(r: Resume) -> FindingsView {
    FindingsView {
        email_matches: match r.basics.email {
            Some(e) => regex_is_match(EMAIL_PATTERN@, e@),
            None => false,
        },
        work_dates_inverted: Seq::new(
            r.work@.len(),
            |i: int| dates_inverted(r.work@[i].start_date, r.work@[i].end_date),
        ),
        education_dates_inverted: Seq::new(
            r.education@.len(),
            |i: int| dates_inverted(r.education@[i].start_date, r.education@[i].end_date),
        ),
        action_verbs: Seq::new(
            r.work@.len(),
            |i: int|
                Seq::new(
                    r.work@[i].highlights@.len(),
                    |j: int| regex_is_match(ACTION_VERB_PATTERN@, r.work@[i].highlights@[j]@),
                ),
        ),
        quantified: Seq::new(
            r.work@.len(),
            |i: int|
                Seq::new(
                    r.work@[i].highlights@.len(),
                    |j: int| regex_is_match(DIGIT_PATTERN@, r.work@[i].highlights@[j]@),
                ),
        ),
        skill_names_lower: Seq::new(r.skills@.len(), |i: int| lowercase(r.skills@[i].name@)),
        keyword_count: keyword_candidates(r).to_set().len(),
        weasel_any: regex_is_match(WEASEL_PATTERN@, all_text(r)),
        weasel_found: Seq::new(
            weasel_words().len(),
            |k: int| regex_is_match(word_pattern(weasel_words()[k]), all_text(r)),
        ),
        text_lower: lowercase(all_text(r)),
    }
}

/// Whether findings `f` have the shape of resume `r`.
pub open spec fn findings_fit(r: Resume, f: FindingsView) -> bool {
    &&& f.work_dates_inverted.len() == r.work@.len()
    &&& f.education_dates_inverted.len() == r.education@.len()
    &&& f.action_verbs.len() == r.work@.len()
    &&& f.quantified.len() == r.work@.len()
    &&& forall|i: int|
        0 <= i < r.work@.len() ==> #[trigger] f.action_verbs[i].len()
            == r.work@[i].highlights@.len()
    &&& forall|i: int|
        0 <= i < r.work@.len() ==> #[trigger] f.quantified[i].len() == r.work@[i].highlights@.len()
    &&& f.skill_names_lower.len() == r.skills@.len()
    &&& f.weasel_found.len() == weasel_words().len()
}

/// The errors of resume `r` given findings `f`, in the order they are found.
pub open spec fn report_errors(r: Resume, f: FindingsView) -> Seq<Seq<char>> {
    basics_errors(r.basics, f.email_matches) + work_errors(r.work@, f.work_dates_inverted)
        + education_errors(
        r.education@,
        f.education_dates_inverted,
        r.education@.len() as int,
    )
}

/// The warnings of resume `r` given findings `f`, in the order they are found.
pub open spec fn report_warnings(r: Resume, f: FindingsView) -> Seq<Seq<char>> {
    basics_warnings(r.basics) + work_warnings(r.work@, f.action_verbs) + skills_warnings(
        r.skills@,
        f.skill_names_lower,
    ) + projects_warnings(r.projects@, r.projects@.len() as int) + ats_warnings(
        r.work@,
        f.keyword_count,
        f.quantified,
    ) + weasel_warnings(f.weasel_any, f.weasel_found) + passive_warnings(
        f.text_lower,
        passive_phrases().len() as int,
    ) + length_warnings(all_text(r))
}

// ----- Laws: what the content checks read -----

proof fn lemma_jobs_text_holds(jobs: Seq<Work>, n: int, i: int)
    requires
        0 <= i < n <= jobs.len(),
    ensures
        jobs_text(jobs, n).contains(jobs[i].position@),
        jobs_text(jobs, n).contains(jobs[i].name@),
        jobs[i].summary is Some ==> jobs_text(jobs, n).contains(jobs[i].summary->0@),
        forall|j: int|
            0 <= j < jobs[i].highlights@.len() ==> jobs_text(jobs, n).contains(
                #[trigger] jobs[i].highlights@[j]@,
            ),
    decreases n,
{
    let j = jobs[n - 1];
    let a = jobs_text(jobs, n - 1);
    let b = seq![j.position@, j.name@];
    let c = optional_part(j.summary);
    let d = strs(j.highlights@);
    lemma_concat_contains(a, b);
    lemma_concat_contains(a + b, c);
    lemma_concat_contains(a + b + c, d);
    assert(jobs_text(jobs, n) == a + b + c + d);
    if i < n - 1 {
        lemma_jobs_text_holds(jobs, n - 1, i);
    } else {
        assert(b[0] == j.position@);
        assert(b[1] == j.name@);
        if j.summary is Some {
            assert(c[0] == j.summary->0@);
        }
        lemma_strs_contains(j.highlights@);
    }
}

proof fn lemma_volunteer_text_holds(vs: Seq<crate::models::resume::Volunteer>, n: int, i: int)
    requires
        0 <= i < n <= vs.len(),
    ensures
        vs[i].summary is Some ==> volunteer_text(vs, n).contains(vs[i].summary->0@),
        forall|j: int|
            0 <= j < vs[i].highlights@.len() ==> volunteer_text(vs, n).contains(
                #[trigger] vs[i].highlights@[j]@,
            ),
    decreases n,
{
    let v = vs[n - 1];
    let a = volunteer_text(vs, n - 1);
    let c = optional_part(v.summary);
    let d = strs(v.highlights@);
    lemma_concat_contains(a, c);
    lemma_concat_contains(a + c, d);
    assert(volunteer_text(vs, n) == a + c + d);
    if i < n - 1 {
        lemma_volunteer_text_holds(vs, n - 1, i);
    } else {
        if v.summary is Some {
            assert(c[0] == v.summary->0@);
        }
        lemma_strs_contains(v.highlights@);
    }
}

proof fn lemma_skills_text_holds(skills: Seq<Skill>, n: int, i: int)
    requires
        0 <= i < n <= skills.len(),
    ensures
        forall|j: int|
            0 <= j < skills[i].keywords@.len() ==> skills_text(skills, n).contains(
                #[trigger] skills[i].keywords@[j]@,
            ),
    decreases n,
{
    let a = skills_text(skills, n - 1);
    let d = strs(skills[n - 1].keywords@);
    lemma_concat_contains(a, d);
    if i < n - 1 {
        lemma_skills_text_holds(skills, n - 1, i);
    } else {
        lemma_strs_contains(skills[n - 1].keywords@);
    }
}

proof fn lemma_projects_text_holds(ps: Seq<Project>, n: int, i: int)
    requires
        0 <= i < n <= ps.len(),
    ensures
        projects_text(ps, n).contains(ps[i].name@),
        ps[i].description is Some ==> projects_text(ps, n).contains(ps[i].description->0@),
        forall|j: int|
            0 <= j < ps[i].highlights@.len() ==> projects_text(ps, n).contains(
                #[trigger] ps[i].highlights@[j]@,
            ),
    decreases n,
{
    let p = ps[n - 1];
    let a = projects_text(ps, n - 1);
    let b = seq![p.name@];
    let c = optional_part(p.description);
    let d = strs(p.highlights@);
    lemma_concat_contains(a, b);
    lemma_concat_contains(a + b, c);
    lemma_concat_contains(a + b + c, d);
    assert(projects_text(ps, n) == a + b + c + d);
    if i < n - 1 {
        lemma_projects_text_holds(ps, n - 1, i);
    } else {
        assert(b[0] == p.name@);
        if p.description is Some {
            assert(c[0] == p.description->0@);
        }
        lemma_strs_contains(p.highlights@);
    }
}

/// The content checks (weasel words, passive voice, length) read every piece
/// of human-readable text of the resume: the name, label and summary; each
/// work entry's position, company, summary and highlights; each volunteer
/// entry's summary and highlights; every skill keyword; each project's name,
/// description and highlights. Each is one of the parts joined into
/// `all_text`.
pub proof fn content_checks_read_every_text(r: Resume)
    ensures
        text_parts(r).contains(r.basics.name@),
        r.basics.label is Some ==> text_parts(r).contains(r.basics.label->0@),
        r.basics.summary is Some ==> text_parts(r).contains(r.basics.summary->0@),
        forall|i: int|
            0 <= i < r.work@.len() ==> {
                &&& text_parts(r).contains((#[trigger] r.work@[i]).position@)
                &&& text_parts(r).contains(r.work@[i].name@)
                &&& r.work@[i].summary is Some ==> text_parts(r).contains(r.work@[i].summary->0@)
            },
        forall|i: int, j: int|
            0 <= i < r.work@.len() && 0 <= j < r.work@[i].highlights@.len() ==> text_parts(
                r,
            ).contains(#[trigger] r.work@[i].highlights@[j]@),
        forall|i: int|
            0 <= i < r.volunteer@.len() && (#[trigger] r.volunteer@[i]).summary is Some
                ==> text_parts(r).contains(r.volunteer@[i].summary->0@),
        forall|i: int, j: int|
            0 <= i < r.volunteer@.len() && 0 <= j < r.volunteer@[i].highlights@.len()
                ==> text_parts(r).contains(#[trigger] r.volunteer@[i].highlights@[j]@),
        forall|i: int, j: int|
            0 <= i < r.skills@.len() && 0 <= j < r.skills@[i].keywords@.len() ==> text_parts(
                r,
            ).contains(#[trigger] r.skills@[i].keywords@[j]@),
        forall|i: int|
            0 <= i < r.projects@.len() ==> {
                &&& text_parts(r).contains((#[trigger] r.projects@[i]).name@)
                &&& r.projects@[i].description is Some ==> text_parts(r).contains(
                    r.projects@[i].description->0@,
                )
            },
        forall|i: int, j: int|
            0 <= i < r.projects@.len() && 0 <= j < r.projects@[i].highlights@.len()
                ==> text_parts(r).contains(#[trigger] r.projects@[i].highlights@[j]@),
{
    let p0 = seq![r.basics.name@];
    let p1 = optional_part(r.basics.label);
    let p2 = optional_part(r.basics.summary);
    let pw = jobs_text(r.work@, r.work@.len() as int);
    let pv = volunteer_text(r.volunteer@, r.volunteer@.len() as int);
    let ps = skills_text(r.skills@, r.skills@.len() as int);
    let pp = projects_text(r.projects@, r.projects@.len() as int);
    assert(text_parts(r) == p0 + p1 + p2 + pw + pv + ps + pp);
    lemma_concat_contains(p0, p1);
    lemma_concat_contains(p0 + p1, p2);
    lemma_concat_contains(p0 + p1 + p2, pw);
    lemma_concat_contains(p0 + p1 + p2 + pw, pv);
    lemma_concat_contains(p0 + p1 + p2 + pw + pv, ps);
    lemma_concat_contains(p0 + p1 + p2 + pw + pv + ps, pp);
    assert(p0[0] == r.basics.name@);
    if r.basics.label is Some {
        assert(p1[0] == r.basics.label->0@);
    }
    if r.basics.summary is Some {
        assert(p2[0] == r.basics.summary->0@);
    }
    assert forall|i: int| 0 <= i < r.work@.len() implies {
        &&& text_parts(r).contains((#[trigger] r.work@[i]).position@)
        &&& text_parts(r).contains(r.work@[i].name@)
        &&& r.work@[i].summary is Some ==> text_parts(r).contains(r.work@[i].summary->0@)
    } by {
        lemma_jobs_text_holds(r.work@, r.work@.len() as int, i);
    }
    assert forall|i: int, j: int|
        0 <= i < r.work@.len() && 0 <= j < r.work@[i].highlights@.len() implies text_parts(
        r,
    ).contains(#[trigger] r.work@[i].highlights@[j]@) by {
        lemma_jobs_text_holds(r.work@, r.work@.len() as int, i);
    }
    assert forall|i: int|
        0 <= i < r.volunteer@.len() && (#[trigger] r.volunteer@[i]).summary is Some implies text_parts(
        r,
    ).contains(r.volunteer@[i].summary->0@) by {
        lemma_volunteer_text_holds(r.volunteer@, r.volunteer@.len() as int, i);
    }
    assert forall|i: int, j: int|
        0 <= i < r.volunteer@.len() && 0 <= j < r.volunteer@[i].highlights@.len() implies text_parts(
        r,
    ).contains(#[trigger] r.volunteer@[i].highlights@[j]@) by {
        lemma_volunteer_text_holds(r.volunteer@, r.volunteer@.len() as int, i);
    }
    assert forall|i: int, j: int|
        0 <= i < r.skills@.len() && 0 <= j < r.skills@[i].keywords@.len() implies text_parts(
        r,
    ).contains(#[trigger] r.skills@[i].keywords@[j]@) by {
        lemma_skills_text_holds(r.skills@, r.skills@.len() as int, i);
    }
    assert forall|i: int| 0 <= i < r.projects@.len() implies {
        &&& text_parts(r).contains((#[trigger] r.projects@[i]).name@)
        &&& r.projects@[i].description is Some ==> text_parts(r).contains(
            r.projects@[i].description->0@,
        )
    } by {
        lemma_projects_text_holds(r.projects@, r.projects@.len() as int, i);
    }
    assert forall|i: int, j: int|
        0 <= i < r.projects@.len() && 0 <= j < r.projects@[i].highlights@.len() implies text_parts(
        r,
    ).contains(#[trigger] r.projects@[i].highlights@[j]@) by {
        lemma_projects_text_holds(r.projects@, r.projects@.len() as int, i);
    }
}

// ----- Laws: when dates count as inverted -----

/// An entry's dates count as inverted only when both are given, and never in
/// both directions: a start and end never flag each other, no date flags
/// itself, and a date text without a year flags nothing.
pub proof fn inverted_dates_are_strict(start: Option<String>, end: Option<String>)
    ensures
        start is None || end is None ==> !dates_inverted(start, end),
        !dates_inverted(start, start),
        dates_inverted(start, end) ==> !dates_inverted(end, start),
        start matches Some(s) && date_value(s@) is None ==> !dates_inverted(start, end),
        end matches Some(e) && date_value(e@) is None ==> !dates_inverted(start, end),
{
}

/// Dates are compared by year, then by month where both give one: an end in
/// an earlier year than the start is inverted, an end in a later year is not,
/// and within one year the end is inverted exactly when both give a month and
/// the end's month is the earlier. (Months are below 100, as two digits give.)
pub proof fn date_order_follows_year_then_month(
    start: String,
    end: String,
    sy: u32,
    sm: Option<u32>,
    ey: u32,
    em: Option<u32>,
)
    requires
        date_value(start@) == Some((sy, sm)),
        date_value(end@) == Some((ey, em)),
        sm matches Some(m) ==> m < 100,
        em matches Some(m) ==> m < 100,
    ensures
        ey < sy ==> dates_inverted(Some(start), Some(end)),
        sy < ey ==> !dates_inverted(Some(start), Some(end)),
        sy == ey ==> (dates_inverted(Some(start), Some(end)) <==> (sm is Some && em is Some
            && em->0 < sm->0)),
{
    if sm is Some && em is Some {
        let a = sm->0;
        let b = em->0;
        assert(ey < sy ==> ey * 100 + b < sy * 100 + a) by (nonlinear_arith)
            requires
                a < 100,
                b < 100,
        ;
        assert(sy < ey ==> !(ey * 100 + b < sy * 100 + a)) by (nonlinear_arith)
            requires
                a < 100,
                b < 100,
        ;
    }
}

/// A work entry is flagged for inverted dates exactly when it gives both a
/// start and an end and the end's date lies strictly before the start's.
pub proof fn work_dates_flagged_only_when_end_precedes_start(r: Resume, i: int)
    requires
        0 <= i < r.work@.len(),
    ensures
        expected_findings(r).work_dates_inverted[i] <==> (r.work@[i].start_date is Some
            && r.work@[i].end_date is Some && date_after(
            date_value(r.work@[i].start_date->0@),
            date_value(r.work@[i].end_date->0@),
        )),
{
}

/// An education entry is flagged for inverted dates exactly when it gives
/// both a start and an end and the end's date lies strictly before the
/// start's.
pub proof fn education_dates_flagged_only_when_end_precedes_start(r: Resume, i: int)
    requires
        0 <= i < r.education@.len(),
    ensures
        expected_findings(r).education_dates_inverted[i] <==> (r.education@[i].start_date is Some
            && r.education@[i].end_date is Some && date_after(
            date_value(r.education@[i].start_date->0@),
            date_value(r.education@[i].end_date->0@),
        )),
{
}

// ----- Laws: when a report has errors -----

proof fn lemma_jobs_errors_empty(jobs: Seq<Work>, inverted: Seq<bool>, n: int)
    requires
        0 <= n <= jobs.len(),
    ensures
        jobs_errors(jobs, inverted, n).len() == 0 <==> forall|i: int|
            0 <= i < n ==> (#[trigger] job_errors(jobs[i], i, inverted[i])).len() == 0,
    decreases n,
{
    if n > 0 {
        lemma_jobs_errors_empty(jobs, inverted, n - 1);
        if jobs_errors(jobs, inverted, n).len() == 0 {
            assert forall|i: int| 0 <= i < n implies (#[trigger] job_errors(
                jobs[i],
                i,
                inverted[i],
            )).len() == 0 by {
                if i < n - 1 {
                }
            }
        }
    }
}

proof fn lemma_education_errors_empty(es: Seq<Education>, inverted: Seq<bool>, n: int)
    requires
        0 <= n <= es.len(),
    ensures
        education_errors(es, inverted, n).len() == 0 <==> forall|i: int|
            0 <= i < n ==> (#[trigger] education_entry_errors(es[i], i, inverted[i])).len() == 0,
    decreases n,
{
    if n > 0 {
        lemma_education_errors_empty(es, inverted, n - 1);
        if education_errors(es, inverted, n).len() == 0 {
            assert forall|i: int| 0 <= i < n implies (#[trigger] education_entry_errors(
                es[i],
                i,
                inverted[i],
            )).len() == 0 by {
                if i < n - 1 {
                }
            }
        }
    }
}

/// A resume's report has no errors, and so is valid, exactly when: it has a
/// name; its email, where given, matches the email pattern; every work entry
/// has a company name and a position and does not end (other than
/// `Present`) on a date strictly before its start; and every education entry
/// has an institution and does not end before it starts. A work section may
/// be empty.
pub proof fn report_has_no_errors_exactly_when_complete(r: Resume)
    ensures
        report_errors(r, expected_findings(r)).len() == 0 <==> {
            &&& r.basics.name@.len() > 0
            &&& r.basics.email is Some ==> regex_is_match(EMAIL_PATTERN@, r.basics.email->0@)
            &&& forall|i: int|
                0 <= i < r.work@.len() ==> {
                    &&& (#[trigger] r.work@[i]).name@.len() > 0
                    &&& r.work@[i].position@.len() > 0
                    &&& !(r.work@[i].start_date is Some && r.work@[i].end_date is Some
                        && r.work@[i].end_date->0@ != "Present"@ && date_after(
                        date_value(r.work@[i].start_date->0@),
                        date_value(r.work@[i].end_date->0@),
                    ))
                }
            &&& forall|i: int|
                0 <= i < r.education@.len() ==> {
                    &&& (#[trigger] r.education@[i]).institution@.len() > 0
                    &&& !(r.education@[i].start_date is Some && r.education@[i].end_date is Some
                        && r.education@[i].end_date->0@ != "Present"@ && date_after(
                        date_value(r.education@[i].start_date->0@),
                        date_value(r.education@[i].end_date->0@),
                    ))
                }
        },
{
    let f = expected_findings(r);
    lemma_jobs_errors_empty(r.work@, f.work_dates_inverted, r.work@.len() as int);
    lemma_education_errors_empty(r.education@, f.education_dates_inverted, r.education@.len() as int);
    let be = basics_errors(r.basics, f.email_matches);
    let we = work_errors(r.work@, f.work_dates_inverted);
    let ee = education_errors(r.education@, f.education_dates_inverted, r.education@.len() as int);
    assert(report_errors(r, f) == be + we + ee);
    assert(report_errors(r, f).len() == be.len() + we.len() + ee.len());
    assert forall|i: int| 0 <= i < r.work@.len() implies ((#[trigger] job_errors(
        r.work@[i],
        i,
        f.work_dates_inverted[i],
    )).len() == 0 <==> {
        &&& r.work@[i].name@.len() > 0
        &&& r.work@[i].position@.len() > 0
        &&& !(r.work@[i].start_date is Some && r.work@[i].end_date is Some
            && r.work@[i].end_date->0@ != "Present"@ && date_after(
            date_value(r.work@[i].start_date->0@),
            date_value(r.work@[i].end_date->0@),
        ))
    }) by {
        assert(f.work_dates_inverted[i] == dates_inverted(
            r.work@[i].start_date,
            r.work@[i].end_date,
        ));
    }
    assert forall|i: int| 0 <= i < r.education@.len() implies ((#[trigger] education_entry_errors(
        r.education@[i],
        i,
        f.education_dates_inverted[i],
    )).len() == 0 <==> {
        &&& r.education@[i].institution@.len() > 0
        &&& !(r.education@[i].start_date is Some && r.education@[i].end_date is Some
            && r.education@[i].end_date->0@ != "Present"@ && date_after(
            date_value(r.education@[i].start_date->0@),
            date_value(r.education@[i].end_date->0@),
        ))
    }) by {
        assert(f.education_dates_inverted[i] == dates_inverted(
            r.education@[i].start_date,
            r.education@[i].end_date,
        ));
    }
    assert(be.len() == 0 <==> (r.basics.name@.len() > 0 && (r.basics.email is Some
        ==> regex_is_match(EMAIL_PATTERN@, r.basics.email->0@))));
    assert(we.len() == 0 <==> forall|i: int|
        0 <= i < r.work@.len() ==> {
            &&& (#[trigger] r.work@[i]).name@.len() > 0
            &&& r.work@[i].position@.len() > 0
            &&& !(r.work@[i].start_date is Some && r.work@[i].end_date is Some
                && r.work@[i].end_date->0@ != "Present"@ && date_after(
                date_value(r.work@[i].start_date->0@),
                date_value(r.work@[i].end_date->0@),
            ))
        }) by {
        if we.len() == 0 {
            assert forall|i: int| 0 <= i < r.work@.len() implies {
                &&& (#[trigger] r.work@[i]).name@.len() > 0
                &&& r.work@[i].position@.len() > 0
                &&& !(r.work@[i].start_date is Some && r.work@[i].end_date is Some
                    && r.work@[i].end_date->0@ != "Present"@ && date_after(
                    date_value(r.work@[i].start_date->0@),
                    date_value(r.work@[i].end_date->0@),
                ))
            } by {
                assert(job_errors(r.work@[i], i, f.work_dates_inverted[i]).len() == 0);
            }
        } else {
            let i = choose|i: int|
                0 <= i < r.work@.len() && (#[trigger] job_errors(
                    r.work@[i],
                    i,
                    f.work_dates_inverted[i],
                )).len() != 0;
            assert(r.work@[i].name@.len() > 0 ==> r.work@[i].position@.len() > 0 ==> r.work@[i].start_date is Some
                && r.work@[i].end_date is Some && r.work@[i].end_date->0@ != "Present"@
                && date_after(
                date_value(r.work@[i].start_date->0@),
                date_value(r.work@[i].end_date->0@),
            ));
        }
    }
    assert(ee.len() == 0 <==> forall|i: int|
        0 <= i < r.education@.len() ==> {
            &&& (#[trigger] r.education@[i]).institution@.len() > 0
            &&& !(r.education@[i].start_date is Some && r.education@[i].end_date is Some
                && r.education@[i].end_date->0@ != "Present"@ && date_after(
                date_value(r.education@[i].start_date->0@),
                date_value(r.education@[i].end_date->0@),
            ))
        }) by {
        if ee.len() == 0 {
            assert forall|i: int| 0 <= i < r.education@.len() implies {
                &&& (#[trigger] r.education@[i]).institution@.len() > 0
                &&& !(r.education@[i].start_date is Some && r.education@[i].end_date is Some
                    && r.education@[i].end_date->0@ != "Present"@ && date_after(
                    date_value(r.education@[i].start_date->0@),
                    date_value(r.education@[i].end_date->0@),
                ))
            } by {
                assert(education_entry_errors(r.education@[i], i, f.education_dates_inverted[i]).len()
                    == 0);
            }
        } else {
            let i = choose|i: int|
                0 <= i < r.education@.len() && (#[trigger] education_entry_errors(
                    r.education@[i],
                    i,
                    f.education_dates_inverted[i],
                )).len() != 0;
            assert(r.education@[i].institution@.len() > 0 ==> r.education@[i].start_date is Some
                && r.education@[i].end_date is Some && r.education@[i].end_date->0@ != "Present"@
                && date_after(
                date_value(r.education@[i].start_date->0@),
                date_value(r.education@[i].end_date->0@),
            ));
        }
    }
}

// ----- Laws: what the warnings report -----

/// The active-voice warning for `phrase`.
pub open spec fn active_voice_message(phrase: Seq<char>) -> Seq<char> {
    "Consider using active voice instead of: '"@ + phrase + "'"@
}

/// The action-verb warning for highlight `j` of work entry `i`.
pub open spec fn action_verb_message(i: int, j: int) -> Seq<char> {
    "Work["@ + decimal(i as nat) + "].highlight["@ + decimal(j as nat)
        + "]: Consider starting with an action verb (e.g., 'Led', 'Delivered', 'Architected')"@
}

proof fn lemma_passive_warnings_hold(lower_text: Seq<char>, n: int)
    requires
        0 <= n <= passive_phrases().len(),
    ensures
        forall|k: int|
            0 <= k < n && occurs_in(lower_text, passive_phrases()[k]) ==> passive_warnings(
                lower_text,
                n,
            ).contains(active_voice_message(#[trigger] passive_phrases()[k])),
    decreases n,
{
    if n > 0 {
        lemma_passive_warnings_hold(lower_text, n - 1);
        let m = msg_if(
            occurs_in(lower_text, passive_phrases()[n - 1]),
            "Consider using active voice instead of: '"@ + passive_phrases()[n - 1] + "'"@,
        );
        lemma_concat_contains(passive_warnings(lower_text, n - 1), m);
        if occurs_in(lower_text, passive_phrases()[n - 1]) {
            assert(m[0] == active_voice_message(passive_phrases()[n - 1]));
        }
    }
}

proof fn lemma_highlight_warnings_hold(i: int, has_verb: Seq<bool>, n: int)
    requires
        0 <= n <= has_verb.len(),
    ensures
        forall|j: int|
            0 <= j < n && !has_verb[j] ==> highlight_warnings(i, has_verb, n).contains(
                #[trigger] action_verb_message(i, j),
            ),
    decreases n,
{
    if n > 0 {
        lemma_highlight_warnings_hold(i, has_verb, n - 1);
        let m = msg_if(
            !has_verb[n - 1],
            "Work["@ + decimal(i as nat) + "].highlight["@ + decimal((n - 1) as nat)
                + "]: Consider starting with an action verb (e.g., 'Led', 'Delivered', 'Architected')"@,
        );
        lemma_concat_contains(highlight_warnings(i, has_verb, n - 1), m);
        if !has_verb[n - 1] {
            assert(m[0] == action_verb_message(i, n - 1));
        }
    }
}

proof fn lemma_jobs_warnings_hold(jobs: Seq<Work>, has_verb: Seq<Seq<bool>>, n: int)
    requires
        0 <= n <= jobs.len(),
        has_verb.len() == jobs.len(),
        forall|i: int| 0 <= i < jobs.len() ==> #[trigger] has_verb[i].len() == jobs[i].highlights@.len(),
    ensures
        forall|i: int, j: int|
            0 <= i < n && 0 <= j < jobs[i].highlights@.len() && !has_verb[i][j] ==> jobs_warnings(
                jobs,
                has_verb,
                n,
            ).contains(#[trigger] action_verb_message(i, j)),
    decreases n,
{
    if n > 0 {
        lemma_jobs_warnings_hold(jobs, has_verb, n - 1);
        let job = jobs[n - 1];
        let sm = match job.summary {
            Some(s) => msg_if(
                utf8_len(s@) > 500,
                at("Work["@, n - 1, "]: summary should be under 500 characters for readability"@),
            ),
            None => seq![],
        };
        let hw = highlight_warnings(n - 1, has_verb[n - 1], job.highlights@.len() as int);
        lemma_highlight_warnings_hold(n - 1, has_verb[n - 1], job.highlights@.len() as int);
        lemma_concat_contains(sm, hw);
        lemma_concat_contains(jobs_warnings(jobs, has_verb, n - 1), job_warnings(job, n - 1, has_verb[n - 1]));
    }
}

proof fn lemma_duplicate_warnings_hold(skills: Seq<Skill>, lower: Seq<Seq<char>>, n: int)
    requires
        0 <= n <= skills.len() == lower.len(),
    ensures
        forall|i: int|
            0 <= i < n && lower.take(i).contains(lower[i]) ==> duplicate_warnings(
                skills,
                lower,
                n,
            ).contains(
                #[trigger] (at("Skills["@, i, "]: duplicate skill category: "@) + skills[i].name@),
            ),
    decreases n,
{
    if n > 0 {
        lemma_duplicate_warnings_hold(skills, lower, n - 1);
        let m = msg_if(
            lower.take(n - 1).contains(lower[n - 1]),
            at("Skills["@, n - 1, "]: duplicate skill category: "@) + skills[n - 1].name@,
        );
        lemma_concat_contains(duplicate_warnings(skills, lower, n - 1), m);
        if lower.take(n - 1).contains(lower[n - 1]) {
            assert(m[0] == at("Skills["@, n - 1, "]: duplicate skill category: "@)
                + skills[n - 1].name@);
        }
    }
}

proof fn lemma_projects_warnings_hold(ps: Seq<Project>, n: int)
    requires
        0 <= n <= ps.len(),
    ensures
        forall|i: int|
            0 <= i < n && (#[trigger] ps[i]).name@.len() == 0 ==> projects_warnings(ps, n).contains(
                at("Projects["@, i, "]: project name is recommended"@),
            ),
    decreases n,
{
    if n > 0 {
        lemma_projects_warnings_hold(ps, n - 1);
        let p = ps[n - 1];
        let m = msg_if(p.name@.len() == 0, at("Projects["@, n - 1, "]: project name is recommended"@));
        let d = match p.description {
            Some(d) => msg_if(
                utf8_len(d@) > 1000,
                at("Projects["@, n - 1, "]: description should be under 1000 characters"@),
            ),
            None => seq![],
        };
        lemma_concat_contains(m, d);
        lemma_concat_contains(projects_warnings(ps, n - 1), project_warnings(p, n - 1));
        if p.name@.len() == 0 {
            assert(m[0] == at("Projects["@, n - 1, "]: project name is recommended"@));
        }
    }
}

/// The report warns about each thing it checks, wherever it occurs: each
/// passive phrase that occurs, in any case, in the resume's text; each work
/// highlight that does not start with an action verb; each skill category
/// whose name repeats an earlier one's, ignoring case; each project without a
/// name.
pub proof fn report_warns_about_every_finding(r: Resume)
    ensures
        forall|k: int|
            0 <= k < passive_phrases().len() && occurs_in(
                lowercase(all_text(r)),
                passive_phrases()[k],
            ) ==> report_warnings(r, expected_findings(r)).contains(
                active_voice_message(#[trigger] passive_phrases()[k]),
            ),
        forall|i: int, j: int|
            0 <= i < r.work@.len() && 0 <= j < r.work@[i].highlights@.len() && !regex_is_match(
                ACTION_VERB_PATTERN@,
                r.work@[i].highlights@[j]@,
            ) ==> report_warnings(r, expected_findings(r)).contains(
                #[trigger] action_verb_message(i, j),
            ),
        forall|i: int|
            0 <= i < r.skills@.len() && (exists|k: int|
                0 <= k < i && lowercase(r.skills@[k].name@) == lowercase(r.skills@[i].name@))
                ==> report_warnings(r, expected_findings(r)).contains(
                #[trigger] (at("Skills["@, i, "]: duplicate skill category: "@)
                    + r.skills@[i].name@),
            ),
        forall|i: int|
            0 <= i < r.projects@.len() && (#[trigger] r.projects@[i]).name@.len() == 0
                ==> report_warnings(r, expected_findings(r)).contains(
                at("Projects["@, i, "]: project name is recommended"@),
            ),
{
    let f = expected_findings(r);
    let b = basics_warnings(r.basics);
    let w = work_warnings(r.work@, f.action_verbs);
    let s = skills_warnings(r.skills@, f.skill_names_lower);
    let p = projects_warnings(r.projects@, r.projects@.len() as int);
    let a = ats_warnings(r.work@, f.keyword_count, f.quantified);
    let we = weasel_warnings(f.weasel_any, f.weasel_found);
    let pv = passive_warnings(f.text_lower, passive_phrases().len() as int);
    let l = length_warnings(all_text(r));
    assert(report_warnings(r, f) == b + w + s + p + a + we + pv + l);
    lemma_concat_contains(b, w);
    lemma_concat_contains(b + w, s);
    lemma_concat_contains(b + w + s, p);
    lemma_concat_contains(b + w + s + p, a);
    lemma_concat_contains(b + w + s + p + a, we);
    lemma_concat_contains(b + w + s + p + a + we, pv);
    lemma_concat_contains(b + w + s + p + a + we + pv, l);
    lemma_passive_warnings_hold(f.text_lower, passive_phrases().len() as int);
    assert forall|i: int| 0 <= i < r.work@.len() implies #[trigger] f.action_verbs[i].len()
        == r.work@[i].highlights@.len() by {}
    lemma_jobs_warnings_hold(r.work@, f.action_verbs, r.work@.len() as int);
    assert forall|i: int, j: int|
        0 <= i < r.work@.len() && 0 <= j < r.work@[i].highlights@.len() && !regex_is_match(
            ACTION_VERB_PATTERN@,
            r.work@[i].highlights@[j]@,
        ) implies report_warnings(r, f).contains(#[trigger] action_verb_message(i, j)) by {
        assert(!f.action_verbs[i][j]);
        assert(w == jobs_warnings(r.work@, f.action_verbs, r.work@.len() as int));
    }
    lemma_duplicate_warnings_hold(r.skills@, f.skill_names_lower, r.skills@.len() as int);
    let dw = duplicate_warnings(r.skills@, f.skill_names_lower, r.skills@.len() as int);
    let qw = skills_quality_warnings(r.skills@, r.skills@.len() as int);
    lemma_concat_contains(dw, qw);
    assert forall|i: int|
        0 <= i < r.skills@.len() && (exists|k: int|
            0 <= k < i && lowercase(r.skills@[k].name@) == lowercase(r.skills@[i].name@))
            implies report_warnings(r, f).contains(
        #[trigger] (at("Skills["@, i, "]: duplicate skill category: "@) + r.skills@[i].name@),
    ) by {
        let k = choose|k: int|
            0 <= k < i && lowercase(r.skills@[k].name@) == lowercase(r.skills@[i].name@);
        assert(f.skill_names_lower.take(i)[k] == f.skill_names_lower[i]);
        assert(f.skill_names_lower.take(i).contains(f.skill_names_lower[i]));
        assert(s == dw + qw);
    }
    lemma_projects_warnings_hold(r.projects@, r.projects@.len() as int);
}

} // verus!
