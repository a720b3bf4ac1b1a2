//! JSON Resume structures (https://jsonresume.org/schema/), the schema's
//! required-field check, and keyword extraction for ATS optimisation.

use vstd::prelude::*;
use vstd::string::StringExecFns;

use crate::text::{
    byte_len_capped, chars_of, dedup_strings, extend_strings, lemma_concat_contains,
    lemma_dedup_sorted, lemma_strs_contains, lowercase, push_decimal,
    push_string, sort_strings, split_words, string_from_chars, strictly_increasing, strs,
    to_lowercase, trim_bounds, trim_non_alnum, utf8_len, vecs, words,
};

verus! {

/// A resume following the JSON Resume schema.
#[derive(Debug, Clone)]
pub struct Resume {
    pub schema: String,
    pub basics: Basics,
    pub work: Vec<Work>,
    pub volunteer: Vec<Volunteer>,
    pub education: Vec<Education>,
    pub awards: Vec<Award>,
    pub certificates: Vec<Certificate>,
    pub publications: Vec<Publication>,
    pub skills: Vec<Skill>,
    pub languages: Vec<Language>,
    pub interests: Vec<Interest>,
    pub references: Vec<Reference>,
    pub projects: Vec<Project>,
    pub meta: Option<Meta>,
}

#[derive(Debug, Clone)]
pub struct Basics {
    pub name: String,
    pub label: Option<String>,
    pub image: Option<String>,
    pub email: Option<String>,
    pub phone: Option<String>,
    pub url: Option<String>,
    pub summary: Option<String>,
    pub location: Option<Location>,
    pub profiles: Vec<Profile>,
}

#[derive(Debug, Clone)]
pub struct Location {
    pub address: Option<String>,
    pub postal_code: Option<String>,
    pub city: Option<String>,
    pub country_code: Option<String>,
    pub region: Option<String>,
}

#[derive(Debug, Clone)]
pub struct Profile {
    pub network: String,
    pub username: String,
    pub url: Option<String>,
}

#[derive(Debug, Clone)]
pub struct Work {
    pub name: String,
    pub position: String,
    pub url: Option<String>,
    pub start_date: Option<String>,
    pub end_date: Option<String>,
    pub summary: Option<String>,
    pub highlights: Vec<String>,
    pub location: Option<String>,
}

#[derive(Debug, Clone)]
pub struct Volunteer {
    pub organization: String,
    pub position: String,
    pub url: Option<String>,
    pub start_date: Option<String>,
    pub end_date: Option<String>,
    pub summary: Option<String>,
    pub highlights: Vec<String>,
}

#[derive(Debug, Clone)]
pub struct Education {
    pub institution: String,
    pub url: Option<String>,
    pub area: Option<String>,
    pub study_type: Option<String>,
    pub start_date: Option<String>,
    pub end_date: Option<String>,
    pub score: Option<String>,
    pub courses: Vec<String>,
}

#[derive(Debug, Clone)]
pub struct Award {
    pub title: String,
    pub date: Option<String>,
    pub awarder: Option<String>,
    pub summary: Option<String>,
}

#[derive(Debug, Clone)]
pub struct Certificate {
    pub name: String,
    pub date: Option<String>,
    pub url: Option<String>,
    pub issuer: Option<String>,
}

#[derive(Debug, Clone)]
pub struct Publication {
    pub name: String,
    pub publisher: Option<String>,
    pub release_date: Option<String>,
    pub url: Option<String>,
    pub summary: Option<String>,
}

#[derive(Debug, Clone)]
pub struct Skill {
    pub name: String,
    pub level: Option<String>,
    pub keywords: Vec<String>,
}

#[derive(Debug, Clone)]
pub struct Language {
    pub language: String,
    pub fluency: String,
}

#[derive(Debug, Clone)]
pub struct Interest {
    pub name: String,
    pub keywords: Vec<String>,
}

#[derive(Debug, Clone)]
pub struct Reference {
    pub name: String,
    pub reference: Option<String>,
}

#[derive(Debug, Clone)]
pub struct Project {
    pub name: String,
    pub description: Option<String>,
    pub highlights: Vec<String>,
    pub start_date: Option<String>,
    pub end_date: Option<String>,
    pub url: Option<String>,
    pub roles: Vec<String>,
    pub entity: Option<String>,
    pub project_type: Option<String>,
}

/// Resume metadata; `last_modified` holds the RFC 3339 text of the timestamp.
#[derive(Debug, Clone)]
pub struct Meta {
    pub canonical: Option<String>,
    pub version: Option<String>,
    pub last_modified: Option<String>,
    pub ai_optimization: Option<AiOptimization>,
}

#[derive(Debug, Clone)]
pub struct AiOptimization {
    pub strategic_assessment: Option<String>,
    pub hiring_signal: Option<String>,
    pub technical_assessment: Option<String>,
    pub leadership_assessment: Option<String>,
}

/// Why a resume fails the schema's required-field check.
#[derive(Debug, Clone, PartialEq, Eq, Structural)]
pub enum SchemaError {
    /// `basics.name` is empty.
    MissingName,
    /// `work[i].name` is empty.
    MissingWorkName(usize),
    /// `work[i].position` is empty.
    MissingWorkPosition(usize),
}

impl SchemaError {
    /// The text of the message for this error.
    pub open spec fn spec_message(self) -> Seq<char> {
        match self {
            SchemaError::MissingName => "Resume basics.name is required"@,
            SchemaError::MissingWorkName(i) => "Work["@ + crate::text::decimal(i as nat)
                + "].name is required"@,
            SchemaError::MissingWorkPosition(i) => "Work["@ + crate::text::decimal(i as nat)
                + "].position is required"@,
        }
    }

    /// The message for this error.
    pub fn message(&self) -> (r: String)
        ensures
            r@ == self.spec_message(),
    {
        match self {
            SchemaError::MissingName => String::from_str("Resume basics.name is required"),
            SchemaError::MissingWorkName(i) => {
                let mut m = String::from_str("Work[");
                push_decimal(&mut m, *i);
                m.append("].name is required");
                m
            },
            SchemaError::MissingWorkPosition(i) => {
                let mut m = String::from_str("Work[");
                push_decimal(&mut m, *i);
                m.append("].position is required");
                m
            },
        }
    }
}

/// The first missing required field among the first `n` work entries.
pub open spec fn first_work_error(jobs: Seq<Work>, n: int) -> Option<SchemaError>
    decreases n,
{
    if n <= 0 {
        None
    } else {
        match first_work_error(jobs, n - 1) {
            Some(e) => Some(e),
            None => if jobs[n - 1].name@.len() == 0 {
                Some(SchemaError::MissingWorkName((n - 1) as usize))
            } else if jobs[n - 1].position@.len() == 0 {
                Some(SchemaError::MissingWorkPosition((n - 1) as usize))
            } else {
                None
            },
        }
    }
}

/// Once an error is found among the first `k` entries, it stays the first.
pub proof fn lemma_first_work_error_stays(jobs: Seq<Work>, k: int, m: int)
    requires
        0 <= k <= m,
        first_work_error(jobs, k) is Some,
    ensures
        first_work_error(jobs, m) == first_work_error(jobs, k),
    decreases m - k,
{
    if m > k {
        lemma_first_work_error_stays(jobs, k, m - 1);
    }
}

/// The first required field that `r` lacks, checked in the order the
/// schema check goes: the name, then each work entry's name and position.
pub open spec fn first_schema_error(r: Resume) -> Option<SchemaError> {
    if r.basics.name@.len() == 0 {
        Some(SchemaError::MissingName)
    } else {
        first_work_error(r.work@, r.work@.len() as int)
    }
}

/// The keywords of one word: the word stripped of non-alphanumeric ends and
/// lowercased, kept where the stripped word is longer than two bytes.
pub open spec fn keywords_of_words(ws: Seq<Seq<char>>) -> Seq<Seq<char>>
    decreases ws.len(),
{
    if ws.len() == 0 {
        seq![]
    } else {
        let t = trim_non_alnum(ws.last());
        keywords_of_words(ws.drop_last()) + if utf8_len(t) > 2 {
            seq![lowercase(t)]
        } else {
            seq![]
        }
    }
}

/// The keywords of a free text, in the order its words come.
pub open spec fn text_keywords(text: Seq<char>) -> Seq<Seq<char>> {
    keywords_of_words(words(text))
}

/// The keywords a sequence of skill categories contributes: each category's
/// keywords followed by its name.
pub open spec fn skill_terms(skills: Seq<Skill>) -> Seq<Seq<char>>
    decreases skills.len(),
{
    if skills.len() == 0 {
        seq![]
    } else {
        skill_terms(skills.drop_last()) + strs(skills.last().keywords@).push(skills.last().name@)
    }
}

/// The keywords of a sequence of highlight texts.
pub open spec fn highlight_terms(hs: Seq<String>) -> Seq<Seq<char>>
    decreases hs.len(),
{
    if hs.len() == 0 {
        seq![]
    } else {
        highlight_terms(hs.drop_last()) + text_keywords(hs.last()@)
    }
}

/// The keywords one work entry contributes: from its summary, then from its
/// highlights.
pub open spec fn job_terms(job: Work) -> Seq<Seq<char>> {
    (match job.summary {
        Some(s) => text_keywords(s@),
        None => seq![],
    }) + highlight_terms(job.highlights@)
}

/// The keywords of a sequence of work entries.
pub open spec fn work_terms(jobs: Seq<Work>) -> Seq<Seq<char>>
    decreases jobs.len(),
{
    if jobs.len() == 0 {
        seq![]
    } else {
        work_terms(jobs.drop_last()) + job_terms(jobs.last())
    }
}

/// Every keyword candidate of a resume, repeats included.
pub open spec fn keyword_candidates(r: Resume) -> Seq<Seq<char>> {
    skill_terms(r.skills@) + work_terms(r.work@)
}

/// Simple keyword extraction: the whitespace-separated words of `text`,
/// stripped of leading and trailing non-alphanumeric characters, kept where
/// longer than two bytes, lowercased.
pub fn extract_keywords_from_text(text: &str) -> (r: Vec<String>)
    ensures
        strs(r@) == text_keywords(text@),
{
    let cs = chars_of(text);
    let ws = split_words(&cs);
    let mut r: Vec<String> = Vec::new();
    let mut i: usize = 0;
    while i < ws.len()
        invariant
            vecs(ws@) == words(text@),
            i <= ws.len(),
            strs(r@) == keywords_of_words(vecs(ws@).take(i as int)),
        decreases ws.len() - i,
    {
        let (a, b) = trim_bounds(&ws[i]);
        let t = string_from_chars(&ws[i], a, b);
        assert(vecs(ws@).take(i + 1).drop_last() =~= vecs(ws@).take(i as int));
        assert(vecs(ws@).take(i + 1).last() == ws@[i as int]@);
        if byte_len_capped(t.as_str(), 3) > 2 {
            let k = to_lowercase(t.as_str());
            push_string(&mut r, k);
        }
        assert(strs(r@) =~= keywords_of_words(vecs(ws@).take(i + 1)));
        i = i + 1;
    }
    assert(vecs(ws@).take(ws.len() as int) =~= vecs(ws@));
    r
}

impl Resume {
    /// Checks the fields that the JSON Resume schema requires: `basics.name`,
    /// and each work entry's `name` and `position`.
    pub fn validate(&self) -> (r: Result<(), SchemaError>)
        ensures
            r == match first_schema_error(*self) {
                Some(e) => Err(e),
                None => Ok(()),
            },
    {
        if self.basics.name.as_str().is_empty() {
            return Err(SchemaError::MissingName);
        }
        let mut i: usize = 0;
        while i < self.work.len()
            invariant
                i <= self.work.len(),
                self.basics.name@.len() != 0,
                first_work_error(self.work@, i as int) is None,
            decreases self.work.len() - i,
        {
            if self.work[i].name.as_str().is_empty() {
                proof {
                    lemma_first_work_error_stays(self.work@, i + 1, self.work@.len() as int);
                }
                return Err(SchemaError::MissingWorkName(i));
            }
            if self.work[i].position.as_str().is_empty() {
                proof {
                    lemma_first_work_error_stays(self.work@, i + 1, self.work@.len() as int);
                }
                return Err(SchemaError::MissingWorkPosition(i));
            }
            i = i + 1;
        }
        Ok(())
    }

    /// All keywords of the resume for ATS optimisation: each skill's keywords
    /// and name, and the keywords of every work summary and highlight; each
    /// once, in `String` order.
    pub fn get_all_keywords(&self) -> (r: Vec<String>)
        ensures
            strictly_increasing(strs(r@)),
            strs(r@).to_set() == keyword_candidates(*self).to_set(),
    {
        let mut keywords: Vec<String> = Vec::new();
        let mut i: usize = 0;
        while i < self.skills.len()
            invariant
                i <= self.skills.len(),
                strs(keywords@) == skill_terms(self.skills@.take(i as int)),
            decreases self.skills.len() - i,
        {
            let skill = &self.skills[i];
            extend_strings(&mut keywords, &skill.keywords);
            push_string(&mut keywords, skill.name.clone());
            assert(self.skills@.take(i + 1).drop_last() =~= self.skills@.take(i as int));
            i = i + 1;
        }
        assert(self.skills@.take(self.skills.len() as int) =~= self.skills@);
        let ghost skill_part = strs(keywords@);
        let mut j: usize = 0;
        while j < self.work.len()
            invariant
                j <= self.work.len(),
                skill_part == skill_terms(self.skills@),
                strs(keywords@) == skill_part + work_terms(self.work@.take(j as int)),
            decreases self.work.len() - j,
        {
            let job = &self.work[j];
            let ghost before = strs(keywords@);
            if let Some(summary) = &job.summary {
                let ks = extract_keywords_from_text(summary.as_str());
                extend_strings(&mut keywords, &ks);
            }
            let ghost after_summary = strs(keywords@);
            let mut h: usize = 0;
            while h < job.highlights.len()
                invariant
                    h <= job.highlights.len(),
                    strs(keywords@) == after_summary + highlight_terms(job.highlights@.take(h as int)),
                decreases job.highlights.len() - h,
            {
                let ks = extract_keywords_from_text(job.highlights[h].as_str());
                extend_strings(&mut keywords, &ks);
                assert(job.highlights@.take(h + 1).drop_last() =~= job.highlights@.take(h as int));
                assert(strs(keywords@) =~= after_summary + highlight_terms(job.highlights@.take(h + 1)));
                h = h + 1;
            }
            assert(job.highlights@.take(job.highlights.len() as int) =~= job.highlights@);
            assert(self.work@.take(j + 1).drop_last() =~= self.work@.take(j as int));
            assert(strs(keywords@) =~= skill_part + work_terms(self.work@.take(j + 1)));
            j = j + 1;
        }
        assert(self.work@.take(self.work.len() as int) =~= self.work@);
        let ghost collected = strs(keywords@);
        sort_strings(&mut keywords);
        let ghost sorted = strs(keywords@);
        proof {
            assert forall|x: Seq<char>| sorted.to_set().contains(x) <==> collected.to_set().contains(x) by {
                sorted.to_multiset_ensures();
                collected.to_multiset_ensures();
                assert(sorted.contains(x) <==> sorted.to_multiset().count(x) > 0);
                assert(collected.contains(x) <==> collected.to_multiset().count(x) > 0);
            }
            assert(sorted.to_set() =~= collected.to_set());
            lemma_dedup_sorted(sorted);
        }
        dedup_strings(&mut keywords);
        keywords
    }
}

// ----- Laws: the schema check -----

proof fn lemma_first_work_error(jobs: Seq<Work>, n: int)
    requires
        0 <= n <= jobs.len() <= usize::MAX,
    ensures
        first_work_error(jobs, n) is None <==> forall|k: int|
            0 <= k < n ==> (#[trigger] jobs[k]).name@.len() > 0 && jobs[k].position@.len() > 0,
        first_work_error(jobs, n) matches Some(SchemaError::MissingWorkName(i)) ==> {
            &&& i < n
            &&& jobs[i as int].name@.len() == 0
            &&& forall|k: int|
                0 <= k < i ==> (#[trigger] jobs[k]).name@.len() > 0 && jobs[k].position@.len() > 0
        },
        first_work_error(jobs, n) matches Some(SchemaError::MissingWorkPosition(i)) ==> {
            &&& i < n
            &&& jobs[i as int].name@.len() > 0
            &&& jobs[i as int].position@.len() == 0
            &&& forall|k: int|
                0 <= k < i ==> (#[trigger] jobs[k]).name@.len() > 0 && jobs[k].position@.len() > 0
        },
        !(first_work_error(jobs, n) matches Some(SchemaError::MissingName)),
    decreases n,
{
    if n > 0 {
        lemma_first_work_error(jobs, n - 1);
    }
}

/// The schema check accepts a resume exactly when it has a name and every work
/// entry has a company name and a position. When it refuses one, the error
/// names the first gap: a missing name first; otherwise the first work entry
/// that lacks a company name or, having one, a position, with every earlier
/// entry complete.
pub proof fn schema_check_finds_the_first_gap(r: Resume)
    ensures
        first_schema_error(r) is None <==> (r.basics.name@.len() > 0 && forall|k: int|
            0 <= k < r.work@.len() ==> (#[trigger] r.work@[k]).name@.len() > 0
                && r.work@[k].position@.len() > 0),
        first_schema_error(r) == Some(SchemaError::MissingName) <==> r.basics.name@.len() == 0,
        first_schema_error(r) matches Some(SchemaError::MissingWorkName(i)) ==> {
            &&& r.basics.name@.len() > 0
            &&& i < r.work@.len()
            &&& r.work@[i as int].name@.len() == 0
            &&& forall|k: int|
                0 <= k < i ==> (#[trigger] r.work@[k]).name@.len() > 0
                    && r.work@[k].position@.len() > 0
        },
        first_schema_error(r) matches Some(SchemaError::MissingWorkPosition(i)) ==> {
            &&& r.basics.name@.len() > 0
            &&& i < r.work@.len()
            &&& r.work@[i as int].name@.len() > 0
            &&& r.work@[i as int].position@.len() == 0
            &&& forall|k: int|
                0 <= k < i ==> (#[trigger] r.work@[k]).name@.len() > 0
                    && r.work@[k].position@.len() > 0
        },
{
    assert(r.work.len() == r.work@.len());
    lemma_first_work_error(r.work@, r.work@.len() as int);
}

// ----- Laws: where keywords come from -----

proof fn lemma_highlight_terms_hold(hs: Seq<String>)
    ensures
        forall|j: int, w: Seq<char>|
            0 <= j < hs.len() && #[trigger] text_keywords(hs[j]@).contains(w)
                ==> highlight_terms(hs).contains(w),
    decreases hs.len(),
{
    if hs.len() > 0 {
        let a = highlight_terms(hs.drop_last());
        let b = text_keywords(hs.last()@);
        lemma_highlight_terms_hold(hs.drop_last());
        lemma_concat_contains(a, b);
        assert forall|j: int, w: Seq<char>|
            0 <= j < hs.len() && #[trigger] text_keywords(hs[j]@).contains(w) implies highlight_terms(
            hs,
        ).contains(w) by {
            if j < hs.len() - 1 {
                assert(hs.drop_last()[j] == hs[j]);
            }
        }
    }
}

proof fn lemma_work_terms_hold(jobs: Seq<Work>)
    ensures
        forall|i: int, w: Seq<char>|
            0 <= i < jobs.len() && jobs[i].summary is Some && #[trigger] text_keywords(
                jobs[i].summary->0@,
            ).contains(w) ==> work_terms(jobs).contains(w),
        forall|i: int, j: int, w: Seq<char>|
            0 <= i < jobs.len() && 0 <= j < jobs[i].highlights@.len() && #[trigger] text_keywords(
                jobs[i].highlights@[j]@,
            ).contains(w) ==> work_terms(jobs).contains(w),
    decreases jobs.len(),
{
    if jobs.len() > 0 {
        let last = jobs.last();
        let a = work_terms(jobs.drop_last());
        let sp = match last.summary {
            Some(s) => text_keywords(s@),
            None => seq![],
        };
        let hp = highlight_terms(last.highlights@);
        lemma_work_terms_hold(jobs.drop_last());
        lemma_highlight_terms_hold(last.highlights@);
        lemma_concat_contains(sp, hp);
        lemma_concat_contains(a, job_terms(last));
        assert forall|i: int, w: Seq<char>|
            0 <= i < jobs.len() && jobs[i].summary is Some && #[trigger] text_keywords(
                jobs[i].summary->0@,
            ).contains(w) implies work_terms(jobs).contains(w) by {
            if i < jobs.len() - 1 {
                assert(jobs.drop_last()[i] == jobs[i]);
            }
        }
        assert forall|i: int, j: int, w: Seq<char>|
            0 <= i < jobs.len() && 0 <= j < jobs[i].highlights@.len() && #[trigger] text_keywords(
                jobs[i].highlights@[j]@,
            ).contains(w) implies work_terms(jobs).contains(w) by {
            if i < jobs.len() - 1 {
                assert(jobs.drop_last()[i] == jobs[i]);
            }
        }
    }
}

proof fn lemma_skill_terms_hold(skills: Seq<Skill>)
    ensures
        forall|i: int| 0 <= i < skills.len() ==> skill_terms(skills).contains(
            (#[trigger] skills[i]).name@,
        ),
        forall|i: int, k: int|
            0 <= i < skills.len() && 0 <= k < skills[i].keywords@.len() ==> skill_terms(
                skills,
            ).contains(#[trigger] skills[i].keywords@[k]@),
    decreases skills.len(),
{
    if skills.len() > 0 {
        let last = skills.last();
        let a = skill_terms(skills.drop_last());
        let b = strs(last.keywords@).push(last.name@);
        lemma_skill_terms_hold(skills.drop_last());
        lemma_concat_contains(a, b);
        lemma_strs_contains(last.keywords@);
        assert(b[b.len() - 1] == last.name@);
        assert forall|k: int| 0 <= k < last.keywords@.len() implies b.contains(
            #[trigger] last.keywords@[k]@,
        ) by {
            assert(b[k] == strs(last.keywords@)[k]);
        }
        assert forall|i: int| 0 <= i < skills.len() implies skill_terms(skills).contains(
            (#[trigger] skills[i]).name@,
        ) by {
            if i < skills.len() - 1 {
                assert(skills.drop_last()[i] == skills[i]);
            }
        }
        assert forall|i: int, k: int|
            0 <= i < skills.len() && 0 <= k < skills[i].keywords@.len() implies skill_terms(
            skills,
        ).contains(#[trigger] skills[i].keywords@[k]@) by {
            if i < skills.len() - 1 {
                assert(skills.drop_last()[i] == skills[i]);
            }
        }
    }
}

/// The keyword candidates, whose set `get_all_keywords` returns, take in every
/// skill's name and keywords, and every keyword of each work entry's summary
/// and of each of its highlights.
pub proof fn keywords_come_from_every_source(r: Resume)
    ensures
        forall|i: int| 0 <= i < r.skills@.len() ==> keyword_candidates(r).contains(
            (#[trigger] r.skills@[i]).name@,
        ),
        forall|i: int, k: int|
            0 <= i < r.skills@.len() && 0 <= k < r.skills@[i].keywords@.len()
                ==> keyword_candidates(r).contains(#[trigger] r.skills@[i].keywords@[k]@),
        forall|i: int, w: Seq<char>|
            0 <= i < r.work@.len() && r.work@[i].summary is Some && #[trigger] text_keywords(
                r.work@[i].summary->0@,
            ).contains(w) ==> keyword_candidates(r).contains(w),
        forall|i: int, j: int, w: Seq<char>|
            0 <= i < r.work@.len() && 0 <= j < r.work@[i].highlights@.len() && #[trigger] text_keywords(
                r.work@[i].highlights@[j]@,
            ).contains(w) ==> keyword_candidates(r).contains(w),
{
    lemma_skill_terms_hold(r.skills@);
    lemma_work_terms_hold(r.work@);
    lemma_concat_contains(skill_terms(r.skills@), work_terms(r.work@));
}

proof fn lemma_keywords_of_words(ws: Seq<Seq<char>>)
    ensures
        forall|j: int|
            0 <= j < ws.len() && utf8_len(trim_non_alnum(ws[j])) > 2 ==> keywords_of_words(
                ws,
            ).contains(lowercase(trim_non_alnum(#[trigger] ws[j]))),
        forall|k: int|
            0 <= k < keywords_of_words(ws).len() ==> exists|j: int|
                0 <= j < ws.len() && utf8_len(trim_non_alnum(ws[j])) > 2 && #[trigger] keywords_of_words(
                    ws,
                )[k] == lowercase(trim_non_alnum(#[trigger] ws[j])),
    decreases ws.len(),
{
    if ws.len() > 0 {
        let init = ws.drop_last();
        let t = trim_non_alnum(ws.last());
        let a = keywords_of_words(init);
        let b = if utf8_len(t) > 2 {
            seq![lowercase(t)]
        } else {
            seq![]
        };
        lemma_keywords_of_words(init);
        lemma_concat_contains(a, b);
        assert(keywords_of_words(ws) == a + b);
        assert forall|j: int|
            0 <= j < ws.len() && utf8_len(trim_non_alnum(ws[j])) > 2 implies keywords_of_words(
            ws,
        ).contains(lowercase(trim_non_alnum(#[trigger] ws[j]))) by {
            if j < ws.len() - 1 {
                assert(init[j] == ws[j]);
            } else {
                assert(b[0] == lowercase(t));
            }
        }
        assert forall|k: int| 0 <= k < keywords_of_words(ws).len() implies exists|j: int|
            0 <= j < ws.len() && utf8_len(trim_non_alnum(ws[j])) > 2 && #[trigger] keywords_of_words(
                ws,
            )[k] == lowercase(trim_non_alnum(#[trigger] ws[j])) by {
            if k < a.len() {
                let j = choose|j: int|
                    0 <= j < init.len() && utf8_len(trim_non_alnum(init[j])) > 2 && #[trigger] a[k]
                        == lowercase(trim_non_alnum(#[trigger] init[j]));
                assert(init[j] == ws[j]);
                assert(keywords_of_words(ws)[k] == a[k]);
            } else {
                assert(keywords_of_words(ws)[k] == lowercase(t));
                assert(ws[ws.len() - 1] == ws.last());
            }
        }
    }
}

/// The keywords of a text are its words, each stripped of leading and
/// trailing characters that are not alphanumeric, that keep more than two
/// bytes, lowercased: every such word gives a keyword, and every keyword is
/// such a word.
pub proof fn keywords_are_the_long_words_lowercased(text: Seq<char>)
    ensures
        forall|j: int|
            0 <= j < words(text).len() && utf8_len(trim_non_alnum(words(text)[j])) > 2
                ==> text_keywords(text).contains(lowercase(trim_non_alnum(#[trigger] words(text)[j]))),
        forall|k: int|
            0 <= k < text_keywords(text).len() ==> exists|j: int|
                0 <= j < words(text).len() && utf8_len(trim_non_alnum(words(text)[j])) > 2
                    && #[trigger] text_keywords(text)[k] == lowercase(
                    trim_non_alnum(#[trigger] words(text)[j]),
                ),
{
    lemma_keywords_of_words(words(text));
}

} // verus!
