//! LaTeX escaping for template values, and which template file renders
//! which output.

use vstd::prelude::*;
use vstd::string::StringExecFns;

use crate::text::{chars_of, push_char, same_text};

verus! {

/// Whether `c` has a meaning of its own in LaTeX.
pub open spec fn is_latex_special(c: char) -> bool {
    c == '\\' || c == '&' || c == '%' || c == '$' || c == '#' || c == '_' || c == '{' || c == '}'
        || c == '~' || c == '^'
}

/// What one character becomes: `\` gives `\textbackslash\{\}`, `~` gives
/// `\textasciitilde{}`, `^` gives `\textasciicircum{}`, the other special
/// characters get a backslash in front, and everything else stays.
///
/// This is the net effect of replacing, in this order, `\` by
/// `\textbackslash{}`, then `&`, `%`, `$`, `#`, `_`, `{`, `}` by their
/// backslashed forms, then `~` and `^` by their commands: the braces that the
/// first step brings in are escaped by the later ones, those of the last two
/// are not.
pub open spec fn latex_escape_char(c: char) -> Seq<char> {
    if c == '\\' {
        seq![
            '\\', 't', 'e', 'x', 't', 'b', 'a', 'c', 'k', 's', 'l', 'a', 's', 'h', '\\', '{', '\\',
            '}',
        ]
    } else if c == '~' {
        seq![
            '\\', 't', 'e', 'x', 't', 'a', 's', 'c', 'i', 'i', 't', 'i', 'l', 'd', 'e', '{', '}',
        ]
    } else if c == '^' {
        seq![
            '\\', 't', 'e', 'x', 't', 'a', 's', 'c', 'i', 'i', 'c', 'i', 'r', 'c', 'u', 'm', '{',
            '}',
        ]
    } else if is_latex_special(c) {
        seq!['\\', c]
    } else {
        seq![c]
    }
}

/// `s` with every character escaped for LaTeX.
pub open spec fn latex_escaped(s: Seq<char>) -> Seq<char>
    decreases s.len(),
{
    if s.len() == 0 {
        seq![]
    } else {
        latex_escaped(s.drop_last()) + latex_escape_char(s.last())
    }
}

/// Appends the characters of `t` to `out`.
fn push_all(out: &mut String, t: &[char])
    ensures
        final(out)@ == old(out)@ + t@,
{
    let mut i: usize = 0;
    while i < t.len()
        invariant
            i <= t.len(),
            out@ == old(out)@ + t@.take(i as int),
        decreases t.len() - i,
    {
        push_char(out, t[i]);
        assert(t@.take(i + 1) =~= t@.take(i as int).push(t@[i as int]));
        i = i + 1;
    }
    assert(t@.take(t.len() as int) =~= t@);
}

/// Escapes the characters that LaTeX treats specially, so the text reads
/// literally in a LaTeX document.
pub fn escape_latex_str(s: &str) -> (r: String)
    ensures
        r@ == latex_escaped(s@),
{
    let cs = chars_of(s);
    let mut out = String::new();
    let mut i: usize = 0;
    while i < cs.len()
        invariant
            cs@ == s@,
            i <= cs.len(),
            out@ == latex_escaped(cs@.take(i as int)),
        decreases cs.len() - i,
    {
        let c = cs[i];
        assert(cs@.take(i + 1).drop_last() =~= cs@.take(i as int));
        if c == '\\' {
            push_all(
                &mut out,
                &[
                    '\\', 't', 'e', 'x', 't', 'b', 'a', 'c', 'k', 's', 'l', 'a', 's', 'h', '\\',
                    '{', '\\', '}',
                ],
            );
        } else if c == '~' {
            push_all(
                &mut out,
                &[
                    '\\', 't', 'e', 'x', 't', 'a', 's', 'c', 'i', 'i', 't', 'i', 'l', 'd', 'e',
                    '{', '}',
                ],
            );
        } else if c == '^' {
            push_all(
                &mut out,
                &[
                    '\\', 't', 'e', 'x', 't', 'a', 's', 'c', 'i', 'i', 'c', 'i', 'r', 'c', 'u',
                    'm', '{', '}',
                ],
            );
        } else if c == '&' || c == '%' || c == '$' || c == '#' || c == '_' || c == '{' || c
            == '}' {
            push_char(&mut out, '\\');
            push_char(&mut out, c);
        } else {
            push_char(&mut out, c);
        }
        assert(out@ =~= latex_escaped(cs@.take(i + 1)));
        i = i + 1;
    }
    assert(cs@.take(cs.len() as int) =~= cs@);
    out
}

} // verus!

verus! {

/// Whether `c` is one of the characters escaped as a backslash followed by itself.
pub open spec fn is_backslashed(c: char) -> bool {
    c == '&' || c == '%' || c == '$' || c == '#' || c == '_'
}

proof fn lemma_escape_char_shape(c: char)
    ensures
        latex_escape_char(c).len() > 0,
        latex_escape_char(c).last() != '\\',
        forall|k: int|
            0 <= k < latex_escape_char(c).len() ==> #[trigger] latex_escape_char(c)[k] != '~'
                && latex_escape_char(c)[k] != '^',
        forall|k: int|
            0 <= k < latex_escape_char(c).len() && is_backslashed(#[trigger] latex_escape_char(c)[k])
                ==> k > 0 && latex_escape_char(c)[k - 1] == '\\',
{
    let e = latex_escape_char(c);
    if c == '\\' {
        assert(e.len() == 18);
    } else if c == '~' {
        assert(e.len() == 17);
    } else if c == '^' {
        assert(e.len() == 18);
    } else if is_latex_special(c) {
        assert(e.len() == 2);
    } else {
        assert(e.len() == 1);
    }
}

/// Escaped text never holds a raw `~` or `^`: both become commands.
pub proof fn escaped_has_no_tilde_or_caret(s: Seq<char>)
    ensures
        forall|i: int|
            0 <= i < latex_escaped(s).len() ==> #[trigger] latex_escaped(s)[i] != '~'
                && latex_escaped(s)[i] != '^',
    decreases s.len(),
{
    if s.len() > 0 {
        let p = latex_escaped(s.drop_last());
        let e = latex_escape_char(s.last());
        escaped_has_no_tilde_or_caret(s.drop_last());
        lemma_escape_char_shape(s.last());
        assert forall|i: int| 0 <= i < latex_escaped(s).len() implies #[trigger] latex_escaped(s)[i]
            != '~' && latex_escaped(s)[i] != '^' by {
            if i < p.len() {
                assert(latex_escaped(s)[i] == p[i]);
            } else {
                assert(latex_escaped(s)[i] == e[i - p.len()]);
            }
        }
    }
}

/// In escaped text, every `&`, `%`, `$`, `#` and `_` comes right after a
/// backslash.
pub proof fn escaped_specials_follow_backslash(s: Seq<char>)
    ensures
        forall|i: int|
            0 <= i < latex_escaped(s).len() && is_backslashed(#[trigger] latex_escaped(s)[i]) ==> i > 0
                && latex_escaped(s)[i - 1] == '\\',
    decreases s.len(),
{
    if s.len() > 0 {
        let p = latex_escaped(s.drop_last());
        let e = latex_escape_char(s.last());
        let t = latex_escaped(s);
        escaped_specials_follow_backslash(s.drop_last());
        lemma_escape_char_shape(s.last());
        assert(t == p + e);
        assert forall|i: int| 0 <= i < t.len() && is_backslashed(#[trigger] t[i]) implies i > 0 && t[i
            - 1] == '\\' by {
            if i < p.len() {
                assert(t[i] == p[i]);
                assert(t[i - 1] == p[i - 1]);
            } else {
                let k = i - p.len();
                assert(t[i] == e[k]);
                assert(k > 0 && e[k - 1] == '\\');
                assert(t[i - 1] == e[k - 1]);
            }
        }
    }
}

/// Escaped text never ends with a backslash.
pub proof fn escaped_never_ends_in_backslash(s: Seq<char>)
    ensures
        latex_escaped(s).len() > 0 ==> latex_escaped(s).last() != '\\',
{
    if s.len() > 0 {
        let p = latex_escaped(s.drop_last());
        let e = latex_escape_char(s.last());
        lemma_escape_char_shape(s.last());
        assert(latex_escaped(s).last() == e.last());
    }
}

/// Text without any special character is left as it is.
pub proof fn plain_text_unchanged(s: Seq<char>)
    requires
        forall|i: int| 0 <= i < s.len() ==> !is_latex_special(#[trigger] s[i]),
    ensures
        latex_escaped(s) == s,
    decreases s.len(),
{
    if s.len() > 0 {
        assert(forall|i: int| 0 <= i < s.drop_last().len() ==> s.drop_last()[i] == s[i]);
        plain_text_unchanged(s.drop_last());
        assert(!is_latex_special(s[s.len() - 1]));
        assert(latex_escaped(s) =~= s);
    }
}

} // verus!

verus! {

/// The template that renders the LaTeX resume.
pub const LATEX_TEMPLATE: &'static str = "latex/moderncv.tex.j2";

/// The template that renders the ATS-friendly plain text.
pub const ATS_TEXT_TEMPLATE: &'static str = "text/ats-friendly.txt.j2";

/// A theme name that no HTML template answers to.
#[derive(Debug)]
pub struct UnknownTheme {
    pub theme: String,
}

impl UnknownTheme {
    /// `Unknown theme: ` and the theme's name.
    pub fn message(&self) -> (r: String)
        ensures
            r@ == "Unknown theme: "@ + self.theme@,
    {
        let mut m = String::from_str("Unknown theme: ");
        m.append(self.theme.as_str());
        m
    }
}

/// The HTML template for each theme.
pub open spec fn theme_template(theme: Seq<char>) -> Option<Seq<char>> {
    if theme == "modern"@ {
        Some("html/modern.html.j2"@)
    } else if theme == "clean-minimal"@ {
        Some("html/themes/clean-minimal.html.j2"@)
    } else if theme == "modern-professional"@ {
        Some("html/themes/modern-professional.html.j2"@)
    } else if theme == "tech-timeline"@ {
        Some("html/themes/tech-timeline.html.j2"@)
    } else {
        None
    }
}

/// The HTML template that renders `theme`: `modern`, `clean-minimal`,
/// `modern-professional` or `tech-timeline`; any other name is refused.
pub fn html_template_for_theme(theme: &str) -> (r: Result<&'static str, UnknownTheme>)
    ensures
        match theme_template(theme@) {
            Some(t) => r matches Ok(name) && name@ == t,
            None => r matches Err(e) && e.theme@ == theme@,
        },
{
    if same_text(theme, "modern") {
        Ok("html/modern.html.j2")
    } else if same_text(theme, "clean-minimal") {
        Ok("html/themes/clean-minimal.html.j2")
    } else if same_text(theme, "modern-professional") {
        Ok("html/themes/modern-professional.html.j2")
    } else if same_text(theme, "tech-timeline") {
        Ok("html/themes/tech-timeline.html.j2")
    } else {
        Err(UnknownTheme { theme: String::from_str(theme) })
    }
}

} // verus!

verus! {

/// `s` with every `c` replaced by `r`, as `str::replace` with a `char`
/// pattern returns it.
pub open spec fn replace_char(s: Seq<char>, c: char, r: Seq<char>) -> Seq<char>
    decreases s.len(),
{
    if s.len() == 0 {
        seq![]
    } else {
        replace_char(s.drop_last(), c, r) + if s.last() == c {
            r
        } else {
            seq![s.last()]
        }
    }
}

/// `\textbackslash{}`
pub open spec fn textbackslash() -> Seq<char> {
    seq!['\\', 't', 'e', 'x', 't', 'b', 'a', 'c', 'k', 's', 'l', 'a', 's', 'h', '{', '}']
}

/// `\textasciitilde{}`
pub open spec fn textasciitilde() -> Seq<char> {
    seq!['\\', 't', 'e', 'x', 't', 'a', 's', 'c', 'i', 'i', 't', 'i', 'l', 'd', 'e', '{', '}']
}

/// `\textasciicircum{}`
pub open spec fn textasciicircum() -> Seq<char> {
    seq!['\\', 't', 'e', 'x', 't', 'a', 's', 'c', 'i', 'i', 'c', 'i', 'r', 'c', 'u', 'm', '{', '}']
}

/// Escaping stated as ten whole-string replacements, applied one after the
/// other in this order: `\`, `&`, `%`, `$`, `#`, `_`, `{`, `}`, `~`, `^`.
pub open spec fn replace_chain(s: Seq<char>) -> Seq<char> {
    let s1 = replace_char(s, '\\', textbackslash());
    let s2 = replace_char(s1, '&', seq!['\\', '&']);
    let s3 = replace_char(s2, '%', seq!['\\', '%']);
    let s4 = replace_char(s3, '$', seq!['\\', '$']);
    let s5 = replace_char(s4, '#', seq!['\\', '#']);
    let s6 = replace_char(s5, '_', seq!['\\', '_']);
    let s7 = replace_char(s6, '{', seq!['\\', '{']);
    let s8 = replace_char(s7, '}', seq!['\\', '}']);
    let s9 = replace_char(s8, '~', textasciitilde());
    replace_char(s9, '^', textasciicircum())
}

proof fn lemma_replace_concat(a: Seq<char>, b: Seq<char>, c: char, r: Seq<char>)
    ensures
        replace_char(a + b, c, r) == replace_char(a, c, r) + replace_char(b, c, r),
    decreases b.len(),
{
    if b.len() == 0 {
        assert(a + b =~= a);
    } else {
        lemma_replace_concat(a, b.drop_last(), c, r);
        assert((a + b).drop_last() =~= a + b.drop_last());
        assert((a + b).last() == b.last());
    }
}

proof fn lemma_replace_absent(s: Seq<char>, c: char, r: Seq<char>)
    requires
        forall|i: int| 0 <= i < s.len() ==> s[i] != c,
    ensures
        replace_char(s, c, r) == s,
    decreases s.len(),
{
    if s.len() > 0 {
        lemma_replace_absent(s.drop_last(), c, r);
        assert(replace_char(s, c, r) =~= s);
    }
}

proof fn lemma_replace_single(x: char, c: char, r: Seq<char>)
    ensures
        replace_char(seq![x], c, r) == if x == c {
            r
        } else {
            seq![x]
        },
{
    assert(seq![x].drop_last() =~= Seq::<char>::empty());
    assert(replace_char(Seq::<char>::empty(), c, r) == Seq::<char>::empty());
    assert(replace_char(seq![x].drop_last(), c, r) == Seq::<char>::empty());
    assert(seq![x].last() == x);
    assert(Seq::<char>::empty() + r =~= r);
    assert(Seq::<char>::empty() + seq![x] =~= seq![x]);
}

proof fn lemma_chain_concat(a: Seq<char>, b: Seq<char>)
    ensures
        replace_chain(a + b) == replace_chain(a) + replace_chain(b),
{
    let t1 = textbackslash();
    let t9 = textasciitilde();
    let t10 = textasciicircum();
    lemma_replace_concat(a, b, '\\', t1);
    let (a1, b1) = (replace_char(a, '\\', t1), replace_char(b, '\\', t1));
    lemma_replace_concat(a1, b1, '&', seq!['\\', '&']);
    let (a2, b2) = (replace_char(a1, '&', seq!['\\', '&']), replace_char(b1, '&', seq!['\\', '&']));
    lemma_replace_concat(a2, b2, '%', seq!['\\', '%']);
    let (a3, b3) = (replace_char(a2, '%', seq!['\\', '%']), replace_char(b2, '%', seq!['\\', '%']));
    lemma_replace_concat(a3, b3, '$', seq!['\\', '$']);
    let (a4, b4) = (replace_char(a3, '$', seq!['\\', '$']), replace_char(b3, '$', seq!['\\', '$']));
    lemma_replace_concat(a4, b4, '#', seq!['\\', '#']);
    let (a5, b5) = (replace_char(a4, '#', seq!['\\', '#']), replace_char(b4, '#', seq!['\\', '#']));
    lemma_replace_concat(a5, b5, '_', seq!['\\', '_']);
    let (a6, b6) = (replace_char(a5, '_', seq!['\\', '_']), replace_char(b5, '_', seq!['\\', '_']));
    lemma_replace_concat(a6, b6, '{', seq!['\\', '{']);
    let (a7, b7) = (replace_char(a6, '{', seq!['\\', '{']), replace_char(b6, '{', seq!['\\', '{']));
    lemma_replace_concat(a7, b7, '}', seq!['\\', '}']);
    let (a8, b8) = (replace_char(a7, '}', seq!['\\', '}']), replace_char(b7, '}', seq!['\\', '}']));
    lemma_replace_concat(a8, b8, '~', t9);
    let (a9, b9) = (replace_char(a8, '~', t9), replace_char(b8, '~', t9));
    lemma_replace_concat(a9, b9, '^', t10);
}

} // verus!

verus! {

proof fn lemma_chain_char(x: char)
    ensures
        replace_chain(seq![x]) == latex_escape_char(x),
{
    let t1 = textbackslash();
    let t9 = textasciitilde();
    let t10 = textasciicircum();
    let p = t1.subrange(0, 14);
    if x == '\\' {
        lemma_replace_single(x, '\\', t1);
        let s1 = replace_char(seq![x], '\\', t1);
        assert(s1 == t1);
        assert(forall|i: int| 0 <= i < t1.len() ==> t1[i] != '&' && t1[i] != '%' && t1[i] != '$'
            && t1[i] != '#' && t1[i] != '_' && t1[i] != '~' && t1[i] != '^');
        lemma_replace_absent(t1, '&', seq!['\\', '&']);
        lemma_replace_absent(t1, '%', seq!['\\', '%']);
        lemma_replace_absent(t1, '$', seq!['\\', '$']);
        lemma_replace_absent(t1, '#', seq!['\\', '#']);
        lemma_replace_absent(t1, '_', seq!['\\', '_']);
        assert(t1 =~= p + seq!['{'] + seq!['}']);
        assert(forall|i: int| 0 <= i < p.len() ==> p[i] != '{' && p[i] != '}' && p[i] != '~' && p[i] != '^');
        lemma_replace_concat(p + seq!['{'], seq!['}'], '{', seq!['\\', '{']);
        lemma_replace_concat(p, seq!['{'], '{', seq!['\\', '{']);
        lemma_replace_absent(p, '{', seq!['\\', '{']);
        lemma_replace_single('{', '{', seq!['\\', '{']);
        lemma_replace_single('}', '{', seq!['\\', '{']);
        let s7 = p + seq!['\\', '{'] + seq!['}'];
        assert(replace_char(t1, '{', seq!['\\', '{']) == s7);
        lemma_replace_concat(p + seq!['\\', '{'], seq!['}'], '}', seq!['\\', '}']);
        lemma_replace_concat(p, seq!['\\', '{'], '}', seq!['\\', '}']);
        lemma_replace_absent(p, '}', seq!['\\', '}']);
        lemma_replace_absent(seq!['\\', '{'], '}', seq!['\\', '}']);
        lemma_replace_single('}', '}', seq!['\\', '}']);
        let s8 = p + seq!['\\', '{'] + seq!['\\', '}'];
        assert(replace_char(s7, '}', seq!['\\', '}']) == s8);
        assert(forall|i: int| 0 <= i < s8.len() ==> s8[i] != '~' && s8[i] != '^');
        lemma_replace_absent(s8, '~', t9);
        lemma_replace_absent(s8, '^', t10);
        assert(s8 =~= latex_escape_char(x));
    } else if x == '~' || x == '^' {
        let t = if x == '~' { t9 } else { t10 };
        lemma_replace_single(x, '\\', t1);
        lemma_replace_single(x, '&', seq!['\\', '&']);
        lemma_replace_single(x, '%', seq!['\\', '%']);
        lemma_replace_single(x, '$', seq!['\\', '$']);
        lemma_replace_single(x, '#', seq!['\\', '#']);
        lemma_replace_single(x, '_', seq!['\\', '_']);
        lemma_replace_single(x, '{', seq!['\\', '{']);
        lemma_replace_single(x, '}', seq!['\\', '}']);
        lemma_replace_single(x, '~', t9);
        if x == '~' {
            assert(forall|i: int| 0 <= i < t9.len() ==> t9[i] != '^');
            lemma_replace_absent(t9, '^', t10);
        } else {
            lemma_replace_single(x, '^', t10);
        }
        assert(t =~= latex_escape_char(x));
    } else if is_latex_special(x) {
        let e = seq!['\\', x];
        lemma_replace_single(x, '\\', t1);
        lemma_replace_single(x, '&', seq!['\\', '&']);
        lemma_replace_single(x, '%', seq!['\\', '%']);
        lemma_replace_single(x, '$', seq!['\\', '$']);
        lemma_replace_single(x, '#', seq!['\\', '#']);
        lemma_replace_single(x, '_', seq!['\\', '_']);
        lemma_replace_single(x, '{', seq!['\\', '{']);
        lemma_replace_single(x, '}', seq!['\\', '}']);
        assert(e.len() == 2 && e[0] == '\\' && e[1] == x);
        if x != '&' {
            lemma_replace_absent(e, '&', seq!['\\', '&']);
        }
        if x != '%' {
            lemma_replace_absent(e, '%', seq!['\\', '%']);
        }
        if x != '$' {
            lemma_replace_absent(e, '$', seq!['\\', '$']);
        }
        if x != '#' {
            lemma_replace_absent(e, '#', seq!['\\', '#']);
        }
        if x != '_' {
            lemma_replace_absent(e, '_', seq!['\\', '_']);
        }
        if x != '{' {
            lemma_replace_absent(e, '{', seq!['\\', '{']);
        }
        if x != '}' {
            lemma_replace_absent(e, '}', seq!['\\', '}']);
        }
        lemma_replace_absent(e, '~', t9);
        lemma_replace_absent(e, '^', t10);
        assert(replace_chain(seq![x]) == e) by {
            if x == '&' {
                assert(replace_char(seq![x], '&', seq!['\\', '&']) == e);
            } else if x == '%' {
                assert(replace_char(seq![x], '%', seq!['\\', '%']) == e);
            } else if x == '$' {
                assert(replace_char(seq![x], '$', seq!['\\', '$']) == e);
            } else if x == '#' {
                assert(replace_char(seq![x], '#', seq!['\\', '#']) == e);
            } else if x == '_' {
                assert(replace_char(seq![x], '_', seq!['\\', '_']) == e);
            } else if x == '{' {
                assert(replace_char(seq![x], '{', seq!['\\', '{']) == e);
            } else {
                assert(replace_char(seq![x], '}', seq!['\\', '}']) == e);
            }
        }
    } else {
        lemma_replace_single(x, '\\', t1);
        lemma_replace_single(x, '&', seq!['\\', '&']);
        lemma_replace_single(x, '%', seq!['\\', '%']);
        lemma_replace_single(x, '$', seq!['\\', '$']);
        lemma_replace_single(x, '#', seq!['\\', '#']);
        lemma_replace_single(x, '_', seq!['\\', '_']);
        lemma_replace_single(x, '{', seq!['\\', '{']);
        lemma_replace_single(x, '}', seq!['\\', '}']);
        lemma_replace_single(x, '~', t9);
        lemma_replace_single(x, '^', t10);
    }
}

/// Escaping character by character gives what the ten replacements, applied
/// in order to the whole text, give.
pub proof fn escaping_matches_replacement_chain(s: Seq<char>)
    ensures
        latex_escaped(s) == replace_chain(s),
    decreases s.len(),
{
    if s.len() > 0 {
        escaping_matches_replacement_chain(s.drop_last());
        assert(s =~= s.drop_last() + seq![s.last()]);
        lemma_chain_concat(s.drop_last(), seq![s.last()]);
        lemma_chain_char(s.last());
    } else {
        assert(replace_chain(s) =~= s);
    }
}

} // verus!
