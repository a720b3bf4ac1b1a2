//! Character-level helpers on strings, stated over `Seq<char>` views.

use vstd::prelude::*;
use vstd::string::StringExecFns;

verus! {

/// Appends one character to a string.
///
/// Calls `String::push`, which std documents as appending the given `char`
/// to the end of the string; the contract says exactly that.
#[verifier::external_body]
pub(crate) fn push_char(s: &mut String, c: char)
    ensures
        final(s)@ == old(s)@.push(c),
{
    s.push(c);
}

/// The characters of `s`, in order.
pub fn chars_of(s: &str) -> (r: Vec<char>)
    ensures
        r@ == s@,
{
    let mut r: Vec<char> = Vec::new();
    for c in it: s.chars()
        invariant
            r@ == it.seq().take(it.index() as int),
    {
        r.push(c);
    }
    r
}

/// The string made of the characters `cs[from..to]`.
pub fn string_from_chars(cs: &Vec<char>, from: usize, to: usize) -> (r: String)
    requires
        from <= to <= cs.len(),
    ensures
        r@ == cs@.subrange(from as int, to as int),
{
    let mut r = String::new();
    let mut i = from;
    while i < to
        invariant
            from <= i <= to <= cs.len(),
            r@ == cs@.subrange(from as int, i as int),
        decreases to - i,
    {
        push_char(&mut r, cs[i]);
        assert(r@ =~= cs@.subrange(from as int, i + 1));
        i = i + 1;
    }
    r
}

/// The Unicode `White_Space` property, the set that `char::is_whitespace`
/// tests and that `str::split_whitespace` splits on.
pub open spec fn is_white_space(c: char) -> bool {
    let u = c as u32;
    ||| 0x09 <= u <= 0x0d
    ||| u == 0x20
    ||| u == 0x85
    ||| u == 0xa0
    ||| u == 0x1680
    ||| 0x2000 <= u <= 0x200a
    ||| u == 0x2028
    ||| u == 0x2029
    ||| u == 0x202f
    ||| u == 0x205f
    ||| u == 0x3000
}

/// Whether `c` has the Unicode `White_Space` property.
pub fn char_is_white_space(c: char) -> (r: bool)
    ensures
        r == is_white_space(c),
{
    let u = c as u32;
    (0x09 <= u && u <= 0x0d) || u == 0x20 || u == 0x85 || u == 0xa0 || u == 0x1680 || (0x2000
        <= u && u <= 0x200a) || u == 0x2028 || u == 0x2029 || u == 0x202f || u == 0x205f || u
        == 0x3000
}

/// The words of `s` as `str::split_whitespace` yields them: the maximal
/// non-empty runs of characters without the `White_Space` property, in order.
pub open spec fn words(s: Seq<char>) -> Seq<Seq<char>>
    decreases s.len(),
{
    if s.len() == 0 {
        seq![]
    } else {
        let prev = words(s.drop_last());
        let c = s.last();
        if is_white_space(c) {
            prev
        } else if s.len() >= 2 && !is_white_space(s[s.len() - 2]) {
            prev.drop_last().push(prev.last().push(c))
        } else {
            prev.push(seq![c])
        }
    }
}

/// Decimal digit character for `d < 10`.
pub open spec fn digit_char(d: nat) -> char {
    ((d + 48) as u32) as char
}

/// The decimal representation of `n`, as `usize`'s `Display` writes it.
pub open spec fn decimal(n: nat) -> Seq<char>
    decreases n,
{
    if n < 10 {
        seq![digit_char(n)]
    } else {
        decimal(n / 10).push(digit_char(n % 10))
    }
}

/// Appends the decimal representation of `n` to `s`.
pub fn push_decimal(s: &mut String, n: usize)
    ensures
        final(s)@ == old(s)@ + decimal(n as nat),
    decreases n,
{
    if n >= 10 {
        push_decimal(s, n / 10);
    }
    let d = (n % 10) as u8;
    let c = (d + 48) as char;
    push_char(s, c);
}

} // verus!

verus! {

/// The views of a sequence of strings.
pub open spec fn strs(v: Seq<String>) -> Seq<Seq<char>> {
    v.map_values(|s: String| s@)
}

/// Appends `s` to a vector of strings; the views follow along.
pub fn push_string(v: &mut Vec<String>, s: String)
    ensures
        strs(final(v)@) == strs(old(v)@).push(s@),
{
    v.push(s);
    assert(strs(v@) =~= strs(old(v)@).push(s@));
}

/// The number of bytes `c` takes in UTF-8, as `char::len_utf8` gives it.
pub open spec fn utf8_width(c: char) -> nat {
    let u = c as u32;
    if u < 0x80 {
        1
    } else if u < 0x800 {
        2
    } else if u < 0x10000 {
        3
    } else {
        4
    }
}

/// The number of bytes of the UTF-8 encoding of `s`: what `str::len` returns.
pub open spec fn utf8_len(s: Seq<char>) -> nat
    decreases s.len(),
{
    if s.len() == 0 {
        0
    } else {
        utf8_len(s.drop_last()) + utf8_width(s.last())
    }
}

/// The byte length of `s`, or `cap` where the length reaches `cap`.
pub(crate) fn byte_len_capped(s: &str, cap: usize) -> (r: usize)
    requires
        1 <= cap <= 1_000_000,
    ensures
        r == if utf8_len(s@) < cap { utf8_len(s@) } else { cap as nat },
{
    let cs = chars_of(s);
    let mut total: usize = 0;
    let mut i: usize = 0;
    while i < cs.len()
        invariant
            cs@ == s@,
            i <= cs.len(),
            1 <= cap <= 1_000_000,
            total == utf8_len(cs@.take(i as int)),
            total < cap,
        decreases cs.len() - i,
    {
        let u = cs[i] as u32;
        let w: usize = if u < 0x80 {
            1
        } else if u < 0x800 {
            2
        } else if u < 0x10000 {
            3
        } else {
            4
        };
        assert(cs@.take(i + 1).drop_last() =~= cs@.take(i as int));
        total = total + w;
        i = i + 1;
        if total >= cap {
            proof {
                lemma_utf8_len_prefix(cs@, i as int);
            }
            return cap;
        }
    }
    assert(cs@.take(cs.len() as int) =~= cs@);
    total
}

/// A prefix never takes more bytes than the whole.
pub proof fn lemma_utf8_len_prefix(s: Seq<char>, k: int)
    requires
        0 <= k <= s.len(),
    ensures
        utf8_len(s.take(k)) <= utf8_len(s),
    decreases s.len() - k,
{
    if k < s.len() {
        lemma_utf8_len_prefix(s, k + 1);
        assert(s.take(k + 1).drop_last() =~= s.take(k));
    } else {
        assert(s.take(k) =~= s);
    }
}

/// Whether two strings hold the same characters.
pub fn same_text(a: &str, b: &str) -> (r: bool)
    ensures
        r == (a@ == b@),
{
    let x = chars_of(a);
    let y = chars_of(b);
    if x.len() != y.len() {
        return false;
    }
    let mut i: usize = 0;
    while i < x.len()
        invariant
            x@ == a@,
            y@ == b@,
            x.len() == y.len(),
            i <= x.len(),
            forall|k: int| 0 <= k < i ==> x@[k] == y@[k],
        decreases x.len() - i,
    {
        if x[i] != y[i] {
            return false;
        }
        i = i + 1;
    }
    assert(a@ =~= b@);
    true
}

/// `s` joined with `sep` between consecutive items, as `[&str]::join` builds it.
pub open spec fn join(parts: Seq<Seq<char>>, sep: Seq<char>) -> Seq<char>
    decreases parts.len(),
{
    if parts.len() == 0 {
        seq![]
    } else if parts.len() == 1 {
        parts[0]
    } else {
        join(parts.drop_last(), sep) + sep + parts.last()
    }
}

/// Joins strings with a separator.
pub fn join_strings(parts: &Vec<String>, sep: &str) -> (r: String)
    ensures
        r@ == join(strs(parts@), sep@),
{
    let mut r = String::new();
    let mut i: usize = 0;
    while i < parts.len()
        invariant
            i <= parts.len(),
            r@ == join(strs(parts@).take(i as int), sep@),
        decreases parts.len() - i,
    {
        assert(strs(parts@).take(i + 1).drop_last() =~= strs(parts@).take(i as int));
        if i > 0 {
            r.append(sep);
        }
        r.append(parts[i].as_str());
        i = i + 1;
    }
    assert(strs(parts@).take(parts.len() as int) =~= strs(parts@));
    r
}

/// Whether `needle` occurs in `hay` as a contiguous run, as `str::contains`
/// answers for a string pattern.
pub open spec fn occurs_in(hay: Seq<char>, needle: Seq<char>) -> bool {
    exists|i: int| 0 <= i <= hay.len() - needle.len() && #[trigger] hay.subrange(i, i + needle.len()) == needle
}

/// Whether `needle` occurs at position `at` of `hay`.
fn occurs_at(hay: &Vec<char>, needle: &Vec<char>, at: usize) -> (r: bool)
    requires
        at + needle.len() <= hay.len(),
    ensures
        r == (hay@.subrange(at as int, at + needle.len()) == needle@),
{
    let mut k: usize = 0;
    while k < needle.len()
        invariant
            at + needle.len() <= hay.len(),
            k <= needle.len(),
            forall|m: int| 0 <= m < k ==> hay@[at + m] == needle@[m],
        decreases needle.len() - k,
    {
        if hay[at + k] != needle[k] {
            assert(hay@.subrange(at as int, at + needle.len())[k as int] != needle@[k as int]);
            return false;
        }
        k = k + 1;
    }
    assert(hay@.subrange(at as int, at + needle.len()) =~= needle@);
    true
}

/// Whether `needle` occurs in `hay`.
pub fn contains_text(hay: &str, needle: &str) -> (r: bool)
    ensures
        r == occurs_in(hay@, needle@),
{
    let h = chars_of(hay);
    let n = chars_of(needle);
    if n.len() == 0 {
        assert(hay@.subrange(0int, 0int + needle@.len()) =~= needle@);
        return true;
    }
    if n.len() > h.len() {
        return false;
    }
    let last = h.len() - n.len();
    let mut i: usize = 0;
    while i <= last
        invariant
            h@ == hay@,
            n@ == needle@,
            last == h.len() - n.len(),
            0 < n.len() <= h.len(),
            forall|k: int| 0 <= k < i ==> #[trigger] h@.subrange(k, k + n.len()) != n@,
        decreases last + 1 - i,
    {
        if occurs_at(&h, &n, i) {
            return true;
        }
        i = i + 1;
    }
    assert(!occurs_in(hay@, needle@)) by {
        assert forall|k: int| 0 <= k <= hay@.len() - needle@.len() implies #[trigger] hay@.subrange(
            k,
            k + needle@.len(),
        ) != needle@ by {
            assert(h@.subrange(k, k + n.len()) != n@);
        }
    }
    false
}

/// What `char::is_alphanumeric` answers for `c`: whether `c` has the Unicode
/// `Alphabetic` property or a numeric general category.
pub uninterp spec fn is_alphanumeric(c: char) -> bool;

/// Calls `char::is_alphanumeric`; the result is named `is_alphanumeric`.
#[verifier::external_body]
pub(crate) fn char_is_alphanumeric(c: char) -> (r: bool)
    ensures
        r == is_alphanumeric(c),
{
    c.is_alphanumeric()
}

/// What `str::to_lowercase` returns for the characters `s`: the Unicode
/// lowercase mapping, applied character by character with the final-sigma rule.
pub uninterp spec fn lowercase(s: Seq<char>) -> Seq<char>;

/// Calls `str::to_lowercase`; the result is named `lowercase`.
#[verifier::external_body]
pub(crate) fn to_lowercase(s: &str) -> (r: String)
    ensures
        r@ == lowercase(s@),
{
    s.to_lowercase()
}

} // verus!

verus! {

/// The views of a sequence of character vectors.
pub open spec fn vecs(v: Seq<Vec<char>>) -> Seq<Seq<char>> {
    v.map_values(|w: Vec<char>| w@)
}

/// Splits `cs` into its words, as `str::split_whitespace` does.
pub fn split_words(cs: &Vec<char>) -> (r: Vec<Vec<char>>)
    ensures
        vecs(r@) == words(cs@),
{
    let mut ws: Vec<Vec<char>> = Vec::new();
    let mut cur: Vec<char> = Vec::new();
    let mut i: usize = 0;
    while i < cs.len()
        invariant
            i <= cs.len(),
            words(cs@.take(i as int)) == if cur.len() > 0 {
                vecs(ws@).push(cur@)
            } else {
                vecs(ws@)
            },
            cur.len() > 0 <==> (i > 0 && !is_white_space(cs@[i - 1])),
        decreases cs.len() - i,
    {
        let c = cs[i];
        let ghost prefix = cs@.take(i + 1);
        assert(prefix.drop_last() =~= cs@.take(i as int));
        assert(prefix.last() == c);
        assert(i > 0 ==> prefix[i - 1] == cs@[i - 1]);
        if char_is_white_space(c) {
            if cur.len() > 0 {
                let ghost before = vecs(ws@).push(cur@);
                let done = cur;
                ws.push(done);
                cur = Vec::new();
                assert(vecs(ws@) =~= before);
            }
        } else {
            if cur.len() > 0 {
                let ghost before = vecs(ws@).push(cur@);
                cur.push(c);
                assert(before.drop_last().push(before.last().push(c)) =~= vecs(ws@).push(cur@));
            } else {
                cur.push(c);
                assert(cur@ =~= seq![c]);
            }
        }
        i = i + 1;
    }
    assert(cs@.take(cs.len() as int) =~= cs@);
    if cur.len() > 0 {
        let ghost before = vecs(ws@).push(cur@);
        ws.push(cur);
        assert(vecs(ws@) =~= before);
    }
    ws
}

/// The number of words of `s`, as `str::split_whitespace().count()` gives it.
pub fn count_words(s: &str) -> (r: usize)
    ensures
        r == words(s@).len(),
{
    let cs = chars_of(s);
    let mut count: usize = 0;
    let mut in_word = false;
    let mut i: usize = 0;
    while i < cs.len()
        invariant
            cs@ == s@,
            i <= cs.len(),
            count <= i,
            words(cs@.take(i as int)).len() == count,
            in_word <==> (i > 0 && !is_white_space(cs@[i - 1])),
            in_word ==> count > 0,
        decreases cs.len() - i,
    {
        let c = cs[i];
        let ghost prefix = cs@.take(i + 1);
        assert(prefix.drop_last() =~= cs@.take(i as int));
        assert(prefix.last() == c);
        assert(i > 0 ==> prefix[i - 1] == cs@[i - 1]);
        if char_is_white_space(c) {
            in_word = false;
        } else {
            if !in_word {
                count = count + 1;
            }
            in_word = true;
        }
        i = i + 1;
    }
    assert(cs@.take(cs.len() as int) =~= cs@);
    count
}

/// `w` with its leading characters that are not alphanumeric removed.
pub open spec fn trim_start_non_alnum(w: Seq<char>) -> Seq<char>
    decreases w.len(),
{
    if w.len() > 0 && !is_alphanumeric(w[0]) {
        trim_start_non_alnum(w.drop_first())
    } else {
        w
    }
}

/// `w` with its trailing characters that are not alphanumeric removed.
pub open spec fn trim_end_non_alnum(w: Seq<char>) -> Seq<char>
    decreases w.len(),
{
    if w.len() > 0 && !is_alphanumeric(w.last()) {
        trim_end_non_alnum(w.drop_last())
    } else {
        w
    }
}

/// `w` with every prefix and suffix of non-alphanumeric characters removed,
/// as `str::trim_matches(|c: char| !c.is_alphanumeric())` returns it.
pub open spec fn trim_non_alnum(w: Seq<char>) -> Seq<char> {
    trim_end_non_alnum(trim_start_non_alnum(w))
}

/// The bounds `(a, b)` of the part of `w` that `trim_non_alnum` keeps.
pub fn trim_bounds(w: &Vec<char>) -> (r: (usize, usize))
    ensures
        r.0 <= r.1 <= w.len(),
        w@.subrange(r.0 as int, r.1 as int) == trim_non_alnum(w@),
{
    let n = w.len();
    let mut a: usize = 0;
    assert(w@.subrange(0, n as int) =~= w@);
    while a < n && !char_is_alphanumeric(w[a])
        invariant
            a <= n == w.len(),
            trim_start_non_alnum(w@) == trim_start_non_alnum(w@.subrange(a as int, n as int)),
        decreases n - a,
    {
        assert(w@.subrange(a as int, n as int).drop_first() =~= w@.subrange(a + 1, n as int));
        a = a + 1;
    }
    let mut b: usize = n;
    while b > a && !char_is_alphanumeric(w[b - 1])
        invariant
            a <= b <= n == w.len(),
            trim_start_non_alnum(w@) == w@.subrange(a as int, n as int),
            trim_non_alnum(w@) == trim_end_non_alnum(w@.subrange(a as int, b as int)),
        decreases b - a,
    {
        assert(w@.subrange(a as int, b as int).drop_last() =~= w@.subrange(a as int, b - 1));
        b = b - 1;
    }
    (a, b)
}

} // verus!

verus! {

/// Lexicographic order on byte sequences, as slices of `u8` compare.
pub open spec fn bytes_lt(a: Seq<u8>, b: Seq<u8>) -> bool
    decreases a.len(),
{
    if a.len() == 0 {
        b.len() > 0
    } else if b.len() == 0 {
        false
    } else if a[0] != b[0] {
        a[0] < b[0]
    } else {
        bytes_lt(a.drop_first(), b.drop_first())
    }
}

/// The order of `String`'s `Ord`: lexicographic by the UTF-8 bytes.
pub open spec fn text_lt(a: Seq<char>, b: Seq<char>) -> bool {
    bytes_lt(vstd::utf8::encode_utf8(a), vstd::utf8::encode_utf8(b))
}

/// Two different byte sequences are ordered one way or the other.
pub proof fn lemma_bytes_lt_total(a: Seq<u8>, b: Seq<u8>)
    requires
        a != b,
    ensures
        bytes_lt(a, b) || bytes_lt(b, a),
    decreases a.len(),
{
    if a.len() == 0 || b.len() == 0 {
        if a.len() == 0 && b.len() == 0 {
            assert(a =~= b);
        }
    } else if a[0] != b[0] {
    } else {
        if a.drop_first() == b.drop_first() {
            assert(a =~= b) by {
                assert(a.drop_first().len() == b.drop_first().len());
                assert(a.len() == b.len());
                assert forall|k: int| 0 <= k < a.len() implies a[k] == b[k] by {
                    if k > 0 {
                        assert(a[k] == a.drop_first()[k - 1]);
                        assert(b[k] == b.drop_first()[k - 1]);
                    }
                }
            }
        }
        lemma_bytes_lt_total(a.drop_first(), b.drop_first());
    }
}

/// Two different strings are ordered one way or the other.
pub proof fn lemma_text_lt_total(a: Seq<char>, b: Seq<char>)
    requires
        a != b,
    ensures
        text_lt(a, b) || text_lt(b, a),
{
    vstd::utf8::encode_utf8_decode_utf8(a);
    vstd::utf8::encode_utf8_decode_utf8(b);
    lemma_bytes_lt_total(vstd::utf8::encode_utf8(a), vstd::utf8::encode_utf8(b));
}

/// No later item is smaller than an earlier one.
pub open spec fn non_decreasing(s: Seq<Seq<char>>) -> bool {
    forall|i: int, j: int| 0 <= i < j < s.len() ==> !text_lt(#[trigger] s[j], #[trigger] s[i])
}

/// Every later item is larger than every earlier one.
pub open spec fn strictly_increasing(s: Seq<Seq<char>>) -> bool {
    forall|i: int, j: int| 0 <= i < j < s.len() ==> text_lt(#[trigger] s[i], #[trigger] s[j])
}

/// `s` with each item dropped that equals the item just before it, as
/// `Vec::dedup` leaves it.
pub open spec fn dedup_adjacent(s: Seq<Seq<char>>) -> Seq<Seq<char>>
    decreases s.len(),
{
    if s.len() <= 1 {
        s
    } else if s.last() == s[s.len() - 2] {
        dedup_adjacent(s.drop_last())
    } else {
        dedup_adjacent(s.drop_last()).push(s.last())
    }
}

/// Sorts strings in place.
///
/// Calls `<[String]>::sort`, which std documents as sorting the slice by
/// `Ord`; `String`'s `Ord` orders lexicographically by byte values. The
/// contract says that the items stay the same and end up in that order.
#[verifier::external_body]
pub(crate) fn sort_strings(v: &mut Vec<String>)
    ensures
        strs(final(v)@).to_multiset() == strs(old(v)@).to_multiset(),
        non_decreasing(strs(final(v)@)),
{
    v.sort();
}

/// Removes consecutive repeated strings in place.
///
/// Calls `Vec::dedup`, which std documents as removing consecutive repeated
/// elements according to `PartialEq`; for `String` that is equality of the
/// characters.
#[verifier::external_body]
pub(crate) fn dedup_strings(v: &mut Vec<String>)
    ensures
        strs(final(v)@) == dedup_adjacent(strs(old(v)@)),
{
    v.dedup();
}

/// Removing adjacent repeats from a non-decreasing sequence leaves every item
/// once, in strictly increasing order.
pub proof fn lemma_dedup_sorted(s: Seq<Seq<char>>)
    requires
        non_decreasing(s),
    ensures
        strictly_increasing(dedup_adjacent(s)),
        dedup_adjacent(s).to_set() == s.to_set(),
        s.len() > 0 ==> dedup_adjacent(s).len() > 0 && dedup_adjacent(s).last() == s.last(),
    decreases s.len(),
{
    if s.len() <= 1 {
    } else {
        let p = s.drop_last();
        let n = s.len();
        assert(non_decreasing(p)) by {
            assert forall|i: int, j: int| 0 <= i < j < p.len() implies !text_lt(
                #[trigger] p[j],
                #[trigger] p[i],
            ) by {
                assert(p[i] == s[i] && p[j] == s[j]);
            }
        }
        lemma_dedup_sorted(p);
        assert(s =~= p.push(s.last()));
        p.lemma_push_to_set_commute(s.last());
        let d = dedup_adjacent(p);
        if s.last() == s[n - 2] {
            assert(p.to_set().contains(s.last())) by {
                assert(p[n - 2] == s.last());
            }
            assert(p.to_set().insert(s.last()) =~= p.to_set());
        } else {
            let last = s.last();
            assert(!text_lt(last, s[n - 2]));
            lemma_text_lt_total(last, s[n - 2]);
            assert forall|k: int| 0 <= k < d.len() implies text_lt(#[trigger] d[k], last) by {
                assert(d.to_set().contains(d[k]));
                assert(p.to_set().contains(d[k]));
                let m = choose|m: int| 0 <= m < p.len() && p[m] == d[k];
                assert(s[m] == d[k]);
                assert(!text_lt(last, s[m]));
                if d[k] == last {
                    assert(m < n - 2);
                    assert(!text_lt(s[n - 2], s[m]));
                    assert(false);
                }
                lemma_text_lt_total(d[k], last);
            }
            let dd = d.push(last);
            assert forall|i: int, j: int| 0 <= i < j < dd.len() implies text_lt(
                #[trigger] dd[i],
                #[trigger] dd[j],
            ) by {
                if j == dd.len() - 1 {
                    assert(dd[i] == d[i]);
                } else {
                    assert(dd[i] == d[i] && dd[j] == d[j]);
                }
            }
            d.lemma_push_to_set_commute(last);
        }
    }
}

} // verus!

verus! {

/// Appends `items` to `v`.
pub(crate) fn extend_strings(v: &mut Vec<String>, items: &Vec<String>)
    ensures
        strs(final(v)@) == strs(old(v)@) + strs(items@),
{
    let ghost start = strs(v@);
    let mut i: usize = 0;
    while i < items.len()
        invariant
            i <= items.len(),
            strs(v@) == start + strs(items@).take(i as int),
        decreases items.len() - i,
    {
        let s = items[i].clone();
        push_string(v, s);
        assert(strs(items@).take(i + 1) =~= strs(items@).take(i as int).push(items@[i as int]@));
        assert(strs(v@) =~= start + strs(items@).take(i + 1));
        i = i + 1;
    }
    assert(strs(items@).take(items.len() as int) =~= strs(items@));
}

/// What either part of a concatenation holds, the whole holds.
pub proof fn lemma_concat_contains<A>(a: Seq<A>, b: Seq<A>)
    ensures
        forall|x: A| a.contains(x) ==> #[trigger] (a + b).contains(x),
        forall|x: A| b.contains(x) ==> #[trigger] (a + b).contains(x),
{
    assert forall|x: A| a.contains(x) implies #[trigger] (a + b).contains(x) by {
        let k = choose|k: int| 0 <= k < a.len() && a[k] == x;
        assert((a + b)[k] == x);
    }
    assert forall|x: A| b.contains(x) implies #[trigger] (a + b).contains(x) by {
        let k = choose|k: int| 0 <= k < b.len() && b[k] == x;
        assert((a + b)[a.len() + k] == x);
    }
}

/// The views of a sequence of strings hold the view of each of them.
pub proof fn lemma_strs_contains(v: Seq<String>)
    ensures
        forall|j: int| 0 <= j < v.len() ==> strs(v).contains(#[trigger] v[j]@),
{
    assert forall|j: int| 0 <= j < v.len() implies strs(v).contains(#[trigger] v[j]@) by {
        assert(strs(v)[j] == v[j]@);
    }
}

} // verus!
