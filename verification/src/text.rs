//! Small text-building blocks shared by the knowledge base and the code
//! synthesis engine: decimal rendering of integers, joining string lists,
//! case folding, and HTML escaping.
use vstd::prelude::*;
use itertools::Itertools;

verus! {

/// The decimal digit character for a value in `0 ..= 9`.
pub open spec fn dec_digit(d: int) -> char {
    if d == 0 {
        '0'
    } else if d == 1 {
        '1'
    } else if d == 2 {
        '2'
    } else if d == 3 {
        '3'
    } else if d == 4 {
        '4'
    } else if d == 5 {
        '5'
    } else if d == 6 {
        '6'
    } else if d == 7 {
        '7'
    } else if d == 8 {
        '8'
    } else {
        '9'
    }
}

/// The decimal text of a non-negative integer, without sign or padding.
pub open spec fn dec_of(n: int) -> Seq<char>
    decreases n,
{
    if n < 10 {
        seq![dec_digit(n)]
    } else {
        dec_of(n / 10) + seq![dec_digit(n % 10)]
    }
}

/// The decimal text of a signed integer: a minus sign for negative values,
/// then the digits of the magnitude.
pub open spec fn dec_of_int(n: int) -> Seq<char> {
    if n < 0 {
        seq!['-'] + dec_of(-n)
    } else {
        dec_of(n)
    }
}

/// Relies on `String::push`: appends one character at the end.
#[verifier::external_body]
pub(crate) fn push_char(s: &mut String, c: char)
    ensures
        final(s)@ == old(s)@ + seq![c],
{
    s.push(c);
}

fn dec_digit_char(d: u64) -> (c: char)
    requires
        d < 10,
    ensures
        c == dec_digit(d as int),
{
    if d == 0 {
        '0'
    } else if d == 1 {
        '1'
    } else if d == 2 {
        '2'
    } else if d == 3 {
        '3'
    } else if d == 4 {
        '4'
    } else if d == 5 {
        '5'
    } else if d == 6 {
        '6'
    } else if d == 7 {
        '7'
    } else if d == 8 {
        '8'
    } else {
        '9'
    }
}

/// Renders an unsigned integer in decimal.
pub fn u64_to_dec_string(n: u64) -> (s: String)
    ensures
        s@ == dec_of(n as int),
    decreases n,
{
    if n < 10 {
        let mut s = String::new();
        push_char(&mut s, dec_digit_char(n));
        s
    } else {
        let mut s = u64_to_dec_string(n / 10);
        push_char(&mut s, dec_digit_char(n % 10));
        s
    }
}

/// Renders a signed integer in decimal.
pub fn i64_to_dec_string(n: i64) -> (s: String)
    ensures
        s@ == dec_of_int(n as int),
{
    if n < 0 {
        // The magnitude is computed without negating `n` itself, which would
        // overflow on the smallest value.
        let mag: u64 = ((-(n + 1)) as u64) + 1;
        assert(mag as int == -(n as int));
        let mut s = String::new();
        push_char(&mut s, '-');
        let digits = u64_to_dec_string(mag);
        s.append(digits.as_str());
        s
    } else {
        u64_to_dec_string(n as u64)
    }
}

/// The text of `parts` interleaved with `sep`: the separator stands between
/// each pair of neighbouring parts, empty parts included.
pub open spec fn join_seqs(parts: Seq<Seq<char>>, sep: Seq<char>) -> Seq<char>
    decreases parts.len(),
{
    if parts.len() == 0 {
        Seq::empty()
    } else if parts.len() == 1 {
        parts[0]
    } else {
        parts[0] + sep + join_seqs(parts.drop_first(), sep)
    }
}

/// The text of a left fold that appends the separator only in front of a part
/// that follows non-empty accumulated text.
pub open spec fn join_fold(acc: Seq<char>, parts: Seq<Seq<char>>, sep: Seq<char>) -> Seq<char>
    decreases parts.len(),
{
    if parts.len() == 0 {
        acc
    } else {
        let next = if acc.len() == 0 {
            acc + parts[0]
        } else {
            acc + sep + parts[0]
        };
        join_fold(next, parts.drop_first(), sep)
    }
}

/// Relies on `itertools::Itertools::join`: concatenates the items with the
/// separator between each pair of neighbours.
#[verifier::external_body]
pub(crate) fn join_strings(parts: &Vec<String>, sep: &str) -> (r: String)
    ensures
        r@ == join_seqs(parts.deep_view(), sep@),
{
    parts.iter().map(|p| p.as_str()).join(sep)
}

/// What case folding to lower case returns; the result depends on the
/// characters alone.
pub uninterp spec fn lower_of(s: Seq<char>) -> Seq<char>;

/// What case folding to upper case returns; the result depends on the
/// characters alone.
pub uninterp spec fn upper_of(s: Seq<char>) -> Seq<char>;

/// Relies on `str::to_lowercase`: the result is a function of the characters
/// alone, and an empty string stays empty.
#[verifier::external_body]
pub(crate) fn to_lowercase_str(s: &str) -> (r: String)
    ensures
        r@ == lower_of(s@),
        s@.len() == 0 ==> r@.len() == 0,
{
    s.to_lowercase()
}

/// Relies on `str::to_uppercase`: the result is a function of the characters
/// alone, and an empty string stays empty.
#[verifier::external_body]
pub(crate) fn to_uppercase_str(s: &str) -> (r: String)
    ensures
        r@ == upper_of(s@),
        s@.len() == 0 ==> r@.len() == 0,
{
    s.to_uppercase()
}

/// Whether a character has the Unicode uppercase property.
pub uninterp spec fn char_is_upper(c: char) -> bool;

/// Relies on `char::is_uppercase`: true exactly for uppercase characters;
/// the ASCII letters behave as documented, and digits and the underscore are
/// not uppercase.
#[verifier::external_body]
pub(crate) fn is_uppercase_char(c: char) -> (r: bool)
    ensures
        r == char_is_upper(c),
        'A' <= c && c <= 'Z' ==> r,
        'a' <= c && c <= 'z' ==> !r,
        '0' <= c && c <= '9' ==> !r,
        c == '_' ==> !r,
{
    c.is_uppercase()
}

/// The HTML entity text of one character.
pub open spec fn escape_html_char(c: char) -> Seq<char> {
    if c == '&' {
        "&amp;"@
    } else if c == '<' {
        "&lt;"@
    } else if c == '>' {
        "&gt;"@
    } else if c == '"' {
        "&quot;"@
    } else {
        seq![c]
    }
}

/// The text with every markup-significant character replaced by its entity.
pub open spec fn escape_html_seq(s: Seq<char>) -> Seq<char>
    decreases s.len(),
{
    if s.len() == 0 {
        Seq::empty()
    } else {
        escape_html_char(s[0]) + escape_html_seq(s.drop_first())
    }
}

proof fn lemma_escape_html_seq_push(s: Seq<char>, c: char)
    ensures
        escape_html_seq(s.push(c)) == escape_html_seq(s) + escape_html_char(c),
    decreases s.len(),
{
    if s.len() == 0 {
        let sp = s.push(c);
        assert(sp.drop_first() =~= Seq::<char>::empty());
        assert(sp[0] == c);
        assert(escape_html_seq(sp) == escape_html_char(c) + escape_html_seq(Seq::<char>::empty()));
        assert(escape_html_seq(Seq::<char>::empty()) =~= Seq::<char>::empty());
        assert(escape_html_seq(sp) =~= escape_html_char(c));
        assert(escape_html_seq(s) + escape_html_char(c) =~= escape_html_char(c));
    } else {
        assert(s.push(c).drop_first() =~= s.drop_first().push(c));
        lemma_escape_html_seq_push(s.drop_first(), c);
        assert(escape_html_seq(s.push(c)) =~= escape_html_seq(s) + escape_html_char(c));
    }
}

/// Escapes the characters that HTML markup gives a meaning.
pub fn escape_html(s: &str) -> (r: String)
    ensures
        r@ == escape_html_seq(s@),
{
    let len = s.unicode_len();
    let mut out = String::new();
    let mut i: usize = 0;
    while i < len
        invariant
            len == s@.len(),
            i <= len,
            out@ == escape_html_seq(s@.subrange(0, i as int)),
        decreases len - i,
    {
        let c = s.get_char(i);
        if c == '&' {
            out.append("&amp;");
        } else if c == '<' {
            out.append("&lt;");
        } else if c == '>' {
            out.append("&gt;");
        } else if c == '"' {
            out.append("&quot;");
        } else {
            push_char(&mut out, c);
        }
        proof {
            lemma_escape_html_seq_push(s@.subrange(0, i as int), s@[i as int]);
            assert(s@.subrange(0, i + 1 as int) =~= s@.subrange(0, i as int).push(s@[i as int]));
        }
        i = i + 1;
    }
    proof {
        assert(s@.subrange(0, len as int) =~= s@);
    }
    out
}

/// Collects the characters of a string into a vector.
pub fn str_to_chars(s: &str) -> (r: Vec<char>)
    ensures
        r@ == s@,
{
    let len = s.unicode_len();
    let mut out: Vec<char> = Vec::new();
    let mut i: usize = 0;
    while i < len
        invariant
            len == s@.len(),
            i <= len,
            out@ == s@.subrange(0, i as int),
        decreases len - i,
    {
        out.push(s.get_char(i));
        proof {
            assert(s@.subrange(0, i + 1 as int) =~= s@.subrange(0, i as int).push(s@[i as int]));
        }
        i = i + 1;
    }
    proof {
        assert(s@.subrange(0, len as int) =~= s@);
    }
    out
}

} // verus!

verus! {

/// Whether `pat` occurs in `s` at position `i`.
pub open spec fn starts_with_at(s: Seq<char>, pat: Seq<char>, i: int) -> bool {
    0 <= i && i + pat.len() <= s.len() && s.subrange(i, i + pat.len()) == pat
}

/// Whether `s` starts with `pat`.
pub fn str_starts_with(s: &str, pat: &str) -> (r: bool)
    ensures
        r == starts_with_at(s@, pat@, 0),
{
    let s_len = s.unicode_len();
    let pat_len = pat.unicode_len();
    if pat_len > s_len {
        return false;
    }
    let mut i: usize = 0;
    while i < pat_len
        invariant
            s_len == s@.len(),
            pat_len == pat@.len(),
            pat_len <= s_len,
            i <= pat_len,
            forall|k: int| 0 <= k < i ==> s@[k] == pat@[k],
        decreases pat_len - i,
    {
        if s.get_char(i) != pat.get_char(i) {
            proof {
                assert(s@.subrange(0, pat@.len() as int)[i as int] != pat@[i as int]);
            }
            return false;
        }
        i = i + 1;
    }
    proof {
        assert(s@.subrange(0, pat@.len() as int) =~= pat@);
    }
    true
}

/// `s` with every occurrence of `pat` replaced by `rep`, scanning left to
/// right without overlap; an empty pattern replaces nothing.
pub open spec fn replace_all(s: Seq<char>, pat: Seq<char>, rep: Seq<char>) -> Seq<char>
    decreases s.len(),
{
    if pat.len() == 0 || s.len() == 0 {
        s
    } else if starts_with_at(s, pat, 0) {
        rep + replace_all(s.subrange(pat.len() as int, s.len() as int), pat, rep)
    } else {
        seq![s[0]] + replace_all(s.drop_first(), pat, rep)
    }
}

/// Replaces every occurrence of `pat` in `s` by `rep`, scanning left to right
/// without overlap.
pub fn replace_all_str(s: &str, pat: &str, rep: &str) -> (r: String)
    ensures
        r@ == replace_all(s@, pat@, rep@),
    decreases s@.len(),
{
    let s_len = s.unicode_len();
    let pat_len = pat.unicode_len();
    if pat_len == 0 || s_len == 0 {
        return String::from_str(s);
    }
    if str_starts_with(s, pat) {
        let mut out = String::from_str(rep);
        let tail = s.substring_char(pat_len, s_len);
        let rest = replace_all_str(tail, pat, rep);
        out.append(rest.as_str());
        out
    } else {
        let mut out = String::new();
        push_char(&mut out, s.get_char(0));
        let tail = s.substring_char(1, s_len);
        let rest = replace_all_str(tail, pat, rep);
        out.append(rest.as_str());
        proof {
            assert(s@.subrange(1, s@.len() as int) =~= s@.drop_first());
            assert(Seq::<char>::empty().push(s@[0]) =~= seq![s@[0]]);
        }
        out
    }
}

/// The index of the first occurrence of `c` in `s`, or a negative value.
pub open spec fn find_char(s: Seq<char>, c: char) -> int
    decreases s.len(),
{
    if s.len() == 0 {
        -1
    } else if s[0] == c {
        0
    } else {
        let r = find_char(s.drop_first(), c);
        if r < 0 {
            -1
        } else {
            r + 1
        }
    }
}

/// `find_char` returns the first occurrence, and a negative value exactly when
/// the character does not occur.
pub proof fn lemma_find_char(s: Seq<char>, c: char)
    ensures
        find_char(s, c) < 0 ==> forall|k: int| 0 <= k < s.len() ==> s[k] != c,
        find_char(s, c) >= 0 ==> {
            &&& find_char(s, c) < s.len()
            &&& s[find_char(s, c)] == c
            &&& forall|k: int| 0 <= k < find_char(s, c) ==> s[k] != c
        },
    decreases s.len(),
{
    if s.len() > 0 {
        let d = s.drop_first();
        lemma_find_char(d, c);
        if s[0] != c {
            if find_char(s, c) < 0 {
                assert forall|k: int| 0 <= k < s.len() implies s[k] != c by {
                    if k > 0 {
                        assert(s[k] == d[k - 1]);
                    }
                }
            } else {
                let f = find_char(s, c);
                assert(s[f] == d[f - 1]);
                assert forall|k: int| 0 <= k < f implies s[k] != c by {
                    if k > 0 {
                        assert(s[k] == d[k - 1]);
                    }
                }
            }
        }
    }
}

/// The pieces of `s` between occurrences of `c`: splitting an empty text gives
/// one empty piece, and a trailing occurrence gives a trailing empty piece.
pub open spec fn split_at_char(s: Seq<char>, c: char) -> Seq<Seq<char>>
    decreases s.len(),
{
    let f = find_char(s, c);
    if f < 0 || f >= s.len() {
        seq![s]
    } else {
        seq![s.take(f)] + split_at_char(s.subrange(f + 1, s.len() as int), c)
    }
}

fn find_char_str(s: &str, c: char) -> (r: Option<usize>)
    ensures
        match r {
            Some(i) => i < s@.len() && find_char(s@, c) == i as int,
            None => find_char(s@, c) == -1,
        },
{
    let len = s.unicode_len();
    let mut i: usize = 0;
    while i < len
        invariant
            len == s@.len(),
            i <= len,
            forall|k: int| 0 <= k < i ==> s@[k] != c,
        decreases len - i,
    {
        if s.get_char(i) == c {
            proof {
                lemma_find_char(s@, c);
            }
            return Some(i);
        }
        i = i + 1;
    }
    proof {
        lemma_find_char(s@, c);
    }
    None
}

/// Splits `s` at every occurrence of `c`.
pub fn split_str_at_char(s: &str, c: char) -> (r: Vec<String>)
    ensures
        r.deep_view() == split_at_char(s@, c),
    decreases s@.len(),
{
    let len = s.unicode_len();
    match find_char_str(s, c) {
        None => {
            let mut out: Vec<String> = Vec::new();
            out.push(String::from_str(s));
            proof {
                assert(out.deep_view() =~= split_at_char(s@, c));
            }
            out
        },
        Some(f) => {
            let head = String::from_str(s.substring_char(0, f));
            let tail = s.substring_char(f + 1, len);
            let mut rest = split_str_at_char(tail, c);
            let mut out: Vec<String> = Vec::new();
            out.push(head);
            out.append(&mut rest);
            proof {
                assert(s@.take(find_char(s@, c)) =~= s@.subrange(0, f as int));
                assert(out.deep_view() =~= split_at_char(s@, c));
            }
            out
        },
    }
}

} // verus!
