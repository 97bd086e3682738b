//! Identifier-case utilities: splitting identifiers into words, class-case and
//! snake-case rendering, joining, and a small multimap helper.
use vstd::prelude::*;
use std::collections::HashMap;
use crate::text::char_is_upper;
use crate::text::is_uppercase_char;
use crate::text::join_fold;
use crate::text::join_seqs;
use crate::text::join_strings;
use crate::text::lower_of;
use crate::text::upper_of;
use crate::text::push_char;
use crate::text::str_to_chars;
use crate::text::to_lowercase_str;
use crate::text::to_uppercase_str;

verus! {

broadcast use vstd::std_specs::hash::group_hash_axioms, vstd::seq::group_seq_axioms;

/// The case shape of one word of an identifier.
#[derive(Debug, Clone, Copy, PartialEq, Eq, Structural)]
pub enum WordCase {
    Upper,
    Lower,
    Capitalized,
}

/// The first position at or after `i` that does not hold an underscore.
pub open spec fn skip_underscores(s: Seq<char>, i: int) -> int
    decreases s.len() - i,
{
    if i < 0 || i >= s.len() || s[i] != '_' {
        i
    } else {
        skip_underscores(s, i + 1)
    }
}

/// Where the word starting at `start` ends, and its case shape; mirrors the
/// segmentation rule: a word is cut at an underscore, at a case change, and
/// after a single capital that a capitalized or preceding capitalized word
/// claims.
pub open spec fn word_scan(
    s: Seq<char>,
    start: int,
    prev: Option<WordCase>,
    i: int,
    word_case: WordCase,
) -> (int, WordCase)
    decreases s.len() - i,
{
    if i < start || i >= s.len() {
        (i, word_case)
    } else {
        let current = s[i];
        if current == '_' {
            (i, word_case)
        } else if i - start == 0 {
            let wc = if char_is_upper(current) {
                WordCase::Capitalized
            } else {
                WordCase::Lower
            };
            word_scan(s, start, prev, i + 1, wc)
        } else if i - start == 1 {
            if char_is_upper(current) {
                if word_case == WordCase::Capitalized {
                    let next_not_upper = if i + 1 < s.len() {
                        !char_is_upper(s[i + 1])
                    } else {
                        true
                    };
                    if next_not_upper || prev == Some(WordCase::Capitalized) {
                        (i, word_case)
                    } else {
                        word_scan(s, start, prev, i + 1, WordCase::Upper)
                    }
                } else if word_case == WordCase::Lower {
                    (i, word_case)
                } else {
                    word_scan(s, start, prev, i + 1, word_case)
                }
            } else {
                word_scan(s, start, prev, i + 1, word_case)
            }
        } else {
            match word_case {
                WordCase::Lower | WordCase::Capitalized => if char_is_upper(current) {
                    (i, word_case)
                } else {
                    word_scan(s, start, prev, i + 1, word_case)
                },
                WordCase::Upper => if !char_is_upper(current) {
                    (i, word_case)
                } else {
                    word_scan(s, start, prev, i + 1, word_case)
                },
            }
        }
    }
}

/// The scan never stops before the position it starts from.
pub proof fn lemma_word_scan_ge(
    s: Seq<char>,
    start: int,
    prev: Option<WordCase>,
    i: int,
    word_case: WordCase,
)
    ensures
        word_scan(s, start, prev, i, word_case).0 >= i,
    decreases s.len() - i,
{
    if !(i < start || i >= s.len()) {
        let current = s[i];
        if current != '_' {
            if i - start == 0 {
                let wc = if char_is_upper(current) {
                    WordCase::Capitalized
                } else {
                    WordCase::Lower
                };
                lemma_word_scan_ge(s, start, prev, i + 1, wc);
            } else if i - start == 1 {
                lemma_word_scan_ge(s, start, prev, i + 1, WordCase::Upper);
                lemma_word_scan_ge(s, start, prev, i + 1, word_case);
            } else {
                lemma_word_scan_ge(s, start, prev, i + 1, word_case);
            }
        }
    }
}

/// Splits an identifier into words, one call per word, remembering where it
/// stands and the case shape of the word it last produced.
pub struct WordIterator {
    pub chars: Vec<char>,
    pub index: usize,
    pub previous_word_case: Option<WordCase>,
}

/// Mathematical model of a [`WordIterator`].
#[verifier::ext_equal]
pub ghost struct WordIteratorV {
    pub chars: Seq<char>,
    pub index: int,
    pub previous_word_case: Option<WordCase>,
}

impl View for WordIterator {
    type V = WordIteratorV;

    open spec fn view(&self) -> WordIteratorV {
        WordIteratorV {
            chars: self.chars@,
            index: self.index as int,
            previous_word_case: self.previous_word_case,
        }
    }
}

/// Runs the word scan from `start`, returning where the word ends and its
/// case shape.
fn scan_word(chars: &Vec<char>, start: usize, prev: Option<WordCase>) -> (r: (usize, WordCase))
    requires
        start <= chars@.len(),
    ensures
        ({
            let scan = word_scan(chars@, start as int, prev, start as int, WordCase::Lower);
            r.0 as int == scan.0 && r.1 == scan.1 && start <= r.0 <= chars@.len()
        }),
{
    let ghost s = chars@;
    let len = chars.len();
    let mut i = start;
    let mut word_case = WordCase::Lower;
    let ghost scan = word_scan(s, start as int, prev, start as int, WordCase::Lower);
    while i < len
        invariant
            len == chars@.len(),
            s == chars@,
            start <= i <= len,
            scan == word_scan(s, start as int, prev, start as int, WordCase::Lower),
            scan == word_scan(s, start as int, prev, i as int, word_case),
        decreases len - i,
    {
        let current = chars[i];
        if current == '_' {
            return (i, word_case);
        }
        if i - start == 0 {
            if is_uppercase_char(current) {
                word_case = WordCase::Capitalized;
            } else {
                word_case = WordCase::Lower;
            }
        } else if i - start == 1 {
            if is_uppercase_char(current) {
                if matches!(word_case, WordCase::Capitalized) {
                    let next_not_upper = if i + 1 < len {
                        !is_uppercase_char(chars[i + 1])
                    } else {
                        true
                    };
                    let prev_cap = matches!(prev, Some(WordCase::Capitalized));
                    if next_not_upper || prev_cap {
                        return (i, word_case);
                    } else {
                        word_case = WordCase::Upper;
                    }
                } else if matches!(word_case, WordCase::Lower) {
                    return (i, word_case);
                }
            }
        } else {
            match word_case {
                WordCase::Lower | WordCase::Capitalized => {
                    if is_uppercase_char(current) {
                        return (i, word_case);
                    }
                },
                WordCase::Upper => {
                    if !is_uppercase_char(current) {
                        return (i, word_case);
                    }
                },
            }
        }
        i = i + 1;
    }
    (i, word_case)
}

impl WordIterator {
    /// A word iterator standing at the beginning of `string`.
    pub fn new(string: &str) -> (r: WordIterator)
        ensures
            r@.chars == string@,
            r@.index == 0,
            r@.previous_word_case is None,
    {
        WordIterator { chars: str_to_chars(string), index: 0, previous_word_case: None }
    }

    /// The next word: underscores are skipped, then the word runs until an
    /// underscore, a case change, or a single capital claimed by a
    /// neighbouring capitalized word. Returns nothing when only underscores
    /// remain.
    pub fn next(&mut self) -> (r: Option<String>)
        requires
            old(self)@.index <= old(self)@.chars.len(),
        ensures
            final(self)@.index <= final(self)@.chars.len(),
            ({
                let s = old(self)@.chars;
                let start = skip_underscores(s, old(self)@.index);
                &&& final(self)@.chars == s
                &&& (start >= s.len() ==> {
                    &&& r is None
                    &&& final(self)@.index == start
                    &&& final(self)@.previous_word_case == old(self)@.previous_word_case
                })
                &&& (start < s.len() ==> {
                    let scan = word_scan(
                        s,
                        start,
                        old(self)@.previous_word_case,
                        start,
                        WordCase::Lower,
                    );
                    &&& r matches Some(w) && w@ == s.subrange(start, scan.0)
                    &&& final(self)@.index == scan.0
                    &&& final(self)@.previous_word_case == Some(scan.1)
                })
            }),
    {
        let ghost s = self.chars@;
        let ghost i0 = self.index as int;
        let len = self.chars.len();
        while self.index < len && self.chars[self.index] == '_'
            invariant
                len == self.chars@.len(),
                s == self.chars@,
                self.index <= len,
                self.chars == old(self).chars,
                self.previous_word_case == old(self).previous_word_case,
                skip_underscores(s, i0) == skip_underscores(s, self.index as int),
                i0 == old(self)@.index,
            decreases len - self.index,
        {
            self.index = self.index + 1;
        }
        let start = self.index;
        if start >= len {
            return None;
        }
        let ghost prev = self.previous_word_case;
        let (i, word_case) = scan_word(&self.chars, start, self.previous_word_case);
        let ghost scan = word_scan(s, start as int, prev, start as int, WordCase::Lower);
        let mut word = String::new();
        let mut k = start;
        while k < i
            invariant
                len == self.chars@.len(),
                s == self.chars@,
                start <= k <= i <= len,
                word@ == s.subrange(start as int, k as int),
            decreases i - k,
        {
            push_char(&mut word, self.chars[k]);
            proof {
                assert(s.subrange(start as int, k + 1 as int) =~= s.subrange(
                    start as int,
                    k as int,
                ).push(s[k as int]));
            }
            k = k + 1;
        }
        self.index = i;
        self.previous_word_case = Some(word_case);
        Some(word)
    }
}

} // verus!

verus! {

/// The class-case text of a word list: each word's first character folded to
/// upper case and the rest to lower case, concatenated.
pub open spec fn class_case_of(parts: Seq<Seq<char>>) -> Seq<char>
    decreases parts.len(),
{
    if parts.len() == 0 {
        Seq::empty()
    } else {
        upper_of(parts[0].take(1)) + lower_of(parts[0].skip(1)) + class_case_of(parts.drop_first())
    }
}

/// The snake-case text of a word list: each word folded to lower case, joined
/// with underscores.
pub open spec fn snake_case_of(parts: Seq<Seq<char>>) -> Seq<char> {
    join_seqs(Seq::new(parts.len(), |i: int| lower_of(parts[i])), "_"@)
}

/// Renders a word list in class case.
pub fn iterator_to_class_case(parts: &Vec<String>) -> (r: String)
    requires
        forall|i: int| 0 <= i < parts@.len() ==> (#[trigger] parts@[i]@).len() > 0,
    ensures
        r@ == class_case_of(parts.deep_view()),
{
    let ghost ps = parts.deep_view();
    let mut out = String::new();
    let mut i: usize = 0;
    proof {
        assert(ps.skip(0) =~= ps);
    }
    while i < parts.len()
        invariant
            ps == parts.deep_view(),
            ps.len() == parts@.len(),
            i <= parts@.len(),
            forall|k: int| 0 <= k < parts@.len() ==> (#[trigger] parts@[k]@).len() > 0,
            class_case_of(ps) == out@ + class_case_of(ps.skip(i as int)),
        decreases parts@.len() - i,
    {
        let ghost acc0 = out@;
        let ghost rem = ps.skip(i as int);
        proof {
            assert(rem[0] == ps[i as int]);
            assert(ps[i as int] == parts@[i as int]@);
            assert(rem.drop_first() =~= ps.skip(i + 1 as int));
        }
        let part = &parts[i];
        let part_len = part.as_str().unicode_len();
        let head = part.as_str().substring_char(0, 1);
        let tail = part.as_str().substring_char(1, part_len);
        let upper = to_uppercase_str(head);
        let lower = to_lowercase_str(tail);
        out.append(upper.as_str());
        out.append(lower.as_str());
        proof {
            assert(head@ =~= ps[i as int].take(1));
            assert(tail@ =~= ps[i as int].skip(1));
            assert((acc0 + upper_of(ps[i as int].take(1))) + lower_of(ps[i as int].skip(1)) + class_case_of(
                ps.skip(i + 1 as int),
            ) =~= acc0 + (upper_of(ps[i as int].take(1)) + lower_of(ps[i as int].skip(1))
                + class_case_of(ps.skip(i + 1 as int))));
        }
        i = i + 1;
    }
    proof {
        assert(ps.skip(ps.len() as int) =~= Seq::<Seq<char>>::empty());
        assert(out@ + class_case_of(Seq::<Seq<char>>::empty()) =~= out@);
    }
    out
}

/// Renders a word list in snake case.
pub fn iterator_to_snake_case(parts: &Vec<String>) -> (r: String)
    ensures
        r@ == snake_case_of(parts.deep_view()),
{
    let ghost ps = parts.deep_view();
    let mut lowered: Vec<String> = Vec::new();
    let mut i: usize = 0;
    while i < parts.len()
        invariant
            ps == parts.deep_view(),
            ps.len() == parts@.len(),
            i <= parts@.len(),
            lowered@.len() == i,
            forall|k: int| 0 <= k < i ==> lowered@[k]@ == lower_of(ps[k]),
        decreases parts@.len() - i,
    {
        proof {
            assert(ps[i as int] == parts@[i as int]@);
        }
        lowered.push(to_lowercase_str(parts[i].as_str()));
        i = i + 1;
    }
    proof {
        assert(lowered.deep_view() =~= Seq::new(ps.len(), |k: int| lower_of(ps[k])));
    }
    join_strings(&lowered, "_")
}

/// Joining string lists with a separator, skipping the separator while the
/// accumulated text is still empty.
pub trait JoinWithString {
    /// Joins the parts with `separator` between non-empty prefixes.
    fn join(self, separator: &str) -> String;
}

impl JoinWithString for Vec<String> {
    fn join(self, separator: &str) -> (r: String)
        ensures
            r@ == join_fold(Seq::<char>::empty(), self.deep_view(), separator@),
    {
        let ghost ps = self.deep_view();
        let mut acc = String::new();
        let mut i: usize = 0;
        proof {
            assert(ps.skip(0) =~= ps);
        }
        while i < self.len()
            invariant
                ps == self.deep_view(),
                ps.len() == self@.len(),
                i <= self@.len(),
                join_fold(Seq::<char>::empty(), ps, separator@) == join_fold(
                    acc@,
                    ps.skip(i as int),
                    separator@,
                ),
            decreases self@.len() - i,
        {
            let ghost rem = ps.skip(i as int);
            proof {
                assert(rem[0] == ps[i as int]);
                assert(ps[i as int] == self@[i as int]@);
                assert(rem.drop_first() =~= ps.skip(i + 1 as int));
            }
            if acc.as_str().unicode_len() == 0 {
                acc.append(self[i].as_str());
            } else {
                acc.append(separator);
                acc.append(self[i].as_str());
            }
            i = i + 1;
        }
        proof {
            assert(ps.skip(ps.len() as int) =~= Seq::<Seq<char>>::empty());
        }
        acc
    }
}

/// Whether `needle` occurs in `parts` starting at position `i`.
pub open spec fn subseq_at(parts: Seq<Seq<char>>, needle: Seq<Seq<char>>, i: int) -> bool {
    0 <= i && i + needle.len() <= parts.len() && parts.subrange(i, i + needle.len()) == needle
}

/// The first position where `needle` occurs at or after `i`, or a negative
/// value.
pub open spec fn find_subseq_from(parts: Seq<Seq<char>>, needle: Seq<Seq<char>>, i: int) -> int
    decreases parts.len() - i,
{
    if needle.len() == 0 || i < 0 || i + needle.len() > parts.len() {
        -1
    } else if subseq_at(parts, needle, i) {
        i
    } else {
        find_subseq_from(parts, needle, i + 1)
    }
}

/// The concatenation of all the pieces.
pub open spec fn concat_all(parts: Seq<Seq<char>>) -> Seq<char>
    decreases parts.len(),
{
    if parts.len() == 0 {
        Seq::empty()
    } else {
        parts[0] + concat_all(parts.drop_first())
    }
}

/// The word list with every occurrence of `needle` collapsed, leftmost first
/// and repeatedly, into the single word formed by concatenating the needle.
pub open spec fn replace_subseqs(parts: Seq<Seq<char>>, needle: Seq<Seq<char>>) -> Seq<Seq<char>>
    decreases parts.len(),
{
    if needle.len() < 2 {
        parts
    } else {
        let f = find_subseq_from(parts, needle, 0);
        if f < 0 || f + needle.len() > parts.len() {
            parts
        } else {
            replace_subseqs(
                parts.subrange(0, f) + seq![concat_all(needle)] + parts.subrange(
                    f + needle.len(),
                    parts.len() as int,
                ),
                needle,
            )
        }
    }
}

/// The model of a vector of string slices.
pub open spec fn slices_view(v: &Vec<&str>) -> Seq<Seq<char>> {
    Seq::new(v@.len(), |i: int| v@[i]@)
}

/// Finds the first occurrence of `needle` in `parts`.
fn find_subseq_exec(parts: &Vec<String>, needle: &Vec<&str>) -> (r: Option<usize>)
    ensures
        ({
            let f = find_subseq_from(parts.deep_view(), slices_view(needle), 0);
            match r {
                Some(i) => f == i as int && subseq_at(
                    parts.deep_view(),
                    slices_view(needle),
                    i as int,
                ),
                None => f < 0,
            }
        }),
{
    let ghost ps = parts.deep_view();
    let ghost ns = slices_view(needle);
    if needle.len() > parts.len() || needle.len() == 0 {
        return None;
    }
    let plen: usize = parts.len();
    let nlen: usize = needle.len();
    let bound = plen - nlen;
    let mut i: usize = 0;
    while i <= bound
        invariant
            ps == parts.deep_view(),
            ns == slices_view(needle),
            ps.len() == parts@.len(),
            ns.len() == needle@.len(),
            plen == parts@.len(),
            nlen == needle@.len(),
            0 < nlen <= plen,
            bound == plen - nlen,
            i <= bound + 1,
            find_subseq_from(ps, ns, 0) == find_subseq_from(ps, ns, i as int),
        decreases parts@.len() - i,
    {
        let mut matched = true;
        let mut j: usize = 0;
        while j < nlen
            invariant
                ps == parts.deep_view(),
                ns == slices_view(needle),
                ps.len() == parts@.len(),
                ns.len() == needle@.len(),
                plen == parts@.len(),
                nlen == needle@.len(),
                i + nlen <= plen,
                j <= nlen,
                matched == (forall|m: int| 0 <= m < j ==> ps[i + m] == ns[m]),
            decreases needle@.len() - j,
        {
            proof {
                assert(ps[i + j] == parts@[i + j]@);
                assert(ns[j as int] == needle@[j as int]@);
            }
            if !(parts[i + j] == String::from_str(needle[j])) {
                matched = false;
                proof {
                    assert(ps[i + j as int] != ns[j as int]);
                }
                j = nlen;
            } else {
                j = j + 1;
            }
        }
        if matched {
            proof {
                assert(ps.subrange(i as int, i + ns.len()) =~= ns);
                assert(subseq_at(ps, ns, i as int));
            }
            return Some(i);
        }
        proof {
            if subseq_at(ps, ns, i as int) {
                assert(ps.subrange(i as int, i + ns.len())[0] == ns[0]);
                assert(forall|m: int|
                    0 <= m < ns.len() ==> ps.subrange(i as int, i + ns.len())[m] == #[trigger] ps[i
                        + m]);
                assert(false);
            }
        }
        i = i + 1;
    }
    None
}

/// One collapse step followed by the remaining collapses, consuming the list.
fn replace_subseqs_exec(parts: Vec<String>, needle: &Vec<&str>) -> (r: Vec<String>)
    requires
        needle@.len() >= 2,
    ensures
        r.deep_view() == replace_subseqs(parts.deep_view(), slices_view(needle)),
    decreases parts@.len(),
{
    let ghost ps = parts.deep_view();
    let ghost ns = slices_view(needle);
    match find_subseq_exec(&parts, needle) {
        None => parts,
        Some(f) => {
            let mut joined = String::new();
            let mut j: usize = 0;
            while j < needle.len()
                invariant
                    ns == slices_view(needle),
                    ns.len() == needle@.len(),
                    j <= needle@.len(),
                    joined@ == concat_all(ns.take(j as int)),
                decreases needle@.len() - j,
            {
                proof {
                    assert(ns[j as int] == needle@[j as int]@);
                }
                joined.append(needle[j]);
                proof {
                    lemma_concat_all_push(ns.take(j as int), ns[j as int]);
                    assert(ns.take(j + 1 as int) =~= ns.take(j as int).push(ns[j as int]));
                }
                j = j + 1;
            }
            proof {
                assert(ns.take(ns.len() as int) =~= ns);
            }
            let mut next: Vec<String> = Vec::new();
            let mut k: usize = 0;
            while k < f
                invariant
                    ps == parts.deep_view(),
                    ps.len() == parts@.len(),
                    f + needle@.len() <= parts@.len(),
                    k <= f,
                    next@.len() == k,
                    forall|m: int| 0 <= m < k ==> next@[m]@ == ps[m],
                decreases f - k,
            {
                proof {
                    assert(ps[k as int] == parts@[k as int]@);
                }
                next.push(parts[k].clone());
                k = k + 1;
            }
            next.push(joined);
            let plen2: usize = parts.len();
            let nlen2: usize = needle.len();
            proof {
                assert(f + nlen2 <= plen2);
            }
            let mut m: usize = f + nlen2;
            while m < plen2
                invariant
                    ps == parts.deep_view(),
                    ps.len() == parts@.len(),
                    plen2 == parts@.len(),
                    nlen2 == needle@.len(),
                    ns.len() == needle@.len(),
                    f + needle@.len() <= m <= parts@.len(),
                    next@.len() == f + 1 + (m - f - needle@.len()),
                    forall|q: int| 0 <= q < f ==> next@[q]@ == ps[q],
                    next@[f as int]@ == concat_all(ns),
                    forall|q: int| f + 1 <= q < next@.len() ==> next@[q]@ == ps[q - 1
                        + needle@.len()],
                decreases parts@.len() - m,
            {
                proof {
                    assert(ps[m as int] == parts@[m as int]@);
                }
                next.push(parts[m].clone());
                m = m + 1;
            }
            proof {
                assert(next.deep_view() =~= ps.subrange(0, f as int) + seq![concat_all(ns)]
                    + ps.subrange(f + ns.len(), ps.len() as int));
                assert(next.deep_view().len() < ps.len());
            }
            replace_subseqs_exec(next, needle)
        },
    }
}

proof fn lemma_concat_all_push(parts: Seq<Seq<char>>, x: Seq<char>)
    ensures
        concat_all(parts.push(x)) == concat_all(parts) + x,
    decreases parts.len(),
{
    if parts.len() == 0 {
        let sp = parts.push(x);
        assert(sp.drop_first() =~= Seq::<Seq<char>>::empty());
        assert(sp[0] == x);
        assert(concat_all(sp) == x + concat_all(Seq::<Seq<char>>::empty()));
        assert(concat_all(Seq::<Seq<char>>::empty()) =~= Seq::<char>::empty());
        assert(concat_all(sp) =~= concat_all(parts) + x);
    } else {
        assert(parts.push(x).drop_first() =~= parts.drop_first().push(x));
        lemma_concat_all_push(parts.drop_first(), x);
        assert(concat_all(parts.push(x)) =~= concat_all(parts) + x);
    }
}

/// Collapses every occurrence of `needle` in `parts` into its concatenation,
/// scanning leftmost first and repeating until none is left.
pub fn replace_all_sub_vecs(parts: &mut Vec<String>, needle: Vec<&str>)
    requires
        needle@.len() >= 2,
    ensures
        final(parts).deep_view() == replace_subseqs(old(parts).deep_view(), slices_view(&needle)),
{
    let owned = parts.split_off(0);
    proof {
        assert(owned.deep_view() =~= old(parts).deep_view());
    }
    let replaced = replace_subseqs_exec(owned, &needle);
    let mut result = replaced;
    proof {
        assert(parts.deep_view() =~= Seq::<Seq<char>>::empty());
    }
    parts.append(&mut result);
    proof {
        assert(parts.deep_view() =~= replace_subseqs(
            old(parts).deep_view(),
            slices_view(&needle),
        ));
    }
}

} // verus!

verus! {

/// `skip_underscores` lands between its start and the end of the text, on a
/// position that holds no underscore unless it is the end.
pub proof fn lemma_skip_underscores(s: Seq<char>, i: int)
    requires
        0 <= i <= s.len(),
    ensures
        i <= skip_underscores(s, i) <= s.len(),
        skip_underscores(s, i) < s.len() ==> s[skip_underscores(s, i)] != '_',
    decreases s.len() - i,
{
    if !(i >= s.len() || s[i] != '_') {
        lemma_skip_underscores(s, i + 1);
    }
}

/// The scan never runs past the end of the text.
pub proof fn lemma_word_scan_le(
    s: Seq<char>,
    start: int,
    prev: Option<WordCase>,
    i: int,
    word_case: WordCase,
)
    requires
        i <= s.len(),
    ensures
        word_scan(s, start, prev, i, word_case).0 <= s.len(),
    decreases s.len() - i,
{
    if !(i < start || i >= s.len()) {
        let current = s[i];
        if current != '_' {
            if i - start == 0 {
                let wc = if char_is_upper(current) {
                    WordCase::Capitalized
                } else {
                    WordCase::Lower
                };
                lemma_word_scan_le(s, start, prev, i + 1, wc);
            } else if i - start == 1 {
                lemma_word_scan_le(s, start, prev, i + 1, WordCase::Upper);
                lemma_word_scan_le(s, start, prev, i + 1, word_case);
            } else {
                lemma_word_scan_le(s, start, prev, i + 1, word_case);
            }
        }
    }
}

/// A word that starts on a non-underscore character is never empty.
pub proof fn lemma_word_scan_gt(s: Seq<char>, start: int, prev: Option<WordCase>)
    requires
        0 <= start < s.len(),
        s[start] != '_',
    ensures
        word_scan(s, start, prev, start, WordCase::Lower).0 > start,
{
    let wc = if char_is_upper(s[start]) {
        WordCase::Capitalized
    } else {
        WordCase::Lower
    };
    lemma_word_scan_ge(s, start, prev, start + 1, wc);
}

/// The words of an identifier, from position `index` on, with `prev` the case
/// shape of the word before.
pub open spec fn words_of(s: Seq<char>, index: int, prev: Option<WordCase>) -> Seq<Seq<char>>
    decreases s.len() - index,
{
    let start = skip_underscores(s, index);
    if index < 0 || start >= s.len() || start < index {
        Seq::empty()
    } else {
        let scan = word_scan(s, start, prev, start, WordCase::Lower);
        if scan.0 <= index || scan.0 > s.len() {
            Seq::empty()
        } else {
            seq![s.subrange(start, scan.0)] + words_of(s, scan.0, Some(scan.1))
        }
    }
}

/// Splits an identifier into its words.
pub fn collect_words(string: &str) -> (r: Vec<String>)
    ensures
        r.deep_view() == words_of(string@, 0, None),
        forall|k: int| 0 <= k < r@.len() ==> (#[trigger] r@[k]@).len() > 0,
{
    let ghost s = string@;
    let mut it = WordIterator::new(string);
    let mut words: Vec<String> = Vec::new();
    proof {
        assert(words.deep_view() =~= Seq::<Seq<char>>::empty());
        assert(Seq::<Seq<char>>::empty() + words_of(s, 0, None) =~= words_of(s, 0, None));
    }
    loop
        invariant
            s == string@,
            it@.chars == s,
            0 <= it@.index <= s.len(),
            words_of(s, 0, None) == words.deep_view() + words_of(
                s,
                it@.index,
                it@.previous_word_case,
            ),
            forall|k: int| 0 <= k < words@.len() ==> (#[trigger] words@[k]@).len() > 0,
        decreases s.len() - it@.index,
    {
        let ghost idx0 = it@.index;
        let ghost prev0 = it@.previous_word_case;
        proof {
            lemma_skip_underscores(s, idx0);
        }
        match it.next() {
            None => {
                proof {
                    assert(words_of(s, idx0, prev0) =~= Seq::<Seq<char>>::empty());
                    assert(words.deep_view() + Seq::<Seq<char>>::empty() =~= words.deep_view());
                }
                return words;
            },
            Some(word) => {
                let ghost start = skip_underscores(s, idx0);
                let ghost scan = word_scan(s, start, prev0, start, WordCase::Lower);
                proof {
                    lemma_word_scan_gt(s, start, prev0);
                    lemma_word_scan_le(s, start, prev0, start, WordCase::Lower);
                    assert(words_of(s, idx0, prev0) == seq![s.subrange(start, scan.0)] + words_of(
                        s,
                        scan.0,
                        Some(scan.1),
                    ));
                }
                let ghost acc0 = words.deep_view();
                words.push(word);
                proof {
                    assert(words.deep_view() =~= acc0.push(s.subrange(start, scan.0)));
                    assert(acc0 + (seq![s.subrange(start, scan.0)] + words_of(
                        s,
                        scan.0,
                        Some(scan.1),
                    )) =~= acc0.push(s.subrange(start, scan.0)) + words_of(s, scan.0, Some(scan.1)));
                }
            },
        }
    }
}

/// Rendering an identifier in class case or snake case, splitting it into
/// words first.
pub trait CaseOperations {
    /// The identifier in class case.
    fn to_class_case(&self) -> String;

    /// The identifier in snake case.
    fn to_snake_case(&self) -> String;
}

impl CaseOperations for String {
    /// The identifier in class case: each word capitalized, concatenated.
    fn to_class_case(&self) -> (r: String)
        ensures
            r@ == class_case_of(words_of(self@, 0, None)),
    {
        let words = collect_words(self.as_str());
        iterator_to_class_case(&words)
    }

    /// The identifier in snake case: each word folded to lower case, the word
    /// pairs and triples that spell one name collapsed, and everything joined
    /// with underscores.
    fn to_snake_case(&self) -> (r: String)
        ensures
            r@ == join_seqs(
                replace_subseqs(
                    replace_subseqs(
                        Seq::new(
                            words_of(self@, 0, None).len(),
                            |i: int| lower_of(words_of(self@, 0, None)[i]),
                        ),
                        seq!["na"@, "n"@],
                    ),
                    seq!["open"@, "g"@, "l"@],
                ),
                "_"@,
            ),
    {
        let words = collect_words(self.as_str());
        let mut parts: Vec<String> = Vec::new();
        let mut i: usize = 0;
        let ghost ws = words.deep_view();
        while i < words.len()
            invariant
                ws == words.deep_view(),
                ws.len() == words@.len(),
                i <= words@.len(),
                parts@.len() == i,
                forall|k: int| 0 <= k < i ==> parts@[k]@ == lower_of(ws[k]),
            decreases words@.len() - i,
        {
            proof {
                assert(ws[i as int] == words@[i as int]@);
            }
            parts.push(to_lowercase_str(words[i].as_str()));
            i = i + 1;
        }
        proof {
            assert(parts.deep_view() =~= Seq::new(ws.len(), |k: int| lower_of(ws[k])));
        }
        let mut needle_na: Vec<&str> = Vec::new();
        needle_na.push("na");
        needle_na.push("n");
        proof {
            assert(slices_view(&needle_na) =~= seq!["na"@, "n"@]);
        }
        replace_all_sub_vecs(&mut parts, needle_na);
        let mut needle_opengl: Vec<&str> = Vec::new();
        needle_opengl.push("open");
        needle_opengl.push("g");
        needle_opengl.push("l");
        proof {
            assert(slices_view(&needle_opengl) =~= seq!["open"@, "g"@, "l"@]);
        }
        replace_all_sub_vecs(&mut parts, needle_opengl);
        join_strings(&parts, "_")
    }
}

/// Rendering a ready word list in class case or snake case.
pub trait VecCaseOperations {
    /// The words in class case; a word list with an empty word has no class
    /// case, and the empty word is passed through unchanged.
    fn to_class_case(self) -> String;

    /// The words in snake case.
    fn to_snake_case(self) -> String;
}

impl VecCaseOperations for Vec<&str> {
    /// The words in class case.
    fn to_class_case(self) -> (r: String)
        ensures
            (forall|i: int| 0 <= i < slices_view(&self).len() ==> (#[trigger] slices_view(
                &self,
            )[i]).len() > 0) ==> r@ == class_case_of(slices_view(&self)),
    {
        let mut owned: Vec<String> = Vec::new();
        let mut i: usize = 0;
        let mut all_nonempty = true;
        while i < self.len()
            invariant
                i <= self@.len(),
                owned@.len() == i,
                forall|k: int| 0 <= k < i ==> owned@[k]@ == slices_view(&self)[k],
                all_nonempty == (forall|k: int| 0 <= k < i ==> (#[trigger] slices_view(
                    &self,
                )[k]).len() > 0),
            decreases self@.len() - i,
        {
            if self[i].unicode_len() == 0 {
                all_nonempty = false;
                proof {
                    assert(slices_view(&self)[i as int].len() == 0);
                }
            }
            owned.push(String::from_str(self[i]));
            i = i + 1;
        }
        if all_nonempty {
            proof {
                assert(owned.deep_view() =~= slices_view(&self));
                assert forall|k: int| 0 <= k < owned@.len() implies (#[trigger] owned@[k]@).len()
                    > 0 by {
                    assert(slices_view(&self)[k].len() > 0);
                }
            }
            iterator_to_class_case(&owned)
        } else {
            String::new()
        }
    }

    /// The words in snake case.
    fn to_snake_case(self) -> (r: String)
        ensures
            r@ == snake_case_of(slices_view(&self)),
    {
        let mut owned: Vec<String> = Vec::new();
        let mut i: usize = 0;
        while i < self.len()
            invariant
                i <= self@.len(),
                owned@.len() == i,
                forall|k: int| 0 <= k < i ==> owned@[k]@ == slices_view(&self)[k],
            decreases self@.len() - i,
        {
            owned.push(String::from_str(self[i]));
            i = i + 1;
        }
        proof {
            assert(owned.deep_view() =~= slices_view(&self));
        }
        iterator_to_snake_case(&owned)
    }
}

/// Appends `value` under `key` in a map of value lists, creating the list on
/// first use and leaving every other key untouched.
pub fn add_to_multihash<T>(hash: &mut HashMap<u64, Vec<T>>, key: u64, value: T)
    ensures
        final(hash)@.contains_key(key),
        final(hash)@[key]@ == (if old(hash)@.contains_key(key) {
            old(hash)@[key]@
        } else {
            Seq::<T>::empty()
        }).push(value),
        forall|k: u64| k != key && old(hash)@.contains_key(k) ==> final(hash)@.contains_key(k)
            && final(hash)@[k] == old(hash)@[k],
        forall|k: u64| k != key && final(hash)@.contains_key(k) ==> old(hash)@.contains_key(k),
{
    let mut list: Vec<T> = match hash.remove(&key) {
        Some(list) => list,
        None => Vec::new(),
    };
    list.push(value);
    hash.insert(key, list);
}

} // verus!
