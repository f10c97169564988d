//! What a typed search input asks for: its words split into text and numbers,
//! and the numbers read as house numbers, postal codes and their prefixes.

use vstd::prelude::*;

use crate::chars::{chars_of, string_from_chars};
use crate::normalize::{normalize_chars, normalize_spec, pad_token_spec};
use crate::numbers::{all_digits, digits_to_i32, digits_value, is_digit, lemma_digits_value_bound, pow10};
use crate::query::has_number_conditions;
use crate::search::pad_chars;
use crate::text::{append_chars, join, join_chars, split_words, views, words};

verus! {

/// The words of the normal form of a search input.
pub open spec fn input_tokens(input: Seq<char>) -> Seq<Seq<char>> {
    words(normalize_spec(input))
}

/// A word made only of ASCII digits.
pub open spec fn is_number_token(t: Seq<char>) -> bool {
    t.len() > 0 && all_digits(t)
}

/// The words of `ts` that are not numbers, in order.
pub open spec fn text_tokens_of(ts: Seq<Seq<char>>) -> Seq<Seq<char>>
    decreases ts.len(),
{
    if ts.len() == 0 {
        seq![]
    } else {
        let r = text_tokens_of(ts.drop_last());
        if is_number_token(ts.last()) {
            r
        } else {
            r.push(ts.last())
        }
    }
}

/// The text words of a search input: the words that the full-text query
/// requires.
pub open spec fn text_tokens(input: Seq<char>) -> Seq<Seq<char>> {
    text_tokens_of(input_tokens(input))
}

/// `s` with `v` added at the end unless it is already there.
pub open spec fn add_unique<T>(s: Seq<T>, v: T) -> Seq<T> {
    if s.contains(v) {
        s
    } else {
        s.push(v)
    }
}

/// The value of a number word.
pub open spec fn token_value(t: Seq<char>) -> i32 {
    digits_value(t) as i32
}

/// The values of the number words of one to four digits, each once, in order
/// of first appearance.
pub open spec fn short_numbers_of(ts: Seq<Seq<char>>) -> Seq<i32>
    decreases ts.len(),
{
    if ts.len() == 0 {
        seq![]
    } else {
        let r = short_numbers_of(ts.drop_last());
        let t = ts.last();
        if is_number_token(t) && t.len() <= 4 {
            add_unique(r, token_value(t))
        } else {
            r
        }
    }
}

/// The values of the number words of five digits, each once.
pub open spec fn five_digit_numbers_of(ts: Seq<Seq<char>>) -> Seq<i32>
    decreases ts.len(),
{
    if ts.len() == 0 {
        seq![]
    } else {
        let r = five_digit_numbers_of(ts.drop_last());
        let t = ts.last();
        if is_number_token(t) && t.len() == 5 {
            add_unique(r, token_value(t))
        } else {
            r
        }
    }
}

/// `base` followed by the postal codes written as a word of three digits and
/// the next word of two digits (`251 01`), each once.
pub open spec fn split_postal_codes_onto(ts: Seq<Seq<char>>, base: Seq<i32>) -> Seq<i32>
    decreases ts.len(),
{
    if ts.len() < 2 {
        base
    } else {
        let r = split_postal_codes_onto(ts.drop_last(), base);
        let a = ts[ts.len() - 2];
        let b = ts.last();
        if is_number_token(a) && a.len() == 3 && is_number_token(b) && b.len() == 2 {
            add_unique(r, token_value(a + b))
        } else {
            r
        }
    }
}

/// The number words of two to four digits as postal-code prefixes: the value
/// and the number of digits, each once.
pub open spec fn postal_prefixes_of(ts: Seq<Seq<char>>) -> Seq<(i32, i32)>
    decreases ts.len(),
{
    if ts.len() == 0 {
        seq![]
    } else {
        let r = postal_prefixes_of(ts.drop_last());
        let t = ts.last();
        if is_number_token(t) && 2 <= t.len() <= 4 {
            add_unique(r, (token_value(t), t.len() as i32))
        } else {
            r
        }
    }
}

/// The ASCII digits and slashes of `w`, in order.
pub open spec fn digits_and_slashes(w: Seq<char>) -> Seq<char>
    decreases w.len(),
{
    if w.len() == 0 {
        seq![]
    } else {
        let r = digits_and_slashes(w.drop_last());
        if is_digit(w.last()) || w.last() == '/' {
            r.push(w.last())
        } else {
            r
        }
    }
}

/// The position of the first slash in `c`, or its length when it has none.
pub open spec fn slash_index(c: Seq<char>) -> int
    decreases c.len(),
{
    if c.len() == 0 {
        0
    } else if c[0] == '/' {
        0
    } else {
        1 + slash_index(c.drop_first())
    }
}

/// The pair `house/orientation` that a raw word spells once everything but
/// digits and slashes is dropped: one to four digits, a slash, one to four
/// digits.
pub open spec fn slash_pair(w: Seq<char>) -> Option<(i32, i32)> {
    let c = digits_and_slashes(w);
    let k = slash_index(c);
    let left = c.subrange(0, k);
    let right = c.subrange(k + 1, c.len() as int);
    if k < c.len() && 1 <= left.len() <= 4 && 1 <= right.len() <= 4 && all_digits(left)
        && all_digits(right) {
        Some((token_value(left), token_value(right)))
    } else {
        None
    }
}

/// The slash pairs of the raw words `ws`, in order, repeated as often as they
/// occur.
pub open spec fn raw_pairs(ws: Seq<Seq<char>>) -> Seq<(i32, i32)>
    decreases ws.len(),
{
    if ws.len() == 0 {
        seq![]
    } else {
        raw_pairs(ws.drop_last()) + match slash_pair(ws.last()) {
            Some(p) => seq![p],
            None => seq![],
        }
    }
}

/// The elements of `s`, each once, in order of first appearance.
pub open spec fn unique<T>(s: Seq<T>) -> Seq<T>
    decreases s.len(),
{
    if s.len() == 0 {
        seq![]
    } else {
        add_unique(unique(s.drop_last()), s.last())
    }
}

/// `nc` with both numbers of every pair added.
pub open spec fn add_pair_numbers(nc: Seq<i32>, ps: Seq<(i32, i32)>) -> Seq<i32>
    decreases ps.len(),
{
    if ps.len() == 0 {
        nc
    } else {
        add_unique(add_unique(add_pair_numbers(nc, ps.drop_last()), ps.last().0), ps.last().1)
    }
}

/// The house-number candidates: number words of one to four digits and both
/// numbers of every slash pair.
pub open spec fn number_candidates(input: Seq<char>) -> Seq<i32> {
    add_pair_numbers(short_numbers_of(input_tokens(input)), raw_pairs(words(input)))
}

/// The exact postal codes: five-digit words and three-digit words followed by
/// two-digit words.
pub open spec fn exact_postal_codes(input: Seq<char>) -> Seq<i32> {
    split_postal_codes_onto(input_tokens(input), five_digit_numbers_of(input_tokens(input)))
}

/// The slash pairs of the input, each once.
pub open spec fn slash_pairs(input: Seq<char>) -> Seq<(i32, i32)> {
    unique(raw_pairs(words(input)))
}

/// One term of the boolean-mode query: required (`+`), padded, as a prefix
/// (`*`).
pub open spec fn fts_term(t: Seq<char>) -> Seq<char> {
    seq!['+'] + pad_token_spec(t) + seq!['*']
}

/// The boolean-mode query for the text words `terms`.
pub open spec fn fts_query_spec(terms: Seq<Seq<char>>) -> Seq<char> {
    join(terms.map_values(|t: Seq<char>| fts_term(t)), seq![' '])
}

/// The characters of the strings `v`.
pub open spec fn string_views(v: Seq<String>) -> Seq<Seq<char>> {
    v.map_values(|s: String| s@)
}

/// What the search looks for.
#[derive(Debug, PartialEq, Eq)]
pub struct SearchPlan {
    /// The boolean-mode full-text query: every text word required, as a prefix.
    pub fts_query: String,
    /// The text words in normal form.
    pub text_tokens: Vec<String>,
    /// Numbers that may be a house or orientation number.
    pub number_candidates: Vec<i32>,
    /// Postal codes given in full.
    pub exact_postal_codes: Vec<i32>,
    /// Postal-code prefixes: the value and the number of digits.
    pub postal_prefixes: Vec<(i32, i32)>,
    /// `house/orientation` pairs written with a slash.
    pub slash_pairs: Vec<(i32, i32)>,
}

/// Postal-code prefixes have two to four digits.
pub open spec fn prefixes_well_formed(ps: Seq<(i32, i32)>) -> bool {
    forall|i: int|
        0 <= i < ps.len() ==> 2 <= (#[trigger] ps[i]).1 <= 4 && 0 <= ps[i].0 < pow10(ps[i].1 as nat)
}

/// The normal form of the input has a word made only of digits.
pub open spec fn has_number_words(input: Seq<char>) -> bool {
    exists|i: int| 0 <= i < input_tokens(input).len() && is_number_token(#[trigger] input_tokens(input)[i])
}

/// The input gives a number to look for: a house-number candidate, a postal
/// code, a postal-code prefix or a slash pair.
pub open spec fn asks_for_numbers(input: Seq<char>) -> bool {
    has_number_conditions(
        number_candidates(input),
        exact_postal_codes(input),
        postal_prefixes_of(input_tokens(input)),
        slash_pairs(input),
    )
}

/// Nothing can match the input: it has no text word, which the full-text
/// condition requires; or it has number words of which none can be a house
/// number, a postal code or a prefix of one.
pub open spec fn finds_nothing(input: Seq<char>) -> bool {
    text_tokens(input).len() == 0 || (has_number_words(input) && !asks_for_numbers(input))
}

/// Whether `ts` has a word made only of digits.
fn has_number_words_exec(ts: &Vec<Vec<char>>) -> (b: bool)
    ensures
        b == exists|i: int| 0 <= i < views(ts@).len() && is_number_token(#[trigger] views(ts@)[i]),
{
    let n = ts.len();
    for i in 0..n
        invariant
            n == ts@.len(),
            forall|j: int| 0 <= j < i ==> !is_number_token(#[trigger] views(ts@)[j]),
    {
        if is_number_token_exec(ts[i].as_slice()) {
            assert(is_number_token(views(ts@)[i as int]));
            return true;
        }
    }
    false
}

/// The plan that the input asks for, as far as its parts go.
pub open spec fn plan_matches(p: SearchPlan, input: Seq<char>) -> bool {
    &&& p.fts_query@ == fts_query_spec(text_tokens(input))
    &&& string_views(p.text_tokens@) == text_tokens(input)
    &&& p.number_candidates@ == number_candidates(input)
    &&& p.exact_postal_codes@ == exact_postal_codes(input)
    &&& p.postal_prefixes@ == postal_prefixes_of(input_tokens(input))
    &&& p.slash_pairs@ == slash_pairs(input)
    &&& prefixes_well_formed(p.postal_prefixes@)
}

/// Appends `x` to `v` unless it is already there.
fn push_unique_i32(v: &mut Vec<i32>, x: i32)
    ensures
        final(v)@ == add_unique(old(v)@, x),
{
    let n = v.len();
    for i in 0..n
        invariant
            n == v@.len(),
            v@ == old(v)@,
            forall|j: int| 0 <= j < i ==> v@[j] != x,
    {
        if v[i] == x {
            assert(v@.contains(x));
            return;
        }
    }
    assert(!v@.contains(x));
    v.push(x);
}

/// Appends `x` to `v` unless it is already there.
fn push_unique_pair(v: &mut Vec<(i32, i32)>, x: (i32, i32))
    ensures
        final(v)@ == add_unique(old(v)@, x),
{
    let n = v.len();
    for i in 0..n
        invariant
            n == v@.len(),
            v@ == old(v)@,
            forall|j: int| 0 <= j < i ==> v@[j] != x,
    {
        let (a, b) = v[i];
        if a == x.0 && b == x.1 {
            assert(v@[i as int] == x);
            assert(v@.contains(x));
            return;
        }
    }
    assert(!v@.contains(x));
    v.push(x);
}

/// Whether `t` is a word of ASCII digits.
pub(crate) fn is_number_token_exec(t: &[char]) -> (b: bool)
    ensures
        b == is_number_token(t@),
{
    if t.len() == 0 {
        return false;
    }
    let n = t.len();
    for i in 0..n
        invariant
            n == t@.len(),
            forall|j: int| 0 <= j < i ==> is_digit(#[trigger] t@[j]),
    {
        if !('0' <= t[i] && t[i] <= '9') {
            assert(!is_digit(t@[i as int]));
            return false;
        }
    }
    true
}

/// The value of a number word of at most nine digits.
pub(crate) fn token_value_exec(t: &[char]) -> (r: i32)
    requires
        is_number_token(t@),
        t@.len() <= 9,
    ensures
        r == token_value(t@),
        0 <= r < pow10(t@.len()),
{
    proof {
        lemma_digits_value_bound(t@);
    }
    digits_to_i32(t)
}

/// The text words of `ts`.
fn text_tokens_exec(ts: &Vec<Vec<char>>) -> (r: Vec<Vec<char>>)
    ensures
        views(r@) == text_tokens_of(views(ts@)),
{
    let mut r: Vec<Vec<char>> = Vec::new();
    let n = ts.len();
    for i in 0..n
        invariant
            n == ts@.len(),
            views(r@) == text_tokens_of(views(ts@).take(i as int)),
    {
        assert(views(ts@).take(i + 1).drop_last() == views(ts@).take(i as int));
        assert(views(ts@).take(i + 1).last() == ts@[i as int]@);
        if !is_number_token_exec(ts[i].as_slice()) {
            let w = crate::text::copy_range(ts[i].as_slice(), 0, ts[i].len());
            assert(ts@[i as int]@.subrange(0, ts@[i as int]@.len() as int) == ts@[i as int]@);
            let ghost before = views(r@);
            r.push(w);
            assert(views(r@) == before.push(w@));
        }
    }
    assert(views(ts@).take(n as int) == views(ts@));
    r
}

/// The short number candidates of `ts`.
fn short_numbers_exec(ts: &Vec<Vec<char>>) -> (r: Vec<i32>)
    ensures
        r@ == short_numbers_of(views(ts@)),
{
    let mut r: Vec<i32> = Vec::new();
    let n = ts.len();
    for i in 0..n
        invariant
            n == ts@.len(),
            r@ == short_numbers_of(views(ts@).take(i as int)),
    {
        assert(views(ts@).take(i + 1).drop_last() == views(ts@).take(i as int));
        assert(views(ts@).take(i + 1).last() == ts@[i as int]@);
        if is_number_token_exec(ts[i].as_slice()) && ts[i].len() <= 4 {
            let v = token_value_exec(ts[i].as_slice());
            push_unique_i32(&mut r, v);
        }
    }
    assert(views(ts@).take(n as int) == views(ts@));
    r
}

/// The five-digit numbers of `ts`.
fn five_digit_numbers_exec(ts: &Vec<Vec<char>>) -> (r: Vec<i32>)
    ensures
        r@ == five_digit_numbers_of(views(ts@)),
{
    let mut r: Vec<i32> = Vec::new();
    let n = ts.len();
    for i in 0..n
        invariant
            n == ts@.len(),
            r@ == five_digit_numbers_of(views(ts@).take(i as int)),
    {
        assert(views(ts@).take(i + 1).drop_last() == views(ts@).take(i as int));
        assert(views(ts@).take(i + 1).last() == ts@[i as int]@);
        if is_number_token_exec(ts[i].as_slice()) && ts[i].len() == 5 {
            let v = token_value_exec(ts[i].as_slice());
            push_unique_i32(&mut r, v);
        }
    }
    assert(views(ts@).take(n as int) == views(ts@));
    r
}

/// `base` followed by the postal codes split into three and two digits.
fn split_postal_codes_exec(ts: &Vec<Vec<char>>, base: Vec<i32>) -> (r: Vec<i32>)
    ensures
        r@ == split_postal_codes_onto(views(ts@), base@),
{
    let mut r = base;
    let n = ts.len();
    if n < 2 {
        return r;
    }
    assert(views(ts@).take(1).len() < 2);
    for i in 1..n
        invariant
            n == ts@.len(),
            r@ == split_postal_codes_onto(views(ts@).take(i as int), base@),
    {
        let ghost pre = views(ts@).take(i + 1);
        assert(pre.drop_last() == views(ts@).take(i as int));
        assert(pre.last() == ts@[i as int]@);
        assert(pre[pre.len() - 2] == ts@[i - 1]@);
        let a = ts[i - 1].as_slice();
        let b = ts[i].as_slice();
        if is_number_token_exec(a) && a.len() == 3 && is_number_token_exec(b) && b.len() == 2 {
            let mut ab = crate::text::copy_range(a, 0, 3);
            append_chars(&mut ab, b);
            assert(a@.subrange(0, 3) == a@);
            assert forall|j: int| 0 <= j < ab@.len() implies is_digit(#[trigger] ab@[j]) by {
                if j < 3 {
                    assert(ab@[j] == a@[j]);
                } else {
                    assert(ab@[j] == b@[j - 3]);
                }
            }
            let v = token_value_exec(ab.as_slice());
            push_unique_i32(&mut r, v);
        }
    }
    assert(views(ts@).take(n as int) == views(ts@));
    r
}

/// The postal-code prefixes of `ts`.
fn postal_prefixes_exec(ts: &Vec<Vec<char>>) -> (r: Vec<(i32, i32)>)
    ensures
        r@ == postal_prefixes_of(views(ts@)),
        prefixes_well_formed(r@),
{
    let mut r: Vec<(i32, i32)> = Vec::new();
    let n = ts.len();
    for i in 0..n
        invariant
            n == ts@.len(),
            r@ == postal_prefixes_of(views(ts@).take(i as int)),
            prefixes_well_formed(r@),
    {
        assert(views(ts@).take(i + 1).drop_last() == views(ts@).take(i as int));
        assert(views(ts@).take(i + 1).last() == ts@[i as int]@);
        let t = ts[i].as_slice();
        if is_number_token_exec(t) && 2 <= t.len() && t.len() <= 4 {
            let v = token_value_exec(t);
            let len = t.len() as i32;
            let ghost before = r@;
            push_unique_pair(&mut r, (v, len));
            assert forall|j: int| 0 <= j < r@.len() implies 2 <= (#[trigger] r@[j]).1 <= 4 && 0
                <= r@[j].0 < pow10(r@[j].1 as nat) by {
                if j < before.len() {
                    assert(r@[j] == before[j]);
                }
            }
        }
    }
    assert(views(ts@).take(n as int) == views(ts@));
    r
}

/// The ASCII digits and slashes of `w`.
fn digits_and_slashes_exec(w: &[char]) -> (r: Vec<char>)
    ensures
        r@ == digits_and_slashes(w@),
{
    let mut r: Vec<char> = Vec::new();
    let n = w.len();
    for i in 0..n
        invariant
            n == w@.len(),
            r@ == digits_and_slashes(w@.take(i as int)),
    {
        assert(w@.take(i + 1).drop_last() == w@.take(i as int));
        assert(w@.take(i + 1).last() == w@[i as int]);
        let c = w[i];
        if ('0' <= c && c <= '9') || c == '/' {
            r.push(c);
        }
    }
    assert(w@.take(n as int) == w@);
    r
}

/// The first slash of `c`, or its length.
fn slash_index_exec(c: &[char]) -> (k: usize)
    ensures
        k == slash_index(c@),
        k <= c@.len(),
{
    let n = c.len();
    let mut i: usize = 0;
    assert(c@.subrange(0, n as int) == c@);
    while i < n && c[i] != '/'
        invariant
            i <= n == c@.len(),
            slash_index(c@) == i + slash_index(c@.subrange(i as int, n as int)),
        decreases n - i,
    {
        assert(c@.subrange(i as int, n as int).drop_first() == c@.subrange(i + 1, n as int));
        i = i + 1;
    }
    i
}

/// The slash pair of a raw word, if it spells one.
fn slash_pair_exec(w: &[char]) -> (r: Option<(i32, i32)>)
    ensures
        r == slash_pair(w@),
{
    let c = digits_and_slashes_exec(w);
    let k = slash_index_exec(c.as_slice());
    if k >= c.len() {
        return None;
    }
    let left = crate::text::copy_range(c.as_slice(), 0, k);
    let right = crate::text::copy_range(c.as_slice(), k + 1, c.len());
    if 1 <= left.len() && left.len() <= 4 && 1 <= right.len() && right.len() <= 4
        && is_number_token_exec(left.as_slice()) && is_number_token_exec(right.as_slice()) {
        let a = token_value_exec(left.as_slice());
        let b = token_value_exec(right.as_slice());
        Some((a, b))
    } else {
        None
    }
}

/// Plans the search for `input`:
/// none when nothing can match it (no text word, which the full-text
/// condition requires, or number words none of which can be a house number
/// or a postal code or a prefix of one); otherwise the query that requires every text word, padded, as a
/// prefix, and the numbers of the input read as house numbers (words of one to
/// four digits and both sides of `a/b`), exact postal codes (five digits, or
/// three and two digits in neighbouring words) and postal-code prefixes (two
/// to four digits).
pub fn plan_search(input: &str) -> (r: Option<SearchPlan>)
    ensures
        r.is_none() <==> finds_nothing(input@),
        r matches Some(p) ==> plan_matches(p, input@),
{
    let chars = chars_of(input);
    let norm = normalize_chars(chars.as_slice());
    let tokens = split_words(norm.as_slice());
    let text = text_tokens_exec(&tokens);
    if text.len() == 0 {
        return None;
    }
    let short = short_numbers_exec(&tokens);
    let five = five_digit_numbers_exec(&tokens);
    let exact = split_postal_codes_exec(&tokens, five);
    let prefixes = postal_prefixes_exec(&tokens);
    let has_numbers = has_number_words_exec(&tokens);
    let raw_words = split_words(chars.as_slice());
    let mut raw: Vec<(i32, i32)> = Vec::new();
    let mut pairs: Vec<(i32, i32)> = Vec::new();
    let mut numbers = short;
    let ghost base = numbers@;
    let n = raw_words.len();
    for i in 0..n
        invariant
            n == raw_words@.len(),
            raw@ == raw_pairs(views(raw_words@).take(i as int)),
            pairs@ == unique(raw@),
            numbers@ == add_pair_numbers(base, raw@),
    {
        assert(views(raw_words@).take(i + 1).drop_last() == views(raw_words@).take(i as int));
        assert(views(raw_words@).take(i + 1).last() == raw_words@[i as int]@);
        match slash_pair_exec(raw_words[i].as_slice()) {
            Some(p) => {
                let ghost before = raw@;
                raw.push(p);
                assert(raw@.drop_last() == before);
                push_unique_pair(&mut pairs, p);
                push_unique_i32(&mut numbers, p.0);
                push_unique_i32(&mut numbers, p.1);
            },
            None => {
                assert(raw_pairs(views(raw_words@).take(i + 1)) == raw@ + Seq::<(i32, i32)>::empty());
            },
        }
    }
    assert(views(raw_words@).take(n as int) == views(raw_words@));
    if has_numbers && numbers.len() == 0 && exact.len() == 0 && prefixes.len() == 0 && pairs.len() == 0 {
        return None;
    }
    let mut parts: Vec<Vec<char>> = Vec::new();
    let mut strings: Vec<String> = Vec::new();
    let m = text.len();
    for i in 0..m
        invariant
            m == text@.len(),
            views(parts@) == views(text@).take(i as int).map_values(|t: Seq<char>| fts_term(t)),
            string_views(strings@) == views(text@).take(i as int),
    {
        let mut part: Vec<char> = Vec::new();
        part.push('+');
        let padded = pad_chars(text[i].as_slice());
        append_chars(&mut part, padded.as_slice());
        part.push('*');
        assert(part@ == fts_term(text@[i as int]@));
        let ghost before = views(parts@);
        parts.push(part);
        assert(views(parts@) == before.push(fts_term(text@[i as int]@)));
        assert(views(text@).take(i + 1).map_values(|t: Seq<char>| fts_term(t)) == views(
            text@,
        ).take(i as int).map_values(|t: Seq<char>| fts_term(t)).push(fts_term(text@[i as int]@)));
        let ghost sbefore = string_views(strings@);
        let s = string_from_chars(text[i].as_slice());
        strings.push(s);
        assert(string_views(strings@) == sbefore.push(text@[i as int]@));
        assert(views(text@).take(i + 1) == views(text@).take(i as int).push(text@[i as int]@));
    }
    assert(views(text@).take(m as int) == views(text@));
    let sep = vec![' '];
    assert(sep@ == seq![' ']);
    let fts = join_chars(&parts, sep.as_slice());
    Some(
        SearchPlan {
            fts_query: string_from_chars(fts.as_slice()),
            text_tokens: strings,
            number_candidates: numbers,
            exact_postal_codes: exact,
            postal_prefixes: prefixes,
            slash_pairs: pairs,
        },
    )
}

} // verus!
