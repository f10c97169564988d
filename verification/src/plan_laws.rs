//! What a plan holds of the numbers of its input, stated over the words of the
//! input: no number word that the search can use is lost.

use vstd::prelude::*;

use crate::chars::is_white_space;
use crate::matching::lemma_text_tokens_contains;
use crate::normalize::{lemma_pad_word, normalize_spec, pad_token_spec};
use crate::numbers::{all_digits, digits_value};
use crate::plan::{
    fts_term, string_views, text_tokens,
    add_pair_numbers, add_unique, five_digit_numbers_of, input_tokens, is_number_token,
    plan_matches, postal_prefixes_of, raw_pairs, short_numbers_of, slash_pair,
    split_postal_codes_onto, token_value, unique, SearchPlan,
};
use crate::text::{all_chars, lemma_words_join, lemma_words_shape, words};

verus! {

/// Adding `v` unless it is there keeps what was there and holds `v`.
proof fn lemma_add_unique<T>(s: Seq<T>, v: T, x: T)
    ensures
        add_unique(s, v).contains(v),
        s.contains(x) ==> add_unique(s, v).contains(x),
{
    if !s.contains(v) {
        assert(s.push(v)[s.len() as int] == v);
        if s.contains(x) {
            let i = choose|i: int| 0 <= i < s.len() && s[i] == x;
            assert(s.push(v)[i] == x);
        }
    }
}

/// The short numbers of a list hold the value of each of its number words of
/// at most four digits.
proof fn lemma_short_contains(ts: Seq<Seq<char>>, k: int)
    requires
        0 <= k < ts.len(),
        is_number_token(ts[k]),
        ts[k].len() <= 4,
    ensures
        short_numbers_of(ts).contains(token_value(ts[k])),
    decreases ts.len(),
{
    let p = ts.drop_last();
    lemma_add_unique(short_numbers_of(p), token_value(ts.last()), token_value(ts[k]));
    if k < ts.len() - 1 {
        assert(p[k] == ts[k]);
        lemma_short_contains(p, k);
    } else {
        assert(ts.last() == ts[k]);
    }
}

/// The five-digit numbers of a list hold the value of each of its number words
/// of five digits.
proof fn lemma_five_contains(ts: Seq<Seq<char>>, k: int)
    requires
        0 <= k < ts.len(),
        is_number_token(ts[k]),
        ts[k].len() == 5,
    ensures
        five_digit_numbers_of(ts).contains(token_value(ts[k])),
    decreases ts.len(),
{
    let p = ts.drop_last();
    lemma_add_unique(five_digit_numbers_of(p), token_value(ts.last()), token_value(ts[k]));
    if k < ts.len() - 1 {
        assert(p[k] == ts[k]);
        lemma_five_contains(p, k);
    } else {
        assert(ts.last() == ts[k]);
    }
}

/// Adding split postal codes keeps what was there.
proof fn lemma_split_keeps(ts: Seq<Seq<char>>, base: Seq<i32>, x: i32)
    requires
        base.contains(x),
    ensures
        split_postal_codes_onto(ts, base).contains(x),
    decreases ts.len(),
{
    if ts.len() >= 2 {
        let p = ts.drop_last();
        lemma_split_keeps(p, base, x);
        let a = ts[ts.len() - 2];
        let b = ts.last();
        lemma_add_unique(split_postal_codes_onto(p, base), token_value(a + b), x);
    }
}

/// A word of three digits followed by a word of two digits is a split postal
/// code.
proof fn lemma_split_contains(ts: Seq<Seq<char>>, base: Seq<i32>, k: int)
    requires
        1 <= k < ts.len(),
        is_number_token(ts[k - 1]),
        ts[k - 1].len() == 3,
        is_number_token(ts[k]),
        ts[k].len() == 2,
    ensures
        split_postal_codes_onto(ts, base).contains(token_value(ts[k - 1] + ts[k])),
    decreases ts.len(),
{
    let p = ts.drop_last();
    let v = token_value(ts[k - 1] + ts[k]);
    if k < ts.len() - 1 {
        assert(p[k] == ts[k] && p[k - 1] == ts[k - 1]);
        lemma_split_contains(p, base, k);
        let a = ts[ts.len() - 2];
        let b = ts.last();
        lemma_add_unique(split_postal_codes_onto(p, base), token_value(a + b), v);
    } else {
        assert(ts[ts.len() - 2] == ts[k - 1]);
        assert(ts.last() == ts[k]);
        lemma_add_unique(split_postal_codes_onto(p, base), v, v);
    }
}

/// The prefixes of a list hold each of its number words of two to four
/// digits, with its length.
proof fn lemma_prefix_contains(ts: Seq<Seq<char>>, k: int)
    requires
        0 <= k < ts.len(),
        is_number_token(ts[k]),
        2 <= ts[k].len() <= 4,
    ensures
        postal_prefixes_of(ts).contains((token_value(ts[k]), ts[k].len() as i32)),
    decreases ts.len(),
{
    let p = ts.drop_last();
    let x = (token_value(ts[k]), ts[k].len() as i32);
    lemma_add_unique(postal_prefixes_of(p), (token_value(ts.last()), ts.last().len() as i32), x);
    if k < ts.len() - 1 {
        assert(p[k] == ts[k]);
        lemma_prefix_contains(p, k);
    } else {
        assert(ts.last() == ts[k]);
    }
}

/// The slash pairs of raw words hold the pair of each word that spells one.
proof fn lemma_raw_pairs_contains(ws: Seq<Seq<char>>, k: int)
    requires
        0 <= k < ws.len(),
        slash_pair(ws[k]) is Some,
    ensures
        raw_pairs(ws).contains(slash_pair(ws[k]).unwrap()),
    decreases ws.len(),
{
    let p = ws.drop_last();
    let x = slash_pair(ws[k]).unwrap();
    let tail = match slash_pair(ws.last()) {
        Some(q) => seq![q],
        None => Seq::<(i32, i32)>::empty(),
    };
    assert(raw_pairs(ws) == raw_pairs(p) + tail);
    if k < ws.len() - 1 {
        assert(p[k] == ws[k]);
        lemma_raw_pairs_contains(p, k);
        let i = choose|i: int| 0 <= i < raw_pairs(p).len() && raw_pairs(p)[i] == x;
        assert(raw_pairs(ws)[i] == x);
    } else {
        assert(ws.last() == ws[k]);
        assert(raw_pairs(ws)[raw_pairs(p).len() as int] == x);
    }
}

/// Keeping each element once keeps every element.
proof fn lemma_unique_contains<T>(s: Seq<T>, x: T)
    requires
        s.contains(x),
    ensures
        unique(s).contains(x),
    decreases s.len(),
{
    let p = s.drop_last();
    if s.last() == x {
        lemma_add_unique(unique(p), s.last(), x);
    } else {
        let i = choose|i: int| 0 <= i < s.len() && s[i] == x;
        assert(p[i] == x);
        lemma_unique_contains(p, x);
        lemma_add_unique(unique(p), s.last(), x);
    }
}

/// Adding the numbers of slash pairs keeps the candidates and adds both
/// numbers of every pair.
proof fn lemma_pair_numbers(nc: Seq<i32>, ps: Seq<(i32, i32)>, x: i32)
    ensures
        nc.contains(x) ==> add_pair_numbers(nc, ps).contains(x),
        forall|j: int|
            0 <= j < ps.len() ==> add_pair_numbers(nc, ps).contains(#[trigger] ps[j].0)
                && add_pair_numbers(nc, ps).contains(ps[j].1),
    decreases ps.len(),
{
    if ps.len() > 0 {
        let p = ps.drop_last();
        lemma_pair_numbers(nc, p, x);
        let r = add_pair_numbers(nc, p);
        let l = ps.last();
        lemma_add_unique(r, l.0, x);
        lemma_add_unique(add_unique(r, l.0), l.1, x);
        lemma_add_unique(add_unique(r, l.0), l.1, l.0);
        assert forall|j: int| 0 <= j < ps.len() implies add_pair_numbers(nc, ps).contains(
            #[trigger] ps[j].0,
        ) && add_pair_numbers(nc, ps).contains(ps[j].1) by {
            if j < p.len() {
                assert(p[j] == ps[j]);
                lemma_add_unique(r, l.0, ps[j].0);
                lemma_add_unique(add_unique(r, l.0), l.1, ps[j].0);
                lemma_add_unique(r, l.0, ps[j].1);
                lemma_add_unique(add_unique(r, l.0), l.1, ps[j].1);
            } else {
                assert(ps[j] == l);
            }
        }
    }
}

/// Every word of one to four digits in the normal form of the input is a
/// house-number candidate of its plan: its value is among
/// `number_candidates` (`Roztylská 1860` asks for house number 1860).
pub proof fn lemma_short_number_words_are_candidates(input: Seq<char>, p: SearchPlan, k: int)
    requires
        plan_matches(p, input),
        0 <= k < input_tokens(input).len(),
        all_digits(input_tokens(input)[k]),
        1 <= input_tokens(input)[k].len() <= 4,
    ensures
        p.number_candidates@.contains(digits_value(input_tokens(input)[k]) as i32),
{
    let ts = input_tokens(input);
    lemma_short_contains(ts, k);
    lemma_pair_numbers(short_numbers_of(ts), raw_pairs(words(input)), token_value(ts[k]));
}

/// Every word of five digits in the normal form of the input is an exact
/// postal code of its plan, and so is a word of three digits followed by a
/// word of two digits (`251 01`), read as one number.
pub proof fn lemma_postal_code_words_are_exact(input: Seq<char>, p: SearchPlan, k: int)
    requires
        plan_matches(p, input),
        0 <= k < input_tokens(input).len(),
        all_digits(input_tokens(input)[k]),
    ensures
        input_tokens(input)[k].len() == 5 ==> p.exact_postal_codes@.contains(
            digits_value(input_tokens(input)[k]) as i32,
        ),
        k >= 1 && input_tokens(input)[k].len() == 2 && input_tokens(input)[k - 1].len() == 3
            && all_digits(input_tokens(input)[k - 1]) ==> p.exact_postal_codes@.contains(
            digits_value(input_tokens(input)[k - 1] + input_tokens(input)[k]) as i32,
        ),
{
    let ts = input_tokens(input);
    let five = five_digit_numbers_of(ts);
    if ts[k].len() == 5 {
        lemma_five_contains(ts, k);
        lemma_split_keeps(ts, five, token_value(ts[k]));
    }
    if k >= 1 && ts[k].len() == 2 && ts[k - 1].len() == 3 && all_digits(ts[k - 1]) {
        lemma_split_contains(ts, five, k);
    }
}

/// Every word of two to four digits in the normal form of the input is a
/// postal-code prefix of its plan, with its number of digits.
pub proof fn lemma_prefix_words_are_prefixes(input: Seq<char>, p: SearchPlan, k: int)
    requires
        plan_matches(p, input),
        0 <= k < input_tokens(input).len(),
        all_digits(input_tokens(input)[k]),
        2 <= input_tokens(input)[k].len() <= 4,
    ensures
        p.postal_prefixes@.contains(
            (digits_value(input_tokens(input)[k]) as i32, input_tokens(input)[k].len() as i32),
        ),
{
    lemma_prefix_contains(input_tokens(input), k);
}

/// Every raw word of the input that spells a slash pair `a/b` gives the plan
/// that pair, and both its numbers as house-number candidates.
pub proof fn lemma_slash_words_are_pairs(input: Seq<char>, p: SearchPlan, k: int)
    requires
        plan_matches(p, input),
        0 <= k < words(input).len(),
        slash_pair(words(input)[k]) is Some,
    ensures
        p.slash_pairs@.contains(slash_pair(words(input)[k]).unwrap()),
        p.number_candidates@.contains(slash_pair(words(input)[k]).unwrap().0),
        p.number_candidates@.contains(slash_pair(words(input)[k]).unwrap().1),
{
    let ws = words(input);
    let x = slash_pair(ws[k]).unwrap();
    lemma_raw_pairs_contains(ws, k);
    lemma_unique_contains(raw_pairs(ws), x);
    let ts = input_tokens(input);
    lemma_pair_numbers(short_numbers_of(ts), raw_pairs(ws), x.0);
    let i = choose|i: int| 0 <= i < raw_pairs(ws).len() && raw_pairs(ws)[i] == x;
    assert(raw_pairs(ws)[i].0 == x.0);
}

/// The words of the normal form of an input are not empty and hold no white
/// space.
proof fn lemma_input_words_shape(input: Seq<char>)
    ensures
        forall|k: int|
            0 <= k < input_tokens(input).len() ==> (#[trigger] input_tokens(input)[k]).len() > 0
                && all_chars(input_tokens(input)[k], |c: char| !is_white_space(c)),
{
    let n = normalize_spec(input);
    assert(all_chars(n, |c: char| true));
    lemma_words_shape(n, |c: char| true);
}

/// The term of a word is not empty and holds no white space.
proof fn lemma_fts_term_shape(w: Seq<char>)
    requires
        w.len() > 0,
        all_chars(w, |c: char| !is_white_space(c)),
    ensures
        fts_term(w).len() > 0,
        all_chars(fts_term(w), |c: char| !is_white_space(c)),
{
    lemma_pad_word(w);
    let pw = pad_token_spec(w);
    let t = fts_term(w);
    assert forall|j: int| 0 <= j < t.len() implies (|c: char| !is_white_space(c))(#[trigger] t[j]) by {
        if j == 0 {
        } else if j == t.len() - 1 {
        } else {
            assert(t[j] == pw[j - 1]);
            if j - 1 < w.len() {
                assert(pw[j - 1] == pw.subrange(0, w.len() as int)[j - 1]);
            }
        }
    }
}

/// Every word of the normal form of the input that is not a number is a text
/// word of its plan, and the full-text query requires it: one of the query's
/// words is `+`, the word padded, `*`. Number words are not text words.
pub proof fn lemma_text_words_are_required(input: Seq<char>, p: SearchPlan, k: int)
    requires
        plan_matches(p, input),
        0 <= k < input_tokens(input).len(),
    ensures
        !all_digits(input_tokens(input)[k]) ==> string_views(p.text_tokens@).contains(
            input_tokens(input)[k],
        ),
        !all_digits(input_tokens(input)[k]) ==> words(p.fts_query@).contains(
            seq!['+'] + pad_token_spec(input_tokens(input)[k]) + seq!['*'],
        ),
        all_digits(input_tokens(input)[k]) ==> !string_views(p.text_tokens@).contains(
            input_tokens(input)[k],
        ),
{
    let ts = input_tokens(input);
    let w = ts[k];
    lemma_input_words_shape(input);
    assert(ts.contains(w));
    lemma_text_tokens_contains(ts, w);
    let tt = text_tokens(input);
    let terms = tt.map_values(|t: Seq<char>| fts_term(t));
    assert forall|j: int| 0 <= j < terms.len() implies (#[trigger] terms[j]).len() > 0 && all_chars(
        terms[j],
        |c: char| !is_white_space(c),
    ) by {
        lemma_text_tokens_contains(ts, tt[j]);
        assert(tt.contains(tt[j]));
        let i = choose|i: int| 0 <= i < ts.len() && ts[i] == tt[j];
        lemma_fts_term_shape(tt[j]);
    }
    lemma_words_join(terms);
    if !all_digits(w) {
        let j = choose|j: int| 0 <= j < tt.len() && tt[j] == w;
        assert(terms[j] == fts_term(w));
    }
}

} // verus!
