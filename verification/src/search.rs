//! The full-text search: the `search` column that is stored with each address
//! and the query that looks addresses up in it.

use vstd::prelude::*;

use crate::address::{opt_chars, opt_or_empty, opt_view, Adresa};
use crate::chars::{chars_of, string_from_chars, to_ascii_lowercase, ascii_lower};
use crate::chars::is_white_space;
use crate::normalize::{
    all_fold_stable, is_ascii_spelled, is_folded, is_normal, is_stable, lemma_ascii_word_char_stable, lemma_latin_base_ascii,
    lemma_normalize_is_normal, lemma_pad_word, normalize_chars, normalize_spec, pad_token_spec,
};
use crate::numbers::{all_digits, decimal, decimal_chars};
use crate::text::{
    all_chars, append_chars, join, join_chars, lemma_words_join, lemma_words_shape, split_words, trim_chars,
    trim_spec, views, words,
};

verus! {

// ---------------------------------------------------------------------------
// Tokens
// ---------------------------------------------------------------------------

/// Every element of `ts` padded.
pub open spec fn padded(ts: Seq<Seq<char>>) -> Seq<Seq<char>> {
    ts.map_values(|t: Seq<char>| pad_token_spec(t))
}

/// The tokens one term of an address is indexed with: the words of its normal
/// form, each padded.
pub open spec fn term_tokens(term: Seq<char>) -> Seq<Seq<char>> {
    padded(words(normalize_spec(term)))
}

/// A token of the search column: not empty, made of folded characters, and at
/// least three characters long when it is a number.
pub open spec fn is_index_token(t: Seq<char>) -> bool {
    &&& t.len() > 0
    &&& all_chars(t, |c: char| is_folded(c))
    &&& all_digits(t) ==> t.len() >= 3
}

/// The index tokens of all `terms`, in order.
pub open spec fn all_tokens(terms: Seq<Seq<char>>) -> Seq<Seq<char>>
    decreases terms.len(),
{
    if terms.len() == 0 {
        seq![]
    } else {
        all_tokens(terms.drop_last()) + term_tokens(terms.last())
    }
}

// ---------------------------------------------------------------------------
// The stored search column
// ---------------------------------------------------------------------------

/// The orientation number with its letter, the letter trimmed and in ASCII
/// lower case.
pub open spec fn orientation_term(o: int, letter: Seq<char>) -> Seq<char> {
    decimal(o) + letter
}

/// The letter of the orientation number as indexed: trimmed, ASCII lower case.
pub open spec fn letter_spec(a: Adresa) -> Seq<char> {
    trim_spec(opt_or_empty(a.znak_cisla_orientacniho)).map_values(|c: char| ascii_lower(c))
}

/// The optional name as a sequence of zero or one terms.
pub open spec fn opt_term(o: Option<String>) -> Seq<Seq<char>> {
    match opt_view(o) {
        Some(s) => seq![s],
        None => seq![],
    }
}

/// The names an address is indexed with: the street, the municipality, its
/// part, the Prague district and the city district, those that it has.
pub open spec fn name_terms(a: Adresa) -> Seq<Seq<char>> {
    opt_term(a.nazev_ulice) + seq![a.nazev_obce@] + opt_term(a.nazev_casti_obce) + opt_term(
        a.nazev_obvodu_prahy,
    ) + opt_term(a.nazev_momc)
}

/// The house numbers an address is indexed with: the house number; with an
/// orientation number also the orientation number with its letter, both
/// `house/orientation` and `orientation/house`, and the letter alone.
pub open spec fn number_terms(a: Adresa) -> Seq<Seq<char>> {
    let house = decimal(a.cislo_domovni as int);
    match a.cislo_orientacni {
        Some(o) => {
            let letter = letter_spec(a);
            let oz = orientation_term(o as int, letter);
            seq![house, oz, house + seq!['/'] + oz, oz + seq!['/'] + house] + if letter.len() > 0 {
                seq![letter]
            } else {
                seq![]
            }
        },
        None => seq![house],
    }
}

/// The postal code an address is indexed with, and for a five-digit code also
/// its first three and its last two digits.
pub open spec fn postal_terms(psc: int) -> Seq<Seq<char>> {
    let d = decimal(psc);
    if d.len() == 5 {
        seq![d, d.subrange(0, 3), d.subrange(3, 5)]
    } else {
        seq![d]
    }
}

/// The terms that the search column of `a` is made from: its names, its
/// house numbers and its postal code.
pub open spec fn raw_terms(a: Adresa) -> Seq<Seq<char>> {
    name_terms(a) + number_terms(a) + postal_terms(a.psc as int)
}

/// The tokens of the search column of `a`.
pub open spec fn search_tokens(a: Adresa) -> Seq<Seq<char>> {
    all_tokens(raw_terms(a))
}

/// The search column of `a`: its tokens separated by single spaces.
pub open spec fn search_text_spec(a: Adresa) -> Seq<char> {
    join(search_tokens(a), seq![' '])
}

/// The tokens of a term are index tokens; those of text whose characters fold
/// to stable ones are made of stable characters.
proof fn lemma_term_tokens_shape(term: Seq<char>)
    ensures
        forall|k: int| 0 <= k < term_tokens(term).len() ==> is_index_token(#[trigger] term_tokens(term)[k]),
        all_fold_stable(term) ==> forall|k: int|
            0 <= k < term_tokens(term).len() ==> all_chars(
                #[trigger] term_tokens(term)[k],
                |c: char| is_stable(c),
            ),
{
    let n = normalize_spec(term);
    lemma_normalize_is_normal(term);
    let p = |c: char| c == ' ' || is_folded(c);
    assert(all_chars(n, p));
    lemma_words_shape(n, p);
    let ws = words(n);
    assert forall|k: int| 0 <= k < term_tokens(term).len() implies is_index_token(
        #[trigger] term_tokens(term)[k],
    ) by {
        let w = ws[k];
        lemma_pad_word(w);
        let t = term_tokens(term)[k];
        assert(t == pad_token_spec(w));
        assert forall|j: int| 0 <= j < t.len() implies is_folded(#[trigger] t[j]) by {
            if j < w.len() {
                assert(t[j] == t.subrange(0, w.len() as int)[j]);
                assert(p(w[j]) && !is_white_space(w[j]));
            } else {
                assert(t[j] == 'x');
                lemma_latin_base_ascii('x');
            }
        }
    }
    if all_fold_stable(term) {
        let q = |c: char| c == ' ' || is_stable(c);
        assert(all_chars(n, q));
        lemma_words_shape(n, q);
        assert forall|k: int| 0 <= k < term_tokens(term).len() implies all_chars(
            #[trigger] term_tokens(term)[k],
            |c: char| is_stable(c),
        ) by {
            let w = ws[k];
            lemma_pad_word(w);
            let t = term_tokens(term)[k];
            assert forall|j: int| 0 <= j < t.len() implies is_stable(#[trigger] t[j]) by {
                if j < w.len() {
                    assert(t[j] == t.subrange(0, w.len() as int)[j]);
                    assert(q(w[j]) && !is_white_space(w[j]));
                } else {
                    assert(t[j] == 'x');
                    lemma_ascii_word_char_stable('x');
                }
            }
        }
    }
}

/// The tokens of all terms are index tokens; if the characters of every
/// term fold to stable ones, they are made of stable characters.
proof fn lemma_all_tokens_shape(terms: Seq<Seq<char>>)
    ensures
        forall|k: int| 0 <= k < all_tokens(terms).len() ==> is_index_token(#[trigger] all_tokens(terms)[k]),
        (forall|i: int| 0 <= i < terms.len() ==> all_fold_stable(#[trigger] terms[i])) ==> forall|k: int|
            0 <= k < all_tokens(terms).len() ==> all_chars(
                #[trigger] all_tokens(terms)[k],
                |c: char| is_stable(c),
            ),
    decreases terms.len(),
{
    if terms.len() > 0 {
        lemma_all_tokens_shape(terms.drop_last());
        lemma_term_tokens_shape(terms.last());
        let p = all_tokens(terms.drop_last());
        let q = term_tokens(terms.last());
        assert forall|k: int| 0 <= k < all_tokens(terms).len() implies is_index_token(
            #[trigger] all_tokens(terms)[k],
        ) by {
            if k < p.len() {
                assert(all_tokens(terms)[k] == p[k]);
            } else {
                assert(all_tokens(terms)[k] == q[k - p.len()]);
            }
        }
        if forall|i: int| 0 <= i < terms.len() ==> all_fold_stable(#[trigger] terms[i]) {
            assert forall|i: int| 0 <= i < terms.drop_last().len() implies all_fold_stable(
                #[trigger] terms.drop_last()[i],
            ) by {
                assert(terms.drop_last()[i] == terms[i]);
            }
            assert(all_fold_stable(terms[terms.len() - 1]));
            assert forall|k: int| 0 <= k < all_tokens(terms).len() implies all_chars(
                #[trigger] all_tokens(terms)[k],
                |c: char| is_stable(c),
            ) by {
                if k < p.len() {
                    assert(all_tokens(terms)[k] == p[k]);
                } else {
                    assert(all_tokens(terms)[k] == q[k - p.len()]);
                }
            }
        }
    }
}

/// Tokens that are not empty and hold no white space, joined by single
/// spaces, form text in normal form.
proof fn lemma_join_tokens_normal(ts: Seq<Seq<char>>)
    requires
        forall|k: int| 0 <= k < ts.len() ==> is_index_token(#[trigger] ts[k]),
    ensures
        is_normal(join(ts, seq![' '])),
        ts.len() > 0 ==> join(ts, seq![' ']).len() > 0,
        (forall|k: int| 0 <= k < ts.len() ==> all_chars(#[trigger] ts[k], |c: char| is_stable(c)))
            ==> forall|i: int|
            0 <= i < join(ts, seq![' ']).len() ==> #[trigger] join(ts, seq![' '])[i] == ' '
                || is_stable(join(ts, seq![' '])[i]),
    decreases ts.len(),
{
    if ts.len() == 1 {
        let t = ts[0];
        assert(is_index_token(t));
        assert(join(ts, seq![' ']) == t);
        assert(is_folded(t[0]));
        assert(is_folded(t[t.len() - 1]));
        assert forall|i: int| 0 <= i < t.len() - 1 implies !(#[trigger] t[i] == ' ' && t[i + 1]
            == ' ') by {
            assert(is_folded(t[i]));
        }
    } else if ts.len() > 1 {
        let p = ts.drop_last();
        assert forall|k: int| 0 <= k < p.len() implies is_index_token(#[trigger] p[k]) by {
            assert(p[k] == ts[k]);
        }
        lemma_join_tokens_normal(p);
        let jp = join(p, seq![' ']);
        let t = ts.last();
        assert(is_index_token(ts[ts.len() - 1]));
        let j = join(ts, seq![' ']);
        assert(j == jp + seq![' '] + t);
        assert(is_folded(t[0]));
        assert(is_folded(t[t.len() - 1]));
        assert(j[0] == jp[0]);
        assert(j.last() == t.last());
        assert(!is_white_space(jp[jp.len() - 1]));
        assert forall|i: int| 0 <= i < j.len() implies #[trigger] j[i] == ' ' || is_folded(j[i]) by {
            if i < jp.len() {
                assert(j[i] == jp[i]);
            } else if i > jp.len() {
                assert(j[i] == t[i - jp.len() - 1]);
            }
        }
        assert forall|i: int| 0 <= i < j.len() - 1 implies !(#[trigger] j[i] == ' ' && j[i + 1]
            == ' ') by {
            if i + 1 < jp.len() {
                assert(j[i] == jp[i] && j[i + 1] == jp[i + 1]);
            } else if i + 1 == jp.len() {
                assert(j[i] == jp[jp.len() - 1]);
            } else if i == jp.len() {
                assert(j[i + 1] == t[0]);
            } else {
                assert(j[i] == t[i - jp.len() - 1]);
                assert(is_folded(t[i - jp.len() - 1]));
            }
        }
        if forall|k: int| 0 <= k < ts.len() ==> all_chars(#[trigger] ts[k], |c: char| is_stable(c)) {
            assert forall|k: int| 0 <= k < p.len() implies all_chars(
                #[trigger] p[k],
                |c: char| is_stable(c),
            ) by {
                assert(p[k] == ts[k]);
            }
            assert(all_chars(ts[ts.len() - 1], |c: char| is_stable(c)));
            assert forall|i: int| 0 <= i < j.len() implies #[trigger] j[i] == ' ' || is_stable(
                j[i],
            ) by {
                if i < jp.len() {
                    assert(j[i] == jp[i]);
                } else if i > jp.len() {
                    assert(j[i] == t[i - jp.len() - 1]);
                }
            }
        }
    }
}

/// The search column of an address is in normal form and is made of index
/// tokens; the column of an address whose terms fold to stable characters (as
/// all text spelled in ASCII does) is its own normal form.
pub proof fn lemma_search_column_normal(a: Adresa)
    ensures
        is_normal(search_text_spec(a)),
        words(search_text_spec(a)) == search_tokens(a),
        forall|k: int| 0 <= k < search_tokens(a).len() ==> is_index_token(#[trigger] search_tokens(a)[k]),
        (forall|i: int| 0 <= i < raw_terms(a).len() ==> all_fold_stable(#[trigger] raw_terms(a)[i]))
            ==> normalize_spec(search_text_spec(a)) == search_text_spec(a),
        (forall|i: int| 0 <= i < raw_terms(a).len() ==> is_ascii_spelled(#[trigger] raw_terms(a)[i]))
            ==> normalize_spec(search_text_spec(a)) == search_text_spec(a),
{
    if forall|i: int| 0 <= i < raw_terms(a).len() ==> is_ascii_spelled(#[trigger] raw_terms(a)[i]) {
        assert forall|i: int| 0 <= i < raw_terms(a).len() implies all_fold_stable(
            #[trigger] raw_terms(a)[i],
        ) by {
            crate::normalize::lemma_ascii_spelled_folds_stable(raw_terms(a)[i]);
        }
    }
    lemma_all_tokens_shape(raw_terms(a));
    lemma_join_tokens_normal(search_tokens(a));
    let ts = search_tokens(a);
    assert forall|k: int| 0 <= k < ts.len() implies (#[trigger] ts[k]).len() > 0 && all_chars(
        ts[k],
        |c: char| !is_white_space(c),
    ) by {
        assert(is_index_token(ts[k]));
        assert forall|j: int| 0 <= j < ts[k].len() implies (|c: char| !is_white_space(c))(
            #[trigger] ts[k][j],
        ) by {
            assert(is_folded(ts[k][j]));
        }
    }
    lemma_words_join(ts);
    if forall|i: int| 0 <= i < raw_terms(a).len() ==> all_fold_stable(#[trigger] raw_terms(a)[i]) {
        crate::normalize::lemma_stable_normal_is_fixed(search_text_spec(a));
    }
}

/// The tokens of each term are among the tokens of all terms.
pub proof fn lemma_all_tokens_contains(terms: Seq<Seq<char>>, k: int, j: int)
    requires
        0 <= k < terms.len(),
        0 <= j < term_tokens(terms[k]).len(),
    ensures
        all_tokens(terms).contains(term_tokens(terms[k])[j]),
    decreases terms.len(),
{
    let prev = all_tokens(terms.drop_last());
    if k == terms.len() - 1 {
        assert(all_tokens(terms)[prev.len() + j] == term_tokens(terms[k])[j]);
    } else {
        lemma_all_tokens_contains(terms.drop_last(), k, j);
        let i = choose|i: int| 0 <= i < prev.len() && prev[i] == term_tokens(terms[k])[j];
        assert(all_tokens(terms)[i] == prev[i]);
    }
}

/// The padded tokens of the words of the normal form of `term`.
fn term_tokens_exec(term: &[char]) -> (r: Vec<Vec<char>>)
    ensures
        views(r@) == term_tokens(term@),
{
    let norm = normalize_chars(term);
    let ws = split_words(norm.as_slice());
    let mut r: Vec<Vec<char>> = Vec::new();
    let n = ws.len();
    for i in 0..n
        invariant
            n == ws@.len(),
            views(ws@) == words(normalize_spec(term@)),
            views(r@) == padded(views(ws@).take(i as int)),
    {
        let p = pad_chars(ws[i].as_slice());
        let ghost before = views(r@);
        r.push(p);
        assert(views(r@) == before.push(p@));
        assert(padded(views(ws@).take(i + 1)) == padded(views(ws@).take(i as int)).push(
            pad_token_spec(ws@[i as int]@),
        ));
    }
    assert(views(ws@).take(n as int) == views(ws@));
    r
}

/// The padded form of the characters `t`.
pub(crate) fn pad_chars(t: &[char]) -> (r: Vec<char>)
    ensures
        r@ == pad_token_spec(t@),
{
    let s = string_from_chars(t);
    let p = crate::normalize::pad_token(s.as_str());
    chars_of(p.as_str())
}

/// The letter of the orientation number as indexed.
fn letter_chars(a: &Adresa) -> (r: Vec<char>)
    ensures
        r@ == letter_spec(*a),
{
    let raw = match opt_chars(&a.znak_cisla_orientacniho) {
        Some(v) => v,
        None => Vec::new(),
    };
    let t = trim_chars(raw.as_slice());
    let mut r: Vec<char> = Vec::new();
    let n = t.len();
    for i in 0..n
        invariant
            n == t@.len(),
            r@ == t@.take(i as int).map_values(|c: char| ascii_lower(c)),
    {
        r.push(to_ascii_lowercase(t[i]));
        assert(t@.take(i + 1).map_values(|c: char| ascii_lower(c)) == t@.take(i as int).map_values(
            |c: char| ascii_lower(c),
        ).push(ascii_lower(t@[i as int])));
    }
    assert(t@.take(n as int) == t@);
    r
}

/// Appends `x` followed by `sep` and `y`.
fn concat3(x: &[char], sep: char, y: &[char]) -> (r: Vec<char>)
    ensures
        r@ == x@ + seq![sep] + y@,
{
    let mut r: Vec<char> = Vec::new();
    append_chars(&mut r, x);
    r.push(sep);
    append_chars(&mut r, y);
    r
}

/// Appends the optional name to `r`.
fn push_opt(r: &mut Vec<Vec<char>>, o: &Option<String>)
    ensures
        views(final(r)@) == views(old(r)@) + opt_term(*o),
{
    match opt_chars(o) {
        Some(v) => {
            r.push(v);
            assert(views(r@) == views(old(r)@) + opt_term(*o));
        },
        None => {
            assert(views(r@) == views(old(r)@) + opt_term(*o));
        },
    }
}

/// Appends the element of `v` to `r`.
fn push_copy(r: &mut Vec<Vec<char>>, v: &[char])
    ensures
        views(final(r)@) == views(old(r)@).push(v@),
{
    let c = crate::text::copy_range(v, 0, v.len());
    assert(v@.subrange(0, v@.len() as int) == v@);
    r.push(c);
    assert(views(r@) == views(old(r)@).push(v@));
}

/// The names an address is indexed with.
fn name_terms_exec(a: &Adresa) -> (r: Vec<Vec<char>>)
    ensures
        views(r@) == name_terms(*a),
{
    let mut r: Vec<Vec<char>> = Vec::new();
    push_opt(&mut r, &a.nazev_ulice);
    push_copy(&mut r, chars_of(a.nazev_obce.as_str()).as_slice());
    push_opt(&mut r, &a.nazev_casti_obce);
    push_opt(&mut r, &a.nazev_obvodu_prahy);
    push_opt(&mut r, &a.nazev_momc);
    r
}

/// The house numbers an address is indexed with.
fn number_terms_exec(a: &Adresa) -> (r: Vec<Vec<char>>)
    ensures
        views(r@) == number_terms(*a),
{
    let mut r: Vec<Vec<char>> = Vec::new();
    let house = decimal_chars(a.cislo_domovni);
    push_copy(&mut r, house.as_slice());
    match a.cislo_orientacni {
        Some(o) => {
            let letter = letter_chars(a);
            let mut oz = decimal_chars(o);
            append_chars(&mut oz, letter.as_slice());
            push_copy(&mut r, oz.as_slice());
            push_copy(&mut r, concat3(house.as_slice(), '/', oz.as_slice()).as_slice());
            push_copy(&mut r, concat3(oz.as_slice(), '/', house.as_slice()).as_slice());
            if letter.len() > 0 {
                push_copy(&mut r, letter.as_slice());
            }
        },
        None => {},
    }
    r
}

/// The postal code terms.
fn postal_terms_exec(psc: i32) -> (r: Vec<Vec<char>>)
    ensures
        views(r@) == postal_terms(psc as int),
{
    let mut r: Vec<Vec<char>> = Vec::new();
    let d = decimal_chars(psc);
    push_copy(&mut r, d.as_slice());
    if d.len() == 5 {
        push_copy(&mut r, crate::text::copy_range(d.as_slice(), 0, 3).as_slice());
        push_copy(&mut r, crate::text::copy_range(d.as_slice(), 3, 5).as_slice());
    }
    r
}

/// Appends every element of `ts` to `r`.
fn extend_copies(r: &mut Vec<Vec<char>>, ts: &Vec<Vec<char>>)
    ensures
        views(final(r)@) == views(old(r)@) + views(ts@),
{
    let m = ts.len();
    for j in 0..m
        invariant
            m == ts@.len(),
            views(r@) == views(old(r)@) + views(ts@).take(j as int),
    {
        push_copy(r, ts[j].as_slice());
        assert(views(old(r)@) + views(ts@).take(j + 1) == (views(old(r)@) + views(ts@).take(
            j as int,
        )).push(ts@[j as int]@));
    }
    assert(views(ts@).take(m as int) == views(ts@));
}

/// The terms that the search column of `a` is made from.
fn raw_terms_exec(a: &Adresa) -> (r: Vec<Vec<char>>)
    ensures
        views(r@) == raw_terms(*a),
{
    let mut r = name_terms_exec(a);
    extend_copies(&mut r, &number_terms_exec(a));
    extend_copies(&mut r, &postal_terms_exec(a.psc));
    r
}

/// The search column of `a`: every word of the normal form of its names and
/// numbers, padded, separated by single spaces. It is in normal form, and every
/// word of it that is a number has at least three characters.
pub fn search_text(a: &Adresa) -> (r: String)
    ensures
        r@ == search_text_spec(*a),
        is_normal(r@),
        words(r@) == search_tokens(*a),
        forall|k: int| 0 <= k < words(r@).len() ==> is_index_token(#[trigger] words(r@)[k]),
        forall|k: int|
            0 <= k < words(r@).len() ==> all_digits(#[trigger] words(r@)[k]) ==> words(r@)[k].len() >= 3,
{
    let terms = raw_terms_exec(a);
    let mut tokens: Vec<Vec<char>> = Vec::new();
    let n = terms.len();
    for i in 0..n
        invariant
            n == terms@.len(),
            views(terms@) == raw_terms(*a),
            views(tokens@) == all_tokens(views(terms@).take(i as int)),
    {
        assert(views(terms@).take(i + 1).drop_last() == views(terms@).take(i as int));
        assert(views(terms@).take(i + 1).last() == terms@[i as int]@);
        let ts = term_tokens_exec(terms[i].as_slice());
        extend_copies(&mut tokens, &ts);
    }
    assert(views(terms@).take(n as int) == views(terms@));
    assert(views(tokens@) == search_tokens(*a));
    let sep = vec![' '];
    assert(sep@ == seq![' ']);
    let text = join_chars(&tokens, sep.as_slice());
    proof {
        lemma_search_column_normal(*a);
    }
    string_from_chars(text.as_slice())
}

} // verus!
