//! What the full-text condition of a search requires of an address: one
//! required prefix term per text word of the input. Which words the input
//! holds decides it, not their order; more words require more; and the words
//! an address is indexed with are found in its search column.

use vstd::prelude::*;

use crate::address::Adresa;
use crate::normal_form::lemma_normal_words_concat;
use crate::normalize::{normalize_spec, pad_token_spec};
use crate::plan::{fts_term, input_tokens, is_number_token, text_tokens, text_tokens_of};
use crate::search::{
    lemma_all_tokens_contains, lemma_search_column_normal, raw_terms, search_text_spec, term_tokens,
};
use crate::text::words;

verus! {

/// The terms that the full-text query of `input` requires, each `+word*`.
pub open spec fn required_terms(input: Seq<char>) -> Set<Seq<char>> {
    text_tokens(input).map_values(|t: Seq<char>| fts_term(t)).to_set()
}

/// The text words of a list of words are those of its words that are not
/// numbers.
pub proof fn lemma_text_tokens_contains(ts: Seq<Seq<char>>, t: Seq<char>)
    ensures
        text_tokens_of(ts).contains(t) <==> (ts.contains(t) && !is_number_token(t)),
    decreases ts.len(),
{
    if ts.len() > 0 {
        let p = ts.drop_last();
        lemma_text_tokens_contains(p, t);
        let r = text_tokens_of(p);
        let x = ts.last();
        let f = text_tokens_of(ts);
        assert(f == if is_number_token(x) { r } else { r.push(x) });
        assert forall|k: int| 0 <= k < r.len() implies f[k] == r[k] by {}
        if ts.contains(t) && !is_number_token(t) {
            let i = choose|i: int| 0 <= i < ts.len() && ts[i] == t;
            if i < p.len() {
                assert(p[i] == t);
                let k = choose|k: int| 0 <= k < r.len() && r[k] == t;
                assert(f[k] == t);
            } else {
                assert(x == t);
                assert(f[r.len() as int] == t);
            }
        }
        if f.contains(t) {
            let i = choose|i: int| 0 <= i < f.len() && f[i] == t;
            if i < r.len() {
                assert(r[i] == t);
                let j = choose|j: int| 0 <= j < p.len() && p[j] == t;
                assert(ts[j] == t);
            } else {
                assert(!is_number_token(x));
                assert(f[i] == x);
                assert(ts[ts.len() - 1] == t);
            }
        }
    }
}

/// A term is required exactly when it is the term of a text word of the input.
proof fn lemma_required_terms_contains(input: Seq<char>, x: Seq<char>)
    ensures
        required_terms(input).contains(x) <==> exists|t: Seq<char>|
            input_tokens(input).contains(t) && !is_number_token(t) && #[trigger] fts_term(t) == x,
{
    let tt = text_tokens(input);
    let m = tt.map_values(|t: Seq<char>| fts_term(t));
    if required_terms(input).contains(x) {
        let i = choose|i: int| 0 <= i < m.len() && m[i] == x;
        let t = tt[i];
        assert(tt.contains(t));
        lemma_text_tokens_contains(input_tokens(input), t);
        assert(fts_term(t) == x);
    }
    if exists|t: Seq<char>|
        input_tokens(input).contains(t) && !is_number_token(t) && #[trigger] fts_term(t) == x {
        let t = choose|t: Seq<char>|
            input_tokens(input).contains(t) && !is_number_token(t) && #[trigger] fts_term(t) == x;
        lemma_text_tokens_contains(input_tokens(input), t);
        let i = choose|i: int| 0 <= i < tt.len() && tt[i] == t;
        assert(m[i] == x);
        assert(m.contains(x));
    }
}

/// More words require more: when every word of the normal form of `q1` is
/// also a word of that of `q2`, every term that the search for `q1` requires
/// the search for `q2` requires too, so `q2` matches no address that `q1`
/// does not.
pub proof fn lemma_more_words_require_more(q1: Seq<char>, q2: Seq<char>)
    requires
        input_tokens(q1).to_set().subset_of(input_tokens(q2).to_set()),
    ensures
        required_terms(q1).subset_of(required_terms(q2)),
{
    assert forall|x: Seq<char>| required_terms(q1).contains(x) implies required_terms(q2).contains(x) by {
        lemma_required_terms_contains(q1, x);
        lemma_required_terms_contains(q2, x);
        let t = choose|t: Seq<char>|
            input_tokens(q1).contains(t) && !is_number_token(t) && #[trigger] fts_term(t) == x;
        assert(input_tokens(q1).to_set().contains(t));
        assert(input_tokens(q2).to_set().contains(t));
    }
}

/// The order of the words does not matter: inputs whose normal forms have the
/// same words, in any order and number, require the same terms.
pub proof fn lemma_word_order_keeps_terms(q1: Seq<char>, q2: Seq<char>)
    requires
        input_tokens(q1).to_set() == input_tokens(q2).to_set(),
    ensures
        required_terms(q1) == required_terms(q2),
{
    lemma_more_words_require_more(q1, q2);
    lemma_more_words_require_more(q2, q1);
    assert(required_terms(q1) =~= required_terms(q2));
}

/// The words of two inputs joined by a space are the words of the first and
/// then those of the second; so swapping the two parts (`Praha Roztylská`,
/// `Roztylská Praha`) requires the same terms.
pub proof fn lemma_swapped_parts_keep_terms(a: Seq<char>, b: Seq<char>)
    ensures
        input_tokens(a + seq![' '] + b) == input_tokens(a) + input_tokens(b),
        required_terms(a + seq![' '] + b) == required_terms(b + seq![' '] + a),
{
    lemma_normal_words_concat(a, b);
    lemma_normal_words_concat(b, a);
    let x = input_tokens(a);
    let y = input_tokens(b);
    assert forall|t: Seq<char>| (x + y).contains(t) <==> (y + x).contains(t) by {
        if (x + y).contains(t) {
            let i = choose|i: int| 0 <= i < (x + y).len() && (x + y)[i] == t;
            if i < x.len() {
                assert((y + x)[y.len() + i] == t);
            } else {
                assert((y + x)[i - x.len()] == t);
            }
        }
        if (y + x).contains(t) {
            let i = choose|i: int| 0 <= i < (y + x).len() && (y + x)[i] == t;
            if i < y.len() {
                assert((x + y)[x.len() + i] == t);
            } else {
                assert((x + y)[i - y.len()] == t);
            }
        }
    }
    assert((x + y).to_set() =~= (y + x).to_set());
    lemma_word_order_keeps_terms(a + seq![' '] + b, b + seq![' '] + a);
}

/// The search column offers what the full-text query asks of it: when every
/// word of the normal form of the input is a word of the normal form of one of
/// the terms that `a` is indexed with, the padded form of every text word of
/// the input is a word of the search column of `a`, and so matches the term
/// `+word*` that the query requires for it.
pub proof fn lemma_indexed_words_are_found(a: Adresa, q: Seq<char>)
    requires
        forall|t: Seq<char>|
            #[trigger] input_tokens(q).contains(t) ==> exists|i: int|
                0 <= i < raw_terms(a).len() && words(normalize_spec(raw_terms(a)[i])).contains(t),
    ensures
        forall|t: Seq<char>|
            #[trigger] text_tokens(q).contains(t) ==> words(search_text_spec(a)).contains(
                pad_token_spec(t),
            ),
{
    lemma_search_column_normal(a);
    assert forall|t: Seq<char>| #[trigger] text_tokens(q).contains(t) implies words(
        search_text_spec(a),
    ).contains(pad_token_spec(t)) by {
        lemma_text_tokens_contains(input_tokens(q), t);
        assert(input_tokens(q).contains(t));
        let i = choose|i: int|
            0 <= i < raw_terms(a).len() && words(normalize_spec(raw_terms(a)[i])).contains(t);
        let ws = words(normalize_spec(raw_terms(a)[i]));
        let j = choose|j: int| 0 <= j < ws.len() && ws[j] == t;
        assert(term_tokens(raw_terms(a)[i])[j] == pad_token_spec(t));
        lemma_all_tokens_contains(raw_terms(a), i, j);
    }
}

/// Searching for one of the terms an address is indexed with (its street,
/// municipality, house number, postal code, ...) finds the address as far as
/// the full-text condition goes: every text word that the query requires is
/// a word of its search column.
pub proof fn lemma_indexed_term_is_found(a: Adresa, i: int)
    requires
        0 <= i < raw_terms(a).len(),
    ensures
        forall|t: Seq<char>|
            #[trigger] text_tokens(raw_terms(a)[i]).contains(t) ==> words(search_text_spec(a)).contains(
                pad_token_spec(t),
            ),
{
    let q = raw_terms(a)[i];
    assert forall|t: Seq<char>| #[trigger] input_tokens(q).contains(t) implies exists|k: int|
        0 <= k < raw_terms(a).len() && words(normalize_spec(raw_terms(a)[k])).contains(t) by {
        assert(words(normalize_spec(raw_terms(a)[i])).contains(t));
    }
    lemma_indexed_words_are_found(a, q);
}

} // verus!
