//! What the search column of an address holds, stated over its fields: the
//! words of its names, its house and orientation numbers and its postal code,
//! each padded as the full-text index needs.

use vstd::prelude::*;

use crate::address::Adresa;
use crate::chars::is_white_space;
use crate::normalize::{
    is_ascii_word_char, is_normal, lemma_ascii_word_char_stable, lemma_latin_base_ascii,
    lemma_stable_normal_is_fixed, normalize_spec, pad_token_spec,
};
use crate::numbers::{all_digits, decimal, is_digit, lemma_nat_digits_are_digits};
use crate::search::{
    lemma_all_tokens_contains, lemma_search_column_normal, raw_terms, search_text_spec, term_tokens,
};
use crate::text::{lemma_words_join, words};

verus! {

/// A word of at least three ASCII digits is not padded.
proof fn lemma_pad_long_digits(d: Seq<char>)
    requires
        d.len() >= 3,
        all_digits(d),
    ensures
        pad_token_spec(d) == d,
{
    assert(is_digit(d[0]) && is_digit(d[d.len() - 1]));
    crate::text::lemma_trim_of_trimmed(d);
    assert forall|i: int| 0 <= i < d.len() implies #[trigger] d[i] <= '\x7f' by {
        assert(is_digit(d[i]));
    }
    crate::normalize::lemma_encode_ascii_len(d);
}

/// Every word of the normal form of a term that the address is indexed with,
/// padded, is a word of its search column.
proof fn lemma_raw_term_found(a: Adresa, i: int)
    requires
        0 <= i < raw_terms(a).len(),
    ensures
        forall|w: Seq<char>|
            #[trigger] words(normalize_spec(raw_terms(a)[i])).contains(w) ==> words(
                search_text_spec(a),
            ).contains(pad_token_spec(w)),
{
    lemma_search_column_normal(a);
    assert forall|w: Seq<char>| #[trigger] words(normalize_spec(raw_terms(a)[i])).contains(w) implies words(
        search_text_spec(a),
    ).contains(pad_token_spec(w)) by {
        let ws = words(normalize_spec(raw_terms(a)[i]));
        let j = choose|j: int| 0 <= j < ws.len() && ws[j] == w;
        assert(term_tokens(raw_terms(a)[i])[j] == pad_token_spec(w));
        lemma_all_tokens_contains(raw_terms(a), i, j);
    }
}

/// A non-empty word of ASCII digits is its own normal form, and its one word.
proof fn lemma_digits_are_normal(d: Seq<char>)
    requires
        d.len() > 0,
        all_digits(d),
    ensures
        normalize_spec(d) == d,
        words(normalize_spec(d)) == seq![d],
{
    assert forall|i: int| 0 <= i < d.len() implies #[trigger] d[i] == ' ' || crate::normalize::is_stable(
        d[i],
    ) by {
        assert(is_digit(d[i]));
        assert(is_ascii_word_char(d[i]));
        lemma_ascii_word_char_stable(d[i]);
    }
    assert forall|i: int| 0 <= i < d.len() implies #[trigger] d[i] == ' ' || crate::normalize::is_folded(
        d[i],
    ) by {
        assert(is_digit(d[i]));
        lemma_latin_base_ascii(d[i]);
    }
    assert(is_digit(d[0]) && is_digit(d[d.len() - 1]));
    assert(is_normal(d));
    lemma_stable_normal_is_fixed(d);
    assert forall|j: int| 0 <= j < d.len() implies (|c: char| !is_white_space(c))(#[trigger] d[j]) by {
        assert(is_digit(d[j]));
    }
    assert(seq![d][0] == d);
    lemma_words_join(seq![d]);
}

/// The search column of an address holds, padded, every word of the normal
/// form of its street name, municipality, part of the municipality, Prague
/// district and city district; its house number; its orientation number when
/// it has one without a letter; and, for a five-digit postal code, the code,
/// its first three digits and its last two.
pub proof fn lemma_column_holds_address(a: Adresa)
    ensures
        ({
            let col = words(search_text_spec(a));
            &&& forall|w: Seq<char>|
                #[trigger] words(normalize_spec(a.nazev_obce@)).contains(w) ==> col.contains(
                    pad_token_spec(w),
                )
            &&& a.nazev_ulice is Some ==> forall|w: Seq<char>|
                #[trigger] words(normalize_spec(a.nazev_ulice.unwrap()@)).contains(w)
                    ==> col.contains(pad_token_spec(w))
            &&& a.nazev_casti_obce is Some ==> forall|w: Seq<char>|
                #[trigger] words(normalize_spec(a.nazev_casti_obce.unwrap()@)).contains(w)
                    ==> col.contains(pad_token_spec(w))
            &&& a.nazev_obvodu_prahy is Some ==> forall|w: Seq<char>|
                #[trigger] words(normalize_spec(a.nazev_obvodu_prahy.unwrap()@)).contains(w)
                    ==> col.contains(pad_token_spec(w))
            &&& a.nazev_momc is Some ==> forall|w: Seq<char>|
                #[trigger] words(normalize_spec(a.nazev_momc.unwrap()@)).contains(w)
                    ==> col.contains(pad_token_spec(w))
            &&& a.cislo_domovni >= 0 ==> col.contains(pad_token_spec(decimal(a.cislo_domovni as int)))
            &&& a.cislo_orientacni is Some && a.cislo_orientacni.unwrap() >= 0
                && a.znak_cisla_orientacniho is None ==> col.contains(
                pad_token_spec(decimal(a.cislo_orientacni.unwrap() as int)),
            )
            &&& a.psc >= 0 && decimal(a.psc as int).len() == 5 ==> {
                let d = decimal(a.psc as int);
                &&& col.contains(d)
                &&& col.contains(d.subrange(0, 3))
                &&& col.contains(pad_token_spec(d.subrange(3, 5)))
            }
        }),
{
    let rt = raw_terms(a);
    let u = crate::search::opt_term(a.nazev_ulice);
    let c = crate::search::opt_term(a.nazev_casti_obce);
    let o = crate::search::opt_term(a.nazev_obvodu_prahy);
    let m = crate::search::opt_term(a.nazev_momc);
    let names = crate::search::name_terms(a);
    let nums = crate::search::number_terms(a);
    let post = crate::search::postal_terms(a.psc as int);
    assert(rt == names + nums + post);
    assert(names == u + seq![a.nazev_obce@] + c + o + m);
    let i_obce = u.len() as int;
    assert(rt[i_obce] == a.nazev_obce@);
    lemma_raw_term_found(a, i_obce);
    if a.nazev_ulice is Some {
        assert(rt[0] == a.nazev_ulice.unwrap()@);
        lemma_raw_term_found(a, 0);
    }
    if a.nazev_casti_obce is Some {
        let i: int = (u.len() + 1) as int;
        assert(rt[i] == a.nazev_casti_obce.unwrap()@);
        lemma_raw_term_found(a, i);
    }
    if a.nazev_obvodu_prahy is Some {
        let i: int = (u.len() + 1 + c.len()) as int;
        assert(rt[i] == a.nazev_obvodu_prahy.unwrap()@);
        lemma_raw_term_found(a, i);
    }
    if a.nazev_momc is Some {
        let i: int = (u.len() + 1 + c.len() + o.len()) as int;
        assert(rt[i] == a.nazev_momc.unwrap()@);
        lemma_raw_term_found(a, i);
    }
    let base = names.len() as int;
    if a.cislo_domovni >= 0 {
        let d = decimal(a.cislo_domovni as int);
        lemma_nat_digits_are_digits(a.cislo_domovni as nat);
        lemma_digits_are_normal(d);
        assert(nums[0] == d);
        assert(rt[base] == d);
        lemma_raw_term_found(a, base);
        assert(words(normalize_spec(d)).contains(d)) by {
            assert(words(normalize_spec(d))[0] == d);
        }
    }
    if a.cislo_orientacni is Some && a.cislo_orientacni.unwrap() >= 0 && a.znak_cisla_orientacniho
        is None {
        let ov = a.cislo_orientacni.unwrap();
        let d = decimal(ov as int);
        lemma_nat_digits_are_digits(ov as nat);
        lemma_digits_are_normal(d);
        assert(crate::address::opt_or_empty(a.znak_cisla_orientacniho) == Seq::<char>::empty());
        assert(crate::text::trim_spec(Seq::<char>::empty()) == Seq::<char>::empty());
        assert(crate::search::letter_spec(a) =~= Seq::<char>::empty());
        assert(crate::search::orientation_term(ov as int, crate::search::letter_spec(a)) == d);
        assert(nums[1] == d);
        assert(rt[base + 1] == d);
        lemma_raw_term_found(a, base + 1);
        assert(words(normalize_spec(d)).contains(d)) by {
            assert(words(normalize_spec(d))[0] == d);
        }
    }
    if a.psc >= 0 && decimal(a.psc as int).len() == 5 {
        let d = decimal(a.psc as int);
        lemma_nat_digits_are_digits(a.psc as nat);
        let pb: int = base + nums.len();
        assert(post == seq![d, d.subrange(0, 3), d.subrange(3, 5)]);
        assert(rt[pb] == d && rt[pb + 1] == d.subrange(0, 3) && rt[pb + 2] == d.subrange(3, 5));
        let d3 = d.subrange(0, 3);
        let d2 = d.subrange(3, 5);
        assert(all_digits(d3)) by {
            assert forall|i: int| 0 <= i < d3.len() implies is_digit(#[trigger] d3[i]) by {
                assert(d3[i] == d[i]);
            }
        }
        assert(all_digits(d2)) by {
            assert forall|i: int| 0 <= i < d2.len() implies is_digit(#[trigger] d2[i]) by {
                assert(d2[i] == d[i + 3]);
            }
        }
        lemma_digits_are_normal(d);
        lemma_digits_are_normal(d3);
        lemma_digits_are_normal(d2);
        lemma_raw_term_found(a, pb);
        lemma_raw_term_found(a, pb + 1);
        lemma_raw_term_found(a, pb + 2);
        assert(words(normalize_spec(d))[0] == d);
        assert(words(normalize_spec(d3))[0] == d3);
        assert(words(normalize_spec(d2))[0] == d2);
        assert(words(normalize_spec(d)).contains(d));
        assert(words(normalize_spec(d3)).contains(d3));
        assert(words(normalize_spec(d2)).contains(d2));
        lemma_pad_long_digits(d);
        lemma_pad_long_digits(d3);
    }
}

} // verus!
