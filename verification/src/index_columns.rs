//! The columns stored with each address besides its search column, which the
//! ranked branches of the search compare with the numbers of the input: the
//! number in the street name, the number of the Prague district, and the house
//! and orientation numbers as one key, either way round.

use vstd::prelude::*;

use crate::address::{opt_view, Adresa};
use crate::chars::{chars_of, string_from_chars};
use crate::normalize::{normalize_chars, normalize_spec};
use crate::numbers::{all_digits, decimal, digits_value};
use crate::plan::{is_number_token, is_number_token_exec, token_value, token_value_exec};
use crate::query::{cross_keys, district_numbers, key_row, number_key, number_key_exec};
use crate::text::{split_words, views, words};

verus! {

/// The value of the first word of `ts` that is a number of one to four digits.
pub open spec fn first_short_number(ts: Seq<Seq<char>>) -> Option<i32>
    decreases ts.len(),
{
    if ts.len() == 0 {
        None
    } else if is_number_token(ts[0]) && ts[0].len() <= 4 {
        Some(token_value(ts[0]))
    } else {
        first_short_number(ts.drop_first())
    }
}

/// The number in a name: the first word of its normal form that is a number of
/// one to four digits (`17. listopadu` gives 17, `Praha 4` gives 4).
pub open spec fn name_number(name: Option<Seq<char>>) -> Option<i32> {
    match name {
        Some(n) => first_short_number(words(normalize_spec(n))),
        None => None,
    }
}

/// The number of the Prague district of `a`, 1 to 22, read from its name.
pub open spec fn district_number_spec(a: Adresa) -> Option<i32> {
    match name_number(opt_view(a.nazev_obvodu_prahy)) {
        Some(v) => if 1 <= v <= 22 {
            Some(v)
        } else {
            None
        },
        None => None,
    }
}

/// The derived columns of an address.
#[derive(Debug, PartialEq, Eq)]
pub struct IndexColumns {
    /// The number in the street name.
    pub ulice_cislo: Option<i32>,
    /// The number of the Prague district.
    pub obvod_prahy_cislo: Option<i32>,
    /// `house_orientation`, when the address has an orientation number.
    pub domovni_orientacni_klic: Option<String>,
    /// `orientation_house`, when the address has an orientation number.
    pub orientacni_domovni_klic: Option<String>,
}

/// The key of an optional orientation number with the house number, in the
/// order that `swapped` gives.
pub open spec fn key_spec(a: Adresa, swapped: bool) -> Option<Seq<char>> {
    match a.cislo_orientacni {
        Some(o) => Some(
            if swapped {
                number_key(o, a.cislo_domovni)
            } else {
                number_key(a.cislo_domovni, o)
            },
        ),
        None => None,
    }
}

/// `c` holds the derived columns of `a`.
pub open spec fn index_columns_match(c: IndexColumns, a: Adresa) -> bool {
    &&& c.ulice_cislo == name_number(opt_view(a.nazev_ulice))
    &&& c.obvod_prahy_cislo == district_number_spec(a)
    &&& opt_view(c.domovni_orientacni_klic) == key_spec(a, false)
    &&& opt_view(c.orientacni_domovni_klic) == key_spec(a, true)
}

/// The first number word of one to four digits among `ts`.
fn first_short_number_exec(ts: &Vec<Vec<char>>) -> (r: Option<i32>)
    ensures
        r == first_short_number(views(ts@)),
{
    let n = ts.len();
    let ghost all = views(ts@);
    assert(all.subrange(0, n as int) == all);
    for i in 0..n
        invariant
            n == ts@.len(),
            all == views(ts@),
            first_short_number(all) == first_short_number(all.subrange(i as int, n as int)),
    {
        let ghost rest = all.subrange(i as int, n as int);
        assert(rest[0] == ts@[i as int]@);
        assert(rest.drop_first() == all.subrange(i + 1, n as int));
        if ts[i].len() <= 4 && is_number_token_exec(ts[i].as_slice()) {
            return Some(token_value_exec(ts[i].as_slice()));
        }
    }
    assert(all.subrange(n as int, n as int).len() == 0);
    None
}

/// The number in an optional name.
fn name_number_exec(name: &Option<String>) -> (r: Option<i32>)
    ensures
        r == name_number(opt_view(*name)),
{
    match name {
        Some(s) => {
            let c = chars_of(s.as_str());
            let norm = normalize_chars(c.as_slice());
            let ws = split_words(norm.as_slice());
            first_short_number_exec(&ws)
        },
        None => None,
    }
}

/// The derived columns of `a`: the number in its street name, the number of
/// its Prague district (1 to 22), and, when it has an orientation number, the
/// keys `house_orientation` and `orientation_house`.
pub fn index_columns(a: &Adresa) -> (c: IndexColumns)
    ensures
        index_columns_match(c, *a),
{
    let street = name_number_exec(&a.nazev_ulice);
    let district = match name_number_exec(&a.nazev_obvodu_prahy) {
        Some(v) => if 1 <= v && v <= 22 {
            Some(v)
        } else {
            None
        },
        None => None,
    };
    let (dom_ori, ori_dom) = match a.cislo_orientacni {
        Some(o) => {
            let k1 = number_key_exec(a.cislo_domovni, o);
            let k2 = number_key_exec(o, a.cislo_domovni);
            (Some(string_from_chars(k1.as_slice())), Some(string_from_chars(k2.as_slice())))
        },
        None => (None, None),
    };
    IndexColumns {
        ulice_cislo: street,
        obvod_prahy_cislo: district,
        domovni_orientacni_klic: dom_ori,
        orientacni_domovni_klic: ori_dom,
    }
}

/// The keys of `x` with each of `ys` are among the keys of every pair.
proof fn lemma_cross_keys_contains(xs: Seq<i32>, ys: Seq<i32>, swapped: bool, i: int, j: int)
    requires
        0 <= i < xs.len(),
        0 <= j < ys.len(),
    ensures
        cross_keys(xs, ys, swapped).contains(
            if swapped {
                number_key(ys[j], xs[i])
            } else {
                number_key(xs[i], ys[j])
            },
        ),
    decreases xs.len(),
{
    let prev = cross_keys(xs.drop_last(), ys, swapped);
    let row = key_row(xs.last(), ys, swapped);
    let k = if swapped {
        number_key(ys[j], xs[i])
    } else {
        number_key(xs[i], ys[j])
    };
    if i == xs.len() - 1 {
        assert(row[j] == k);
        assert((prev + row)[prev.len() + j] == k);
    } else {
        lemma_cross_keys_contains(xs.drop_last(), ys, swapped, i, j);
        assert(xs.drop_last()[i] == xs[i]);
        let m = choose|m: int| 0 <= m < prev.len() && prev[m] == k;
        assert((prev + row)[m] == k);
    }
}

/// The exact-number branch finds the address by its keys: when its house and
/// orientation numbers are both among the number candidates, both of its keys
/// are among the keys that the branch compares with, and with a district number
/// among the candidates, that number is among the districts of the Prague
/// branch.
pub proof fn lemma_address_keys_are_asked(a: Adresa, c: IndexColumns, nc: Seq<i32>)
    requires
        index_columns_match(c, a),
        nc.contains(a.cislo_domovni),
        a.cislo_orientacni is Some,
        nc.contains(a.cislo_orientacni.unwrap()),
    ensures
        cross_keys(nc, nc, false).contains(opt_view(c.domovni_orientacni_klic).unwrap()),
        cross_keys(nc, nc, true).contains(opt_view(c.orientacni_domovni_klic).unwrap()),
{
    let o = a.cislo_orientacni.unwrap();
    let i = choose|i: int| 0 <= i < nc.len() && nc[i] == a.cislo_domovni;
    let j = choose|j: int| 0 <= j < nc.len() && nc[j] == o;
    lemma_cross_keys_contains(nc, nc, false, i, j);
    lemma_cross_keys_contains(nc, nc, true, i, j);
}

/// The Prague branch keeps every candidate that can be a district number.
pub proof fn lemma_district_is_asked(a: Adresa, c: IndexColumns, nc: Seq<i32>)
    requires
        index_columns_match(c, a),
        c.obvod_prahy_cislo is Some,
        nc.contains(c.obvod_prahy_cislo.unwrap()),
    ensures
        district_numbers(nc).contains(c.obvod_prahy_cislo.unwrap()),
    decreases nc.len(),
{
    let v = c.obvod_prahy_cislo.unwrap();
    assert(1 <= v <= 22);
    let p = nc.drop_last();
    if nc.last() == v {
        assert(district_numbers(nc) == district_numbers(p).push(v));
        assert(district_numbers(nc)[district_numbers(p).len() as int] == v);
    } else {
        let i = choose|i: int| 0 <= i < nc.len() && nc[i] == v;
        assert(p[i] == v);
        lemma_district_is_asked(a, c, p);
        let m = choose|m: int| 0 <= m < district_numbers(p).len() && district_numbers(p)[m] == v;
        if 1 <= nc.last() <= 22 {
            assert(district_numbers(nc)[m] == v);
        }
    }
}

/// The first short number of a list is the value of one of its number words
/// of one to four digits, and there is one whenever the list has such a word.
proof fn lemma_first_short_number(ts: Seq<Seq<char>>)
    ensures
        first_short_number(ts) matches Some(v) ==> exists|k: int|
            0 <= k < ts.len() && all_digits(#[trigger] ts[k]) && 1 <= ts[k].len() <= 4
                && digits_value(ts[k]) as i32 == v,
        (exists|k: int| 0 <= k < ts.len() && all_digits(#[trigger] ts[k]) && 1 <= ts[k].len() <= 4)
            ==> first_short_number(ts) is Some,
    decreases ts.len(),
{
    if ts.len() > 0 {
        let r = ts.drop_first();
        lemma_first_short_number(r);
        if !(is_number_token(ts[0]) && ts[0].len() <= 4) {
            if let Some(v) = first_short_number(r) {
                let k = choose|k: int|
                    0 <= k < r.len() && all_digits(#[trigger] r[k]) && 1 <= r[k].len() <= 4
                        && digits_value(r[k]) as i32 == v;
                assert(ts[k + 1] == r[k]);
            }
            if exists|k: int| 0 <= k < ts.len() && all_digits(#[trigger] ts[k]) && 1 <= ts[k].len() <= 4 {
                let k = choose|k: int| 0 <= k < ts.len() && all_digits(#[trigger] ts[k]) && 1 <= ts[k].len() <= 4;
                assert(k != 0);
                assert(r[k - 1] == ts[k]);
            }
        }
    }
}

/// What the derived columns hold: the number in the street name is the value
/// of a word of one to four digits of its normal form, and there is one
/// whenever such a word is there; the Prague district number lies in 1 to 22
/// and is the value of such a word of the district's name; the keys are the
/// house number, `_` and the orientation number, and the other way round,
/// exactly when there is an orientation number.
pub proof fn lemma_index_columns_values(a: Adresa, c: IndexColumns)
    requires
        index_columns_match(c, a),
    ensures
        a.nazev_ulice is Some ==> {
            let ws = words(normalize_spec(a.nazev_ulice.unwrap()@));
            &&& c.ulice_cislo matches Some(v) ==> exists|k: int|
                0 <= k < ws.len() && all_digits(#[trigger] ws[k]) && 1 <= ws[k].len() <= 4
                    && digits_value(ws[k]) as i32 == v
            &&& (exists|k: int| 0 <= k < ws.len() && all_digits(#[trigger] ws[k]) && 1 <= ws[k].len() <= 4)
                ==> c.ulice_cislo is Some
        },
        a.nazev_ulice is None ==> c.ulice_cislo is None,
        c.obvod_prahy_cislo matches Some(v) ==> 1 <= v <= 22 && a.nazev_obvodu_prahy is Some
            && exists|k: int|
            0 <= k < words(normalize_spec(a.nazev_obvodu_prahy.unwrap()@)).len() && all_digits(
                #[trigger] words(normalize_spec(a.nazev_obvodu_prahy.unwrap()@))[k],
            ) && digits_value(words(normalize_spec(a.nazev_obvodu_prahy.unwrap()@))[k]) as i32 == v,
        a.cislo_orientacni matches Some(o) ==> opt_view(c.domovni_orientacni_klic) == Some(
            decimal(a.cislo_domovni as int) + seq!['_'] + decimal(o as int),
        ) && opt_view(c.orientacni_domovni_klic) == Some(
            decimal(o as int) + seq!['_'] + decimal(a.cislo_domovni as int),
        ),
        a.cislo_orientacni is None ==> c.domovni_orientacni_klic is None
            && c.orientacni_domovni_klic is None,
{
    if let Some(u) = a.nazev_ulice {
        lemma_first_short_number(words(normalize_spec(u@)));
    }
    if let Some(o) = a.nazev_obvodu_prahy {
        lemma_first_short_number(words(normalize_spec(o@)));
    }
}

} // verus!
