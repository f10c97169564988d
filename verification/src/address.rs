//! An address point of the RÚIAN register, as far as the search and its
//! display read it.

use vstd::prelude::*;

use crate::chars::chars_of;

verus! {

/// An address point (adresní místo). Names are optional where a municipality
/// has no parts, no streets or no city districts.
#[derive(Debug, PartialEq, Eq)]
pub struct Adresa {
    pub kod_adm: i32,
    pub kod_obce: i32,
    pub nazev_obce: String,
    pub kod_momc: Option<i32>,
    pub nazev_momc: Option<String>,
    pub kod_obvodu_prahy: Option<i32>,
    pub nazev_obvodu_prahy: Option<String>,
    pub kod_casti_obce: Option<i32>,
    pub nazev_casti_obce: Option<String>,
    pub kod_ulice: Option<i32>,
    pub nazev_ulice: Option<String>,
    pub typ_so: String,
    pub cislo_domovni: i32,
    pub cislo_orientacni: Option<i32>,
    pub znak_cisla_orientacniho: Option<String>,
    pub psc: i32,
    pub search: String,
}

/// The characters of an optional string.
pub open spec fn opt_view(o: Option<String>) -> Option<Seq<char>> {
    match o {
        Some(s) => Some(s@),
        None => None,
    }
}

/// The characters of an optional string, or none at all.
pub open spec fn opt_or_empty(o: Option<String>) -> Seq<char> {
    match o {
        Some(s) => s@,
        None => seq![],
    }
}

/// The name shown as the street: the street, else the part of the
/// municipality, else the municipality.
pub open spec fn street_spec(a: Adresa) -> Seq<char> {
    match opt_view(a.nazev_ulice) {
        Some(s) => s,
        None => match opt_view(a.nazev_casti_obce) {
            Some(s) => s,
            None => a.nazev_obce@,
        },
    }
}

/// The city district, else the part of the municipality.
pub open spec fn district_spec(a: Adresa) -> Option<Seq<char>> {
    match opt_view(a.nazev_momc) {
        Some(s) => Some(s),
        None => opt_view(a.nazev_casti_obce),
    }
}

/// The characters of an optional string.
pub fn opt_chars(o: &Option<String>) -> (r: Option<Vec<char>>)
    ensures
        match r {
            Some(v) => opt_view(*o) == Some(v@),
            None => o.is_none(),
        },
{
    match o {
        Some(s) => Some(chars_of(s.as_str())),
        None => None,
    }
}

/// The name shown as the street.
pub fn street_chars(a: &Adresa) -> (r: Vec<char>)
    ensures
        r@ == street_spec(*a),
{
    match opt_chars(&a.nazev_ulice) {
        Some(v) => v,
        None => match opt_chars(&a.nazev_casti_obce) {
            Some(v) => v,
            None => chars_of(a.nazev_obce.as_str()),
        },
    }
}

/// The city district, else the part of the municipality.
pub fn district_chars(a: &Adresa) -> (r: Option<Vec<char>>)
    ensures
        match r {
            Some(v) => district_spec(*a) == Some(v@),
            None => district_spec(*a).is_none(),
        },
{
    match opt_chars(&a.nazev_momc) {
        Some(v) => Some(v),
        None => opt_chars(&a.nazev_casti_obce),
    }
}

} // verus!
