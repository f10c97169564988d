//! How an address is written: one line in the list of search results, and a
//! card for the selected address.

use vstd::prelude::*;

use crate::address::{
    district_chars, district_spec, opt_chars, opt_or_empty, opt_view, street_chars, street_spec,
    Adresa,
};
use crate::chars::{chars_of, string_from_chars};
use crate::numbers::{decimal, decimal_chars};
use crate::text::{append_chars, chars_equal, join, join_chars, starts_with, views};

verus! {

/// `p` is a prefix of `s`.
pub open spec fn has_prefix(s: Seq<char>, p: Seq<char>) -> bool {
    p.len() <= s.len() && s.subrange(0, p.len() as int) == p
}

/// The type of building `č.ev.` (a building with a registration number).
pub open spec fn evidence_type() -> Seq<char> {
    seq!['č', '.', 'e', 'v', '.']
}

/// The postal code as written on letters: five digits as `XXX XX`, anything
/// else as it is.
pub open spec fn psc_display(psc: int) -> Seq<char> {
    let d = decimal(psc);
    if d.len() == 5 {
        d.subrange(0, 3) + seq![' '] + d.subrange(3, 5)
    } else {
        d
    }
}

/// The house numbers of a result line: `č.ev. ` for registration numbers, the
/// house number, and `/` with the orientation number and its letter.
pub open spec fn result_numbers(a: Adresa) -> Seq<char> {
    let prefix = if a.typ_so@ == evidence_type() {
        evidence_type() + seq![' ']
    } else {
        seq![]
    };
    let orientation = match a.cislo_orientacni {
        Some(o) => seq!['/'] + decimal(o as int) + opt_or_empty(a.znak_cisla_orientacniho),
        None => seq![],
    };
    prefix + decimal(a.cislo_domovni as int) + orientation
}

/// Some element of `parts` begins with `p`.
pub open spec fn any_prefixed(parts: Seq<Seq<char>>, p: Seq<char>) -> bool {
    exists|i: int| 0 <= i < parts.len() && has_prefix(#[trigger] parts[i], p)
}

/// The district or part of the municipality, unless it repeats the street or
/// the municipality.
pub open spec fn district_part(a: Adresa) -> Seq<Seq<char>> {
    match district_spec(a) {
        Some(p) => if p != street_spec(a) && p != a.nazev_obce@ {
            seq![p]
        } else {
            seq![]
        },
        None => seq![],
    }
}

/// `parts` followed by the Prague district, unless it repeats the
/// municipality or is already there.
pub open spec fn with_prague_district(a: Adresa, parts: Seq<Seq<char>>) -> Seq<Seq<char>> {
    match opt_view(a.nazev_obvodu_prahy) {
        Some(o) => if o != a.nazev_obce@ && !parts.contains(o) {
            parts.push(o)
        } else {
            parts
        },
        None => parts,
    }
}

/// The places named after the street in a result line: the district or part
/// (unless it repeats the street or the municipality), the Prague district
/// (unless it repeats the municipality or the part), and the municipality
/// (unless it is the street, or a place already named begins with it).
pub open spec fn location_parts(a: Adresa) -> Seq<Seq<char>> {
    let p2 = with_prague_district(a, district_part(a));
    if street_spec(a) != a.nazev_obce@ && !any_prefixed(p2, a.nazev_obce@) {
        p2.push(a.nazev_obce@)
    } else {
        p2
    }
}

/// The line that lists `a` among the search results:
/// `street numbers, places postal-code`.
pub open spec fn search_result_line(a: Adresa) -> Seq<char> {
    let location = join(location_parts(a), seq![',', ' ']);
    let head = street_spec(a) + seq![' '] + result_numbers(a) + seq![',', ' '];
    if location.len() == 0 {
        head + psc_display(a.psc as int)
    } else {
        head + location + seq![' '] + psc_display(a.psc as int)
    }
}

/// Whether `parts` holds `x`.
fn contains_chars(parts: &Vec<Vec<char>>, x: &[char]) -> (b: bool)
    ensures
        b == views(parts@).contains(x@),
{
    let n = parts.len();
    for i in 0..n
        invariant
            n == parts@.len(),
            forall|j: int| 0 <= j < i ==> views(parts@)[j] != x@,
    {
        if chars_equal(parts[i].as_slice(), x) {
            assert(views(parts@)[i as int] == x@);
            return true;
        }
    }
    false
}

/// Whether some element of `parts` begins with `prefix`.
fn any_has_prefix(parts: &Vec<Vec<char>>, prefix: &[char]) -> (b: bool)
    ensures
        b == any_prefixed(views(parts@), prefix@),
{
    let n = parts.len();
    for i in 0..n
        invariant
            n == parts@.len(),
            forall|j: int| 0 <= j < i ==> !has_prefix(#[trigger] views(parts@)[j], prefix@),
    {
        if starts_with(parts[i].as_slice(), prefix) {
            assert(has_prefix(views(parts@)[i as int], prefix@));
            return true;
        }
    }
    false
}

/// The postal code as written on letters.
pub fn psc_display_chars(psc: i32) -> (r: Vec<char>)
    ensures
        r@ == psc_display(psc as int),
{
    let d = decimal_chars(psc);
    if d.len() == 5 {
        let mut r: Vec<char> = Vec::new();
        r.push(d[0]);
        r.push(d[1]);
        r.push(d[2]);
        r.push(' ');
        r.push(d[3]);
        r.push(d[4]);
        assert(r@ == d@.subrange(0, 3) + seq![' '] + d@.subrange(3, 5));
        r
    } else {
        d
    }
}

/// The house numbers of a result line.
fn result_numbers_chars(a: &Adresa) -> (r: Vec<char>)
    ensures
        r@ == result_numbers(*a),
{
    let evidence = vec!['č', '.', 'e', 'v', '.'];
    let mut r: Vec<char> = Vec::new();
    if chars_equal(chars_of(a.typ_so.as_str()).as_slice(), evidence.as_slice()) {
        append_chars(&mut r, evidence.as_slice());
        r.push(' ');
    }
    append_chars(&mut r, decimal_chars(a.cislo_domovni).as_slice());
    match a.cislo_orientacni {
        Some(o) => {
            r.push('/');
            append_chars(&mut r, decimal_chars(o).as_slice());
            match opt_chars(&a.znak_cisla_orientacniho) {
                Some(z) => append_chars(&mut r, z.as_slice()),
                None => {},
            }
        },
        None => {},
    }
    r
}

/// The places named after the street in a result line.
fn location_parts_chars(a: &Adresa) -> (r: Vec<Vec<char>>)
    ensures
        views(r@) == location_parts(*a),
{
    let street = street_chars(a);
    let obce = chars_of(a.nazev_obce.as_str());
    let mut parts: Vec<Vec<char>> = Vec::new();
    match district_chars(a) {
        Some(p) => {
            if !chars_equal(p.as_slice(), street.as_slice()) && !chars_equal(
                p.as_slice(),
                obce.as_slice(),
            ) {
                parts.push(p);
            }
        },
        None => {},
    }
    let ghost p1 = views(parts@);
    assert(p1 == district_part(*a));
    match opt_chars(&a.nazev_obvodu_prahy) {
        Some(o) => {
            if !chars_equal(o.as_slice(), obce.as_slice()) && !contains_chars(&parts, o.as_slice()) {
                parts.push(o);
                assert(views(parts@) == p1.push(o@));
            }
        },
        None => {},
    }
    assert(views(parts@) == with_prague_district(*a, p1));
    if !chars_equal(street.as_slice(), obce.as_slice()) {
        if !any_has_prefix(&parts, obce.as_slice()) {
            let ghost p2 = views(parts@);
            parts.push(obce);
            assert(views(parts@) == p2.push(a.nazev_obce@));
        }
    }
    parts
}

/// The line that lists `a` among the search results, e.g.
/// `Roztylská 1860/1, Praha 11, Praha 4 148 00`.
pub fn format_search_result(a: &Adresa) -> (r: String)
    ensures
        r@ == search_result_line(*a),
{
    let parts = location_parts_chars(a);
    let location = join_chars(&parts, vec![',', ' '].as_slice());
    let mut line = street_chars(a);
    line.push(' ');
    append_chars(&mut line, result_numbers_chars(a).as_slice());
    line.push(',');
    line.push(' ');
    if location.len() > 0 {
        append_chars(&mut line, location.as_slice());
        line.push(' ');
    }
    append_chars(&mut line, psc_display_chars(a.psc).as_slice());
    string_from_chars(line.as_slice())
}

/// The card that shows the selected address.
#[derive(Debug, PartialEq, Eq)]
pub struct AddressCard {
    /// The street and the house numbers.
    pub heading: String,
    /// The district or part, the municipality and the postal code.
    pub location: String,
    /// The postal code.
    pub postal_code: String,
}

/// The house numbers on the card: the house number and `/` with the
/// orientation number.
pub open spec fn card_numbers(a: Adresa) -> Seq<char> {
    decimal(a.cislo_domovni as int) + match a.cislo_orientacni {
        Some(o) => seq!['/'] + decimal(o as int),
        None => seq![],
    }
}

/// The place line of the card: `district, municipality postal-code`, without
/// the district when there is none or it is the municipality itself.
pub open spec fn card_location(a: Adresa) -> Seq<char> {
    let tail = a.nazev_obce@ + seq![' '] + decimal(a.psc as int);
    match district_spec(a) {
        Some(p) => if p != a.nazev_obce@ {
            p + seq![',', ' '] + tail
        } else {
            tail
        },
        None => tail,
    }
}

/// The card for `a`, or none when no address is selected (`kod_adm` is 0).
pub fn address_card(a: &Adresa) -> (r: Option<AddressCard>)
    ensures
        r.is_none() <==> a.kod_adm == 0,
        r matches Some(c) ==> {
            &&& c.heading@ == street_spec(*a) + seq![' '] + card_numbers(*a)
            &&& c.location@ == card_location(*a)
            &&& c.postal_code@ == decimal(a.psc as int)
        },
{
    if a.kod_adm == 0 {
        return None;
    }
    let mut heading = street_chars(a);
    heading.push(' ');
    append_chars(&mut heading, decimal_chars(a.cislo_domovni).as_slice());
    match a.cislo_orientacni {
        Some(o) => {
            heading.push('/');
            append_chars(&mut heading, decimal_chars(o).as_slice());
        },
        None => {},
    }
    let psc = decimal_chars(a.psc);
    let obce = chars_of(a.nazev_obce.as_str());
    let mut location: Vec<char> = Vec::new();
    match district_chars(a) {
        Some(p) => {
            if !chars_equal(p.as_slice(), obce.as_slice()) {
                append_chars(&mut location, p.as_slice());
                location.push(',');
                location.push(' ');
            }
        },
        None => {},
    }
    append_chars(&mut location, obce.as_slice());
    location.push(' ');
    append_chars(&mut location, psc.as_slice());
    Some(
        AddressCard {
            heading: string_from_chars(heading.as_slice()),
            location: string_from_chars(location.as_slice()),
            postal_code: string_from_chars(psc.as_slice()),
        },
    )
}

} // verus!
