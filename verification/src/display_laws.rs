//! What a result line and an address card show, stated over the fields of the
//! address.

use vstd::prelude::*;

use crate::address::{opt_view, Adresa};
use crate::display::{
    any_prefixed, card_location, district_part, has_prefix, location_parts, with_prague_district,
};
use crate::numbers::decimal;

verus! {

/// No two places of `parts` are the same.
pub open spec fn all_distinct(parts: Seq<Seq<char>>) -> bool {
    forall|i: int, j: int| 0 <= i < j < parts.len() ==> parts[i] != parts[j]
}

/// Adding a place that is not there yet keeps the places distinct.
proof fn lemma_push_new(parts: Seq<Seq<char>>, x: Seq<char>)
    requires
        all_distinct(parts),
        !parts.contains(x),
    ensures
        all_distinct(parts.push(x)),
{
    assert forall|i: int, j: int| 0 <= i < j < parts.push(x).len() implies parts.push(x)[i]
        != parts.push(x)[j] by {
        if j < parts.len() {
            assert(parts.push(x)[i] == parts[i] && parts.push(x)[j] == parts[j]);
        } else {
            assert(parts.push(x)[i] == parts[i]);
            if parts[i] == x {
                assert(parts.contains(x));
            }
        }
    }
}

/// The places listed in a result line are pairwise distinct: the Prague
/// district is added only when it is not already among them, and the
/// municipality only when no place listed begins with it. The Prague district
/// is listed whenever the address has one that is not the municipality.
pub proof fn lemma_result_places(a: Adresa)
    ensures
        all_distinct(location_parts(a)),
        opt_view(a.nazev_obvodu_prahy) matches Some(o) ==> o != a.nazev_obce@ ==> location_parts(
            a,
        ).contains(o),
{
    let p1 = district_part(a);
    assert(p1.len() <= 1);
    assert(all_distinct(p1));
    let p2 = with_prague_district(a, p1);
    if let Some(o) = opt_view(a.nazev_obvodu_prahy) {
        if o != a.nazev_obce@ && !p1.contains(o) {
            lemma_push_new(p1, o);
            assert(p2 == p1.push(o));
            assert(p2[p1.len() as int] == o);
        }
    }
    assert(all_distinct(p2));
    let obce = a.nazev_obce@;
    if location_parts(a) != p2 {
        assert(!any_prefixed(p2, obce));
        if p2.contains(obce) {
            let i = choose|i: int| 0 <= i < p2.len() && p2[i] == obce;
            assert(has_prefix(p2[i], obce)) by {
                assert(obce.subrange(0, obce.len() as int) == obce);
            }
        }
        lemma_push_new(p2, obce);
    }
    if let Some(o) = opt_view(a.nazev_obvodu_prahy) {
        if o != a.nazev_obce@ {
            assert(p2.contains(o));
            let i = choose|i: int| 0 <= i < p2.len() && p2[i] == o;
            assert(location_parts(a)[i] == o);
        }
    }
}

/// The place line of the card: the city district if the address has one,
/// else the part of the municipality, then `, `, the municipality, a space and
/// the postal code; without the first place when there is none or it is the
/// municipality itself.
pub proof fn lemma_card_location(a: Adresa)
    ensures
        ({
            let tail = a.nazev_obce@ + seq![' '] + decimal(a.psc as int);
            let place = if a.nazev_momc is Some {
                opt_view(a.nazev_momc)
            } else {
                opt_view(a.nazev_casti_obce)
            };
            card_location(a) == match place {
                Some(p) => if p != a.nazev_obce@ {
                    p + seq![',', ' '] + tail
                } else {
                    tail
                },
                None => tail,
            }
        }),
        a.nazev_momc is None && a.nazev_casti_obce is Some && a.nazev_casti_obce.unwrap()@
            != a.nazev_obce@ ==> card_location(a) == a.nazev_casti_obce.unwrap()@ + seq![',', ' ']
            + a.nazev_obce@ + seq![' '] + decimal(a.psc as int),
{
}

} // verus!
