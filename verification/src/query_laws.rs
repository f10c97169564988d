//! What each ranked branch of the search statement compares, stated over the
//! pieces of the statement: which column, and with exactly which numbers of
//! the plan.

use vstd::prelude::*;

use crate::numbers::pow10;
use crate::query::{
    branch, branches, cross_keys, district_numbers, house_conditions, in_list, int_list, join_pieces, text_list,
    pair_condition, pair_conditions, plain_branch, prefix_conditions, prefix_range,
    requires_full_text, has_number_conditions, PieceView,
};
use crate::plan::prefixes_well_formed;

verus! {

/// The integers bound in `ps`, in order.
pub open spec fn bound_ints(ps: Seq<PieceView>) -> Seq<i32>
    decreases ps.len(),
{
    if ps.len() == 0 {
        seq![]
    } else {
        bound_ints(ps.drop_last()) + match ps.last() {
            PieceView::Int(v) => seq![v],
            _ => seq![],
        }
    }
}

/// The filter of a branch: what stands between its `AND (` and its closing
/// `) LIMIT 20)`.
pub open spec fn branch_filter(b: Seq<PieceView>) -> Seq<PieceView> {
    b.subrange(7, b.len() - 1)
}

/// Every piece of `ps` is a bound integer or the separator `, `.
pub open spec fn is_value_list(ps: Seq<PieceView>) -> bool {
    forall|i: int| 0 <= i < ps.len() ==> (#[trigger] ps[i] is Int || ps[i] == PieceView::Sql(", "@))
}

/// `f` is the filter `open v1, v2, ...)`: the column test `open` over the
/// bound integers `vals`, and nothing else.
pub open spec fn is_in_filter(f: Seq<PieceView>, open: Seq<char>, vals: Seq<i32>) -> bool {
    &&& f.len() >= 2
    &&& f[0] == PieceView::Sql(open)
    &&& f.last() == PieceView::Sql(")"@)
    &&& is_value_list(f.subrange(1, f.len() - 1))
    &&& bound_ints(f) == vals
}

/// The integers of each part, one part after the other.
pub open spec fn ints_of_parts(parts: Seq<Seq<PieceView>>) -> Seq<i32>
    decreases parts.len(),
{
    if parts.len() == 0 {
        seq![]
    } else {
        ints_of_parts(parts.drop_last()) + bound_ints(parts.last())
    }
}

/// The integers of one piece.
proof fn lemma_bound_ints_one(p: PieceView)
    ensures
        bound_ints(seq![p]) == match p {
            PieceView::Int(v) => seq![v],
            _ => Seq::<i32>::empty(),
        },
{
    assert(seq![p].drop_last() =~= Seq::<PieceView>::empty());
    assert(bound_ints(Seq::<PieceView>::empty()) == Seq::<i32>::empty());
    assert(seq![p].last() == p);
}

proof fn lemma_bound_ints_concat(x: Seq<PieceView>, y: Seq<PieceView>)
    ensures
        bound_ints(x + y) == bound_ints(x) + bound_ints(y),
    decreases y.len(),
{
    if y.len() == 0 {
        assert(x + y == x);
    } else {
        lemma_bound_ints_concat(x, y.drop_last());
        assert((x + y).drop_last() == x + y.drop_last());
        assert((x + y).last() == y.last());
    }
}

proof fn lemma_join_ints(parts: Seq<Seq<PieceView>>, sep: Seq<PieceView>)
    requires
        bound_ints(sep) == Seq::<i32>::empty(),
    ensures
        bound_ints(join_pieces(parts, sep)) == ints_of_parts(parts),
    decreases parts.len(),
{
    if parts.len() == 1 {
        assert(ints_of_parts(parts.drop_last()) == Seq::<i32>::empty());
        assert(parts.last() == parts[0]);
    } else if parts.len() > 1 {
        let p = parts.drop_last();
        lemma_join_ints(p, sep);
        lemma_bound_ints_concat(join_pieces(p, sep), sep);
        lemma_bound_ints_concat(join_pieces(p, sep) + sep, parts.last());
    }
}

proof fn lemma_join_value_list(parts: Seq<Seq<PieceView>>)
    requires
        forall|k: int| 0 <= k < parts.len() ==> is_value_list(#[trigger] parts[k]),
    ensures
        is_value_list(join_pieces(parts, seq![PieceView::Sql(", "@)])),
    decreases parts.len(),
{
    if parts.len() > 1 {
        let p = parts.drop_last();
        assert forall|k: int| 0 <= k < p.len() implies is_value_list(#[trigger] p[k]) by {
            assert(p[k] == parts[k]);
        }
        lemma_join_value_list(p);
        let j = join_pieces(p, seq![PieceView::Sql(", "@)]);
        let l = parts.last();
        assert(is_value_list(parts[parts.len() - 1]));
        let r = j + seq![PieceView::Sql(", "@)] + l;
        assert forall|i: int| 0 <= i < r.len() implies (#[trigger] r[i] is Int || r[i]
            == PieceView::Sql(", "@)) by {
            if i < j.len() {
                assert(r[i] == j[i]);
            } else if i == j.len() {
            } else {
                assert(r[i] == l[i - j.len() - 1]);
            }
        }
    } else if parts.len() == 1 {
        assert(is_value_list(parts[0]));
    }
}

/// A list of integers binds exactly those integers, separated by `, `.
proof fn lemma_int_list(vals: Seq<i32>)
    ensures
        bound_ints(int_list(vals)) == vals,
        is_value_list(int_list(vals)),
{
    let parts = vals.map_values(|v: i32| seq![PieceView::Int(v)]);
    let sep = seq![PieceView::Sql(", "@)];
    lemma_bound_ints_one(PieceView::Sql(", "@));
    lemma_join_ints(parts, sep);
    lemma_ints_of_singletons(vals);
    assert forall|k: int| 0 <= k < parts.len() implies is_value_list(#[trigger] parts[k]) by {
        assert(parts[k] == seq![PieceView::Int(vals[k])]);
    }
    lemma_join_value_list(parts);
}

proof fn lemma_ints_of_singletons(vals: Seq<i32>)
    ensures
        ints_of_parts(vals.map_values(|v: i32| seq![PieceView::Int(v)])) == vals,
    decreases vals.len(),
{
    if vals.len() > 0 {
        let parts = vals.map_values(|v: i32| seq![PieceView::Int(v)]);
        lemma_ints_of_singletons(vals.drop_last());
        assert(parts.drop_last() == vals.drop_last().map_values(|v: i32| seq![PieceView::Int(v)]));
        let l = seq![PieceView::Int(vals.last())];
        assert(parts.last() == l);
        lemma_bound_ints_one(PieceView::Int(vals.last()));
        assert(vals.drop_last().push(vals.last()) == vals);
    }
}

/// `open` with a list of integers and a closing bracket is the filter that
/// tests the column with exactly those integers.
proof fn lemma_in_list(open: Seq<char>, vals: Seq<i32>)
    ensures
        is_in_filter(in_list(open, vals), open, vals),
{
    let f = in_list(open, vals);
    let a = seq![PieceView::Sql(open)];
    let c = seq![PieceView::Sql(")"@)];
    lemma_int_list(vals);
    lemma_bound_ints_concat(a, int_list(vals));
    lemma_bound_ints_concat(a + int_list(vals), c);
    lemma_bound_ints_one(PieceView::Sql(open));
    lemma_bound_ints_one(PieceView::Sql(")"@));
    assert(f.subrange(1, f.len() - 1) == int_list(vals));
}

/// A branch ranks with `priority`, requires the full-text query, and filters
/// with `filter`.
proof fn lemma_branch_parts(priority: Seq<char>, filter: Seq<PieceView>, fts: Seq<char>)
    ensures
        branch(priority, filter, fts)[1] == PieceView::Sql(priority),
        requires_full_text(branch(priority, filter, fts), fts),
        branch_filter(branch(priority, filter, fts)) == filter,
{
    let b = branch(priority, filter, fts);
    assert(b.subrange(7, b.len() - 1) == filter);
}

/// The branches, tier by tier: 500, 400, 300, 220, 210, 100.
proof fn lemma_tiers(
    fts: Seq<char>,
    has_praha: bool,
    nc: Seq<i32>,
    exact: Seq<i32>,
    prefixes: Seq<(i32, i32)>,
    pairs: Seq<(i32, i32)>,
) -> (t: (Seq<Seq<PieceView>>, Seq<Seq<PieceView>>, Seq<Seq<PieceView>>, Seq<Seq<PieceView>>, Seq<Seq<PieceView>>, Seq<Seq<PieceView>>))
    ensures
        branches(fts, has_praha, nc, exact, prefixes, pairs) == t.0 + t.1 + t.2 + t.3 + t.4 + t.5,
        t.0 == if nc.len() > 0 || pairs.len() > 0 {
            seq![branch("500"@, join_pieces(house_conditions(nc, pairs), seq![PieceView::Sql(" OR "@)]), fts)]
        } else {
            seq![]
        },
        t.1 == if nc.len() > 0 {
            seq![branch("400"@, in_list("a.ulice_cislo IN ("@, nc), fts)]
        } else {
            seq![]
        },
        t.2 == if has_praha && district_numbers(nc).len() > 0 {
            seq![branch("300"@, in_list("a.obvod_prahy_cislo IN ("@, district_numbers(nc)), fts)]
        } else {
            seq![]
        },
        t.3 == if exact.len() > 0 {
            seq![branch("220"@, in_list("a.psc IN ("@, exact), fts)]
        } else {
            seq![]
        },
        t.4 == if prefixes.len() > 0 {
            seq![branch("210"@, join_pieces(prefix_conditions(prefixes), seq![PieceView::Sql(" OR "@)]), fts)]
        } else {
            seq![]
        },
        t.5 == if has_number_conditions(nc, exact, prefixes, pairs) {
            seq![]
        } else {
            seq![plain_branch(fts)]
        },
{
    let b500 = if nc.len() > 0 || pairs.len() > 0 {
        seq![branch("500"@, join_pieces(house_conditions(nc, pairs), seq![PieceView::Sql(" OR "@)]), fts)]
    } else {
        seq![]
    };
    let b400 = if nc.len() > 0 {
        seq![branch("400"@, in_list("a.ulice_cislo IN ("@, nc), fts)]
    } else {
        seq![]
    };
    let b300 = if has_praha && district_numbers(nc).len() > 0 {
        seq![branch("300"@, in_list("a.obvod_prahy_cislo IN ("@, district_numbers(nc)), fts)]
    } else {
        seq![]
    };
    let b220 = if exact.len() > 0 {
        seq![branch("220"@, in_list("a.psc IN ("@, exact), fts)]
    } else {
        seq![]
    };
    let b210 = if prefixes.len() > 0 {
        seq![branch("210"@, join_pieces(prefix_conditions(prefixes), seq![PieceView::Sql(" OR "@)]), fts)]
    } else {
        seq![]
    };
    let b100 = if has_number_conditions(nc, exact, prefixes, pairs) {
        seq![]
    } else {
        seq![plain_branch(fts)]
    };
    (b500, b400, b300, b220, b210, b100)
}

/// Whenever the plan has exact postal codes, a branch ranked 220 that requires
/// the full-text query compares the postal-code column `a.psc` with exactly
/// those codes.
pub proof fn lemma_postal_code_branch(
    fts: Seq<char>,
    has_praha: bool,
    nc: Seq<i32>,
    exact: Seq<i32>,
    prefixes: Seq<(i32, i32)>,
    pairs: Seq<(i32, i32)>,
)
    requires
        exact.len() > 0,
    ensures
        exists|k: int|
            0 <= k < branches(fts, has_praha, nc, exact, prefixes, pairs).len() && {
                let b = #[trigger] branches(fts, has_praha, nc, exact, prefixes, pairs)[k];
                &&& b[1] == PieceView::Sql("220"@)
                &&& requires_full_text(b, fts)
                &&& is_in_filter(branch_filter(b), "a.psc IN ("@, exact)
            },
{
    let t = lemma_tiers(fts, has_praha, nc, exact, prefixes, pairs);
    let bs = branches(fts, has_praha, nc, exact, prefixes, pairs);
    let k: int = (t.0.len() + t.1.len() + t.2.len()) as int;
    assert(bs[k] == t.3[0]);
    lemma_branch_parts("220"@, in_list("a.psc IN ("@, exact), fts);
    lemma_in_list("a.psc IN ("@, exact);
}

/// Whenever the plan has house-number candidates, a branch ranked 400 that
/// requires the full-text query compares the street-name number column
/// `a.ulice_cislo` with exactly those candidates.
pub proof fn lemma_street_number_branch(
    fts: Seq<char>,
    has_praha: bool,
    nc: Seq<i32>,
    exact: Seq<i32>,
    prefixes: Seq<(i32, i32)>,
    pairs: Seq<(i32, i32)>,
)
    requires
        nc.len() > 0,
    ensures
        exists|k: int|
            0 <= k < branches(fts, has_praha, nc, exact, prefixes, pairs).len() && {
                let b = #[trigger] branches(fts, has_praha, nc, exact, prefixes, pairs)[k];
                &&& b[1] == PieceView::Sql("400"@)
                &&& requires_full_text(b, fts)
                &&& is_in_filter(branch_filter(b), "a.ulice_cislo IN ("@, nc)
            },
{
    let t = lemma_tiers(fts, has_praha, nc, exact, prefixes, pairs);
    let bs = branches(fts, has_praha, nc, exact, prefixes, pairs);
    let k: int = t.0.len() as int;
    assert(bs[k] == t.1[0]);
    lemma_branch_parts("400"@, in_list("a.ulice_cislo IN ("@, nc), fts);
    lemma_in_list("a.ulice_cislo IN ("@, nc);
}

/// The district numbers of the candidates are the candidates from 1 to 22.
proof fn lemma_district_numbers(nc: Seq<i32>, x: i32)
    ensures
        district_numbers(nc).contains(x) <==> (nc.contains(x) && 1 <= x <= 22),
    decreases nc.len(),
{
    if nc.len() > 0 {
        let p = nc.drop_last();
        lemma_district_numbers(p, x);
        let r = district_numbers(p);
        if nc.contains(x) && 1 <= x <= 22 {
            let i = choose|i: int| 0 <= i < nc.len() && nc[i] == x;
            if i < p.len() {
                assert(p[i] == x);
                let j = choose|j: int| 0 <= j < r.len() && r[j] == x;
                if 1 <= nc.last() <= 22 {
                    assert(r.push(nc.last())[j] == x);
                }
            } else {
                assert(r.push(nc.last())[r.len() as int] == x);
            }
        }
        if district_numbers(nc).contains(x) {
            let i = choose|i: int| 0 <= i < district_numbers(nc).len() && district_numbers(nc)[i] == x;
            if i < r.len() {
                assert(district_numbers(nc)[i] == r[i]);
                assert(r.contains(x));
                let j = choose|j: int| 0 <= j < p.len() && p[j] == x;
                assert(nc[j] == x);
            } else {
                assert(nc[nc.len() - 1] == x);
            }
        }
    }
}

/// Whenever the input names Praha and a candidate can be a district number
/// (1 to 22), a branch ranked 300 that requires the full-text query compares
/// the district column `a.obvod_prahy_cislo` with exactly the candidates from 1
/// to 22.
pub proof fn lemma_prague_district_branch(
    fts: Seq<char>,
    nc: Seq<i32>,
    exact: Seq<i32>,
    prefixes: Seq<(i32, i32)>,
    pairs: Seq<(i32, i32)>,
    d: i32,
)
    requires
        nc.contains(d),
        1 <= d <= 22,
    ensures
        exists|k: int|
            0 <= k < branches(fts, true, nc, exact, prefixes, pairs).len() && {
                let b = #[trigger] branches(fts, true, nc, exact, prefixes, pairs)[k];
                &&& b[1] == PieceView::Sql("300"@)
                &&& requires_full_text(b, fts)
                &&& b.len() >= 9
                &&& branch_filter(b)[0] == PieceView::Sql("a.obvod_prahy_cislo IN ("@)
                &&& branch_filter(b).last() == PieceView::Sql(")"@)
                &&& is_value_list(branch_filter(b).subrange(1, branch_filter(b).len() - 1))
                &&& forall|x: i32|
                    bound_ints(branch_filter(b)).contains(x) <==> (nc.contains(x) && 1 <= x <= 22)
            },
{
    let t = lemma_tiers(fts, true, nc, exact, prefixes, pairs);
    let bs = branches(fts, true, nc, exact, prefixes, pairs);
    lemma_district_numbers(nc, d);
    let ds = district_numbers(nc);
    assert(ds.len() > 0);
    let k: int = (t.0.len() + t.1.len()) as int;
    assert(bs[k] == t.2[0]);
    lemma_branch_parts("300"@, in_list("a.obvod_prahy_cislo IN ("@, ds), fts);
    lemma_in_list("a.obvod_prahy_cislo IN ("@, ds);
    assert forall|x: i32| bound_ints(branch_filter(bs[k])).contains(x) <==> (nc.contains(x) && 1 <= x
        <= 22) by {
        lemma_district_numbers(nc, x);
    }
}

/// The integers of two lists of parts, one after the other.
proof fn lemma_ints_of_parts_concat(x: Seq<Seq<PieceView>>, y: Seq<Seq<PieceView>>)
    ensures
        ints_of_parts(x + y) == ints_of_parts(x) + ints_of_parts(y),
    decreases y.len(),
{
    if y.len() == 0 {
        assert(x + y == x);
    } else {
        lemma_ints_of_parts_concat(x, y.drop_last());
        assert((x + y).drop_last() == x + y.drop_last());
        assert((x + y).last() == y.last());
    }
}

/// The integers of one part.
proof fn lemma_ints_of_parts_one(x: Seq<PieceView>)
    ensures
        ints_of_parts(seq![x]) == bound_ints(x),
{
    assert(seq![x].drop_last() =~= Seq::<Seq<PieceView>>::empty());
    assert(ints_of_parts(Seq::<Seq<PieceView>>::empty()) == Seq::<i32>::empty());
    assert(seq![x].last() == x);
    assert(Seq::<i32>::empty() + bound_ints(x) == bound_ints(x));
}

/// The first piece of a join is the first piece of its first part.
proof fn lemma_join_first(parts: Seq<Seq<PieceView>>, sep: Seq<PieceView>)
    requires
        parts.len() > 0,
        parts[0].len() > 0,
    ensures
        join_pieces(parts, sep).len() > 0,
        join_pieces(parts, sep)[0] == parts[0][0],
    decreases parts.len(),
{
    if parts.len() > 1 {
        let p = parts.drop_last();
        assert(p[0] == parts[0]);
        lemma_join_first(p, sep);
        let j = join_pieces(p, sep);
        assert((j + sep + parts.last())[0] == j[0]);
    }
}

/// The integers of four pieces.
proof fn lemma_bound_ints_four(a: PieceView, b: PieceView, c: PieceView, d: PieceView)
    ensures
        bound_ints(seq![a, b, c, d]) == bound_ints(seq![a]) + bound_ints(seq![b]) + bound_ints(
            seq![c],
        ) + bound_ints(seq![d]),
{
    assert(seq![a, b, c, d] == seq![a] + seq![b] + seq![c] + seq![d]);
    lemma_bound_ints_concat(seq![a], seq![b]);
    lemma_bound_ints_concat(seq![a] + seq![b], seq![c]);
    lemma_bound_ints_concat(seq![a] + seq![b] + seq![c], seq![d]);
}

/// The range of a well-formed prefix fits in an `i32`.
proof fn lemma_prefix_range_fits(v: i32, len: i32)
    requires
        2 <= len <= 4,
        0 <= v < pow10(len as nat),
    ensures
        0 <= prefix_range(v, len).0 <= prefix_range(v, len).1 < 100000,
{
    reveal_with_fuel(pow10, 6);
    let m = pow10((5 - len) as nat);
    assert(0 <= v * m && v * m + m - 1 < 100000) by (nonlinear_arith)
        requires
            (len == 2 && m == 1000 && 0 <= v < 100) || (len == 3 && m == 100 && 0 <= v < 1000)
                || (len == 4 && m == 10 && 0 <= v < 10000),
    ;
}

/// The integers bound by the prefix conditions: the low and the high end of
/// each prefix's range, prefix by prefix.
proof fn lemma_prefix_ints(ps: Seq<(i32, i32)>)
    requires
        prefixes_well_formed(ps),
    ensures
        ints_of_parts(prefix_conditions(ps)).len() == 2 * ps.len(),
        forall|i: int|
            0 <= i < ps.len() ==> {
                let m = pow10((5 - (#[trigger] ps[i]).1) as nat);
                &&& ints_of_parts(prefix_conditions(ps))[2 * i] == ps[i].0 * m
                &&& ints_of_parts(prefix_conditions(ps))[2 * i + 1] == ps[i].0 * m + m - 1
            },
    decreases ps.len(),
{
    if ps.len() > 0 {
        let p = ps.drop_last();
        assert forall|i: int| 0 <= i < p.len() implies 2 <= (#[trigger] p[i]).1 <= 4 && 0 <= p[i].0
            < pow10(p[i].1 as nat) by {
            assert(p[i] == ps[i]);
        }
        lemma_prefix_ints(p);
        let l = ps.last();
        assert(l == ps[ps.len() - 1]);
        lemma_prefix_range_fits(l.0, l.1);
        let (lo, hi) = prefix_range(l.0, l.1);
        let part = seq![
            PieceView::Sql("a.psc BETWEEN "@),
            PieceView::Int(lo as i32),
            PieceView::Sql(" AND "@),
            PieceView::Int(hi as i32),
        ];
        assert(prefix_conditions(ps) == prefix_conditions(p).push(part));
        assert(prefix_conditions(ps).drop_last() == prefix_conditions(p));
        lemma_bound_ints_four(part[0], part[1], part[2], part[3]);
        lemma_bound_ints_one(part[0]);
        lemma_bound_ints_one(part[1]);
        lemma_bound_ints_one(part[2]);
        lemma_bound_ints_one(part[3]);
        assert(part == seq![part[0], part[1], part[2], part[3]]);
        let prev = ints_of_parts(prefix_conditions(p));
        let all = ints_of_parts(prefix_conditions(ps));
        assert(all == prev + seq![lo as i32, hi as i32]);
        assert forall|i: int| 0 <= i < ps.len() implies {
            let m = pow10((5 - (#[trigger] ps[i]).1) as nat);
            &&& all[2 * i] == ps[i].0 * m
            &&& all[2 * i + 1] == ps[i].0 * m + m - 1
        } by {
            if i < p.len() {
                assert(p[i] == ps[i]);
                assert(all[2 * i] == prev[2 * i]);
                assert(all[2 * i + 1] == prev[2 * i + 1]);
            } else {
                assert(ps[i] == l);
            }
        }
    }
}

/// Whenever the plan has postal-code prefixes, a branch ranked 210 that
/// requires the full-text query tests postal codes (`a.psc BETWEEN`) against
/// the range of every prefix: it binds, prefix by prefix, the prefix followed
/// by zeros and the prefix followed by nines (`251` gives 25100 and 25199).
pub proof fn lemma_postal_prefix_branch(
    fts: Seq<char>,
    has_praha: bool,
    nc: Seq<i32>,
    exact: Seq<i32>,
    prefixes: Seq<(i32, i32)>,
    pairs: Seq<(i32, i32)>,
)
    requires
        prefixes.len() > 0,
        prefixes_well_formed(prefixes),
    ensures
        exists|k: int|
            0 <= k < branches(fts, has_praha, nc, exact, prefixes, pairs).len() && {
                let b = #[trigger] branches(fts, has_praha, nc, exact, prefixes, pairs)[k];
                let ints = bound_ints(branch_filter(b));
                &&& b[1] == PieceView::Sql("210"@)
                &&& requires_full_text(b, fts)
                &&& branch_filter(b).len() > 0
                &&& branch_filter(b)[0] == PieceView::Sql("a.psc BETWEEN "@)
                &&& ints.len() == 2 * prefixes.len()
                &&& forall|i: int|
                    0 <= i < prefixes.len() ==> {
                        let m = pow10((5 - (#[trigger] prefixes[i]).1) as nat);
                        &&& ints[2 * i] == prefixes[i].0 * m
                        &&& ints[2 * i + 1] == prefixes[i].0 * m + m - 1
                    }
            },
{
    let t = lemma_tiers(fts, has_praha, nc, exact, prefixes, pairs);
    let bs = branches(fts, has_praha, nc, exact, prefixes, pairs);
    let k: int = (t.0.len() + t.1.len() + t.2.len() + t.3.len()) as int;
    assert(bs[k] == t.4[0]);
    let sep = seq![PieceView::Sql(" OR "@)];
    let parts = prefix_conditions(prefixes);
    let f = join_pieces(parts, sep);
    lemma_branch_parts("210"@, f, fts);
    lemma_bound_ints_one(PieceView::Sql(" OR "@));
    lemma_join_ints(parts, sep);
    lemma_prefix_ints(prefixes);
    let q = prefixes.drop_last();
    assert(parts.len() > 0) by {
        assert(parts == prefix_conditions(q).push(parts.last()));
    }
    lemma_prefix_parts_start(prefixes);
    lemma_join_first(parts, sep);
}

/// Every prefix condition starts with `a.psc BETWEEN `.
proof fn lemma_prefix_parts_start(ps: Seq<(i32, i32)>)
    ensures
        prefix_conditions(ps).len() == ps.len(),
        forall|i: int|
            0 <= i < ps.len() ==> (#[trigger] prefix_conditions(ps)[i]).len() > 0
                && prefix_conditions(ps)[i][0] == PieceView::Sql("a.psc BETWEEN "@),
    decreases ps.len(),
{
    if ps.len() > 0 {
        lemma_prefix_parts_start(ps.drop_last());
        let prev = prefix_conditions(ps.drop_last());
        assert forall|i: int| 0 <= i < ps.len() implies (#[trigger] prefix_conditions(ps)[i]).len() > 0
            && prefix_conditions(ps)[i][0] == PieceView::Sql("a.psc BETWEEN "@) by {
            if i < prev.len() {
                assert(prefix_conditions(ps)[i] == prev[i]);
            }
        }
    }
}

/// The pieces at the start of a join are those of its first part.
proof fn lemma_join_prefix(parts: Seq<Seq<PieceView>>, sep: Seq<PieceView>, i: int)
    requires
        parts.len() > 0,
        0 <= i < parts[0].len(),
    ensures
        i < join_pieces(parts, sep).len(),
        join_pieces(parts, sep)[i] == parts[0][i],
    decreases parts.len(),
{
    if parts.len() > 1 {
        let p = parts.drop_last();
        assert(p[0] == parts[0]);
        lemma_join_prefix(p, sep, i);
        let j = join_pieces(p, sep);
        assert((j + sep + parts.last())[i] == j[i]);
    }
}

/// Strings bound to placeholders bind no integers.
proof fn lemma_text_list_ints(vals: Seq<Seq<char>>)
    ensures
        bound_ints(text_list(vals)) == Seq::<i32>::empty(),
{
    let parts = vals.map_values(|v: Seq<char>| seq![PieceView::Text(v)]);
    let sep = seq![PieceView::Sql(", "@)];
    lemma_bound_ints_one(PieceView::Sql(", "@));
    lemma_join_ints(parts, sep);
    lemma_text_parts_ints(vals);
}

proof fn lemma_text_parts_ints(vals: Seq<Seq<char>>)
    ensures
        ints_of_parts(vals.map_values(|v: Seq<char>| seq![PieceView::Text(v)])) == Seq::<i32>::empty(),
    decreases vals.len(),
{
    if vals.len() > 0 {
        let parts = vals.map_values(|v: Seq<char>| seq![PieceView::Text(v)]);
        lemma_text_parts_ints(vals.drop_last());
        assert(parts.drop_last() == vals.drop_last().map_values(|v: Seq<char>| seq![PieceView::Text(v)]));
        assert(parts.last() == seq![PieceView::Text(vals.last())]);
        lemma_bound_ints_one(PieceView::Text(vals.last()));
    }
}

/// The integers of `open`, a list of texts and a closing bracket: none.
proof fn lemma_key_condition_ints(open: Seq<char>, keys: Seq<Seq<char>>)
    ensures
        bound_ints(seq![PieceView::Sql(open)] + text_list(keys) + seq![PieceView::Sql(")"@)])
            == Seq::<i32>::empty(),
{
    lemma_text_list_ints(keys);
    lemma_bound_ints_one(PieceView::Sql(open));
    lemma_bound_ints_one(PieceView::Sql(")"@));
    lemma_bound_ints_concat(seq![PieceView::Sql(open)], text_list(keys));
    lemma_bound_ints_concat(seq![PieceView::Sql(open)] + text_list(keys), seq![PieceView::Sql(")"@)]);
}

/// The integers of the slash-pair conditions: for each pair `a/b`, `a, b` (as
/// house and orientation number) and `b, a` (swapped).
proof fn lemma_pair_ints(pairs: Seq<(i32, i32)>)
    ensures
        ints_of_parts(pair_conditions(pairs)).len() == 4 * pairs.len(),
        forall|j: int|
            0 <= j < pairs.len() ==> ints_of_parts(pair_conditions(pairs)).subrange(4 * j, 4 * j + 4)
                == seq![(#[trigger] pairs[j]).0, pairs[j].1, pairs[j].1, pairs[j].0],
    decreases pairs.len(),
{
    if pairs.len() > 0 {
        let p = pairs.drop_last();
        lemma_pair_ints(p);
        let l = pairs.last();
        let c1 = pair_condition(l.0, l.1);
        let c2 = pair_condition(l.1, l.0);
        let prev = pair_conditions(p);
        assert(pair_conditions(pairs) == prev + seq![c1, c2]);
        lemma_ints_of_parts_concat(prev, seq![c1, c2]);
        assert(seq![c1, c2] == seq![c1] + seq![c2]);
        lemma_ints_of_parts_concat(seq![c1], seq![c2]);
        lemma_ints_of_parts_one(c1);
        lemma_ints_of_parts_one(c2);
        assert(c1 == seq![c1[0], c1[1], c1[2], c1[3]] + seq![c1[4]]);
        assert(c2 == seq![c2[0], c2[1], c2[2], c2[3]] + seq![c2[4]]);
        lemma_bound_ints_four(c1[0], c1[1], c1[2], c1[3]);
        lemma_bound_ints_four(c2[0], c2[1], c2[2], c2[3]);
        lemma_bound_ints_concat(seq![c1[0], c1[1], c1[2], c1[3]], seq![c1[4]]);
        lemma_bound_ints_concat(seq![c2[0], c2[1], c2[2], c2[3]], seq![c2[4]]);
        lemma_bound_ints_one(c1[0]);
        lemma_bound_ints_one(c1[1]);
        lemma_bound_ints_one(c1[2]);
        lemma_bound_ints_one(c1[3]);
        lemma_bound_ints_one(c1[4]);
        lemma_bound_ints_one(c2[0]);
        lemma_bound_ints_one(c2[1]);
        lemma_bound_ints_one(c2[2]);
        lemma_bound_ints_one(c2[3]);
        lemma_bound_ints_one(c2[4]);
        assert(bound_ints(c1) == seq![l.0, l.1]);
        assert(bound_ints(c2) == seq![l.1, l.0]);
        let pi = ints_of_parts(prev);
        let all = ints_of_parts(pair_conditions(pairs));
        assert(ints_of_parts(seq![c1, c2]) == seq![l.0, l.1] + seq![l.1, l.0]);
        assert(all == pi + seq![l.0, l.1, l.1, l.0]);
        assert forall|j: int| 0 <= j < pairs.len() implies all.subrange(4 * j, 4 * j + 4) == seq![
            (#[trigger] pairs[j]).0,
            pairs[j].1,
            pairs[j].1,
            pairs[j].0,
        ] by {
            if j < p.len() {
                assert(p[j] == pairs[j]);
                assert(all.subrange(4 * j, 4 * j + 4) == pi.subrange(4 * j, 4 * j + 4));
            } else {
                assert(pairs[j] == l);
            }
        }
    }
}

/// Whenever the plan has house-number candidates or slash pairs, a branch
/// ranked 500 that requires the full-text query tests the house numbers: with
/// candidates, it starts `(a.cislo_domovni IN (` with the candidates, then
/// `) OR a.cislo_orientacni IN (` with the candidates again; and for every
/// slash pair `a/b` it binds `a, b` and then `b, a`, as house and orientation
/// number either way round. No other integer is bound.
pub proof fn lemma_house_number_branch(
    fts: Seq<char>,
    has_praha: bool,
    nc: Seq<i32>,
    exact: Seq<i32>,
    prefixes: Seq<(i32, i32)>,
    pairs: Seq<(i32, i32)>,
)
    requires
        nc.len() > 0 || pairs.len() > 0,
    ensures
        exists|k: int|
            0 <= k < branches(fts, has_praha, nc, exact, prefixes, pairs).len() && {
                let b = #[trigger] branches(fts, has_praha, nc, exact, prefixes, pairs)[k];
                let f = branch_filter(b);
                let ints = bound_ints(f);
                let off: int = if nc.len() > 0 {
                    (2 * nc.len()) as int
                } else {
                    0
                };
                &&& b[1] == PieceView::Sql("500"@)
                &&& requires_full_text(b, fts)
                &&& nc.len() > 0 ==> {
                    &&& f.len() > int_list(nc).len() + 1
                    &&& f[0] == PieceView::Sql("(a.cislo_domovni IN ("@)
                    &&& f[int_list(nc).len() + 1int] == PieceView::Sql(") OR a.cislo_orientacni IN ("@)
                    &&& ints.subrange(0, off) == nc + nc
                }
                &&& ints.len() == off + 4 * pairs.len()
                &&& forall|j: int|
                    0 <= j < pairs.len() ==> ints.subrange(off + 4 * j, off + 4 * j + 4) == seq![
                        (#[trigger] pairs[j]).0,
                        pairs[j].1,
                        pairs[j].1,
                        pairs[j].0,
                    ]
            },
{
    let t = lemma_tiers(fts, has_praha, nc, exact, prefixes, pairs);
    let bs = branches(fts, has_praha, nc, exact, prefixes, pairs);
    assert(bs[0] == t.0[0]);
    let sep = seq![PieceView::Sql(" OR "@)];
    let hc = house_conditions(nc, pairs);
    let f = join_pieces(hc, sep);
    lemma_branch_parts("500"@, f, fts);
    lemma_bound_ints_one(PieceView::Sql(" OR "@));
    lemma_join_ints(hc, sep);
    lemma_pair_ints(pairs);
    let off: int = if nc.len() > 0 {
        (2 * nc.len()) as int
    } else {
        0
    };
    let pc = pair_conditions(pairs);
    if nc.len() > 0 {
        let c1 = seq![PieceView::Sql("(a.cislo_domovni IN ("@)] + int_list(nc) + seq![
            PieceView::Sql(") OR a.cislo_orientacni IN ("@),
        ] + int_list(nc) + seq![PieceView::Sql("))"@)];
        let c2 = seq![PieceView::Sql("a.domovni_orientacni_klic IN ("@)] + text_list(
            cross_keys(nc, nc, false),
        ) + seq![PieceView::Sql(")"@)];
        let c3 = seq![PieceView::Sql("a.orientacni_domovni_klic IN ("@)] + text_list(
            cross_keys(nc, nc, true),
        ) + seq![PieceView::Sql(")"@)];
        let head = seq![c1, c2, c3];
        assert(hc == head + pc);
        lemma_int_list(nc);
        let a1 = seq![PieceView::Sql("(a.cislo_domovni IN ("@)];
        let a2 = seq![PieceView::Sql(") OR a.cislo_orientacni IN ("@)];
        let a3 = seq![PieceView::Sql("))"@)];
        lemma_bound_ints_one(a1[0]);
        lemma_bound_ints_one(a2[0]);
        lemma_bound_ints_one(a3[0]);
        lemma_bound_ints_concat(a1, int_list(nc));
        lemma_bound_ints_concat(a1 + int_list(nc), a2);
        lemma_bound_ints_concat(a1 + int_list(nc) + a2, int_list(nc));
        lemma_bound_ints_concat(a1 + int_list(nc) + a2 + int_list(nc), a3);
        assert(bound_ints(c1) == nc + nc);
        lemma_key_condition_ints("a.domovni_orientacni_klic IN ("@, cross_keys(nc, nc, false));
        lemma_key_condition_ints("a.orientacni_domovni_klic IN ("@, cross_keys(nc, nc, true));
        lemma_ints_of_parts_concat(head, pc);
        assert(head == seq![c1] + seq![c2] + seq![c3]);
        lemma_ints_of_parts_concat(seq![c1], seq![c2]);
        lemma_ints_of_parts_concat(seq![c1] + seq![c2], seq![c3]);
        lemma_ints_of_parts_one(c1);
        lemma_ints_of_parts_one(c2);
        lemma_ints_of_parts_one(c3);
        assert(ints_of_parts(head) == nc + nc);
        assert(hc[0] == c1);
        lemma_join_prefix(hc, sep, 0);
        lemma_join_prefix(hc, sep, int_list(nc).len() + 1int);
        assert(c1[0] == a1[0]);
        assert(c1[int_list(nc).len() + 1int] == a2[0]);
    } else {
        assert(hc == Seq::<Seq<PieceView>>::empty() + pc);
    }
    let ints = bound_ints(f);
    assert(ints.subrange(0, off) == ints_of_parts(hc).subrange(0, off));
    assert forall|j: int| 0 <= j < pairs.len() implies ints.subrange(off + 4 * j, off + 4 * j + 4)
        == seq![(#[trigger] pairs[j]).0, pairs[j].1, pairs[j].1, pairs[j].0] by {
        assert(ints.subrange(off + 4 * j, off + 4 * j + 4) == ints_of_parts(pc).subrange(
            4 * j,
            4 * j + 4,
        ));
    }
}

} // verus!
