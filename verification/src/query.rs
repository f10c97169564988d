//! The SQL statement of the search: one branch per kind of match, each
//! requiring the full-text query and ranked by priority; the union keeps each
//! address once, at its best rank, ordered by rank and full-text score.

use vstd::prelude::*;

use crate::chars::string_from_chars;
use crate::numbers::{decimal, decimal_chars, pow10};
use crate::plan::{prefixes_well_formed, string_views, SearchPlan};
use crate::text::{append_chars, chars_equal, views};

verus! {

/// A piece of the SQL statement: text, or a value bound to a placeholder.
#[derive(Debug, PartialEq, Eq)]
pub enum QueryPiece {
    /// SQL text.
    Sql(String),
    /// A string bound to a placeholder.
    Text(String),
    /// An integer bound to a placeholder.
    Int(i32),
}

/// What a piece of the statement holds.
pub enum PieceView {
    Sql(Seq<char>),
    Text(Seq<char>),
    Int(i32),
}

/// What `p` holds.
pub open spec fn piece_view(p: QueryPiece) -> PieceView {
    match p {
        QueryPiece::Sql(s) => PieceView::Sql(s@),
        QueryPiece::Text(s) => PieceView::Text(s@),
        QueryPiece::Int(v) => PieceView::Int(v),
    }
}

/// What the pieces `v` hold.
pub open spec fn pieces_view(v: Seq<QueryPiece>) -> Seq<PieceView> {
    v.map_values(|p: QueryPiece| piece_view(p))
}

/// `parts` joined with `sep` between each two neighbours.
pub open spec fn join_pieces(parts: Seq<Seq<PieceView>>, sep: Seq<PieceView>) -> Seq<PieceView>
    decreases parts.len(),
{
    if parts.len() == 0 {
        seq![]
    } else if parts.len() == 1 {
        parts[0]
    } else {
        join_pieces(parts.drop_last(), sep) + sep + parts.last()
    }
}

/// Integers bound to placeholders separated by `, `.
pub open spec fn int_list(vals: Seq<i32>) -> Seq<PieceView> {
    join_pieces(vals.map_values(|v: i32| seq![PieceView::Int(v)]), seq![PieceView::Sql(", "@)])
}

/// Strings bound to placeholders separated by `, `.
pub open spec fn text_list(vals: Seq<Seq<char>>) -> Seq<PieceView> {
    join_pieces(
        vals.map_values(|v: Seq<char>| seq![PieceView::Text(v)]),
        seq![PieceView::Sql(", "@)],
    )
}

/// `open` followed by the integers and a closing bracket.
pub open spec fn in_list(open: Seq<char>, vals: Seq<i32>) -> Seq<PieceView> {
    seq![PieceView::Sql(open)] + int_list(vals) + seq![PieceView::Sql(")"@)]
}

/// The key of a house and an orientation number: `house_orientation`.
pub open spec fn number_key(a: i32, b: i32) -> Seq<char> {
    decimal(a as int) + seq!['_'] + decimal(b as int)
}

/// The keys of `x` with every element of `ys`, `x_y` or, swapped, `y_x`.
pub open spec fn key_row(x: i32, ys: Seq<i32>, swapped: bool) -> Seq<Seq<char>> {
    ys.map_values(|y: i32| if swapped { number_key(y, x) } else { number_key(x, y) })
}

/// The keys of every pair of `xs` and `ys`, row by row.
pub open spec fn cross_keys(xs: Seq<i32>, ys: Seq<i32>, swapped: bool) -> Seq<Seq<char>>
    decreases xs.len(),
{
    if xs.len() == 0 {
        seq![]
    } else {
        cross_keys(xs.drop_last(), ys, swapped) + key_row(xs.last(), ys, swapped)
    }
}

/// House number `a` and orientation number `b`.
pub open spec fn pair_condition(a: i32, b: i32) -> Seq<PieceView> {
    seq![
        PieceView::Sql("(a.cislo_domovni = "@),
        PieceView::Int(a),
        PieceView::Sql(" AND a.cislo_orientacni = "@),
        PieceView::Int(b),
        PieceView::Sql(")"@),
    ]
}

/// Every slash pair, as written and swapped.
pub open spec fn pair_conditions(pairs: Seq<(i32, i32)>) -> Seq<Seq<PieceView>>
    decreases pairs.len(),
{
    if pairs.len() == 0 {
        seq![]
    } else {
        pair_conditions(pairs.drop_last()) + seq![
            pair_condition(pairs.last().0, pairs.last().1),
            pair_condition(pairs.last().1, pairs.last().0),
        ]
    }
}

/// The conditions of an exact house-number match: a candidate as house or
/// orientation number, a pair of candidates as house and orientation number
/// either way round, and each slash pair either way round.
pub open spec fn house_conditions(nc: Seq<i32>, pairs: Seq<(i32, i32)>) -> Seq<Seq<PieceView>> {
    (if nc.len() > 0 {
        seq![
            seq![PieceView::Sql("(a.cislo_domovni IN ("@)] + int_list(nc) + seq![
                PieceView::Sql(") OR a.cislo_orientacni IN ("@),
            ] + int_list(nc) + seq![PieceView::Sql("))"@)],
            seq![PieceView::Sql("a.domovni_orientacni_klic IN ("@)] + text_list(
                cross_keys(nc, nc, false),
            ) + seq![PieceView::Sql(")"@)],
            seq![PieceView::Sql("a.orientacni_domovni_klic IN ("@)] + text_list(
                cross_keys(nc, nc, true),
            ) + seq![PieceView::Sql(")"@)],
        ]
    } else {
        seq![]
    }) + pair_conditions(pairs)
}

/// The range of postal codes that a prefix of `len` digits stands for:
/// `25` is 25000 to 25999, `251` is 25100 to 25199, `2510` is 25100 to 25109.
pub open spec fn prefix_range(v: i32, len: i32) -> (int, int) {
    let m = pow10((5 - len) as nat);
    (v * m, v * m + m - 1)
}

/// The range of a prefix holds exactly the postal codes that start with it:
/// those whose first digits, read as a number, are the prefix.
pub proof fn lemma_prefix_range_is_prefix(v: i32, len: i32, psc: int)
    requires
        2 <= len <= 4,
        0 <= v,
        0 <= psc,
    ensures
        (prefix_range(v, len).0 <= psc <= prefix_range(v, len).1) <==> psc / pow10(
            (5 - len) as nat,
        ) == v,
{
    reveal_with_fuel(pow10, 4);
    let m = pow10((5 - len) as nat);
    assert(m > 0);
    vstd::arithmetic::div_mod::lemma_fundamental_div_mod(psc, m);
    let q = psc / m;
    let r = psc % m;
    assert(0 <= r < m);
    if v * m <= psc <= v * m + m - 1 {
        vstd::arithmetic::div_mod::lemma_fundamental_div_mod_converse(psc, m, v as int, psc - v * m);
    }
    if q == v {
        assert(psc == m * v + r);
        assert(m * v == v * m) by (nonlinear_arith);
    }
}

/// The postal code within the range of each prefix.
pub open spec fn prefix_conditions(ps: Seq<(i32, i32)>) -> Seq<Seq<PieceView>>
    decreases ps.len(),
{
    if ps.len() == 0 {
        seq![]
    } else {
        let (lo, hi) = prefix_range(ps.last().0, ps.last().1);
        prefix_conditions(ps.drop_last()).push(
            seq![
                PieceView::Sql("a.psc BETWEEN "@),
                PieceView::Int(lo as i32),
                PieceView::Sql(" AND "@),
                PieceView::Int(hi as i32),
            ],
        )
    }
}

/// The candidates that can be the number of a Prague district, 1 to 22.
pub open spec fn district_numbers(nc: Seq<i32>) -> Seq<i32>
    decreases nc.len(),
{
    if nc.len() == 0 {
        seq![]
    } else {
        let r = district_numbers(nc.drop_last());
        if 1 <= nc.last() <= 22 {
            r.push(nc.last())
        } else {
            r
        }
    }
}

/// The text word `praha`.
pub open spec fn praha() -> Seq<char> {
    seq!['p', 'r', 'a', 'h', 'a']
}

/// The columns of an address, as the statement returns them.
pub open spec fn columns_sql() -> Seq<char> {
    "kod_adm, kod_obce, nazev_obce, kod_momc, nazev_momc, kod_obvodu_prahy, nazev_obvodu_prahy, kod_casti_obce, nazev_casti_obce, kod_ulice, nazev_ulice, typ_so, cislo_domovni, cislo_orientacni, znak_cisla_orientacniho, psc, souradnice_y, souradnice_x, plati_od, search"@
}

/// One branch: the addresses that match the full-text query and `filter`,
/// with the rank `priority` and their full-text score, at most 20.
pub open spec fn branch(priority: Seq<char>, filter: Seq<PieceView>, fts: Seq<char>) -> Seq<PieceView> {
    seq![
        PieceView::Sql("(SELECT a.*, "@),
        PieceView::Sql(priority),
        PieceView::Sql(" AS priority, MATCH(a.search) AGAINST("@),
        PieceView::Text(fts),
        PieceView::Sql(" IN BOOLEAN MODE) AS fts_score FROM adresa a WHERE MATCH(a.search) AGAINST("@),
        PieceView::Text(fts),
        PieceView::Sql(" IN BOOLEAN MODE) AND ("@),
    ] + filter + seq![PieceView::Sql(") LIMIT 20)"@)]
}

/// The input gives a number to look for: a house-number candidate, a postal
/// code, a postal-code prefix or a slash pair.
pub open spec fn has_number_conditions(
    nc: Seq<i32>,
    exact: Seq<i32>,
    prefixes: Seq<(i32, i32)>,
    pairs: Seq<(i32, i32)>,
) -> bool {
    nc.len() > 0 || exact.len() > 0 || prefixes.len() > 0 || pairs.len() > 0
}

/// The branch of the plain full-text match, at the lowest rank.
pub open spec fn plain_branch(fts: Seq<char>) -> Seq<PieceView> {
    branch("100"@, seq![PieceView::Sql("1=1"@)], fts)
}

/// The branches of the search, from the highest rank down: an exact house or
/// orientation number or slash pair (500), a number in the street name (400),
/// a Prague district when the input names Praha (300), an exact postal code
/// (220), a postal-code prefix (210). A branch is left out when the input gives
/// it nothing to match. The plain full-text match (100) is there only when the
/// input gives no number at all: numbers that no address has find nothing.
pub open spec fn branches(
    fts: Seq<char>,
    has_praha: bool,
    nc: Seq<i32>,
    exact: Seq<i32>,
    prefixes: Seq<(i32, i32)>,
    pairs: Seq<(i32, i32)>,
) -> Seq<Seq<PieceView>> {
    let b500 = if nc.len() > 0 || pairs.len() > 0 {
        seq![branch("500"@, join_pieces(house_conditions(nc, pairs), seq![PieceView::Sql(" OR "@)]), fts)]
    } else {
        seq![]
    };
    let b400 = if nc.len() > 0 {
        seq![branch("400"@, in_list("a.ulice_cislo IN ("@, nc), fts)]
    } else {
        seq![]
    };
    let b300 = if has_praha && district_numbers(nc).len() > 0 {
        seq![branch("300"@, in_list("a.obvod_prahy_cislo IN ("@, district_numbers(nc)), fts)]
    } else {
        seq![]
    };
    let b220 = if exact.len() > 0 {
        seq![branch("220"@, in_list("a.psc IN ("@, exact), fts)]
    } else {
        seq![]
    };
    let b210 = if prefixes.len() > 0 {
        seq![branch("210"@, join_pieces(prefix_conditions(prefixes), seq![PieceView::Sql(" OR "@)]), fts)]
    } else {
        seq![]
    };
    let b100 = if has_number_conditions(nc, exact, prefixes, pairs) {
        seq![]
    } else {
        seq![plain_branch(fts)]
    };
    b500 + b400 + b300 + b220 + b210 + b100
}

/// `b` is a branch whose rows must match the full-text query `fts`: its
/// `WHERE` clause is `MATCH(a.search) AGAINST(fts IN BOOLEAN MODE) AND (...)`.
pub open spec fn requires_full_text(b: Seq<PieceView>, fts: Seq<char>) -> bool {
    &&& b.len() >= 8
    &&& b[4] == PieceView::Sql(
        " IN BOOLEAN MODE) AS fts_score FROM adresa a WHERE MATCH(a.search) AGAINST("@,
    )
    &&& b[5] == PieceView::Text(fts)
    &&& b[6] == PieceView::Sql(" IN BOOLEAN MODE) AND ("@)
}

/// Each part of two lists of branches that require the full-text query.
proof fn lemma_all_require_concat(x: Seq<Seq<PieceView>>, y: Seq<Seq<PieceView>>, fts: Seq<char>)
    requires
        forall|k: int| 0 <= k < x.len() ==> requires_full_text(#[trigger] x[k], fts),
        forall|k: int| 0 <= k < y.len() ==> requires_full_text(#[trigger] y[k], fts),
    ensures
        forall|k: int| 0 <= k < (x + y).len() ==> requires_full_text(#[trigger] (x + y)[k], fts),
{
    assert forall|k: int| 0 <= k < (x + y).len() implies requires_full_text(#[trigger] (x + y)[k], fts) by {
        if k < x.len() {
            assert((x + y)[k] == x[k]);
        } else {
            assert((x + y)[k] == y[k - x.len()]);
        }
    }
}

/// The full-text query is required in every branch, and there is at least
/// one branch. When the input gives a number, every branch filters by it (by
/// house, street, district or postal code) and the plain full-text match is
/// left out, so an input whose numbers no address has finds nothing; when it
/// gives none, the plain full-text match is the only branch.
pub proof fn lemma_every_branch_requires_full_text(
    fts: Seq<char>,
    has_praha: bool,
    nc: Seq<i32>,
    exact: Seq<i32>,
    prefixes: Seq<(i32, i32)>,
    pairs: Seq<(i32, i32)>,
)
    ensures
        ({
            let bs = branches(fts, has_praha, nc, exact, prefixes, pairs);
            &&& forall|k: int| 0 <= k < bs.len() ==> requires_full_text(#[trigger] bs[k], fts)
            &&& bs.len() >= 1
            &&& has_number_conditions(nc, exact, prefixes, pairs) ==> forall|k: int|
                0 <= k < bs.len() ==> (#[trigger] bs[k])[1] != PieceView::Sql("100"@) && bs[k]
                    != plain_branch(fts)
            &&& !has_number_conditions(nc, exact, prefixes, pairs) ==> bs == seq![plain_branch(fts)]
        }),
{
    let bs = branches(fts, has_praha, nc, exact, prefixes, pairs);
    let b500 = if nc.len() > 0 || pairs.len() > 0 {
        seq![branch("500"@, join_pieces(house_conditions(nc, pairs), seq![PieceView::Sql(" OR "@)]), fts)]
    } else {
        seq![]
    };
    let b400 = if nc.len() > 0 {
        seq![branch("400"@, in_list("a.ulice_cislo IN ("@, nc), fts)]
    } else {
        seq![]
    };
    let b300 = if has_praha && district_numbers(nc).len() > 0 {
        seq![branch("300"@, in_list("a.obvod_prahy_cislo IN ("@, district_numbers(nc)), fts)]
    } else {
        seq![]
    };
    let b220 = if exact.len() > 0 {
        seq![branch("220"@, in_list("a.psc IN ("@, exact), fts)]
    } else {
        seq![]
    };
    let b210 = if prefixes.len() > 0 {
        seq![branch("210"@, join_pieces(prefix_conditions(prefixes), seq![PieceView::Sql(" OR "@)]), fts)]
    } else {
        seq![]
    };
    let b100 = if has_number_conditions(nc, exact, prefixes, pairs) {
        seq![]
    } else {
        seq![plain_branch(fts)]
    };
    assert(bs == b500 + b400 + b300 + b220 + b210 + b100);
    lemma_all_require_concat(b500, b400, fts);
    lemma_all_require_concat(b500 + b400, b300, fts);
    lemma_all_require_concat(b500 + b400 + b300, b220, fts);
    lemma_all_require_concat(b500 + b400 + b300 + b220, b210, fts);
    lemma_all_require_concat(b500 + b400 + b300 + b220 + b210, b100, fts);
    reveal_strlit("100");
    reveal_strlit("500");
    reveal_strlit("400");
    reveal_strlit("300");
    reveal_strlit("220");
    reveal_strlit("210");
    assert("100"@[0] == '1' && "100"@[1] == '0');
    assert("500"@[0] == '5' && "400"@[0] == '4' && "300"@[0] == '3');
    assert("220"@[0] == '2' && "210"@[0] == '2' && "220"@[1] == '2' && "210"@[1] == '1');
    assert("100"@ != "500"@ && "100"@ != "400"@ && "100"@ != "300"@);
    assert("100"@ != "220"@ && "100"@ != "210"@);
    if has_number_conditions(nc, exact, prefixes, pairs) {
        let x = b500 + b400 + b300 + b220 + b210;
        assert(bs == x);
        assert forall|k: int| 0 <= k < bs.len() implies (#[trigger] bs[k])[1] != PieceView::Sql("100"@)
            && bs[k] != plain_branch(fts) by {
            assert(plain_branch(fts)[1] == PieceView::Sql("100"@));
            assert(bs[k][1] == PieceView::Sql("500"@) || bs[k][1] == PieceView::Sql("400"@)
                || bs[k][1] == PieceView::Sql("300"@) || bs[k][1] == PieceView::Sql("220"@)
                || bs[k][1] == PieceView::Sql("210"@));
        }
    } else {
        assert(b500.len() == 0 && b400.len() == 0 && b300.len() == 0 && b220.len() == 0 && b210.len() == 0);
        assert(bs =~= seq![plain_branch(fts)]);
    }
}

/// The statement: the union of the branches; of each address only its best
/// row (highest rank, then highest score); ordered by rank and score; at most
/// 20.
pub open spec fn search_query_spec(
    fts: Seq<char>,
    has_praha: bool,
    nc: Seq<i32>,
    exact: Seq<i32>,
    prefixes: Seq<(i32, i32)>,
    pairs: Seq<(i32, i32)>,
) -> Seq<PieceView> {
    seq![
        PieceView::Sql("SELECT "@),
        PieceView::Sql(columns_sql()),
        PieceView::Sql(" FROM (SELECT ranked.*, ROW_NUMBER() OVER (PARTITION BY ranked.kod_adm ORDER BY ranked.priority DESC, ranked.fts_score DESC) AS rn FROM ("@),
    ] + join_pieces(
        branches(fts, has_praha, nc, exact, prefixes, pairs),
        seq![PieceView::Sql(" UNION ALL "@)],
    ) + seq![
        PieceView::Sql(") ranked) dedup WHERE dedup.rn = 1 ORDER BY dedup.priority DESC, dedup.fts_score DESC LIMIT 20"@),
    ]
}

/// The statement for `plan`.
pub open spec fn plan_query_spec(plan: SearchPlan) -> Seq<PieceView> {
    search_query_spec(
        plan.fts_query@,
        string_views(plan.text_tokens@).contains(praha()),
        plan.number_candidates@,
        plan.exact_postal_codes@,
        plan.postal_prefixes@,
        plan.slash_pairs@,
    )
}

/// Appends a piece.
fn push_piece(r: &mut Vec<QueryPiece>, p: QueryPiece)
    ensures
        pieces_view(final(r)@) == pieces_view(old(r)@).push(piece_view(p)),
{
    r.push(p);
    assert(pieces_view(r@) == pieces_view(old(r)@).push(piece_view(p)));
}

/// Appends a piece of SQL text.
fn push_sql(r: &mut Vec<QueryPiece>, s: &str)
    ensures
        pieces_view(final(r)@) == pieces_view(old(r)@).push(PieceView::Sql(s@)),
{
    push_piece(r, QueryPiece::Sql(s.to_owned()));
}

/// Moves the pieces of `other` to the end of `r`.
fn append_pieces(r: &mut Vec<QueryPiece>, other: Vec<QueryPiece>)
    ensures
        pieces_view(final(r)@) == pieces_view(old(r)@) + pieces_view(other@),
{
    let mut o = other;
    r.append(&mut o);
    assert(pieces_view(r@) == pieces_view(old(r)@) + pieces_view(other@));
}

/// Adds `part` to a join: after a separator unless it is the first part.
fn join_add(r: &mut Vec<QueryPiece>, first: bool, part: Vec<QueryPiece>, sep: &str, Ghost(parts): Ghost<Seq<Seq<PieceView>>>)
    requires
        pieces_view(old(r)@) == join_pieces(parts, seq![PieceView::Sql(sep@)]),
        first == (parts.len() == 0),
    ensures
        pieces_view(final(r)@) == join_pieces(parts.push(pieces_view(part@)), seq![PieceView::Sql(sep@)]),
{
    assert(parts.push(pieces_view(part@)).drop_last() == parts);
    if !first {
        push_sql(r, sep);
    }
    append_pieces(r, part);
    if first {
        assert(pieces_view(old(r)@) == Seq::<PieceView>::empty());
        assert(Seq::<PieceView>::empty() + pieces_view(part@) == pieces_view(part@));
    }
}

/// Integers bound to placeholders separated by `, `.
fn int_list_exec(vals: &Vec<i32>) -> (r: Vec<QueryPiece>)
    ensures
        pieces_view(r@) == int_list(vals@),
{
    let mut r: Vec<QueryPiece> = Vec::new();
    let ghost parts = vals@.map_values(|v: i32| seq![PieceView::Int(v)]);
    assert(pieces_view(r@) =~= Seq::<PieceView>::empty());
    let n = vals.len();
    for i in 0..n
        invariant
            n == vals@.len(),
            parts == vals@.map_values(|v: i32| seq![PieceView::Int(v)]),
            pieces_view(r@) == join_pieces(parts.take(i as int), seq![PieceView::Sql(", "@)]),
    {
        let mut part: Vec<QueryPiece> = Vec::new();
        push_piece(&mut part, QueryPiece::Int(vals[i]));
        assert(pieces_view(part@) == seq![PieceView::Int(vals@[i as int])]);
        assert(parts.take(i + 1) == parts.take(i as int).push(pieces_view(part@)));
        join_add(&mut r, i == 0, part, ", ", Ghost(parts.take(i as int)));
    }
    assert(parts.take(n as int) == parts);
    r
}

/// Strings bound to placeholders separated by `, `.
fn text_list_exec(vals: &Vec<Vec<char>>) -> (r: Vec<QueryPiece>)
    ensures
        pieces_view(r@) == text_list(views(vals@)),
{
    let mut r: Vec<QueryPiece> = Vec::new();
    let ghost parts = views(vals@).map_values(|v: Seq<char>| seq![PieceView::Text(v)]);
    let n = vals.len();
    for i in 0..n
        invariant
            n == vals@.len(),
            parts == views(vals@).map_values(|v: Seq<char>| seq![PieceView::Text(v)]),
            pieces_view(r@) == join_pieces(parts.take(i as int), seq![PieceView::Sql(", "@)]),
    {
        let mut part: Vec<QueryPiece> = Vec::new();
        push_piece(&mut part, QueryPiece::Text(string_from_chars(vals[i].as_slice())));
        assert(pieces_view(part@) == seq![PieceView::Text(views(vals@)[i as int])]);
        assert(parts.take(i + 1) == parts.take(i as int).push(pieces_view(part@)));
        join_add(&mut r, i == 0, part, ", ", Ghost(parts.take(i as int)));
    }
    assert(parts.take(n as int) == parts);
    r
}

/// `open` followed by the integers and a closing bracket.
fn in_list_exec(open: &str, vals: &Vec<i32>) -> (r: Vec<QueryPiece>)
    ensures
        pieces_view(r@) == in_list(open@, vals@),
{
    let mut r: Vec<QueryPiece> = Vec::new();
    push_sql(&mut r, open);
    append_pieces(&mut r, int_list_exec(vals));
    push_sql(&mut r, ")");
    r
}

/// The key `a_b`.
pub(crate) fn number_key_exec(a: i32, b: i32) -> (r: Vec<char>)
    ensures
        r@ == number_key(a, b),
{
    let mut r = decimal_chars(a);
    r.push('_');
    append_chars(&mut r, decimal_chars(b).as_slice());
    r
}

/// The keys of every pair of `xs` and `ys`, row by row.
fn cross_keys_exec(xs: &Vec<i32>, ys: &Vec<i32>, swapped: bool) -> (r: Vec<Vec<char>>)
    ensures
        views(r@) == cross_keys(xs@, ys@, swapped),
{
    let mut r: Vec<Vec<char>> = Vec::new();
    let n = xs.len();
    let m = ys.len();
    for i in 0..n
        invariant
            n == xs@.len(),
            m == ys@.len(),
            views(r@) == cross_keys(xs@.take(i as int), ys@, swapped),
    {
        assert(xs@.take(i + 1).drop_last() == xs@.take(i as int));
        assert(xs@.take(i + 1).last() == xs@[i as int]);
        let ghost before = views(r@);
        let x = xs[i];
        for j in 0..m
            invariant
                m == ys@.len(),
                views(r@) == before + key_row(x, ys@.take(j as int), swapped),
        {
            let y = ys[j];
            let k = if swapped {
                number_key_exec(y, x)
            } else {
                number_key_exec(x, y)
            };
            let ghost mid = views(r@);
            r.push(k);
            assert(views(r@) == mid.push(k@));
            assert(key_row(x, ys@.take(j + 1), swapped) == key_row(x, ys@.take(j as int), swapped).push(k@));
        }
        assert(ys@.take(m as int) == ys@);
    }
    assert(xs@.take(n as int) == xs@);
    r
}

/// House number `a` and orientation number `b`.
fn pair_condition_exec(a: i32, b: i32) -> (r: Vec<QueryPiece>)
    ensures
        pieces_view(r@) == pair_condition(a, b),
{
    let mut r: Vec<QueryPiece> = Vec::new();
    push_sql(&mut r, "(a.cislo_domovni = ");
    push_piece(&mut r, QueryPiece::Int(a));
    push_sql(&mut r, " AND a.cislo_orientacni = ");
    push_piece(&mut r, QueryPiece::Int(b));
    push_sql(&mut r, ")");
    r
}

/// The conditions of an exact house-number match, joined by `OR`.
fn house_filter_exec(nc: &Vec<i32>, pairs: &Vec<(i32, i32)>) -> (r: Vec<QueryPiece>)
    ensures
        pieces_view(r@) == join_pieces(house_conditions(nc@, pairs@), seq![PieceView::Sql(" OR "@)]),
{
    let mut r: Vec<QueryPiece> = Vec::new();
    let ghost mut parts: Seq<Seq<PieceView>> = seq![];
    assert(pieces_view(r@) =~= Seq::<PieceView>::empty());
    let mut any = false;
    if nc.len() > 0 {
        let mut c1: Vec<QueryPiece> = Vec::new();
        push_sql(&mut c1, "(a.cislo_domovni IN (");
        append_pieces(&mut c1, int_list_exec(nc));
        push_sql(&mut c1, ") OR a.cislo_orientacni IN (");
        append_pieces(&mut c1, int_list_exec(nc));
        push_sql(&mut c1, "))");
        let ghost v1 = pieces_view(c1@);
        join_add(&mut r, true, c1, " OR ", Ghost(parts));
        proof { parts = parts.push(v1); }
        let mut c2: Vec<QueryPiece> = Vec::new();
        push_sql(&mut c2, "a.domovni_orientacni_klic IN (");
        append_pieces(&mut c2, text_list_exec(&cross_keys_exec(nc, nc, false)));
        push_sql(&mut c2, ")");
        let ghost v2 = pieces_view(c2@);
        join_add(&mut r, false, c2, " OR ", Ghost(parts));
        proof { parts = parts.push(v2); }
        let mut c3: Vec<QueryPiece> = Vec::new();
        push_sql(&mut c3, "a.orientacni_domovni_klic IN (");
        append_pieces(&mut c3, text_list_exec(&cross_keys_exec(nc, nc, true)));
        push_sql(&mut c3, ")");
        let ghost v3 = pieces_view(c3@);
        join_add(&mut r, false, c3, " OR ", Ghost(parts));
        proof { parts = parts.push(v3); }
        any = true;
        assert(parts =~= seq![v1, v2, v3]);
        assert(v1 =~= seq![PieceView::Sql("(a.cislo_domovni IN ("@)] + int_list(nc@) + seq![
            PieceView::Sql(") OR a.cislo_orientacni IN ("@),
        ] + int_list(nc@) + seq![PieceView::Sql("))"@)]);
        assert(v2 =~= seq![PieceView::Sql("a.domovni_orientacni_klic IN ("@)] + text_list(
            cross_keys(nc@, nc@, false),
        ) + seq![PieceView::Sql(")"@)]);
        assert(v3 =~= seq![PieceView::Sql("a.orientacni_domovni_klic IN ("@)] + text_list(
            cross_keys(nc@, nc@, true),
        ) + seq![PieceView::Sql(")"@)]);
    }
    let ghost head = parts;
    assert(pair_conditions(Seq::<(i32, i32)>::empty()) =~= Seq::<Seq<PieceView>>::empty());
    assert(head =~= house_conditions(nc@, Seq::<(i32, i32)>::empty()));
    assert(head + pair_conditions(pairs@.take(0)) == head);
    let n = pairs.len();
    for i in 0..n
        invariant
            n == pairs@.len(),
            parts == head + pair_conditions(pairs@.take(i as int)),
            any == (parts.len() > 0),
            pieces_view(r@) == join_pieces(parts, seq![PieceView::Sql(" OR "@)]),
    {
        assert(pairs@.take(i + 1).drop_last() == pairs@.take(i as int));
        assert(pairs@.take(i + 1).last() == pairs@[i as int]);
        let (a, b) = pairs[i];
        let p1 = pair_condition_exec(a, b);
        let ghost v1 = pieces_view(p1@);
        join_add(&mut r, !any, p1, " OR ", Ghost(parts));
        proof { parts = parts.push(v1); }
        let p2 = pair_condition_exec(b, a);
        let ghost v2 = pieces_view(p2@);
        join_add(&mut r, false, p2, " OR ", Ghost(parts));
        proof { parts = parts.push(v2); }
        any = true;
        assert(parts == head + pair_conditions(pairs@.take(i + 1)));
    }
    assert(pairs@.take(n as int) == pairs@);
    assert(parts =~= house_conditions(nc@, pairs@));
    r
}

/// The postal codes within the range of each prefix, joined by `OR`.
fn prefix_filter_exec(ps: &Vec<(i32, i32)>) -> (r: Vec<QueryPiece>)
    requires
        prefixes_well_formed(ps@),
    ensures
        pieces_view(r@) == join_pieces(prefix_conditions(ps@), seq![PieceView::Sql(" OR "@)]),
{
    let mut r: Vec<QueryPiece> = Vec::new();
    assert(pieces_view(r@) =~= Seq::<PieceView>::empty());
    let n = ps.len();
    for i in 0..n
        invariant
            n == ps@.len(),
            prefixes_well_formed(ps@),
            pieces_view(r@) == join_pieces(prefix_conditions(ps@.take(i as int)), seq![PieceView::Sql(" OR "@)]),
    {
        assert(ps@.take(i + 1).drop_last() == ps@.take(i as int));
        assert(ps@.take(i + 1).last() == ps@[i as int]);
        let (v, len) = ps[i];
        assert(2 <= len <= 4 && 0 <= v < pow10(len as nat));
        let m: i32 = if len == 2 {
            1000
        } else if len == 3 {
            100
        } else {
            10
        };
        proof {
            reveal_with_fuel(pow10, 5);
        }
        assert(m == pow10((5 - len) as nat));
        assert(0 <= v * m <= 99990) by (nonlinear_arith)
            requires
                (len == 2 && m == 1000 && 0 <= v < 100) || (len == 3 && m == 100 && 0 <= v < 1000)
                    || (len == 4 && m == 10 && 0 <= v < 10000),
        ;
        let lo = v * m;
        let hi = lo + m - 1;
        let mut part: Vec<QueryPiece> = Vec::new();
        push_sql(&mut part, "a.psc BETWEEN ");
        push_piece(&mut part, QueryPiece::Int(lo));
        push_sql(&mut part, " AND ");
        push_piece(&mut part, QueryPiece::Int(hi));
        let ghost parts = prefix_conditions(ps@.take(i as int));
        assert(prefix_range(v, len) == (lo as int, hi as int));
        assert(pieces_view(part@) == seq![
            PieceView::Sql("a.psc BETWEEN "@),
            PieceView::Int(lo),
            PieceView::Sql(" AND "@),
            PieceView::Int(hi),
        ]);
        assert(prefix_conditions(ps@.take(i + 1)) == parts.push(pieces_view(part@)));
        join_add(&mut r, i == 0, part, " OR ", Ghost(parts));
    }
    assert(ps@.take(n as int) == ps@);
    r
}

/// The candidates from 1 to 22.
fn district_numbers_exec(nc: &Vec<i32>) -> (r: Vec<i32>)
    ensures
        r@ == district_numbers(nc@),
{
    let mut r: Vec<i32> = Vec::new();
    let n = nc.len();
    for i in 0..n
        invariant
            n == nc@.len(),
            r@ == district_numbers(nc@.take(i as int)),
    {
        assert(nc@.take(i + 1).drop_last() == nc@.take(i as int));
        assert(nc@.take(i + 1).last() == nc@[i as int]);
        if 1 <= nc[i] && nc[i] <= 22 {
            r.push(nc[i]);
        }
    }
    assert(nc@.take(n as int) == nc@);
    r
}

/// One branch of the search.
fn branch_exec(priority: &str, filter: Vec<QueryPiece>, fts: &String) -> (r: Vec<QueryPiece>)
    ensures
        pieces_view(r@) == branch(priority@, pieces_view(filter@), fts@),
{
    let mut r: Vec<QueryPiece> = Vec::new();
    push_sql(&mut r, "(SELECT a.*, ");
    push_sql(&mut r, priority);
    push_sql(&mut r, " AS priority, MATCH(a.search) AGAINST(");
    push_piece(&mut r, QueryPiece::Text(fts.clone()));
    push_sql(
        &mut r,
        " IN BOOLEAN MODE) AS fts_score FROM adresa a WHERE MATCH(a.search) AGAINST(",
    );
    push_piece(&mut r, QueryPiece::Text(fts.clone()));
    push_sql(&mut r, " IN BOOLEAN MODE) AND (");
    append_pieces(&mut r, filter);
    push_sql(&mut r, ") LIMIT 20)");
    r
}

/// Whether the text words hold `praha`.
fn has_praha_exec(tokens: &Vec<String>) -> (b: bool)
    ensures
        b == string_views(tokens@).contains(praha()),
{
    let word = vec!['p', 'r', 'a', 'h', 'a'];
    assert(word@ == praha());
    let n = tokens.len();
    for i in 0..n
        invariant
            n == tokens@.len(),
            word@ == praha(),
            forall|j: int| 0 <= j < i ==> string_views(tokens@)[j] != praha(),
    {
        let t = crate::chars::chars_of(tokens[i].as_str());
        if chars_equal(t.as_slice(), word.as_slice()) {
            assert(string_views(tokens@)[i as int] == praha());
            return true;
        }
    }
    false
}

/// The pieces of the SQL statement for `plan`, in order; the caller binds the
/// values in the order the pieces give them.
#[verifier::rlimit(40)]
pub fn search_query(plan: &SearchPlan) -> (r: Vec<QueryPiece>)
    requires
        prefixes_well_formed(plan.postal_prefixes@),
    ensures
        pieces_view(r@) == plan_query_spec(*plan),
{
    let fts = &plan.fts_query;
    let nc = &plan.number_candidates;
    let praha = has_praha_exec(&plan.text_tokens);
    let ghost expected = branches(
        fts@,
        praha,
        nc@,
        plan.exact_postal_codes@,
        plan.postal_prefixes@,
        plan.slash_pairs@,
    );
    let mut union: Vec<QueryPiece> = Vec::new();
    let ghost mut parts: Seq<Seq<PieceView>> = seq![];
    assert(pieces_view(union@) =~= Seq::<PieceView>::empty());
    let mut first = true;
    if nc.len() > 0 || plan.slash_pairs.len() > 0 {
        let b = branch_exec("500", house_filter_exec(nc, &plan.slash_pairs), fts);
        let ghost v = pieces_view(b@);
        join_add(&mut union, first, b, " UNION ALL ", Ghost(parts));
        proof { parts = parts.push(v); }
        first = false;
    }
    if nc.len() > 0 {
        let b = branch_exec("400", in_list_exec("a.ulice_cislo IN (", nc), fts);
        let ghost v = pieces_view(b@);
        join_add(&mut union, first, b, " UNION ALL ", Ghost(parts));
        proof { parts = parts.push(v); }
        first = false;
    }
    let districts = district_numbers_exec(nc);
    if praha && districts.len() > 0 {
        let b = branch_exec("300", in_list_exec("a.obvod_prahy_cislo IN (", &districts), fts);
        let ghost v = pieces_view(b@);
        join_add(&mut union, first, b, " UNION ALL ", Ghost(parts));
        proof { parts = parts.push(v); }
        first = false;
    }
    if plan.exact_postal_codes.len() > 0 {
        let b = branch_exec("220", in_list_exec("a.psc IN (", &plan.exact_postal_codes), fts);
        let ghost v = pieces_view(b@);
        join_add(&mut union, first, b, " UNION ALL ", Ghost(parts));
        proof { parts = parts.push(v); }
        first = false;
    }
    if plan.postal_prefixes.len() > 0 {
        let b = branch_exec("210", prefix_filter_exec(&plan.postal_prefixes), fts);
        let ghost v = pieces_view(b@);
        join_add(&mut union, first, b, " UNION ALL ", Ghost(parts));
        proof { parts = parts.push(v); }
        first = false;
    }
    let numbers = nc.len() > 0 || plan.exact_postal_codes.len() > 0 || plan.postal_prefixes.len() > 0
        || plan.slash_pairs.len() > 0;
    assert(numbers == has_number_conditions(nc@, plan.exact_postal_codes@, plan.postal_prefixes@, plan.slash_pairs@));
    if !numbers {
        let mut always: Vec<QueryPiece> = Vec::new();
        push_sql(&mut always, "1=1");
        let b = branch_exec("100", always, fts);
        let ghost v = pieces_view(b@);
        join_add(&mut union, first, b, " UNION ALL ", Ghost(parts));
        proof { parts = parts.push(v); }
    }
    assert(parts == expected);
    let mut r: Vec<QueryPiece> = Vec::new();
    push_sql(&mut r, "SELECT ");
    push_sql(
        &mut r,
        "kod_adm, kod_obce, nazev_obce, kod_momc, nazev_momc, kod_obvodu_prahy, nazev_obvodu_prahy, kod_casti_obce, nazev_casti_obce, kod_ulice, nazev_ulice, typ_so, cislo_domovni, cislo_orientacni, znak_cisla_orientacniho, psc, souradnice_y, souradnice_x, plati_od, search",
    );
    push_sql(
        &mut r,
        " FROM (SELECT ranked.*, ROW_NUMBER() OVER (PARTITION BY ranked.kod_adm ORDER BY ranked.priority DESC, ranked.fts_score DESC) AS rn FROM (",
    );
    append_pieces(&mut r, union);
    push_sql(
        &mut r,
        ") ranked) dedup WHERE dedup.rn = 1 ORDER BY dedup.priority DESC, dedup.fts_score DESC LIMIT 20",
    );
    r
}

} // verus!
