//! The search statement as an sqlx query builder for MySQL.

use vstd::prelude::*;

use sqlx::{MySql, QueryBuilder};

use crate::plan::{prefixes_well_formed, SearchPlan};
use crate::query::{plan_query_spec, search_query, PieceView, QueryPiece, pieces_view};

verus! {

/// An sqlx query builder for MySQL, opaque to the proofs; what it holds is
/// named by `builder_sql` and `builder_args`. sqlx's `QueryBuilder` cannot be
/// declared to the verifier itself (it is bound by sqlx's `Database` trait),
/// and no verified function can name it, so the field is public for the
/// caller to run the built statement.
#[verifier::external_body]
pub struct SearchQueryBuilder(pub QueryBuilder<'static, MySql>);

/// The SQL text that a query builder holds (what `QueryBuilder::sql` gives).
pub uninterp spec fn builder_sql(qb: SearchQueryBuilder) -> Seq<char>;

/// The values bound to the placeholders of a query builder, in order; none
/// once its arguments have been taken by `build`.
pub uninterp spec fn builder_args(qb: SearchQueryBuilder) -> Option<Seq<PieceView>>;

/// Calls `QueryBuilder::new`: a builder that holds `init` and no bound values.
#[verifier::external_body]
fn builder_new(init: &str) -> (qb: SearchQueryBuilder)
    ensures
        builder_sql(qb) == init@,
        builder_args(qb) == Some(Seq::<PieceView>::empty()),
{
    SearchQueryBuilder(QueryBuilder::new(init))
}

/// Calls `QueryBuilder::push`, which writes `sql` at the end of the text.
/// It panics once the arguments have been taken, which `requires` rules out.
#[verifier::external_body]
fn builder_push(qb: &mut SearchQueryBuilder, sql: &str)
    requires
        builder_args(*old(qb)) is Some,
    ensures
        builder_sql(*final(qb)) == builder_sql(*old(qb)) + sql@,
        builder_args(*final(qb)) == builder_args(*old(qb)),
{
    qb.0.push(sql);
}

/// Calls `QueryBuilder::push_bind` with a string: MySQL's placeholder `?` is
/// written at the end of the text and the string is bound to it. Encoding a
/// string cannot fail; the panic once the arguments have been taken is ruled
/// out by `requires`.
#[verifier::external_body]
fn builder_push_bind_text(qb: &mut SearchQueryBuilder, value: String)
    requires
        builder_args(*old(qb)) is Some,
    ensures
        builder_sql(*final(qb)) == builder_sql(*old(qb)) + seq!['?'],
        builder_args(*final(qb)) == Some(builder_args(*old(qb)).unwrap().push(PieceView::Text(value@))),
{
    qb.0.push_bind(value);
}

/// Calls `QueryBuilder::push_bind` with an `i32`: MySQL's placeholder `?` is
/// written at the end of the text and the number is bound to it. Encoding an
/// `i32` cannot fail; the panic once the arguments have been taken is ruled
/// out by `requires`.
#[verifier::external_body]
fn builder_push_bind_int(qb: &mut SearchQueryBuilder, value: i32)
    requires
        builder_args(*old(qb)) is Some,
    ensures
        builder_sql(*final(qb)) == builder_sql(*old(qb)) + seq!['?'],
        builder_args(*final(qb)) == Some(builder_args(*old(qb)).unwrap().push(PieceView::Int(value))),
{
    qb.0.push_bind(value);
}

/// The SQL text of `pieces`, with `?` for each bound value.
pub open spec fn render_sql(pieces: Seq<PieceView>) -> Seq<char>
    decreases pieces.len(),
{
    if pieces.len() == 0 {
        seq![]
    } else {
        render_sql(pieces.drop_last()) + match pieces.last() {
            PieceView::Sql(s) => s,
            _ => seq!['?'],
        }
    }
}

/// The values that `pieces` bind, in order.
pub open spec fn bound_values(pieces: Seq<PieceView>) -> Seq<PieceView>
    decreases pieces.len(),
{
    if pieces.len() == 0 {
        seq![]
    } else {
        let r = bound_values(pieces.drop_last());
        match pieces.last() {
            PieceView::Sql(_) => r,
            v => r.push(v),
        }
    }
}

/// The query builder for the search that `plan` describes: its text is the
/// statement of `search_query` with a `?` for every bound value, and the full-
/// text query and the numbers are bound in the order they appear.
pub fn build_search_query(plan: &SearchPlan) -> (qb: SearchQueryBuilder)
    requires
        prefixes_well_formed(plan.postal_prefixes@),
    ensures
        builder_sql(qb) == render_sql(plan_query_spec(*plan)),
        builder_args(qb) == Some(bound_values(plan_query_spec(*plan))),
{
    let pieces = search_query(plan);
    let ghost pv = pieces_view(pieces@);
    let mut qb = builder_new("");
    proof {
        assert(""@ == Seq::<char>::empty()) by {
            reveal_strlit("");
        }
        assert(pv.take(0) == Seq::<PieceView>::empty());
    }
    let n = pieces.len();
    for i in 0..n
        invariant
            n == pieces@.len(),
            pv == pieces_view(pieces@),
            builder_sql(qb) == render_sql(pv.take(i as int)),
            builder_args(qb) == Some(bound_values(pv.take(i as int))),
    {
        assert(pv.take(i + 1).drop_last() == pv.take(i as int));
        assert(pv.take(i + 1).last() == pv[i as int]);
        assert(pv[i as int] == crate::query::piece_view(pieces@[i as int]));
        match &pieces[i] {
            QueryPiece::Sql(s) => builder_push(&mut qb, s.as_str()),
            QueryPiece::Text(t) => builder_push_bind_text(&mut qb, t.clone()),
            QueryPiece::Int(v) => builder_push_bind_int(&mut qb, *v),
        }
    }
    assert(pv.take(n as int) == pv);
    qb
}

} // verus!
