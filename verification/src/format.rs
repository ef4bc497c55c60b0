use vstd::prelude::*;

verus! {

/// What `sqlformat::format` makes of `query` with no placeholder values and the default options.
pub uninterp spec fn formatted_sql(query: Seq<char>) -> Seq<char>;

/// `sqlformat::format(query, &QueryParams::None, FormatOptions::default())`: lays out the SQL
/// text with two-space indentation, keywords left as written and one line between queries.
/// The contract claims only that the result depends on the query text alone.
#[verifier::external_body]
pub(crate) fn format_sql(query: &str) -> (r: String)
    ensures
        r@ == formatted_sql(query@),
{
    sqlformat::format(query, &sqlformat::QueryParams::None, sqlformat::FormatOptions::default())
}

} // verus!
