//! Why a query ends without a result.

use vstd::prelude::*;

verus! {

/// The three ways in which a query fails. Each ends the request: none is
/// tried again, and no partial result is given.
#[derive(Debug)]
pub enum QueryError {
    /// The caller gave no price bound, or both.
    BadParams(String),
    /// The store holds no row that the query asks for.
    NotFound(String),
    /// The store, or another collaborator, failed.
    Upstream(String),
}

impl QueryError {
    /// The message of the error.
    pub open spec fn message(&self) -> Seq<char> {
        match self {
            QueryError::BadParams(m) => m@,
            QueryError::NotFound(m) => m@,
            QueryError::Upstream(m) => m@,
        }
    }

    /// The message of the error, as the caller is told it.
    pub fn to_text(&self) -> (text: String)
        ensures
            text@ == self.message(),
    {
        match self {
            QueryError::BadParams(m) => m.clone(),
            QueryError::NotFound(m) => m.clone(),
            QueryError::Upstream(m) => m.clone(),
        }
    }
}

/// The message for a query that found no row: the words `0 rows:`, the
/// query and what it was bound to, with a space before each.
pub open spec fn zero_rows_text(sql: Seq<char>, params: Seq<Seq<char>>) -> Seq<char>
    decreases params.len(),
{
    if params.len() == 0 {
        "0 rows:"@ + seq![' '] + sql
    } else {
        zero_rows_text(sql, params.drop_last()) + seq![' '] + params.last()
    }
}

/// Appends a space and `part` to `out`.
pub fn append_spaced(out: &mut String, part: &str)
    ensures
        final(out)@ == old(out)@ + seq![' '] + part@,
{
    proof {
        reveal_strlit(" ");
    }
    out.append(" ");
    out.append(part);
    assert(" "@ =~= seq![' ']);
}

/// The error for a query with one bound value that found no row.
pub fn zero_rows(sql: &str, param: &str) -> (error: QueryError)
    ensures
        error matches QueryError::NotFound(m) && m@ == zero_rows_text(sql@, seq![param@]),
{
    let mut message = String::from_str("0 rows:");
    append_spaced(&mut message, sql);
    append_spaced(&mut message, param);
    proof {
        let none = Seq::<Seq<char>>::empty();
        assert(seq![param@].drop_last() =~= none);
        assert(seq![param@].last() == param@);
        assert(zero_rows_text(sql@, none) == "0 rows:"@ + seq![' '] + sql@);
    }
    QueryError::NotFound(message)
}

} // verus!
