//! Building blocks of the SQL text: bound parameters, `?` lists, `WHERE`
//! clauses and the paging window.
use vstd::prelude::*;
use crate::text::{join, join_strings, views};

verus! {

/// A value bound to a `?` of a statement.
#[derive(Debug, Clone, PartialEq, Eq)]
pub enum SqlParam {
    Int(i64),
    Text(String),
}

/// The abstract value of a bound parameter.
pub enum ParamValue {
    Int(i64),
    Text(Seq<char>),
}

impl View for SqlParam {
    type V = ParamValue;

    open spec fn view(&self) -> ParamValue {
        match self {
            SqlParam::Int(i) => ParamValue::Int(*i),
            SqlParam::Text(s) => ParamValue::Text(s@),
        }
    }
}

/// The abstract values of a parameter list.
pub open spec fn param_values(ps: Seq<SqlParam>) -> Seq<ParamValue> {
    Seq::new(ps.len(), |i: int| ps[i]@)
}

impl SqlParam {
    /// A copy of the parameter.
    pub fn duplicate(&self) -> (res: SqlParam)
        ensures
            res@ == self@,
    {
        match self {
            SqlParam::Int(i) => SqlParam::Int(*i),
            SqlParam::Text(s) => SqlParam::Text(s.clone()),
        }
    }
}

/// A copy of a parameter list.
pub fn copy_params(ps: &Vec<SqlParam>) -> (res: Vec<SqlParam>)
    ensures
        param_values(res@) == param_values(ps@),
{
    let mut out: Vec<SqlParam> = Vec::new();
    let mut i: usize = 0;
    while i < ps.len()
        invariant
            i <= ps@.len(),
            out@.len() == i,
            forall|k: int| 0 <= k < i ==> (#[trigger] out@[k])@ == ps@[k]@,
        decreases ps@.len() - i,
    {
        out.push(ps[i].duplicate());
        i = i + 1;
    }
    assert(param_values(out@) =~= param_values(ps@));
    out
}

/// `n` question marks separated by commas.
pub open spec fn placeholders(n: nat) -> Seq<char>
    decreases n,
{
    if n == 0 {
        Seq::<char>::empty()
    } else if n == 1 {
        seq!['?']
    } else {
        placeholders((n - 1) as nat) + seq![',', '?']
    }
}

/// The `?` list of an `IN (...)` with `n` values.
pub fn placeholder_list(n: usize) -> (res: String)
    ensures
        res@ == placeholders(n as nat),
{
    let mut s = String::from_str("");
    let mut i: usize = 0;
    proof {
        reveal_strlit("");
        reveal_strlit("?");
        reveal_strlit(",?");
    }
    while i < n
        invariant
            i <= n,
            s@ == placeholders(i as nat),
        decreases n - i,
    {
        proof {
            reveal_strlit("?");
            reveal_strlit(",?");
        }
        if i == 0 {
            s.append("?");
            assert(s@ =~= seq!['?']);
        } else {
            s.append(",?");
            assert(s@ =~= placeholders(i as nat) + seq![',', '?']);
        }
        i = i + 1;
    }
    s
}

/// The `WHERE` part of a statement: empty when there are no conditions,
/// otherwise `WHERE` and the conditions joined with `AND`.
pub open spec fn where_of(clauses: Seq<Seq<char>>) -> Seq<char> {
    if clauses.len() == 0 {
        Seq::<char>::empty()
    } else {
        "WHERE "@ + join(clauses, " AND "@)
    }
}

/// Builds the `WHERE` part from the conditions.
pub fn where_clause(clauses: &Vec<String>) -> (res: String)
    ensures
        res@ == where_of(views(clauses@)),
{
    if clauses.len() == 0 {
        proof {
            reveal_strlit("");
        }
        String::from_str("")
    } else {
        let joined = join_strings(clauses, " AND ");
        let mut s = String::from_str("WHERE ");
        s.append(joined.as_str());
        s
    }
}

/// The page number used: at least 1.
pub open spec fn page_number(page: u32) -> int {
    if page < 1 {
        1
    } else {
        page as int
    }
}

/// The page size used: `page_size` clamped to `1..=max_size`.
pub open spec fn page_size_within(page_size: u32, max_size: u32) -> int {
    if page_size < 1 {
        1
    } else if page_size > max_size {
        max_size as int
    } else {
        page_size as int
    }
}

/// The number of rows skipped before a page.
pub open spec fn page_offset(page: u32, page_size: u32, max_size: u32) -> int {
    (page_number(page) - 1) * page_size_within(page_size, max_size)
}

/// The `LIMIT` and `OFFSET` of a page: the page number is at least 1, the
/// size is clamped to `1..=max_size`, and the offset skips the earlier
/// pages.
pub fn page_window(page: u32, page_size: u32, max_size: u32) -> (res: (u32, u32))
    requires
        max_size >= 1,
        page_offset(page, page_size, max_size) <= u32::MAX,
    ensures
        res.0 == page_size_within(page_size, max_size),
        res.1 == page_offset(page, page_size, max_size),
{
    let p: u32 = if page < 1 {
        1
    } else {
        page
    };
    let size: u32 = if page_size < 1 {
        1
    } else if page_size > max_size {
        max_size
    } else {
        page_size
    };
    let offset: u32 = (p - 1) * size;
    (size, offset)
}

/// Whether the offset of a page fits in a `u32` (the condition of
/// [`page_window`]).
pub fn page_offset_fits(page: u32, page_size: u32, max_size: u32) -> (res: bool)
    ensures
        res == (page_offset(page, page_size, max_size) <= u32::MAX),
{
    let p: u64 = if page < 1 {
        1
    } else {
        page as u64
    };
    let size: u64 = if page_size < 1 {
        1
    } else if page_size > max_size {
        max_size as u64
    } else {
        page_size as u64
    };
    assert((p - 1) * size <= 0xffff_ffff * 0xffff_ffff) by (nonlinear_arith)
        requires
            p - 1 <= 0xffff_ffff,
            size <= 0xffff_ffff,
    ;
    (p - 1) * size <= 0xffff_ffff
}

/// Pages follow each other: each page starts where the previous one ends.
pub proof fn law_pages_are_consecutive(page: u32, page_size: u32, max_size: u32)
    requires
        1 <= page < u32::MAX,
    ensures
        page_offset((page + 1) as u32, page_size, max_size) == page_offset(page, page_size, max_size)
            + page_size_within(page_size, max_size),
{
    let s = page_size_within(page_size, max_size);
    let p = page as int;
    assert(p * s == (p - 1) * s + s) by (nonlinear_arith);
}

} // verus!
