//! The structured search request sent to the remote emote service.
//!
//! A search submits a fixed document of variables: the normalized query
//! text, an empty tag filter, a fixed sort order, and a fixed page and page
//! size.  This module builds that document; submitting it, and wrapping it
//! in the service's envelope, is the caller's side of the interface.

use vstd::prelude::*;
use vstd::string::StringExecFns;

use crate::codec::esc;
use crate::codec::push_escaped;
use crate::text::dec_of;
use crate::text::decimal_string;

verus! {

/// The page of results every search asks for.
pub const SEARCH_PAGE: u64 = 1;

/// How many results one search asks for.
pub const SEARCH_PAGE_SIZE: u64 = 50;

/// Text before the query value, opening quote included.
pub open spec fn lit_var_a() -> Seq<char> {
    "{ \"query\": \""@
}

/// Text between the query value and the page number: the empty tag filter
/// and the fixed sort order.
pub open spec fn lit_var_b() -> Seq<char> {
    "\", \"tags\": [], \"sortBy\": \"TOP_ALL_TIME\", \"page\": "@
}

/// Text between the page number and the page size.
pub open spec fn lit_var_c() -> Seq<char> {
    ", \"perPage\": "@
}

/// Text closing the document.
pub open spec fn lit_var_d() -> Seq<char> {
    " }"@
}

/// The variables document of one search for the given normalized query.
pub open spec fn search_variables_of(q: Seq<char>) -> Seq<char> {
    lit_var_a() + esc(q) + lit_var_b() + dec_of(SEARCH_PAGE as int) + lit_var_c() + dec_of(
        SEARCH_PAGE_SIZE as int,
    ) + lit_var_d()
}

/// Build the variables document of a search request: the query text,
/// escaped, with the fixed tag filter, sort order, page and page size.
pub fn search_variables(query: &String) -> (r: String)
    ensures
        r@ == search_variables_of(query@),
{
    let mut out = String::from_str("{ \"query\": \"");
    push_escaped(&mut out, query);
    out.append("\", \"tags\": [], \"sortBy\": \"TOP_ALL_TIME\", \"page\": ");
    let p = decimal_string(SEARCH_PAGE);
    out.append(p.as_str());
    out.append(", \"perPage\": ");
    let ps = decimal_string(SEARCH_PAGE_SIZE);
    out.append(ps.as_str());
    out.append(" }");
    proof {
        assert(out@ =~= search_variables_of(query@));
    }
    out
}

} // verus!
