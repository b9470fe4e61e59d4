//! Web search results as the assistant keeps them.

use vstd::prelude::*;
use crate::text::{chars_of, concat, starts_with, starts_with_lit, take_chars, take_chars_exec};

verus! {

broadcast use vstd::string::group_string_axioms;

/// One web search hit.
#[derive(Clone, Debug)]
pub struct SearchResult {
    pub title: String,
    pub url: String,
    pub content: String,
}

/// Hits asked of the search service.
pub const MAX_SEARCH_RESULTS: u8 = 3;

/// Search depth asked of the search service.
pub const SEARCH_DEPTH: &'static str = "basic";

/// Characters of a hit's content that are kept.
pub const SEARCH_SNIPPET_CHARS: usize = 350;

/// A key that is empty or still the `your_…` placeholder.
pub open spec fn placeholder_key(key: Seq<char>) -> bool {
    key.len() == 0 || starts_with(key, "your_"@)
}

/// Refuses a search without a real key.
pub fn check_search_key(api_key: &str) -> (r: Result<(), String>)
    ensures
        r is Err <==> placeholder_key(api_key@),
        r matches Err(e) ==> e@ == "Tavily API key not configured \u{2014} add TAVILY_API_KEY to .env"@,
{
    let v = chars_of(api_key);
    if v.len() == 0 || starts_with_lit(v.as_slice(), "your_") {
        Err("Tavily API key not configured \u{2014} add TAVILY_API_KEY to .env".to_owned())
    } else {
        Ok(())
    }
}

/// The error for a search answered with a failure status.
pub fn search_status_error(status: &str) -> (r: String)
    ensures
        r@ == "Search API error: "@ + status@,
{
    concat("Search API error: ", status)
}

/// A hit as kept: its content cut to `SEARCH_SNIPPET_CHARS` characters.
pub fn search_result(title: String, url: String, content: &str) -> (r: SearchResult)
    ensures
        r.title == title,
        r.url == url,
        r.content@ == take_chars(content@, SEARCH_SNIPPET_CHARS as nat),
{
    SearchResult { title, url, content: take_chars_exec(content, SEARCH_SNIPPET_CHARS) }
}

} // verus!
