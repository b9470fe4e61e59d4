//! Addresses and checks of the long-term memory store (a vector database).

use vstd::prelude::*;
use crate::text::{
    chars_of, concat, decimal, decimal_string, ends_with, string_from_chars, strip_all_suffix,
    strip_all_suffix_exec,
};

verus! {

broadcast use vstd::string::group_string_axioms;

/// The collection that holds the memories.
pub const COLLECTION: &'static str = "cluddy_memories_v2";

/// Dimension of the embedding vectors.
pub const VECTOR_SIZE: usize = 256;

/// Memories returned by a search.
pub const SEARCH_LIMIT: u64 = 5;

/// A base URL without trailing slashes.
pub open spec fn spec_normalize_base_url(url: Seq<char>) -> Seq<char> {
    strip_all_suffix(url, "/"@)
}

/// A base URL without trailing slashes.
pub fn normalize_base_url(url: &str) -> (r: String)
    ensures
        r@ == spec_normalize_base_url(url@),
{
    let v = chars_of(url);
    let slash = chars_of("/");
    let k = strip_all_suffix_exec(v.as_slice(), slash.as_slice());
    assert(v@.subrange(0, k as int) =~= v@.take(k as int));
    string_from_chars(&v[0..k])
}

/// Normalizing a base URL twice changes nothing more.
pub proof fn law_normalize_idempotent(url: Seq<char>)
    ensures
        spec_normalize_base_url(spec_normalize_base_url(url)) == spec_normalize_base_url(url),
    decreases url.len(),
{
    if "/"@.len() > 0 && ends_with(url, "/"@) {
        law_normalize_idempotent(url.take(url.len() - "/"@.len()));
    }
}

/// Normalizing a base URL removes exactly its trailing slashes: the result is
/// the URL up to where only slashes follow, and it does not end with a slash.
pub proof fn law_normalize_drops_trailing_slashes(url: Seq<char>)
    ensures
        ({
            let r = spec_normalize_base_url(url);
            &&& r.len() <= url.len()
            &&& url.take(r.len() as int) == r
            &&& forall|i: int| r.len() <= i < url.len() ==> url[i] == '/'
            &&& r.len() == 0 || r.last() != '/'
        }),
    decreases url.len(),
{
    reveal_strlit("/");
    if ends_with(url, "/"@) {
        let t = url.take(url.len() - 1);
        law_normalize_drops_trailing_slashes(t);
        let r = spec_normalize_base_url(url);
        assert(r == spec_normalize_base_url(t));
        assert(url.skip(url.len() - 1)[0] == '/');
        assert forall|i: int| r.len() <= i < url.len() implies url[i] == '/' by {
            if i < url.len() - 1 {
                assert(t[i] == url[i]);
            }
        }
        assert(url.take(r.len() as int) =~= t.take(r.len() as int));
    } else {
        assert(url.take(url.len() as int) =~= url);
        if url.len() > 0 && url.last() == '/' {
            assert(url.skip(url.len() - 1) =~= "/"@);
        }
    }
}

/// The URL of the memory collection.
pub fn collection_url(base_url: &str) -> (r: String)
    ensures
        r@ == base_url@ + "/collections/"@ + COLLECTION@,
{
    let mut r = concat(base_url, "/collections/");
    r.append(COLLECTION);
    r
}

/// The URL for adding memories.
pub fn points_url(base_url: &str) -> (r: String)
    ensures
        r@ == base_url@ + "/collections/"@ + COLLECTION@ + "/points"@,
{
    let mut r = collection_url(base_url);
    r.append("/points");
    r
}

/// The URL for searching memories.
pub fn search_url(base_url: &str) -> (r: String)
    ensures
        r@ == base_url@ + "/collections/"@ + COLLECTION@ + "/points/search"@,
{
    let mut r = collection_url(base_url);
    r.append("/points/search");
    r
}

/// An embedding must have `VECTOR_SIZE` components.
pub fn check_embedding_len(len: usize) -> (r: Result<(), String>)
    ensures
        r is Ok <==> len == VECTOR_SIZE,
        r matches Err(e) ==> e@ == "expected 256 dims, got "@ + decimal(len as nat),
{
    if len == VECTOR_SIZE {
        Ok(())
    } else {
        let n = decimal_string(len as u64);
        Err(concat("expected 256 dims, got ", n.as_str()))
    }
}

/// Whether the memory store is configured: both its URL and its key are set.
pub fn memory_configured(url: &str, api_key: &str) -> (r: bool)
    ensures
        r == (url@.len() > 0 && api_key@.len() > 0),
{
    url.unicode_len() > 0 && api_key.unicode_len() > 0
}

} // verus!
