//! The route cache key, and when the cache is bypassed.
use vstd::prelude::*;
use crate::codec::xxh64_hash;
use crate::number::hex_digits;
use crate::text::{split_on, last_prefixed, has_substring};

verus! {

/// The format and limit the key is computed from: the last `format=` and
/// `limit=` values of the query, `rss` and nothing by default.
pub open spec fn spec_cache_key_input(path: Seq<char>, query: Option<Seq<char>>) -> Seq<char> {
    let q = match query {
        Some(q) => q,
        None => Seq::<char>::empty(),
    };
    let pairs = split_on(q, '&');
    let format = match last_prefixed(pairs, "format="@) {
        Some(v) => v,
        None => "rss"@,
    };
    let limit = match last_prefixed(pairs, "limit="@) {
        Some(v) => v,
        None => Seq::<char>::empty(),
    };
    path + ":"@ + format + ":"@ + limit
}

/// `openrss:route:` and the XXH64 (seed 0) of the key input, as sixteen
/// hexadecimal digits.
pub open spec fn spec_cache_key(path: Seq<char>, query: Option<Seq<char>>) -> Seq<char> {
    "openrss:route:"@ + hex_digits(
        xxh64_hash(vstd::utf8::encode_utf8(spec_cache_key_input(path, query)), 0) as nat,
        16,
    )
}

/// Compute the cache key of a request from its path and query.
pub fn compute_cache_key(path: &str, query: Option<&str>) -> (key: String)
    ensures
        key@ == spec_cache_key(path@, match query {
            Some(q) => Some(q@),
            None => None,
        }),
{
    let q = match query {
        Some(q) => q,
        None => "",
    };
    proof {
        reveal_strlit("");
    }
    let pairs = crate::text::split_char(q, '&');
    let format = match crate::text::last_prefixed_exec(&pairs, "format=") {
        Some(v) => v,
        None => String::from_str("rss"),
    };
    let limit = match crate::text::last_prefixed_exec(&pairs, "limit=") {
        Some(v) => v,
        None => String::new(),
    };
    let mut input = String::from_str(path);
    input.append(":");
    input.append(format.as_str());
    input.append(":");
    input.append(limit.as_str());
    let hash = crate::codec::xxh64_of(input.as_str(), 0);
    let mut key = String::from_str("openrss:route:");
    key.append(crate::number::hex16(hash).as_str());
    key
}

/// A request without a query and one asking for `format=rss` share a cache
/// entry: RSS is the default format.
pub proof fn law_cache_key_default_format(path: Seq<char>)
    ensures
        spec_cache_key(path, None) == spec_cache_key(path, Some("format=rss"@)),
{
    reveal_strlit("format=rss");
    reveal_strlit("format=");
    reveal_strlit("limit=");
    reveal_strlit("rss");
    let q = "format=rss"@;
    assert(!q.contains('&')) by {
        if q.contains('&') {
            let k = choose|k: int| 0 <= k < q.len() && q[k] == '&';
        }
    }
    crate::text::lemma_split_on_no_sep(q, '&');
    crate::text::lemma_split_on_no_sep(Seq::<char>::empty(), '&');
    let pq = split_on(q, '&');
    let pn = split_on(Seq::<char>::empty(), '&');
    assert(pq.drop_last() =~= Seq::<Seq<char>>::empty());
    assert(pn.drop_last() =~= Seq::<Seq<char>>::empty());
    assert(q.take(7) =~= "format="@);
    assert(q.skip(7) =~= "rss"@);
    assert(q.take(6) != "limit="@) by {
        assert(q.take(6)[0] != "limit="@[0]);
    }
    assert(pq.last() == q);
    assert(pn.last() == Seq::<char>::empty());
    assert(crate::text::strip_prefix(q, "format="@) == Some("rss"@));
    assert(crate::text::strip_prefix(q, "limit="@) is None);
    assert(last_prefixed(pq, "format="@) == Some("rss"@));
    assert(last_prefixed(pq.drop_last(), "limit="@) is None);
    assert(last_prefixed(pq, "limit="@) is None);
    assert(crate::text::strip_prefix(Seq::<char>::empty(), "format="@) is None);
    assert(crate::text::strip_prefix(Seq::<char>::empty(), "limit="@) is None);
    assert(last_prefixed(pn.drop_last(), "format="@) is None);
    assert(last_prefixed(pn.drop_last(), "limit="@) is None);
    assert(last_prefixed(pn, "format="@) is None);
    assert(last_prefixed(pn, "limit="@) is None);
    assert(spec_cache_key_input(path, None) =~= spec_cache_key_input(path, Some(q)));
}

/// Only the path and the last `format=` and `limit=` values make the key:
/// two requests for the same path that agree on those share a cache entry,
/// whatever their other parameters.
pub proof fn law_cache_key_ignores_other_params(path: Seq<char>, q1: Option<Seq<char>>, q2: Option<Seq<char>>)
    requires
        last_prefixed(split_on(match q1 { Some(q) => q, None => Seq::<char>::empty() }, '&'), "format="@)
            == last_prefixed(split_on(match q2 { Some(q) => q, None => Seq::<char>::empty() }, '&'), "format="@),
        last_prefixed(split_on(match q1 { Some(q) => q, None => Seq::<char>::empty() }, '&'), "limit="@)
            == last_prefixed(split_on(match q2 { Some(q) => q, None => Seq::<char>::empty() }, '&'), "limit="@),
    ensures
        spec_cache_key(path, q1) == spec_cache_key(path, q2),
{
    assert(spec_cache_key_input(path, q1) == spec_cache_key_input(path, q2));
}

/// The request asked to bypass the cache (`Cache-Control` holds `no-cache`).
pub fn skips_cache(cache_control: Option<&str>) -> (b: bool)
    ensures
        b == (match cache_control {
            Some(v) => has_substring(v@, "no-cache"@),
            None => false,
        }),
{
    match cache_control {
        Some(v) => crate::text::str_contains(v, "no-cache"),
        None => false,
    }
}

} // verus!
