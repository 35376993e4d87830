//! Access control: with an access key configured, a request must carry the
//! key itself or the MD5 code of its path and the key, unless its path is
//! whitelisted.
use vstd::prelude::*;
use crate::codec::{md5_digest, decoded_or_empty};
use crate::number::hex_bytes;
use crate::text::{split_on, split_once};

verus! {

/// Paths that bypass access control.
pub const WHITELIST: [&'static str; 4] = ["/", "/healthz", "/robots.txt", "/favicon.ico"];

pub open spec fn spec_whitelisted(path: Seq<char>) -> bool {
    path == "/"@ || path == "/healthz"@ || path == "/robots.txt"@ || path == "/favicon.ico"@
}

/// The path bypasses access control.
pub fn is_whitelisted(path: &str) -> (b: bool)
    ensures
        b == spec_whitelisted(path@),
{
    crate::text::str_eq(path, "/") || crate::text::str_eq(path, "/healthz") || crate::text::str_eq(
        path,
        "/robots.txt",
    ) || crate::text::str_eq(path, "/favicon.ico")
}

/// The (still encoded) value of the first `name=value` pair.
pub open spec fn first_param(pairs: Seq<Seq<char>>, name: Seq<char>) -> Option<Seq<char>>
    decreases pairs.len(),
{
    if pairs.len() == 0 {
        None
    } else {
        match split_once(pairs[0], '=') {
            Some((k, v)) => if k == name {
                Some(v)
            } else {
                first_param(pairs.drop_first(), name)
            },
            None => first_param(pairs.drop_first(), name),
        }
    }
}

/// The MD5 of the path followed by the key, in lower-case hexadecimal.
pub open spec fn spec_access_code(path: Seq<char>, key: Seq<char>) -> Seq<char> {
    hex_bytes(md5_digest(vstd::utf8::encode_utf8(path + key)))
}

/// Whether a request passes: open access without a key; otherwise a
/// whitelisted path, or a first `key` parameter equal to the key, or a first
/// `code` parameter equal to the access code (values percent-decoded).
pub open spec fn spec_access_allowed(access_key: Option<Seq<char>>, path: Seq<char>, query: Option<Seq<char>>) -> bool {
    match access_key {
        None => true,
        Some(k) => {
            let pairs = split_on(match query { Some(q) => q, None => Seq::<char>::empty() }, '&');
            ||| spec_whitelisted(path)
            ||| (first_param(pairs, "key"@) matches Some(v) && decoded_or_empty(v) == k)
            ||| (first_param(pairs, "code"@) matches Some(v) && decoded_or_empty(v) == spec_access_code(path, k))
        },
    }
}

/// Compute MD5 access code for a given path and key.
pub fn compute_access_code(path: &str, key: &str) -> (code: String)
    ensures
        code@ == spec_access_code(path@, key@),
        code@.len() == 32,
{
    let mut input = String::from_str(path);
    input.append(key);
    let digest = crate::codec::md5_of(input.as_str());
    proof {
        crate::number::lemma_hex_bytes_len(digest@);
    }
    crate::number::hex_of_bytes(&digest)
}

proof fn lemma_first_param_skip(pairs: Seq<Seq<char>>, name: Seq<char>, i: int)
    requires
        0 <= i < pairs.len(),
    ensures
        first_param(pairs.skip(i), name) == (match split_once(pairs[i], '=') {
            Some((k, v)) => if k == name {
                Some(v)
            } else {
                first_param(pairs.skip(i + 1), name)
            },
            None => first_param(pairs.skip(i + 1), name),
        }),
{
    assert(pairs.skip(i).drop_first() =~= pairs.skip(i + 1));
    assert(pairs.skip(i)[0] == pairs[i]);
}

/// The decoded value of the first `name=value` pair of the query.
fn find_param(pairs: &Vec<String>, name: &str) -> (r: Option<String>)
    ensures
        crate::data::opt_view(r) == (match first_param(crate::text::views(pairs@), name@) {
            Some(v) => Some(decoded_or_empty(v)),
            None => None,
        }),
{
    let ghost ps = crate::text::views(pairs@);
    let mut i: usize = 0;
    assert(ps.skip(0) =~= ps);
    while i < pairs.len()
        invariant
            i <= pairs.len(),
            ps == crate::text::views(pairs@),
            first_param(ps, name@) == first_param(ps.skip(i as int), name@),
        decreases pairs.len() - i,
    {
        proof {
            lemma_first_param_skip(ps, name@, i as int);
        }
        let pv = crate::text::chars_of(pairs[i].as_str());
        let eq = crate::text::find_char(&pv, '=', 0);
        assert(pv@.skip(0) == pv@);
        proof {
            crate::text::lemma_index_of_char(pv@, '=');
        }
        if eq < pv.len() {
            let k = crate::text::string_of(&pv, 0, eq);
            if crate::text::str_eq(k.as_str(), name) {
                let v = crate::text::string_of(&pv, eq + 1, pv.len());
                return Some(crate::codec::decode_or_empty(v.as_str()));
            }
        }
        i = i + 1;
    }
    assert(ps.skip(i as int) =~= Seq::<Seq<char>>::empty());
    None
}

/// Whether a request for `path` with this query passes access control.
pub fn access_allowed(access_key: Option<&str>, path: &str, query: Option<&str>) -> (b: bool)
    ensures
        b == spec_access_allowed(crate::text::opt_slice_view(access_key), path@, crate::text::opt_slice_view(query)),
{
    let key = match access_key {
        Some(k) => k,
        None => return true,
    };
    if is_whitelisted(path) {
        return true;
    }
    let q = match query {
        Some(q) => q,
        None => "",
    };
    proof {
        reveal_strlit("");
    }
    let pairs = crate::text::split_char(q, '&');
    match find_param(&pairs, "key") {
        Some(given) => {
            if crate::text::str_eq(given.as_str(), key) {
                return true;
            }
        },
        None => {},
    }
    match find_param(&pairs, "code") {
        Some(code) => {
            let expected = compute_access_code(path, key);
            crate::text::str_eq(code.as_str(), expected.as_str())
        },
        None => false,
    }
}

/// Without an access key everything passes; with one, whitelisted paths
/// pass whatever the query, and so does a request whose `code` parameter is
/// the access code of its path (when no earlier `code` parameter precedes it).
pub proof fn law_access_control(access_key: Option<Seq<char>>, path: Seq<char>, query: Option<Seq<char>>)
    ensures
        access_key is None ==> spec_access_allowed(access_key, path, query),
        spec_whitelisted(path) ==> spec_access_allowed(access_key, path, query),
        access_key matches Some(k) && (first_param(
            split_on(match query { Some(q) => q, None => Seq::<char>::empty() }, '&'),
            "code"@,
        ) matches Some(v) && decoded_or_empty(v) == spec_access_code(path, k))
            ==> spec_access_allowed(access_key, path, query),
{
}

} // verus!
