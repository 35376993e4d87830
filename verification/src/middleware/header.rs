//! Response headers: the entity tag of a feed, the `Cache-Control` value,
//! and when a conditional request is answered with 304 Not Modified.
use vstd::prelude::*;
use crate::codec::xxh64_hash;
use crate::data::{Data, DataItem, ItemView, item_views};
use crate::number::{hex_char, hex_digits, decimal};
use crate::text::trim_char;

verus! {

/// What an item contributes to the entity tag: its title, link, description
/// and guid (absent ones contribute nothing).
pub open spec fn etag_item_part(v: ItemView) -> Seq<char> {
    v.title + (match v.link {
        Some(l) => l,
        None => Seq::<char>::empty(),
    }) + (match v.description {
        Some(d) => d,
        None => Seq::<char>::empty(),
    }) + (match v.guid {
        Some(g) => g,
        None => Seq::<char>::empty(),
    })
}

/// The text the entity tag hashes: the feed title, then each item's part.
pub open spec fn etag_input(title: Seq<char>, items: Seq<ItemView>) -> Seq<char>
    decreases items.len(),
{
    if items.len() == 0 {
        title
    } else {
        etag_input(title, items.drop_last()) + etag_item_part(items.last())
    }
}

/// The entity tag: sixteen hexadecimal digits of the XXH64 (seed 0) of the
/// title and item contents.
pub open spec fn spec_etag(title: Seq<char>, items: Seq<ItemView>) -> Seq<char> {
    hex_digits(xxh64_hash(vstd::utf8::encode_utf8(etag_input(title, items)), 0) as nat, 16)
}

fn append_opt(s: &mut String, o: &Option<String>)
    ensures
        final(s)@ == old(s)@ + (match crate::data::opt_view(*o) {
            Some(t) => t,
            None => Seq::<char>::empty(),
        }),
{
    match o {
        Some(t) => s.append(t.as_str()),
        None => {
            assert(old(s)@ + Seq::<char>::empty() =~= old(s)@);
        },
    }
}

/// Compute ETag from Data by hashing the title and the items' title, link,
/// description and guid; the `updated` date and other metadata are left out.
pub fn compute_etag(data: &Data) -> (etag: String)
    ensures
        etag@ == spec_etag(data.title@, item_views(data.items@)),
{
    let mut input = data.title.clone();
    let ghost views = item_views(data.items@);
    let mut i: usize = 0;
    while i < data.items.len()
        invariant
            i <= data.items.len(),
            views == item_views(data.items@),
            input@ == etag_input(data.title@, views.take(i as int)),
        decreases data.items.len() - i,
    {
        let item: &DataItem = &data.items[i];
        input.append(item.title.as_str());
        append_opt(&mut input, &item.link);
        append_opt(&mut input, &item.description);
        append_opt(&mut input, &item.guid);
        assert(views.take(i + 1).drop_last() =~= views.take(i as int));
        assert(views.take(i + 1).last() == item@);
        assert(input@ =~= etag_input(data.title@, views.take(i + 1)));
        i = i + 1;
    }
    assert(views.take(data.items.len() as int) =~= views);
    crate::number::hex16(crate::codec::xxh64_of(input.as_str(), 0))
}

/// The entity tag depends on the title and the items' contents only: the
/// `updated` date, the link, language, image and the other metadata of the
/// feed do not change it.
pub proof fn law_etag_ignores_metadata(d1: Data, d2: Data)
    requires
        d1.title@ == d2.title@,
        item_views(d1.items@) == item_views(d2.items@),
    ensures
        spec_etag(d1.title@, item_views(d1.items@)) == spec_etag(d2.title@, item_views(d2.items@)),
{
}

/// The quoted form of an entity tag, for the `ETag` header.
pub fn etag_header_value(etag: &str) -> (r: String)
    ensures
        r@ == "\""@ + etag@ + "\""@,
{
    let mut r = String::from_str("\"");
    r.append(etag);
    r.append("\"");
    r
}

/// The `If-None-Match` header names this entity tag (quotes ignored).
pub fn etag_matches(if_none_match: &str, etag: &str) -> (b: bool)
    ensures
        b == (trim_char(if_none_match@, '"') == etag@),
{
    let trimmed = crate::text::trim_char_exec(if_none_match, '"');
    crate::text::str_eq(trimmed.as_str(), etag)
}

/// The `Cache-Control` value: public, for `max_age` seconds.
pub fn cache_control_value(max_age: u64) -> (r: String)
    ensures
        r@ == "public, max-age="@ + decimal(max_age as nat),
{
    let mut r = String::from_str("public, max-age=");
    r.append(crate::number::u64_to_decimal(max_age).as_str());
    r
}

/// The headers every response gets: CORS for `GET` from anywhere, no
/// content-type sniffing, and public caching for `max_age` seconds.
pub open spec fn spec_common_headers(max_age: u64) -> Seq<(Seq<char>, Seq<char>)> {
    seq![
        ("access-control-allow-origin"@, "*"@),
        ("access-control-allow-methods"@, "GET"@),
        ("x-content-type-options"@, "nosniff"@),
        ("cache-control"@, "public, max-age="@ + decimal(max_age as nat)),
    ]
}

/// The headers every response gets, as lower-case names and values.
pub fn common_headers(max_age: u64) -> (h: Vec<(&'static str, String)>)
    ensures
        h@.len() == spec_common_headers(max_age).len(),
        forall|i: int| 0 <= i < h@.len() ==> (#[trigger] h@[i].0@, h@[i].1@) == spec_common_headers(max_age)[i],
{
    let h = vec![
        ("access-control-allow-origin", String::from_str("*")),
        ("access-control-allow-methods", String::from_str("GET")),
        ("x-content-type-options", String::from_str("nosniff")),
        ("cache-control", cache_control_value(max_age)),
    ];
    assert forall|i: int| 0 <= i < h@.len() implies (#[trigger] h@[i].0@, h@[i].1@) == spec_common_headers(max_age)[i] by {
        if i == 3 {
            assert(h@[3].1@ == "public, max-age="@ + decimal(max_age as nat));
        }
    }
    h
}

/// The quoted form of an entity tag.
pub open spec fn quoted(t: Seq<char>) -> Seq<char> {
    seq!['"'] + t + seq!['"']
}

/// How a response carrying a feed is answered: 304 Not Modified when the
/// request's `If-None-Match` names the feed's entity tag, the feed itself
/// otherwise; either way with the quoted tag as its `ETag`.
pub enum EtagAnswer {
    NotModified(String),
    Send(String),
}

/// The request names this entity tag in `If-None-Match` (quotes ignored).
pub open spec fn spec_names_etag(if_none_match: Option<Seq<char>>, tag: Seq<char>) -> bool {
    match if_none_match {
        Some(x) => trim_char(x, '"') == tag,
        None => false,
    }
}

/// The answer to a request with this `If-None-Match` for this feed.
pub fn etag_answer(data: &Data, if_none_match: Option<&str>) -> (a: EtagAnswer)
    ensures
        (a is NotModified) == spec_names_etag(crate::text::opt_slice_view(if_none_match), spec_etag(data.title@, item_views(data.items@))),
        match a {
            EtagAnswer::NotModified(h) => h@ == quoted(spec_etag(data.title@, item_views(data.items@))),
            EtagAnswer::Send(h) => h@ == quoted(spec_etag(data.title@, item_views(data.items@))),
        },
{
    let etag = compute_etag(data);
    let header = etag_header_value(etag.as_str());
    proof {
        reveal_strlit("\"");
        assert(header@ =~= quoted(etag@));
    }
    match if_none_match {
        Some(inm) => if etag_matches(inm, etag.as_str()) {
            EtagAnswer::NotModified(header)
        } else {
            EtagAnswer::Send(header)
        },
        None => EtagAnswer::Send(header),
    }
}

proof fn lemma_hex_digits_unquoted(n: nat, width: nat)
    ensures
        forall|i: int| 0 <= i < hex_digits(n, width).len() ==> #[trigger] hex_digits(n, width)[i] != '"',
        hex_digits(n, width).len() == width,
    decreases width,
{
    if width > 0 {
        lemma_hex_digits_unquoted(n / 16, (width - 1) as nat);
        let d = n % 16;
        assert(hex_char(d) != '"');
    }
}

/// Trimming the quotes of a quoted text without quotes gives the text back.
proof fn lemma_trim_quoted(t: Seq<char>)
    requires
        t.len() > 0,
        forall|i: int| 0 <= i < t.len() ==> #[trigger] t[i] != '"',
    ensures
        trim_char(quoted(t), '"') == t,
{
    let q = quoted(t);
    assert(q[1] == t[0]);
    assert(q[t.len() as int] == t[t.len() - 1]);
    crate::text::lemma_count_leading_at(q, '"', 1);
    let rest = q.skip(1);
    assert(rest =~= t + seq!['"']);
    crate::text::lemma_count_trailing_at(rest, '"', t.len() as int);
    assert(rest.take(rest.len() - 1) =~= t);
}

/// A client that sends back the `ETag` it was given, for a feed with the
/// same title and items, is answered 304 Not Modified.
pub proof fn law_sent_etag_revalidates(title: Seq<char>, items: Seq<ItemView>)
    ensures
        spec_names_etag(Some(quoted(spec_etag(title, items))), spec_etag(title, items)),
{
    let tag = spec_etag(title, items);
    lemma_hex_digits_unquoted(xxh64_hash(vstd::utf8::encode_utf8(etag_input(title, items)), 0) as nat, 16);
    lemma_trim_quoted(tag);
}

} // verus!
