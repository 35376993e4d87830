//! JSON Feed 1.1 documents, written by `serde_json`.
use vstd::prelude::*;
use crate::data::{Data, DataItem, ItemView, opt_view, item_views};
use crate::error::AppError;
use crate::feed::atom::{rfc3339_ok, rfc3339_text};
use crate::time::rfc3339;

verus! {

#[verifier::external_type_specification]
#[verifier::external_body]
pub struct ExJsonValue(serde_json::Value);

/// A JSON value, as plain values: objects keep their members in order.
pub enum JsonTree {
    Null,
    Bool(bool),
    Number(u64),
    Str(Seq<char>),
    Array(Seq<JsonTree>),
    Object(Seq<(Seq<char>, JsonTree)>),
}

/// What a `serde_json::Value` holds.
pub uninterp spec fn json_tree(v: serde_json::Value) -> JsonTree;

/// The text `serde_json::to_string_pretty` writes for a value.
pub uninterp spec fn json_pretty(t: JsonTree) -> Seq<char>;

/// The members' names are pairwise distinct.
pub open spec fn keys_distinct(m: Seq<(Seq<char>, JsonTree)>) -> bool {
    forall|i: int, j: int| 0 <= i < j < m.len() ==> #[trigger] m[i].0 != #[trigger] m[j].0
}

pub open spec fn trees(v: Seq<serde_json::Value>) -> Seq<JsonTree> {
    v.map_values(|x: serde_json::Value| json_tree(x))
}

pub open spec fn members(v: Seq<(String, serde_json::Value)>) -> Seq<(Seq<char>, JsonTree)> {
    v.map_values(|p: (String, serde_json::Value)| (p.0@, json_tree(p.1)))
}

/// `Value::String`.
#[verifier::external_body]
fn json_str(s: &str) -> (v: serde_json::Value)
    ensures
        json_tree(v) == JsonTree::Str(s@),
{
    serde_json::Value::String(s.to_string())
}

/// `Value::from(u64)`, a JSON number.
#[verifier::external_body]
fn json_u64(n: u64) -> (v: serde_json::Value)
    ensures
        json_tree(v) == JsonTree::Number(n),
{
    serde_json::Value::from(n)
}

/// `Value::Array`.
#[verifier::external_body]
fn json_array(items: Vec<serde_json::Value>) -> (v: serde_json::Value)
    ensures
        json_tree(v) == JsonTree::Array(trees(items@)),
{
    serde_json::Value::Array(items)
}

/// `Value::Object` of a `Map` collected from the members (an insertion-ordered
/// map under `preserve_order`; with distinct names each member keeps its
/// place).
#[verifier::external_body]
fn json_object(entries: Vec<(String, serde_json::Value)>) -> (v: serde_json::Value)
    requires
        keys_distinct(members(entries@)),
    ensures
        json_tree(v) == JsonTree::Object(members(entries@)),
{
    serde_json::Value::Object(entries.into_iter().collect())
}

/// `serde_json::to_string_pretty` of a value (a `Value` has string keys
/// only and always serialises).
#[verifier::external_body]
fn json_to_string_pretty(v: &serde_json::Value) -> (r: Result<String, String>)
    ensures
        r is Ok,
        r matches Ok(s) ==> s@ == json_pretty(json_tree(*v)),
{
    serde_json::to_string_pretty(v).map_err(|e| e.to_string())
}

/// A lower-case hexadecimal digit.
pub open spec fn is_lower_hex(c: char) -> bool {
    ('0' <= c <= '9') || ('a' <= c <= 'f')
}

/// The hyphenated lower-case notation of a random (version 4) UUID:
/// `xxxxxxxx-xxxx-4xxx-Nxxx-xxxxxxxxxxxx`, with `N` one of `8`, `9`, `a`, `b`.
pub open spec fn is_hyphenated_uuid(s: Seq<char>) -> bool {
    &&& s.len() == 36
    &&& s[14] == '4'
    &&& (s[19] == '8' || s[19] == '9' || s[19] == 'a' || s[19] == 'b')
    &&& forall|i: int|
        0 <= i < 36 ==> if i == 8 || i == 13 || i == 18 || i == 23 {
            s[i] == '-'
        } else {
            is_lower_hex(#[trigger] s[i])
        }
}

/// `uuid::Uuid::new_v4().to_string()`: a random UUID, hyphenated.
#[verifier::external_body]
fn fresh_uuid() -> (s: String)
    ensures
        is_hyphenated_uuid(s@),
{
    uuid::Uuid::new_v4().to_string()
}

pub open spec fn str_member(key: Seq<char>, s: Seq<char>) -> Seq<(Seq<char>, JsonTree)> {
    seq![(key, JsonTree::Str(s))]
}

/// A string member where there is a value; members that would be `null` are
/// left out.
pub open spec fn opt_str_member(key: Seq<char>, o: Option<Seq<char>>) -> Seq<(Seq<char>, JsonTree)> {
    match o {
        Some(s) => str_member(key, s),
        None => Seq::empty(),
    }
}

/// The id of an item: its guid, else its link, else the fresh id it was
/// given.
pub open spec fn json_item_id(item: ItemView, fresh: Seq<char>) -> Seq<char> {
    match item.guid {
        Some(g) => g,
        None => match item.link {
            Some(l) => l,
            None => fresh,
        },
    }
}

pub open spec fn authors_member(item: ItemView) -> Seq<(Seq<char>, JsonTree)> {
    match item.author {
        Some(a) => seq![("authors"@, JsonTree::Array(seq![JsonTree::Object(str_member("name"@, a))]))],
        None => Seq::empty(),
    }
}

pub open spec fn tags_member(item: ItemView) -> Seq<(Seq<char>, JsonTree)> {
    if item.category.len() == 0 {
        Seq::empty()
    } else {
        seq![("tags"@, JsonTree::Array(item.category.map_values(|c: Seq<char>| JsonTree::Str(c))))]
    }
}

/// An attachment: its address, its MIME type (`application/octet-stream`
/// when unknown) and its size where known.
pub open spec fn attachment_tree(item: ItemView, url: Seq<char>) -> JsonTree {
    JsonTree::Object(
        str_member("url"@, url) + str_member(
            "mime_type"@,
            match item.enclosure_type {
                Some(t) => t,
                None => "application/octet-stream"@,
            },
        ) + match item.enclosure_length {
            Some(n) => seq![("size_in_bytes"@, JsonTree::Number(n))],
            None => Seq::empty(),
        },
    )
}

pub open spec fn attachments_member(item: ItemView) -> Seq<(Seq<char>, JsonTree)> {
    match item.enclosure_url {
        Some(u) => seq![("attachments"@, JsonTree::Array(seq![attachment_tree(item, u)]))],
        None => Seq::empty(),
    }
}

pub open spec fn date_member(item: ItemView) -> Seq<(Seq<char>, JsonTree)> {
    match item.pub_date {
        Some(t) => str_member("date_published"@, rfc3339_text(t)),
        None => Seq::empty(),
    }
}

/// The members of one item, in the order JSON Feed lists them.
pub open spec fn json_item_members(item: ItemView, fresh: Seq<char>) -> Seq<(Seq<char>, JsonTree)> {
    str_member("id"@, json_item_id(item, fresh)) + opt_str_member("url"@, item.link) + str_member("title"@, item.title)
        + opt_str_member("content_html"@, item.description) + date_member(item) + authors_member(item) + tags_member(
        item,
    ) + attachments_member(item)
}

/// The members of the feed before its items.
pub open spec fn json_feed_head(data: Data) -> Seq<(Seq<char>, JsonTree)> {
    str_member("version"@, "https://jsonfeed.org/version/1.1"@) + str_member("title"@, data.title@) + opt_str_member(
        "home_page_url"@,
        opt_view(data.link),
    ) + opt_str_member("feed_url"@, opt_view(data.link)) + opt_str_member("description"@, opt_view(data.description))
        + opt_str_member("icon"@, opt_view(data.image)) + opt_str_member("language"@, opt_view(data.language))
}

/// The JSON Feed document of a feed, where item `i` takes `fresh[i]` as its
/// id if it has neither guid nor link.
pub open spec fn spec_json_feed(data: Data, fresh: Seq<Seq<char>>) -> JsonTree {
    let items = item_views(data.items@);
    JsonTree::Object(
        json_feed_head(data) + seq![
            (
                "items"@,
                JsonTree::Array(
                    Seq::new(items.len(), |i: int| JsonTree::Object(json_item_members(items[i], fresh[i]))),
                ),
            ),
        ],
    )
}

/// Every item date can be written.
pub open spec fn json_dates_ok(data: Data) -> bool {
    forall|i: int| 0 <= i < data.items@.len() ==> rfc3339_ok(#[trigger] data.items@[i].pub_date)
}

/// Appends a string member.
fn push_str_member(m: &mut Vec<(String, serde_json::Value)>, key: &str, s: &str)
    ensures
        members(final(m)@) == members(old(m)@) + str_member(key@, s@),
{
    m.push((String::from_str(key), json_str(s)));
    assert(members(m@) =~= members(old(m)@) + str_member(key@, s@));
}

/// Appends a string member where there is a value.
fn push_opt_str_member(m: &mut Vec<(String, serde_json::Value)>, key: &str, o: &Option<String>)
    ensures
        members(final(m)@) == members(old(m)@) + opt_str_member(key@, opt_view(*o)),
{
    match o {
        Some(s) => push_str_member(m, key, s.as_str()),
        None => {
            assert(members(m@) =~= members(m@) + Seq::<(Seq<char>, JsonTree)>::empty());
        },
    }
}

/// Appends one member.
fn push_member(m: &mut Vec<(String, serde_json::Value)>, key: &str, v: serde_json::Value)
    ensures
        members(final(m)@) == members(old(m)@).push((key@, json_tree(v))),
{
    m.push((String::from_str(key), v));
    assert(members(m@) =~= members(old(m)@).push((key@, json_tree(v))));
}

/// The `tags` array of an item.
fn tags_value(cats: &Vec<String>) -> (v: serde_json::Value)
    ensures
        json_tree(v) == JsonTree::Array(
            crate::text::views(cats@).map_values(|c: Seq<char>| JsonTree::Str(c)),
        ),
{
    let mut out: Vec<serde_json::Value> = Vec::new();
    let mut i: usize = 0;
    while i < cats.len()
        invariant
            i <= cats.len(),
            out@.len() == i,
            forall|j: int| 0 <= j < i ==> #[trigger] json_tree(out@[j]) == JsonTree::Str(cats@[j]@),
        decreases cats.len() - i,
    {
        out.push(json_str(cats[i].as_str()));
        i = i + 1;
    }
    assert(trees(out@) =~= crate::text::views(cats@).map_values(|c: Seq<char>| JsonTree::Str(c)));
    json_array(out)
}

/// The `attachments` member of an item with an enclosure.
fn push_attachments(m: &mut Vec<(String, serde_json::Value)>, item: &DataItem)
    ensures
        members(final(m)@) == members(old(m)@) + attachments_member(item@),
{
    proof {
        reveal_strlit("url");
        reveal_strlit("mime_type");
        reveal_strlit("size_in_bytes");
    }
    match &item.enclosure_url {
        Some(u) => {
            let mut a: Vec<(String, serde_json::Value)> = Vec::new();
            assert(members(a@) =~= Seq::<(Seq<char>, JsonTree)>::empty());
            push_str_member(&mut a, "url", u.as_str());
            match &item.enclosure_type {
                Some(t) => push_str_member(&mut a, "mime_type", t.as_str()),
                None => push_str_member(&mut a, "mime_type", "application/octet-stream"),
            }
            match item.enclosure_length {
                Some(n) => push_member(&mut a, "size_in_bytes", json_u64(n)),
                None => {},
            }
            assert(members(a@) =~= match attachment_tree(item@, u@) {
                JsonTree::Object(s) => s,
                _ => Seq::empty(),
            });
            proof {
                lemma_attachment_keys_distinct(item@, u@);
            }
            let obj = json_object(a);
            let ghost t = json_tree(obj);
            let v = vec![obj];
            assert(trees(v@) =~= seq![t]);
            let arr = json_array(v);
            push_member(m, "attachments", arr);
            assert(members(m@) =~= members(old(m)@) + attachments_member(item@));
        },
        None => {
            assert(members(m@) =~= members(m@) + Seq::<(Seq<char>, JsonTree)>::empty());
        },
    }
}

/// The members of an attachment are named apart.
proof fn lemma_attachment_keys_distinct(item: ItemView, url: Seq<char>)
    ensures
        match attachment_tree(item, url) {
            JsonTree::Object(m) => keys_distinct(m),
            _ => false,
        },
{
    reveal_strlit("url");
    reveal_strlit("mime_type");
    reveal_strlit("size_in_bytes");
    if let JsonTree::Object(m) = attachment_tree(item, url) {
        assert forall|i: int, j: int| 0 <= i < j < m.len() implies #[trigger] m[i].0 != #[trigger] m[j].0 by {
            if m[i].0 == m[j].0 {
                assert(m[i].0.len() == m[j].0.len());
            }
        }
    }
}

/// The members of one item are named apart.
proof fn lemma_item_keys_distinct(item: ItemView, fresh: Seq<char>)
    ensures
        keys_distinct(json_item_members(item, fresh)),
{
    reveal_strlit("id");
    reveal_strlit("url");
    reveal_strlit("title");
    reveal_strlit("content_html");
    reveal_strlit("date_published");
    reveal_strlit("authors");
    reveal_strlit("tags");
    reveal_strlit("attachments");
    let m = json_item_members(item, fresh);
    assert forall|i: int, j: int| 0 <= i < j < m.len() implies #[trigger] m[i].0 != #[trigger] m[j].0 by {
        if m[i].0 == m[j].0 {
            assert(m[i].0.len() == m[j].0.len());
            assert(m[i].0[0] == m[j].0[0]);
        }
    }
}

/// The object of one item; `None` when its date cannot be written.
fn item_value(item: &DataItem, fresh: &String) -> (r: Option<serde_json::Value>)
    ensures
        r is Some <==> rfc3339_ok(item.pub_date),
        r matches Some(v) ==> json_tree(v) == JsonTree::Object(json_item_members(item@, fresh@)),
{
    let mut m: Vec<(String, serde_json::Value)> = Vec::new();
    assert(members(m@) =~= Seq::<(Seq<char>, JsonTree)>::empty());
    match &item.guid {
        Some(g) => push_str_member(&mut m, "id", g.as_str()),
        None => match &item.link {
            Some(l) => push_str_member(&mut m, "id", l.as_str()),
            None => push_str_member(&mut m, "id", fresh.as_str()),
        },
    }
    push_opt_str_member(&mut m, "url", &item.link);
    push_str_member(&mut m, "title", item.title.as_str());
    push_opt_str_member(&mut m, "content_html", &item.description);
    let ghost s4 = members(m@);
    match &item.pub_date {
        Some(t) => match rfc3339(t) {
            Some(s) => push_str_member(&mut m, "date_published", s.as_str()),
            None => return None,
        },
        None => {},
    }
    assert(members(m@) =~= s4 + date_member(item@));
    let ghost s5 = members(m@);
    match &item.author {
        Some(a) => {
            let mut am: Vec<(String, serde_json::Value)> = Vec::new();
            assert(members(am@) =~= Seq::<(Seq<char>, JsonTree)>::empty());
            push_str_member(&mut am, "name", a.as_str());
            assert(members(am@) =~= str_member("name"@, a@));
            let obj = json_object(am);
            let ghost t = json_tree(obj);
            let v = vec![obj];
            assert(trees(v@) =~= seq![t]);
            let arr = json_array(v);
            push_member(&mut m, "authors", arr);
            assert(members(m@) =~= s5 + authors_member(item@));
        },
        None => {},
    }
    assert(members(m@) =~= s5 + authors_member(item@));
    let ghost s6 = members(m@);
    if item.category.len() > 0 {
        push_member(&mut m, "tags", tags_value(&item.category));
    }
    assert(members(m@) =~= s6 + tags_member(item@));
    push_attachments(&mut m, item);
    assert(members(m@) =~= json_item_members(item@, fresh@));
    proof {
        lemma_item_keys_distinct(item@, fresh@);
    }
    Some(json_object(m))
}

/// The members of the feed head are named apart.
proof fn lemma_head_keys_distinct(data: Data)
    ensures
        keys_distinct(json_feed_head(data).push(("items"@, JsonTree::Null))),
{
    reveal_strlit("version");
    reveal_strlit("title");
    reveal_strlit("home_page_url");
    reveal_strlit("feed_url");
    reveal_strlit("description");
    reveal_strlit("icon");
    reveal_strlit("language");
    reveal_strlit("items");
    let m = json_feed_head(data).push(("items"@, JsonTree::Null));
    assert forall|i: int, j: int| 0 <= i < j < m.len() implies #[trigger] m[i].0 != #[trigger] m[j].0 by {
        if m[i].0 == m[j].0 {
            assert(m[i].0.len() == m[j].0.len());
            assert(m[i].0[0] == m[j].0[0]);
        }
    }
}

/// The JSON Feed document of a feed, where item `i` takes `fresh[i]` as its
/// id if it has neither guid nor link; `None` when an item date cannot be
/// written.
pub fn json_feed(data: &Data, fresh: &Vec<String>) -> (r: Option<serde_json::Value>)
    requires
        fresh@.len() == data.items@.len(),
    ensures
        r is Some <==> json_dates_ok(*data),
        r matches Some(v) ==> json_tree(v) == spec_json_feed(*data, crate::text::views(fresh@)),
{
    let mut m: Vec<(String, serde_json::Value)> = Vec::new();
    assert(members(m@) =~= Seq::<(Seq<char>, JsonTree)>::empty());
    push_str_member(&mut m, "version", "https://jsonfeed.org/version/1.1");
    push_str_member(&mut m, "title", data.title.as_str());
    push_opt_str_member(&mut m, "home_page_url", &data.link);
    push_opt_str_member(&mut m, "feed_url", &data.link);
    push_opt_str_member(&mut m, "description", &data.description);
    push_opt_str_member(&mut m, "icon", &data.image);
    push_opt_str_member(&mut m, "language", &data.language);
    assert(members(m@) =~= json_feed_head(*data));
    let ghost items = item_views(data.items@);
    let ghost ids = crate::text::views(fresh@);
    let mut out: Vec<serde_json::Value> = Vec::new();
    let mut i: usize = 0;
    while i < data.items.len()
        invariant
            i <= data.items.len(),
            fresh@.len() == data.items@.len(),
            items == item_views(data.items@),
            ids == crate::text::views(fresh@),
            out@.len() == i,
            forall|j: int| 0 <= j < i ==> rfc3339_ok(#[trigger] data.items@[j].pub_date),
            forall|j: int| 0 <= j < i ==> #[trigger] json_tree(out@[j]) == JsonTree::Object(json_item_members(items[j], ids[j])),
        decreases data.items.len() - i,
    {
        match item_value(&data.items[i], &fresh[i]) {
            Some(v) => out.push(v),
            None => return None,
        }
        i = i + 1;
    }
    let ghost item_trees = Seq::new(items.len(), |k: int| JsonTree::Object(json_item_members(items[k], ids[k])));
    assert(trees(out@) =~= item_trees);
    let arr = json_array(out);
    let ghost head = members(m@);
    push_member(&mut m, "items", arr);
    assert(members(m@) =~= json_feed_head(*data) + seq![("items"@, JsonTree::Array(item_trees))]);
    proof {
        lemma_head_keys_distinct(*data);
        let hm = json_feed_head(*data).push(("items"@, JsonTree::Null));
        assert forall|a: int, b: int| 0 <= a < b < members(m@).len() implies #[trigger] members(m@)[a].0 != #[trigger] members(m@)[b].0 by {
            assert(members(m@)[a].0 == hm[a].0);
            assert(members(m@)[b].0 == hm[b].0);
        }
    }
    Some(json_object(m))
}

/// Fresh ids for the items that have neither guid nor link (an empty string
/// for the others, whose id is their guid or link).
pub fn fresh_ids(items: &Vec<DataItem>) -> (ids: Vec<String>)
    ensures
        ids@.len() == items@.len(),
        forall|i: int|
            0 <= i < items@.len() && items@[i].guid is None && items@[i].link is None ==> is_hyphenated_uuid(
                #[trigger] ids@[i]@,
            ),
{
    let mut ids: Vec<String> = Vec::new();
    let mut i: usize = 0;
    while i < items.len()
        invariant
            i <= items.len(),
            ids@.len() == i,
            forall|j: int|
                0 <= j < i && items@[j].guid is None && items@[j].link is None ==> is_hyphenated_uuid(
                    #[trigger] ids@[j]@,
                ),
        decreases items.len() - i,
    {
        if items[i].guid.is_none() && items[i].link.is_none() {
            ids.push(fresh_uuid());
        } else {
            ids.push(String::new());
        }
        i = i + 1;
    }
    ids
}

/// What rendering a feed as JSON Feed may give: the pretty-printed document
/// of the feed, with fresh UUIDs as the ids items lack, when it succeeds; a
/// rendering error otherwise, and an error whenever a date cannot be written.
pub open spec fn json_rendered(data: Data, r: Result<String, AppError>) -> bool {
    &&& r is Ok <==> json_dates_ok(data)
    &&& r matches Ok(s) ==> exists|fresh: Seq<Seq<char>>|
        #![trigger spec_json_feed(data, fresh)]
        {
            &&& fresh.len() == data.items@.len()
            &&& forall|i: int|
                0 <= i < data.items@.len() && data.items@[i].guid is None && data.items@[i].link is None
                    ==> is_hyphenated_uuid(#[trigger] fresh[i])
            &&& s@ == json_pretty(spec_json_feed(data, fresh))
        }
    &&& r matches Err(e) ==> (e matches AppError::Render(m) && m@ == "date out of range"@)
}

/// Renders a feed as a pretty-printed JSON Feed 1.1 document. An item with
/// neither guid nor link gets a random UUID as its id.
pub fn render(data: &Data) -> (r: Result<String, AppError>)
    ensures
        json_rendered(*data, r),
{
    let ids = fresh_ids(&data.items);
    match json_feed(data, &ids) {
        None => Err(AppError::Render(String::from_str("date out of range"))),
        Some(v) => match json_to_string_pretty(&v) {
            Ok(s) => {
                let ghost f = crate::text::views(ids@);
                assert(forall|i: int| 0 <= i < ids@.len() ==> #[trigger] f[i] == ids@[i]@);
                assert(s@ == json_pretty(spec_json_feed(*data, f)));
                Ok(s)
            },
            Err(m) => Err(AppError::Render(m)),
        },
    }
}

} // verus!
