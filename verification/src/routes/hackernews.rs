//! Hacker News: categories, API addresses, and the mapping of API items to
//! feed items.
use vstd::prelude::*;
use crate::data::{Data, DataItem, Timestamp, opt_view};
use crate::error::AppError;
use crate::number::{decimal, signed_decimal, u64_to_decimal, i64_to_decimal};
use crate::text::opt_slice_view;
use crate::time::chrono_timestamp_valid;

verus! {

/// The base address of the Hacker News API.
pub const HN_API_BASE: &'static str = "https://hacker-news.firebaseio.com/v0";

/// An item of the Hacker News API, as far as feeds use it.
pub struct HnItem {
    pub id: u64,
    pub title: Option<String>,
    pub url: Option<String>,
    pub text: Option<String>,
    pub by: Option<String>,
    pub score: Option<i64>,
    pub descendants: Option<i64>,
    pub time: Option<i64>,
    pub dead: Option<bool>,
    pub deleted: Option<bool>,
}

pub open spec fn spec_category_to_endpoint(c: Seq<char>) -> Option<Seq<char>> {
    if c == "top"@ {
        Some("topstories"@)
    } else if c == "new"@ {
        Some("newstories"@)
    } else if c == "best"@ {
        Some("beststories"@)
    } else if c == "ask"@ {
        Some("askstories"@)
    } else if c == "show"@ {
        Some("showstories"@)
    } else if c == "jobs"@ {
        Some("jobstories"@)
    } else {
        None
    }
}

pub open spec fn spec_category_title(c: Seq<char>) -> Seq<char> {
    if c == "top"@ {
        "Hacker News - Top Stories"@
    } else if c == "new"@ {
        "Hacker News - New Stories"@
    } else if c == "best"@ {
        "Hacker News - Best Stories"@
    } else if c == "ask"@ {
        "Hacker News - Ask HN"@
    } else if c == "show"@ {
        "Hacker News - Show HN"@
    } else if c == "jobs"@ {
        "Hacker News - Jobs"@
    } else {
        "Hacker News"@
    }
}

/// Map category slug to HN API endpoint name.
pub fn category_to_endpoint(category: &str) -> (r: Option<&'static str>)
    ensures
        opt_slice_view(r) == spec_category_to_endpoint(category@),
{
    if crate::text::str_eq(category, "top") {
        Some("topstories")
    } else if crate::text::str_eq(category, "new") {
        Some("newstories")
    } else if crate::text::str_eq(category, "best") {
        Some("beststories")
    } else if crate::text::str_eq(category, "ask") {
        Some("askstories")
    } else if crate::text::str_eq(category, "show") {
        Some("showstories")
    } else if crate::text::str_eq(category, "jobs") {
        Some("jobstories")
    } else {
        None
    }
}

/// Map category slug to feed title.
pub fn category_title(category: &str) -> (r: &'static str)
    ensures
        r@ == spec_category_title(category@),
{
    if crate::text::str_eq(category, "top") {
        "Hacker News - Top Stories"
    } else if crate::text::str_eq(category, "new") {
        "Hacker News - New Stories"
    } else if crate::text::str_eq(category, "best") {
        "Hacker News - Best Stories"
    } else if crate::text::str_eq(category, "ask") {
        "Hacker News - Ask HN"
    } else if crate::text::str_eq(category, "show") {
        "Hacker News - Show HN"
    } else if crate::text::str_eq(category, "jobs") {
        "Hacker News - Jobs"
    } else {
        "Hacker News"
    }
}

/// A category names an endpoint exactly when it has a title of its own.
pub proof fn law_known_categories_have_titles(c: Seq<char>)
    ensures
        spec_category_to_endpoint(c) is Some <==> spec_category_title(c) != "Hacker News"@,
{
    reveal_strlit("Hacker News");
    reveal_strlit("Hacker News - Top Stories");
    reveal_strlit("Hacker News - New Stories");
    reveal_strlit("Hacker News - Best Stories");
    reveal_strlit("Hacker News - Ask HN");
    reveal_strlit("Hacker News - Show HN");
    reveal_strlit("Hacker News - Jobs");
    assert("Hacker News - Top Stories"@.len() != "Hacker News"@.len());
    assert("Hacker News - New Stories"@.len() != "Hacker News"@.len());
    assert("Hacker News - Best Stories"@.len() != "Hacker News"@.len());
    assert("Hacker News - Ask HN"@.len() != "Hacker News"@.len());
    assert("Hacker News - Show HN"@.len() != "Hacker News"@.len());
    assert("Hacker News - Jobs"@.len() != "Hacker News"@.len());
}

/// The endpoint of a category, or the error the route answers with.
pub fn category_endpoint_or_error(category: Option<&str>) -> (r: Result<&'static str, AppError>)
    ensures
        match category {
            None => r matches Err(AppError::Internal(m)) && m@ == "missing category param"@,
            Some(c) => match spec_category_to_endpoint(c@) {
                Some(e) => r matches Ok(s) && s@ == e,
                None => r matches Err(AppError::RouteNotFound(m)) && m@ == "hackernews/"@ + c@,
            },
        },
{
    match category {
        None => Err(AppError::Internal(String::from_str("missing category param"))),
        Some(c) => match category_to_endpoint(c) {
            Some(e) => Ok(e),
            None => {
                let mut m = String::from_str("hackernews/");
                m.append(c);
                Err(AppError::RouteNotFound(m))
            },
        },
    }
}

/// The address of the list of story ids of an endpoint, under an API base.
pub open spec fn spec_ids_url(base: Seq<char>, endpoint: Seq<char>) -> Seq<char> {
    base + "/"@ + endpoint + ".json"@
}

/// The address of one item, under an API base.
pub open spec fn spec_item_url(base: Seq<char>, id: u64) -> Seq<char> {
    base + "/item/"@ + decimal(id as nat) + ".json"@
}

/// The address of the list of story ids of an endpoint (`HN_API_BASE`
/// unless the base URL is overridden).
pub fn ids_url(base: &str, endpoint: &str) -> (r: String)
    ensures
        r@ == spec_ids_url(base@, endpoint@),
{
    let mut r = String::from_str(base);
    r.append("/");
    r.append(endpoint);
    r.append(".json");
    r
}

/// The address of one item.
pub fn item_url(base: &str, id: u64) -> (r: String)
    ensures
        r@ == spec_item_url(base@, id),
{
    let mut r = String::from_str(base);
    r.append("/item/");
    r.append(u64_to_decimal(id).as_str());
    r.append(".json");
    r
}

/// The first `limit` ids.
pub fn take_ids(ids: Vec<u64>, limit: usize) -> (r: Vec<u64>)
    ensures
        r@ == ids@.take(if limit < ids@.len() { limit as int } else { ids@.len() as int }),
{
    let mut ids = ids;
    if limit < ids.len() {
        ids.truncate(limit);
    }
    assert(ids@ =~= ids@.take(ids@.len() as int));
    ids
}

/// The page of an item on Hacker News.
pub open spec fn spec_hn_url(id: u64) -> Seq<char> {
    "https://news.ycombinator.com/item?id="@ + decimal(id as nat)
}

/// The score and comment-count line of an item.
pub open spec fn spec_score_line(score: i64, comments: i64, hn_url: Seq<char>) -> Seq<char> {
    "<p>Score: "@ + signed_decimal(score as int) + " | <a href=\""@ + hn_url + "\">Comments: "@
        + signed_decimal(comments as int) + "</a></p>"@
}

/// An item's description: its text (if any) and its score line (if it has
/// a score), separated by two line breaks; none when there is neither.
pub open spec fn spec_hn_description(item: HnItem) -> Option<Seq<char>> {
    let line = match item.score {
        Some(s) => Some(spec_score_line(s, match item.descendants { Some(d) => d, None => 0 }, spec_hn_url(item.id))),
        None => None,
    };
    match (opt_view(item.text), line) {
        (Some(t), Some(l)) => Some(t + "<br/><br/>"@ + l),
        (Some(t), None) => Some(t),
        (None, Some(l)) => Some(l),
        (None, None) => None,
    }
}

/// The item's date: its Unix time, when chrono can represent it.
pub open spec fn spec_hn_date(item: HnItem) -> Option<Timestamp> {
    match item.time {
        Some(ts) => if chrono_timestamp_valid(ts, 0) {
            Some(Timestamp { secs: ts, nanos: 0 })
        } else {
            None
        },
        None => None,
    }
}

fn clone_opt(o: &Option<String>) -> (r: Option<String>)
    ensures
        opt_view(r) == opt_view(*o),
{
    match o {
        Some(s) => Some(s.clone()),
        None => None,
    }
}

/// An item that is shown: neither dead nor deleted, and with a title.
pub open spec fn hn_shown(item: HnItem) -> bool {
    !(item.dead == Some(true) || item.deleted == Some(true) || item.title is None)
}

/// The feed item made of a shown HN item.
pub open spec fn spec_hn_item_of(d: DataItem, item: HnItem) -> bool {
    &&& d.title@ == item.title->0@
    &&& opt_view(d.link) == Some(match item.url {
        Some(u) => u@,
        None => spec_hn_url(item.id),
    })
    &&& opt_view(d.description) == spec_hn_description(item)
    &&& opt_view(d.guid) == Some("hn-"@ + decimal(item.id as nat))
    &&& opt_view(d.author) == opt_view(item.by)
    &&& d.pub_date == spec_hn_date(item)
    &&& d.category@.len() == 0
    &&& d.enclosure_url is None
    &&& d.enclosure_type is None
    &&& d.enclosure_length is None
}

/// Convert an HN API item to a DataItem. Returns None for dead/deleted items.
pub fn map_hn_item(item: &HnItem) -> (r: Option<DataItem>)
    ensures
        r is Some <==> hn_shown(*item),
        r matches Some(d) ==> spec_hn_item_of(d, *item),
{
    let dead = match item.dead {
        Some(b) => b,
        None => false,
    };
    let deleted = match item.deleted {
        Some(b) => b,
        None => false,
    };
    if dead || deleted {
        return None;
    }
    let title = match &item.title {
        Some(t) => t,
        None => return None,
    };
    let mut data_item = DataItem::new(title.as_str());

    // Link: prefer external URL, fall back to HN item page
    let mut hn_url = String::from_str("https://news.ycombinator.com/item?id=");
    hn_url.append(u64_to_decimal(item.id).as_str());
    data_item.link = match &item.url {
        Some(u) => Some(u.clone()),
        None => Some(hn_url.clone()),
    };

    // Description: text (if any) + score/comments info
    let line = match item.score {
        Some(score) => {
            let comments = match item.descendants {
                Some(d) => d,
                None => 0,
            };
            let mut l = String::from_str("<p>Score: ");
            l.append(i64_to_decimal(score).as_str());
            l.append(" | <a href=\"");
            l.append(hn_url.as_str());
            l.append("\">Comments: ");
            l.append(i64_to_decimal(comments).as_str());
            l.append("</a></p>");
            Some(l)
        },
        None => None,
    };
    data_item.description = match (clone_opt(&item.text), line) {
        (Some(t), Some(l)) => {
            let mut d = t;
            d.append("<br/><br/>");
            d.append(l.as_str());
            Some(d)
        },
        (Some(t), None) => Some(t),
        (None, Some(l)) => Some(l),
        (None, None) => None,
    };

    let mut guid = String::from_str("hn-");
    guid.append(u64_to_decimal(item.id).as_str());
    data_item.guid = Some(guid);
    data_item.author = clone_opt(&item.by);

    if let Some(ts) = item.time {
        data_item.pub_date = crate::time::from_unix(ts, 0);
    }
    Some(data_item)
}

/// The shown items, in order.
pub open spec fn hn_shown_items(items: Seq<HnItem>) -> Seq<HnItem>
    decreases items.len(),
{
    if items.len() == 0 {
        Seq::empty()
    } else if hn_shown(items.last()) {
        hn_shown_items(items.drop_last()).push(items.last())
    } else {
        hn_shown_items(items.drop_last())
    }
}

/// The feed items of the shown items, in order.
pub fn map_hn_items(items: &Vec<HnItem>) -> (r: Vec<DataItem>)
    ensures
        r@.len() == hn_shown_items(items@).len(),
        forall|i: int| 0 <= i < r@.len() ==> spec_hn_item_of(#[trigger] r@[i], hn_shown_items(items@)[i]),
{
    let mut r: Vec<DataItem> = Vec::new();
    let mut i: usize = 0;
    while i < items.len()
        invariant
            i <= items.len(),
            r@.len() == hn_shown_items(items@.take(i as int)).len(),
            forall|j: int| 0 <= j < r@.len() ==> spec_hn_item_of(#[trigger] r@[j], hn_shown_items(items@.take(i as int))[j]),
        decreases items.len() - i,
    {
        assert(items@.take(i + 1).drop_last() =~= items@.take(i as int));
        match map_hn_item(&items[i]) {
            Some(d) => r.push(d),
            None => {},
        }
        i = i + 1;
    }
    assert(items@.take(items.len() as int) =~= items@);
    r
}

/// The feed of a category with its items.
pub fn category_feed(category: &str, items: Vec<DataItem>) -> (d: Data)
    ensures
        d.title@ == spec_category_title(category@),
        opt_view(d.link) == Some("https://news.ycombinator.com"@),
        opt_view(d.description) == Some(spec_category_title(category@) + " via OpenRss"@),
        opt_view(d.language) == Some("en"@),
        d.items == items,
        d.image is None,
        d.ttl is None,
        d.updated is None,
        d.itunes_author is None,
        d.itunes_category is None,
        d.itunes_explicit is None,
{
    let title = category_title(category);
    let mut data = Data::new(title);
    data.link = Some(String::from_str("https://news.ycombinator.com"));
    let mut desc = String::from_str(title);
    desc.append(" via OpenRss");
    data.description = Some(desc);
    data.language = Some(String::from_str("en"));
    data.items = items;
    data
}

} // verus!
