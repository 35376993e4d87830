//! Lobsters: categories, API addresses, and the mapping of stories to feed
//! items.
use vstd::prelude::*;
use crate::data::{Data, DataItem, Timestamp, opt_view};
use crate::error::AppError;
use crate::number::{signed_decimal, i64_to_decimal};
use crate::text::{opt_slice_view, views};
use crate::time::chrono_parse_rfc3339;

verus! {

/// The default base address of Lobsters.
pub const LOBSTERS_BASE: &'static str = "https://lobste.rs";

/// The submitter of a story.
pub struct LobstersUser {
    pub username: String,
}

/// A story of the Lobsters JSON API, as far as feeds use it.
pub struct LobstersStory {
    pub short_id: String,
    pub title: String,
    pub url: Option<String>,
    pub description: Option<String>,
    pub comments_url: String,
    pub comment_count: i64,
    pub score: i64,
    pub created_at: String,
    pub submitter_user: LobstersUser,
    pub tags: Vec<String>,
}

pub open spec fn spec_category_to_endpoint(c: Seq<char>) -> Option<Seq<char>> {
    if c == "hottest"@ || c == "hot"@ {
        Some("hottest"@)
    } else if c == "newest"@ || c == "new"@ {
        Some("newest"@)
    } else if c == "active"@ {
        Some("active"@)
    } else {
        None
    }
}

pub open spec fn spec_category_title(c: Seq<char>) -> Seq<char> {
    if c == "hottest"@ || c == "hot"@ {
        "Lobsters - Hottest"@
    } else if c == "newest"@ || c == "new"@ {
        "Lobsters - Newest"@
    } else if c == "active"@ {
        "Lobsters - Active"@
    } else {
        "Lobsters"@
    }
}

pub fn category_to_endpoint(category: &str) -> (r: Option<&'static str>)
    ensures
        opt_slice_view(r) == spec_category_to_endpoint(category@),
{
    if crate::text::str_eq(category, "hottest") || crate::text::str_eq(category, "hot") {
        Some("hottest")
    } else if crate::text::str_eq(category, "newest") || crate::text::str_eq(category, "new") {
        Some("newest")
    } else if crate::text::str_eq(category, "active") {
        Some("active")
    } else {
        None
    }
}

pub fn category_title(category: &str) -> (r: &'static str)
    ensures
        r@ == spec_category_title(category@),
{
    if crate::text::str_eq(category, "hottest") || crate::text::str_eq(category, "hot") {
        "Lobsters - Hottest"
    } else if crate::text::str_eq(category, "newest") || crate::text::str_eq(category, "new") {
        "Lobsters - Newest"
    } else if crate::text::str_eq(category, "active") {
        "Lobsters - Active"
    } else {
        "Lobsters"
    }
}

/// The endpoint of a category, or the error the route answers with.
pub fn category_endpoint_or_error(category: Option<&str>) -> (r: Result<&'static str, AppError>)
    ensures
        match category {
            None => r matches Err(AppError::Internal(m)) && m@ == "missing category param"@,
            Some(c) => match spec_category_to_endpoint(c@) {
                Some(e) => r matches Ok(s) && s@ == e,
                None => r matches Err(AppError::RouteNotFound(m)) && m@ == "lobsters/"@ + c@,
            },
        },
{
    match category {
        None => Err(AppError::Internal(String::from_str("missing category param"))),
        Some(c) => match category_to_endpoint(c) {
            Some(e) => Ok(e),
            None => {
                let mut m = String::from_str("lobsters/");
                m.append(c);
                Err(AppError::RouteNotFound(m))
            },
        },
    }
}

/// The address of the story list of an endpoint under `base`.
pub fn stories_url(base: &str, endpoint: &str) -> (r: String)
    ensures
        r@ == base@ + "/"@ + endpoint@ + ".json"@,
{
    let mut r = String::from_str(base);
    r.append("/");
    r.append(endpoint);
    r.append(".json");
    r
}

/// The score and comment-count line of a story.
pub open spec fn spec_score_line(story: LobstersStory) -> Seq<char> {
    "<p>Score: "@ + signed_decimal(story.score as int) + " | <a href=\""@ + story.comments_url@
        + "\">Comments: "@ + signed_decimal(story.comment_count as int) + "</a></p>"@
}

/// The story's own description (when not empty) and its score line,
/// separated by two line breaks.
pub open spec fn spec_story_description(story: LobstersStory) -> Seq<char> {
    match story.description {
        Some(d) => if d@.len() > 0 {
            d@ + "<br/><br/>"@ + spec_score_line(story)
        } else {
            spec_score_line(story)
        },
        None => spec_score_line(story),
    }
}

/// The external link when there is a non-empty one, else the comments page.
pub open spec fn spec_story_link(story: LobstersStory) -> Seq<char> {
    match story.url {
        Some(u) => if u@.len() > 0 { u@ } else { story.comments_url@ },
        None => story.comments_url@,
    }
}

/// The feed item of a story.
pub open spec fn spec_item_of_story(item: DataItem, story: LobstersStory) -> bool {
    &&& item.title@ == story.title@
    &&& opt_view(item.link) == Some(spec_story_link(story))
    &&& opt_view(item.description) == Some(spec_story_description(story))
    &&& opt_view(item.guid) == Some("lobsters-"@ + story.short_id@)
    &&& opt_view(item.author) == Some(story.submitter_user.username@)
    &&& views(item.category@) == views(story.tags@)
    &&& item.pub_date == (match chrono_parse_rfc3339(story.created_at@) {
        Some((secs, nanos)) => Some(Timestamp { secs, nanos }),
        None => None,
    })
    &&& item.enclosure_url is None
    &&& item.enclosure_type is None
    &&& item.enclosure_length is None
}

fn clone_strings(v: &Vec<String>) -> (r: Vec<String>)
    ensures
        views(r@) == views(v@),
{
    let mut r: Vec<String> = Vec::new();
    let mut i: usize = 0;
    while i < v.len()
        invariant
            i <= v.len(),
            views(r@) == views(v@.take(i as int)),
        decreases v.len() - i,
    {
        r.push(v[i].clone());
        assert(views(v@.take(i + 1)) =~= views(v@.take(i as int)).push(v@[i as int]@));
        i = i + 1;
    }
    assert(v@.take(v.len() as int) =~= v@);
    r
}

/// Convert a Lobsters story to a feed item.
pub fn map_lobsters_story(story: &LobstersStory) -> (item: DataItem)
    ensures
        spec_item_of_story(item, *story),
{
    let mut item = DataItem::new(story.title.as_str());

    // Link: prefer external URL, fall back to comments page
    item.link = match &story.url {
        Some(u) => if u.as_str().is_empty() {
            Some(story.comments_url.clone())
        } else {
            Some(u.clone())
        },
        None => Some(story.comments_url.clone()),
    };

    let mut line = String::from_str("<p>Score: ");
    line.append(i64_to_decimal(story.score).as_str());
    line.append(" | <a href=\"");
    line.append(story.comments_url.as_str());
    line.append("\">Comments: ");
    line.append(i64_to_decimal(story.comment_count).as_str());
    line.append("</a></p>");

    // Description: user description (if any) + score/comments
    item.description = match &story.description {
        Some(d) => if d.as_str().is_empty() {
            Some(line)
        } else {
            let mut r = d.clone();
            r.append("<br/><br/>");
            r.append(line.as_str());
            Some(r)
        },
        None => Some(line),
    };

    let mut guid = String::from_str("lobsters-");
    guid.append(story.short_id.as_str());
    item.guid = Some(guid);
    item.author = Some(story.submitter_user.username.clone());
    item.category = clone_strings(&story.tags);
    item.pub_date = crate::time::parse_rfc3339(story.created_at.as_str());
    item
}

/// The first `limit` stories as feed items.
pub fn map_stories(stories: &Vec<LobstersStory>, limit: usize) -> (items: Vec<DataItem>)
    ensures
        items@.len() == (if limit < stories@.len() { limit as int } else { stories@.len() as int }),
        forall|i: int| 0 <= i < items@.len() ==> spec_item_of_story(#[trigger] items@[i], stories@[i]),
{
    let n = if limit < stories.len() { limit } else { stories.len() };
    let mut items: Vec<DataItem> = Vec::new();
    let mut i: usize = 0;
    while i < n
        invariant
            i <= n <= stories.len(),
            items@.len() == i,
            forall|j: int| 0 <= j < i ==> spec_item_of_story(#[trigger] items@[j], stories@[j]),
        decreases n - i,
    {
        items.push(map_lobsters_story(&stories[i]));
        i = i + 1;
    }
    items
}

/// The feed of a category with its items.
pub fn category_feed(category: &str, items: Vec<DataItem>) -> (d: Data)
    ensures
        d.title@ == spec_category_title(category@),
        opt_view(d.link) == Some("https://lobste.rs"@),
        opt_view(d.description) == Some(spec_category_title(category@) + " via OpenRss"@),
        opt_view(d.language) == Some("en"@),
        d.items == items,
        d.image is None,
        d.ttl is None,
        d.updated is None,
        d.itunes_author is None,
        d.itunes_category is None,
        d.itunes_explicit is None,
{
    let title = category_title(category);
    let mut data = Data::new(title);
    data.link = Some(String::from_str("https://lobste.rs"));
    let mut desc = String::from_str(title);
    desc.append(" via OpenRss");
    data.description = Some(desc);
    data.language = Some(String::from_str("en"));
    data.items = items;
    data
}

} // verus!
