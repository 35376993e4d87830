//! RSS 2.0 documents.
use vstd::prelude::*;
use crate::data::{Data, DataItem, ItemView, Timestamp, opt_view, item_views};
use crate::error::AppError;
use crate::feed::xml::{
    lemma_cdata_element_neutral, lemma_neutral_concat, lemma_neutral_content, lemma_neutral_empty,
    lemma_declared_document_well_nested, lemma_element_neutral, element, lemma_text_element_neutral, neutral, well_nested,
    XmlEvent, XmlNode, attr, attrs_view, cdata_element, events_view, feed_indent, push_cdata_element,
    push_empty, push_end, push_event, push_start, push_text_element, text_element, write_document,
    xml_document,
};
use crate::number::{decimal, u64_to_decimal};
use crate::time::{chrono_rfc2822, rfc2822, rfc2822_writable};

verus! {

/// The RFC 2822 notation of a date (empty where chrono has none).
pub open spec fn rfc2822_text(t: Timestamp) -> Seq<char> {
    match chrono_rfc2822(t.secs, t.nanos) {
        Some(s) => s,
        None => Seq::empty(),
    }
}

/// A date that is absent, or that chrono can write in RFC 2822 notation.
pub open spec fn rfc2822_ok(t: Option<Timestamp>) -> bool {
    match t {
        Some(t) => rfc2822_writable(t),
        None => true,
    }
}

/// Every date of the feed can be written.
pub open spec fn rss_dates_ok(data: Data) -> bool {
    &&& rfc2822_ok(data.updated)
    &&& forall|i: int| 0 <= i < data.items@.len() ==> rfc2822_ok(#[trigger] data.items@[i].pub_date)
}

/// `<tag>text</tag>` where there is a text, nothing otherwise.
pub open spec fn opt_text_element(tag: Seq<char>, o: Option<Seq<char>>) -> Seq<XmlNode> {
    match o {
        Some(s) => text_element(tag, s),
        None => Seq::empty(),
    }
}

/// The channel's `<link>` and its `atom:link` to itself.
pub open spec fn rss_link_nodes(data: Data) -> Seq<XmlNode> {
    match opt_view(data.link) {
        Some(l) => text_element("link"@, l) + seq![
            XmlNode::Empty("atom:link"@, seq![("href"@, l), ("rel"@, "self"@), ("type"@, "application/rss+xml"@)]),
        ],
        None => Seq::empty(),
    }
}

/// The channel's `<description>`: its own, else its title.
pub open spec fn rss_description_nodes(data: Data) -> Seq<XmlNode> {
    text_element(
        "description"@,
        match opt_view(data.description) {
            Some(d) => d,
            None => data.title@,
        },
    )
}

/// The channel's `<image>`: its address, the feed title and link.
pub open spec fn rss_image_nodes(data: Data) -> Seq<XmlNode> {
    match opt_view(data.image) {
        Some(img) => element(
            "image"@,
            Seq::empty(),
            text_element("url"@, img) + text_element("title"@, data.title@) + opt_text_element(
                "link"@,
                opt_view(data.link),
            ),
        ),
        None => Seq::empty(),
    }
}

/// The channel's `<ttl>`, in decimal.
pub open spec fn rss_ttl_nodes(data: Data) -> Seq<XmlNode> {
    match data.ttl {
        Some(n) => text_element("ttl"@, decimal(n as nat)),
        None => Seq::empty(),
    }
}

/// The channel's `<lastBuildDate>`, in RFC 2822 notation.
pub open spec fn rss_updated_nodes(data: Data) -> Seq<XmlNode> {
    match data.updated {
        Some(t) => text_element("lastBuildDate"@, rfc2822_text(t)),
        None => Seq::empty(),
    }
}

/// The channel's elements before its items.
pub open spec fn rss_channel_body(data: Data) -> Seq<XmlNode> {
    text_element("title"@, data.title@) + rss_link_nodes(data) + rss_description_nodes(data) + opt_text_element(
        "language"@,
        opt_view(data.language),
    ) + rss_image_nodes(data) + rss_ttl_nodes(data) + rss_updated_nodes(data) + text_element(
        "generator"@,
        "OpenRss"@,
    )
}

/// The attributes of `<rss>`.
pub open spec fn rss_attrs() -> Seq<(Seq<char>, Seq<char>)> {
    seq![("version"@, "2.0"@), ("xmlns:atom"@, "http://www.w3.org/2005/Atom"@)]
}

/// The document up to the channel's items.
pub open spec fn rss_channel_head(data: Data) -> Seq<XmlNode> {
    seq![
        XmlNode::Decl("1.0"@, "utf-8"@),
        XmlNode::Start("rss"@, rss_attrs()),
        XmlNode::Start("channel"@, Seq::empty()),
    ] + rss_channel_body(data)
}

/// One `<category>` element per category, in order.
pub open spec fn category_nodes(cats: Seq<Seq<char>>) -> Seq<XmlNode>
    decreases cats.len(),
{
    if cats.len() == 0 {
        Seq::empty()
    } else {
        category_nodes(cats.drop_last()) + text_element("category"@, cats.last())
    }
}

/// The attributes of an item's `<enclosure>`.
pub open spec fn enclosure_attrs(url: Seq<char>, kind: Option<Seq<char>>, length: Option<u64>) -> Seq<(Seq<char>, Seq<char>)> {
    seq![("url"@, url)] + match kind {
        Some(t) => seq![("type"@, t)],
        None => Seq::empty(),
    } + match length {
        Some(n) => seq![("length"@, decimal(n as nat))],
        None => Seq::empty(),
    }
}

/// An item's description, as CDATA.
pub open spec fn item_description_nodes(item: ItemView) -> Seq<XmlNode> {
    match item.description {
        Some(d) => cdata_element("description"@, d),
        None => Seq::empty(),
    }
}

/// An item's `<pubDate>`.
pub open spec fn item_date_nodes(item: ItemView) -> Seq<XmlNode> {
    match item.pub_date {
        Some(t) => text_element("pubDate"@, rfc2822_text(t)),
        None => Seq::empty(),
    }
}

/// An item's `<guid>`, marked as no permalink.
pub open spec fn item_guid_nodes(item: ItemView) -> Seq<XmlNode> {
    match item.guid {
        Some(g) => element("guid"@, seq![("isPermaLink"@, "false"@)], seq![XmlNode::Text(g)]),
        None => Seq::empty(),
    }
}

/// An item's `<enclosure>`.
pub open spec fn item_enclosure_nodes(item: ItemView) -> Seq<XmlNode> {
    match item.enclosure_url {
        Some(u) => seq![XmlNode::Empty("enclosure"@, enclosure_attrs(u, item.enclosure_type, item.enclosure_length))],
        None => Seq::empty(),
    }
}

/// The elements inside one `<item>`.
pub open spec fn rss_item_body(item: ItemView) -> Seq<XmlNode> {
    text_element("title"@, item.title) + item_description_nodes(item) + opt_text_element("link"@, item.link)
        + item_date_nodes(item) + opt_text_element("author"@, item.author) + category_nodes(item.category)
        + item_guid_nodes(item) + item_enclosure_nodes(item)
}

/// The `<item>` element of one item.
pub open spec fn rss_item_nodes(item: ItemView) -> Seq<XmlNode> {
    element("item"@, Seq::empty(), rss_item_body(item))
}

/// The items' elements, in order.
pub open spec fn rss_items_nodes(items: Seq<ItemView>) -> Seq<XmlNode>
    decreases items.len(),
{
    if items.len() == 0 {
        Seq::empty()
    } else {
        rss_items_nodes(items.drop_last()) + rss_item_nodes(items.last())
    }
}

/// The whole RSS document, event by event.
pub open spec fn spec_rss_nodes(data: Data) -> Seq<XmlNode> {
    seq![XmlNode::Decl("1.0"@, "utf-8"@)] + element(
        "rss"@,
        rss_attrs(),
        element("channel"@, Seq::empty(), rss_channel_body(data) + rss_items_nodes(item_views(data.items@))),
    )
}

/// Appends `<tag>text</tag>` where there is a text.
fn push_opt_text_element(evs: &mut Vec<XmlEvent>, tag: &str, o: &Option<String>)
    ensures
        events_view(final(evs)@) == events_view(old(evs)@) + opt_text_element(tag@, opt_view(*o)),
{
    match o {
        Some(s) => push_text_element(evs, tag, s.as_str()),
        None => {
            assert(events_view(evs@) =~= events_view(evs@) + Seq::<XmlNode>::empty());
        },
    }
}

/// Appends the channel's link and its `atom:link` to itself.
fn push_channel_link(evs: &mut Vec<XmlEvent>, data: &Data)
    ensures
        events_view(final(evs)@) == events_view(old(evs)@) + rss_link_nodes(*data),
{
    match &data.link {
        Some(l) => {
            let ghost s0 = events_view(evs@);
            push_text_element(evs, "link", l.as_str());
            let a = vec![attr("href", l.as_str()), attr("rel", "self"), attr("type", "application/rss+xml")];
            assert(attrs_view(a@) =~= seq![("href"@, l@), ("rel"@, "self"@), ("type"@, "application/rss+xml"@)]);
            push_empty(evs, "atom:link", a);
            assert(events_view(evs@) =~= s0 + rss_link_nodes(*data));
        },
        None => {
            assert(events_view(evs@) =~= events_view(evs@) + Seq::<XmlNode>::empty());
        },
    }
}

/// Appends the channel's image.
fn push_channel_image(evs: &mut Vec<XmlEvent>, data: &Data)
    ensures
        events_view(final(evs)@) == events_view(old(evs)@) + rss_image_nodes(*data),
{
    match &data.image {
        Some(img) => {
            let ghost s0 = events_view(evs@);
            push_start(evs, "image", Vec::new());
            assert(attrs_view(Seq::<(String, String)>::empty()) =~= Seq::<(Seq<char>, Seq<char>)>::empty());
            push_text_element(evs, "url", img.as_str());
            push_text_element(evs, "title", data.title.as_str());
            push_opt_text_element(evs, "link", &data.link);
            push_end(evs, "image");
            assert(events_view(evs@) =~= s0 + rss_image_nodes(*data));
        },
        None => {
            assert(events_view(evs@) =~= events_view(evs@) + Seq::<XmlNode>::empty());
        },
    }
}

/// Appends the channel's time to live, build date and generator; `false`
/// when the build date cannot be written.
fn push_channel_tail(evs: &mut Vec<XmlEvent>, data: &Data) -> (ok: bool)
    ensures
        ok == rfc2822_ok(data.updated),
        ok ==> events_view(final(evs)@) == events_view(old(evs)@) + rss_ttl_nodes(*data) + rss_updated_nodes(*data)
            + text_element("generator"@, "OpenRss"@),
{
    let ghost s0 = events_view(evs@);
    match data.ttl {
        Some(n) => {
            let t = u64_to_decimal(n as u64);
            push_text_element(evs, "ttl", t.as_str());
        },
        None => {},
    }
    assert(events_view(evs@) =~= s0 + rss_ttl_nodes(*data));
    let ghost s1 = events_view(evs@);
    match &data.updated {
        Some(t) => match rfc2822(t) {
            Some(s) => push_text_element(evs, "lastBuildDate", s.as_str()),
            None => return false,
        },
        None => {},
    }
    assert(events_view(evs@) =~= s1 + rss_updated_nodes(*data));
    push_text_element(evs, "generator", "OpenRss");
    true
}

/// Appends the channel's title, link, description and language.
fn push_channel_front(evs: &mut Vec<XmlEvent>, data: &Data)
    ensures
        events_view(final(evs)@) == events_view(old(evs)@) + text_element("title"@, data.title@) + rss_link_nodes(
            *data,
        ) + rss_description_nodes(*data) + opt_text_element("language"@, opt_view(data.language)),
{
    push_text_element(evs, "title", data.title.as_str());
    push_channel_link(evs, data);
    let ghost s3 = events_view(evs@);
    match &data.description {
        Some(d) => push_text_element(evs, "description", d.as_str()),
        None => push_text_element(evs, "description", data.title.as_str()),
    }
    assert(events_view(evs@) =~= s3 + rss_description_nodes(*data));
    push_opt_text_element(evs, "language", &data.language);
}

/// Appends the channel's elements before its items; `false` when the build
/// date cannot be written.
fn push_channel_head(evs: &mut Vec<XmlEvent>, data: &Data) -> (ok: bool)
    requires
        events_view(old(evs)@) == Seq::<XmlNode>::empty(),
    ensures
        ok == rfc2822_ok(data.updated),
        ok ==> events_view(final(evs)@) == rss_channel_head(*data),
{
    push_event(evs, XmlEvent::Decl(String::from_str("1.0"), String::from_str("utf-8")));
    let root_attrs = vec![attr("version", "2.0"), attr("xmlns:atom", "http://www.w3.org/2005/Atom")];
    assert(attrs_view(root_attrs@) =~= rss_attrs());
    push_start(evs, "rss", root_attrs);
    push_start(evs, "channel", Vec::new());
    assert(attrs_view(Seq::<(String, String)>::empty()) =~= Seq::<(Seq<char>, Seq<char>)>::empty());
    push_channel_front(evs, data);
    push_channel_image(evs, data);
    if !push_channel_tail(evs, data) {
        return false;
    }
    assert(events_view(evs@) =~= rss_channel_head(*data));
    true
}

/// Appends one `<category>` element per category.
fn push_categories(evs: &mut Vec<XmlEvent>, cats: &Vec<String>)
    ensures
        events_view(final(evs)@) == events_view(old(evs)@) + category_nodes(crate::text::views(cats@)),
{
    let ghost start = events_view(evs@);
    let mut i: usize = 0;
    while i < cats.len()
        invariant
            i <= cats.len(),
            events_view(evs@) == start + category_nodes(crate::text::views(cats@.take(i as int))),
        decreases cats.len() - i,
    {
        push_text_element(evs, "category", cats[i].as_str());
        assert(crate::text::views(cats@.take(i + 1)).drop_last() =~= crate::text::views(cats@.take(i as int)));
        assert(events_view(evs@) =~= start + category_nodes(crate::text::views(cats@.take(i + 1))));
        i = i + 1;
    }
    assert(cats@.take(cats.len() as int) =~= cats@);
}

/// Appends the `<enclosure>` of an item that has one.
fn push_enclosure(evs: &mut Vec<XmlEvent>, item: &DataItem)
    ensures
        events_view(final(evs)@) == events_view(old(evs)@) + item_enclosure_nodes(item@),
{
    match &item.enclosure_url {
        Some(u) => {
            let mut a = vec![attr("url", u.as_str())];
            match &item.enclosure_type {
                Some(t) => a.push(attr("type", t.as_str())),
                None => {},
            }
            match item.enclosure_length {
                Some(n) => {
                    let s = u64_to_decimal(n);
                    a.push(attr("length", s.as_str()));
                },
                None => {},
            }
            assert(attrs_view(a@) =~= enclosure_attrs(u@, opt_view(item.enclosure_type), item.enclosure_length));
            push_empty(evs, "enclosure", a);
        },
        None => {
            assert(events_view(evs@) =~= events_view(evs@) + Seq::<XmlNode>::empty());
        },
    }
}

/// Appends an item's description, as CDATA.
fn push_item_description(evs: &mut Vec<XmlEvent>, item: &DataItem)
    ensures
        events_view(final(evs)@) == events_view(old(evs)@) + item_description_nodes(item@),
{
    match &item.description {
        Some(d) => push_cdata_element(evs, "description", d.as_str()),
        None => {
            assert(events_view(evs@) =~= events_view(evs@) + Seq::<XmlNode>::empty());
        },
    }
}

/// Appends an item's `<pubDate>`; `false` when the date cannot be written.
fn push_item_date(evs: &mut Vec<XmlEvent>, item: &DataItem) -> (ok: bool)
    ensures
        ok == rfc2822_ok(item.pub_date),
        ok ==> events_view(final(evs)@) == events_view(old(evs)@) + item_date_nodes(item@),
{
    match &item.pub_date {
        Some(t) => match rfc2822(t) {
            Some(s) => {
                push_text_element(evs, "pubDate", s.as_str());
                true
            },
            None => false,
        },
        None => {
            assert(events_view(evs@) =~= events_view(evs@) + Seq::<XmlNode>::empty());
            true
        },
    }
}

/// Appends an item's `<guid>`.
fn push_item_guid(evs: &mut Vec<XmlEvent>, item: &DataItem)
    ensures
        events_view(final(evs)@) == events_view(old(evs)@) + item_guid_nodes(item@),
{
    match &item.guid {
        Some(g) => {
            let ghost s0 = events_view(evs@);
            let a = vec![attr("isPermaLink", "false")];
            assert(attrs_view(a@) =~= seq![("isPermaLink"@, "false"@)]);
            push_start(evs, "guid", a);
            push_event(evs, XmlEvent::Text(g.clone()));
            push_end(evs, "guid");
            assert(events_view(evs@) =~= s0 + item_guid_nodes(item@));
        },
        None => {
            assert(events_view(evs@) =~= events_view(evs@) + Seq::<XmlNode>::empty());
        },
    }
}

/// Appends the elements inside an item's `<item>`; `false` when its date
/// cannot be written.
fn push_item_body(evs: &mut Vec<XmlEvent>, item: &DataItem) -> (ok: bool)
    ensures
        ok == rfc2822_ok(item.pub_date),
        ok ==> events_view(final(evs)@) == events_view(old(evs)@) + rss_item_body(item@),
{
    let ghost s0 = events_view(evs@);
    push_text_element(evs, "title", item.title.as_str());
    push_item_description(evs, item);
    push_opt_text_element(evs, "link", &item.link);
    if !push_item_date(evs, item) {
        return false;
    }
    push_opt_text_element(evs, "author", &item.author);
    push_categories(evs, &item.category);
    push_item_guid(evs, item);
    push_enclosure(evs, item);
    assert(events_view(evs@) =~= s0 + rss_item_body(item@));
    true
}

/// Appends the `<item>` element of an item; `false` when its date cannot be
/// written.
fn push_item(evs: &mut Vec<XmlEvent>, item: &DataItem) -> (ok: bool)
    ensures
        ok == rfc2822_ok(item.pub_date),
        ok ==> events_view(final(evs)@) == events_view(old(evs)@) + rss_item_nodes(item@),
{
    let ghost s0 = events_view(evs@);
    push_start(evs, "item", Vec::new());
    assert(attrs_view(Seq::<(String, String)>::empty()) =~= Seq::<(Seq<char>, Seq<char>)>::empty());
    if !push_item_body(evs, item) {
        return false;
    }
    push_end(evs, "item");
    assert(events_view(evs@) =~= s0 + rss_item_nodes(item@));
    true
}

/// The events of the RSS document of a feed, or `None` when one of its dates
/// cannot be written.
pub fn rss_events(data: &Data) -> (r: Option<Vec<XmlEvent>>)
    ensures
        r is Some <==> rss_dates_ok(*data),
        r matches Some(e) ==> events_view(e@) == spec_rss_nodes(*data),
{
    let mut evs: Vec<XmlEvent> = Vec::new();
    assert(events_view(evs@) =~= Seq::<XmlNode>::empty());
    if !push_channel_head(&mut evs, data) {
        return None;
    }
    let ghost head = events_view(evs@);
    let mut i: usize = 0;
    while i < data.items.len()
        invariant
            i <= data.items.len(),
            rfc2822_ok(data.updated),
            head == rss_channel_head(*data),
            forall|j: int| 0 <= j < i ==> rfc2822_ok(#[trigger] data.items@[j].pub_date),
            events_view(evs@) == head + rss_items_nodes(item_views(data.items@.take(i as int))),
        decreases data.items.len() - i,
    {
        if !push_item(&mut evs, &data.items[i]) {
            return None;
        }
        assert(item_views(data.items@.take(i + 1)).drop_last() =~= item_views(data.items@.take(i as int)));
        assert(events_view(evs@) =~= head + rss_items_nodes(item_views(data.items@.take(i + 1))));
        i = i + 1;
    }
    assert(data.items@.take(data.items.len() as int) =~= data.items@);
    push_end(&mut evs, "channel");
    push_end(&mut evs, "rss");
    assert(events_view(evs@) =~= spec_rss_nodes(*data));
    Some(evs)
}

/// What rendering a feed as RSS may give: the document of its events when it
/// succeeds, a rendering error otherwise, and an error whenever a date cannot
/// be written.
pub open spec fn rss_rendered(data: Data, r: Result<String, AppError>) -> bool {
    &&& r is Ok <==> rss_dates_ok(data)
    &&& r matches Ok(s) ==> s@ == xml_document(feed_indent(), spec_rss_nodes(data))
    &&& r matches Err(e) ==> (e matches AppError::Render(m) && m@ == "date out of range"@)
}

/// Renders a feed as an RSS 2.0 document, indented by two spaces.
pub fn render(data: &Data) -> (r: Result<String, AppError>)
    ensures
        rss_rendered(*data, r),
{
    match rss_events(data) {
        None => Err(AppError::Render(String::from_str("date out of range"))),
        Some(evs) => match write_document(&evs) {
            Ok(s) => Ok(s),
            Err(m) => Err(AppError::Render(m)),
        },
    }
}

// ---------------------------------------------------------------------------
// Nesting
// ---------------------------------------------------------------------------

proof fn lemma_opt_text_element_neutral(tag: Seq<char>, o: Option<Seq<char>>)
    ensures
        neutral(opt_text_element(tag, o)),
{
    match o {
        Some(s) => lemma_text_element_neutral(tag, s),
        None => lemma_neutral_empty(),
    }
}

proof fn lemma_category_nodes_neutral(cats: Seq<Seq<char>>)
    ensures
        neutral(category_nodes(cats)),
    decreases cats.len(),
{
    if cats.len() == 0 {
        lemma_neutral_empty();
    } else {
        lemma_category_nodes_neutral(cats.drop_last());
        lemma_text_element_neutral("category"@, cats.last());
        lemma_neutral_concat(category_nodes(cats.drop_last()), text_element("category"@, cats.last()));
    }
}

proof fn lemma_rss_item_neutral(item: ItemView)
    ensures
        neutral(rss_item_nodes(item)),
{
    let title = text_element("title"@, item.title);
    let desc = item_description_nodes(item);
    let link = opt_text_element("link"@, item.link);
    let date = item_date_nodes(item);
    let author = opt_text_element("author"@, item.author);
    let cats = category_nodes(item.category);
    let guid = item_guid_nodes(item);
    let enc = item_enclosure_nodes(item);
    lemma_text_element_neutral("title"@, item.title);
    match item.description {
        Some(d) => lemma_cdata_element_neutral("description"@, d),
        None => lemma_neutral_empty(),
    }
    lemma_opt_text_element_neutral("link"@, item.link);
    match item.pub_date {
        Some(t) => lemma_text_element_neutral("pubDate"@, rfc2822_text(t)),
        None => lemma_neutral_empty(),
    }
    lemma_opt_text_element_neutral("author"@, item.author);
    lemma_category_nodes_neutral(item.category);
    match item.guid {
        Some(g) => {
            lemma_neutral_content(XmlNode::Text(g));
            lemma_element_neutral("guid"@, seq![("isPermaLink"@, "false"@)], seq![XmlNode::Text(g)]);
        },
        None => lemma_neutral_empty(),
    }
    match item.enclosure_url {
        Some(u) => lemma_neutral_content(
            XmlNode::Empty("enclosure"@, enclosure_attrs(u, item.enclosure_type, item.enclosure_length)),
        ),
        None => lemma_neutral_empty(),
    }
    lemma_neutral_concat(title, desc);
    lemma_neutral_concat(title + desc, link);
    lemma_neutral_concat(title + desc + link, date);
    lemma_neutral_concat(title + desc + link + date, author);
    lemma_neutral_concat(title + desc + link + date + author, cats);
    lemma_neutral_concat(title + desc + link + date + author + cats, guid);
    lemma_neutral_concat(title + desc + link + date + author + cats + guid, enc);
    lemma_element_neutral("item"@, Seq::empty(), rss_item_body(item));
}

proof fn lemma_rss_items_neutral(items: Seq<ItemView>)
    ensures
        neutral(rss_items_nodes(items)),
    decreases items.len(),
{
    if items.len() == 0 {
        lemma_neutral_empty();
    } else {
        lemma_rss_items_neutral(items.drop_last());
        lemma_rss_item_neutral(items.last());
        lemma_neutral_concat(rss_items_nodes(items.drop_last()), rss_item_nodes(items.last()));
    }
}

/// The channel's elements before its items are whole elements.
proof fn lemma_rss_channel_body_neutral(data: Data)
    ensures
        neutral(rss_channel_body(data)),
{
    let t = text_element("title"@, data.title@);
    let l = rss_link_nodes(data);
    let d = rss_description_nodes(data);
    let lang = opt_text_element("language"@, opt_view(data.language));
    let img = rss_image_nodes(data);
    let ttl = rss_ttl_nodes(data);
    let upd = rss_updated_nodes(data);
    lemma_text_element_neutral("title"@, data.title@);
    match opt_view(data.link) {
        Some(x) => {
            lemma_text_element_neutral("link"@, x);
            lemma_neutral_content(
                XmlNode::Empty("atom:link"@, seq![("href"@, x), ("rel"@, "self"@), ("type"@, "application/rss+xml"@)]),
            );
            lemma_neutral_concat(
                text_element("link"@, x),
                seq![XmlNode::Empty("atom:link"@, seq![("href"@, x), ("rel"@, "self"@), ("type"@, "application/rss+xml"@)])],
            );
        },
        None => lemma_neutral_empty(),
    }
    lemma_text_element_neutral("description"@, match opt_view(data.description) {
        Some(x) => x,
        None => data.title@,
    });
    lemma_opt_text_element_neutral("language"@, opt_view(data.language));
    match opt_view(data.image) {
        Some(i) => {
            lemma_text_element_neutral("url"@, i);
            lemma_text_element_neutral("title"@, data.title@);
            lemma_opt_text_element_neutral("link"@, opt_view(data.link));
            lemma_neutral_concat(text_element("url"@, i), text_element("title"@, data.title@));
            lemma_neutral_concat(
                text_element("url"@, i) + text_element("title"@, data.title@),
                opt_text_element("link"@, opt_view(data.link)),
            );
            lemma_element_neutral(
                "image"@,
                Seq::empty(),
                text_element("url"@, i) + text_element("title"@, data.title@) + opt_text_element(
                    "link"@,
                    opt_view(data.link),
                ),
            );
        },
        None => lemma_neutral_empty(),
    }
    match data.ttl {
        Some(n) => lemma_text_element_neutral("ttl"@, decimal(n as nat)),
        None => lemma_neutral_empty(),
    }
    match data.updated {
        Some(u) => lemma_text_element_neutral("lastBuildDate"@, rfc2822_text(u)),
        None => lemma_neutral_empty(),
    }
    lemma_neutral_concat(t, l);
    lemma_neutral_concat(t + l, d);
    lemma_neutral_concat(t + l + d, lang);
    lemma_neutral_concat(t + l + d + lang, img);
    lemma_neutral_concat(t + l + d + lang + img, ttl);
    lemma_neutral_concat(t + l + d + lang + img + ttl, upd);
    lemma_text_element_neutral("generator"@, "OpenRss"@);
    lemma_neutral_concat(t + l + d + lang + img + ttl + upd, text_element("generator"@, "OpenRss"@));
}

/// Every RSS document is well nested: each element opened is closed, in
/// order, inside `<rss>` and `<channel>`.
pub proof fn law_rss_well_nested(data: Data)
    ensures
        well_nested(spec_rss_nodes(data)),
{
    let body = rss_channel_body(data);
    let items = rss_items_nodes(item_views(data.items@));
    lemma_rss_channel_body_neutral(data);
    lemma_rss_items_neutral(item_views(data.items@));
    lemma_neutral_concat(body, items);
    lemma_element_neutral("channel"@, Seq::empty(), body + items);
    let channel = element("channel"@, Seq::empty(), body + items);
    lemma_element_neutral("rss"@, rss_attrs(), channel);
    lemma_declared_document_well_nested("1.0"@, "utf-8"@, element("rss"@, rss_attrs(), channel));
}

} // verus!
