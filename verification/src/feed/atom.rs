//! Atom 1.0 documents.
use vstd::prelude::*;
use crate::data::{Data, DataItem, ItemView, Timestamp, opt_view, item_views};
use crate::error::AppError;
use crate::feed::xml::{
    element, lemma_declared_document_well_nested, lemma_element_neutral, lemma_neutral_concat,
    lemma_neutral_content, lemma_neutral_empty, lemma_text_element_neutral, neutral, well_nested,
    XmlEvent, XmlNode, attr, attrs_view, events_view, feed_indent, push_empty, push_end, push_event,
    push_start, push_text_element, text_element, write_document, xml_document,
};
use crate::feed::rss::opt_text_element;
use crate::time::{chrono_rfc3339, chrono_timestamp_valid, rfc3339, utc_now};

verus! {

/// The RFC 3339 notation of a date (empty where chrono has none).
pub open spec fn rfc3339_text(t: Timestamp) -> Seq<char> {
    match chrono_rfc3339(t.secs, t.nanos) {
        Some(s) => s,
        None => Seq::empty(),
    }
}

/// A date that is absent, or that chrono can represent.
pub open spec fn rfc3339_ok(t: Option<Timestamp>) -> bool {
    match t {
        Some(t) => chrono_timestamp_valid(t.secs, t.nanos),
        None => true,
    }
}

/// The later of two optional dates (the second one when they are equal).
pub open spec fn later(a: Option<Timestamp>, b: Option<Timestamp>) -> Option<Timestamp> {
    match (a, b) {
        (None, _) => b,
        (Some(x), None) => Some(x),
        (Some(x), Some(y)) => if y.before(x) {
            Some(x)
        } else {
            Some(y)
        },
    }
}

/// The most recent publication date among the items, if any has one.
pub open spec fn latest_pub_date(items: Seq<ItemView>) -> Option<Timestamp>
    decreases items.len(),
{
    if items.len() == 0 {
        None
    } else {
        later(latest_pub_date(items.drop_last()), items.last().pub_date)
    }
}

/// The feed's `<updated>` date where the feed decides it: its own update
/// date, else its most recent item date.
pub open spec fn atom_fixed_updated(data: Data) -> Option<Timestamp> {
    match data.updated {
        Some(t) => Some(t),
        None => latest_pub_date(item_views(data.items@)),
    }
}

/// Every item date can be written.
pub open spec fn atom_item_dates_ok(data: Data) -> bool {
    forall|i: int| 0 <= i < data.items@.len() ==> rfc3339_ok(#[trigger] data.items@[i].pub_date)
}

/// The feed's links (to the site and to itself) and its id, the link.
pub open spec fn atom_link_nodes(data: Data) -> Seq<XmlNode> {
    match opt_view(data.link) {
        Some(l) => seq![
            XmlNode::Empty("link"@, seq![("href"@, l), ("rel"@, "alternate"@)]),
            XmlNode::Empty("link"@, seq![("href"@, l), ("rel"@, "self"@), ("type"@, "application/atom+xml"@)]),
        ] + text_element("id"@, l),
        None => Seq::empty(),
    }
}

/// The feed's elements before its entries, with `updated` as its date.
pub open spec fn atom_feed_body(data: Data, updated: Timestamp) -> Seq<XmlNode> {
    text_element("title"@, data.title@) + atom_link_nodes(data) + opt_text_element(
        "subtitle"@,
        opt_view(data.description),
    ) + text_element("updated"@, rfc3339_text(updated)) + opt_text_element("icon"@, opt_view(data.image))
        + opt_text_element("dc:language"@, opt_view(data.language))
}

/// The attributes of `<feed>`.
pub open spec fn atom_attrs() -> Seq<(Seq<char>, Seq<char>)> {
    seq![("xmlns"@, "http://www.w3.org/2005/Atom"@)]
}

/// The document up to the feed's entries.
pub open spec fn atom_feed_head(data: Data, updated: Timestamp) -> Seq<XmlNode> {
    seq![XmlNode::Decl("1.0"@, "utf-8"@), XmlNode::Start("feed"@, atom_attrs())] + atom_feed_body(data, updated)
}

/// An entry's link and id: the id is the guid, else the link.
pub open spec fn entry_link_nodes(item: ItemView) -> Seq<XmlNode> {
    match item.link {
        Some(l) => seq![XmlNode::Empty("link"@, seq![("href"@, l)])] + text_element(
            "id"@,
            match item.guid {
                Some(g) => g,
                None => l,
            },
        ),
        None => opt_text_element("id"@, item.guid),
    }
}

/// An entry's content, as HTML in CDATA.
pub open spec fn entry_content_nodes(item: ItemView) -> Seq<XmlNode> {
    match item.description {
        Some(d) => element("content"@, seq![("type"@, "html"@)], seq![XmlNode::CData(d)]),
        None => Seq::empty(),
    }
}

/// An entry's `<published>` and `<updated>`, both its publication date.
pub open spec fn entry_date_nodes(item: ItemView) -> Seq<XmlNode> {
    match item.pub_date {
        Some(t) => text_element("published"@, rfc3339_text(t)) + text_element("updated"@, rfc3339_text(t)),
        None => Seq::empty(),
    }
}

/// An entry's `<author>`.
pub open spec fn entry_author_nodes(item: ItemView) -> Seq<XmlNode> {
    match item.author {
        Some(a) => element("author"@, Seq::empty(), text_element("name"@, a)),
        None => Seq::empty(),
    }
}

/// One empty `<category term=..>` per category, in order.
pub open spec fn term_nodes(cats: Seq<Seq<char>>) -> Seq<XmlNode>
    decreases cats.len(),
{
    if cats.len() == 0 {
        Seq::empty()
    } else {
        term_nodes(cats.drop_last()).push(XmlNode::Empty("category"@, seq![("term"@, cats.last())]))
    }
}

/// The elements inside one `<entry>`.
pub open spec fn atom_entry_body(item: ItemView) -> Seq<XmlNode> {
    text_element("title"@, item.title) + entry_link_nodes(item) + entry_content_nodes(item) + entry_date_nodes(item)
        + entry_author_nodes(item) + term_nodes(item.category)
}

/// The `<entry>` element of one item.
pub open spec fn atom_entry_nodes(item: ItemView) -> Seq<XmlNode> {
    element("entry"@, Seq::empty(), atom_entry_body(item))
}

/// The entries' elements, in order.
pub open spec fn atom_entries_nodes(items: Seq<ItemView>) -> Seq<XmlNode>
    decreases items.len(),
{
    if items.len() == 0 {
        Seq::empty()
    } else {
        atom_entries_nodes(items.drop_last()) + atom_entry_nodes(items.last())
    }
}

/// The whole Atom document, event by event, with `updated` as the feed's
/// date.
pub open spec fn spec_atom_nodes(data: Data, updated: Timestamp) -> Seq<XmlNode> {
    seq![XmlNode::Decl("1.0"@, "utf-8"@)] + element(
        "feed"@,
        atom_attrs(),
        atom_feed_body(data, updated) + atom_entries_nodes(item_views(data.items@)),
    )
}

/// The most recent publication date among the items.
pub fn latest_item_date(items: &Vec<DataItem>) -> (r: Option<Timestamp>)
    ensures
        r == latest_pub_date(item_views(items@)),
{
    let mut best: Option<Timestamp> = None;
    let mut i: usize = 0;
    while i < items.len()
        invariant
            i <= items.len(),
            best == latest_pub_date(item_views(items@.take(i as int))),
        decreases items.len() - i,
    {
        let d = items[i].pub_date;
        best = match (best, d) {
            (None, _) => d,
            (Some(x), None) => Some(x),
            (Some(x), Some(y)) => if y.is_before(&x) {
                Some(x)
            } else {
                Some(y)
            },
        };
        assert(item_views(items@.take(i + 1)).drop_last() =~= item_views(items@.take(i as int)));
        i = i + 1;
    }
    assert(items@.take(items.len() as int) =~= items@);
    best
}

/// The feed's own update date, else its most recent item date.
pub fn fixed_updated(data: &Data) -> (r: Option<Timestamp>)
    ensures
        r == atom_fixed_updated(*data),
{
    match data.updated {
        Some(t) => Some(t),
        None => latest_item_date(&data.items),
    }
}

/// Appends `<tag>text</tag>` where there is a text.
fn push_opt(evs: &mut Vec<XmlEvent>, tag: &str, o: &Option<String>)
    ensures
        events_view(final(evs)@) == events_view(old(evs)@) + opt_text_element(tag@, opt_view(*o)),
{
    match o {
        Some(s) => push_text_element(evs, tag, s.as_str()),
        None => {
            assert(events_view(evs@) =~= events_view(evs@) + Seq::<XmlNode>::empty());
        },
    }
}

/// Appends the feed's links and id.
fn push_feed_links(evs: &mut Vec<XmlEvent>, data: &Data)
    ensures
        events_view(final(evs)@) == events_view(old(evs)@) + atom_link_nodes(*data),
{
    match &data.link {
        Some(l) => {
            let ghost s0 = events_view(evs@);
            let a = vec![attr("href", l.as_str()), attr("rel", "alternate")];
            assert(attrs_view(a@) =~= seq![("href"@, l@), ("rel"@, "alternate"@)]);
            push_empty(evs, "link", a);
            let b = vec![attr("href", l.as_str()), attr("rel", "self"), attr("type", "application/atom+xml")];
            assert(attrs_view(b@) =~= seq![("href"@, l@), ("rel"@, "self"@), ("type"@, "application/atom+xml"@)]);
            push_empty(evs, "link", b);
            push_text_element(evs, "id", l.as_str());
            assert(events_view(evs@) =~= s0 + seq![
                XmlNode::Empty("link"@, seq![("href"@, l@), ("rel"@, "alternate"@)]),
                XmlNode::Empty("link"@, seq![("href"@, l@), ("rel"@, "self"@), ("type"@, "application/atom+xml"@)]),
            ] + text_element("id"@, l@));
        },
        None => {
            assert(events_view(evs@) =~= events_view(evs@) + Seq::<XmlNode>::empty());
        },
    }
}

/// Appends the feed's elements before its entries; `false` when `updated`
/// cannot be written.
fn push_feed_head(evs: &mut Vec<XmlEvent>, data: &Data, updated: &Timestamp) -> (ok: bool)
    requires
        events_view(old(evs)@) == Seq::<XmlNode>::empty(),
    ensures
        ok == chrono_timestamp_valid(updated.secs, updated.nanos),
        ok ==> events_view(final(evs)@) == atom_feed_head(*data, *updated),
{
    push_event(evs, XmlEvent::Decl(String::from_str("1.0"), String::from_str("utf-8")));
    let a = vec![attr("xmlns", "http://www.w3.org/2005/Atom")];
    assert(attrs_view(a@) =~= atom_attrs());
    push_start(evs, "feed", a);
    push_text_element(evs, "title", data.title.as_str());
    push_feed_links(evs, data);
    push_opt(evs, "subtitle", &data.description);
    match rfc3339(updated) {
        Some(s) => push_text_element(evs, "updated", s.as_str()),
        None => return false,
    }
    push_opt(evs, "icon", &data.image);
    push_opt(evs, "dc:language", &data.language);
    assert(events_view(evs@) =~= atom_feed_head(*data, *updated));
    true
}

/// Appends an entry's link and id.
fn push_entry_link(evs: &mut Vec<XmlEvent>, item: &DataItem)
    ensures
        events_view(final(evs)@) == events_view(old(evs)@) + entry_link_nodes(item@),
{
    match &item.link {
        Some(l) => {
            let ghost s0 = events_view(evs@);
            let a = vec![attr("href", l.as_str())];
            assert(attrs_view(a@) =~= seq![("href"@, l@)]);
            push_empty(evs, "link", a);
            match &item.guid {
                Some(g) => push_text_element(evs, "id", g.as_str()),
                None => push_text_element(evs, "id", l.as_str()),
            }
            assert(events_view(evs@) =~= s0 + entry_link_nodes(item@));
        },
        None => push_opt(evs, "id", &item.guid),
    }
}

/// Appends an entry's content.
fn push_entry_content(evs: &mut Vec<XmlEvent>, item: &DataItem)
    ensures
        events_view(final(evs)@) == events_view(old(evs)@) + entry_content_nodes(item@),
{
    match &item.description {
        Some(d) => {
            let ghost s0 = events_view(evs@);
            let a = vec![attr("type", "html")];
            assert(attrs_view(a@) =~= seq![("type"@, "html"@)]);
            push_start(evs, "content", a);
            push_event(evs, XmlEvent::CData(d.clone()));
            push_end(evs, "content");
            assert(events_view(evs@) =~= s0 + entry_content_nodes(item@));
        },
        None => {
            assert(events_view(evs@) =~= events_view(evs@) + Seq::<XmlNode>::empty());
        },
    }
}

/// Appends an entry's dates; `false` when its date cannot be written.
fn push_entry_dates(evs: &mut Vec<XmlEvent>, item: &DataItem) -> (ok: bool)
    ensures
        ok == rfc3339_ok(item.pub_date),
        ok ==> events_view(final(evs)@) == events_view(old(evs)@) + entry_date_nodes(item@),
{
    match &item.pub_date {
        Some(t) => match rfc3339(t) {
            Some(s) => {
                let ghost s0 = events_view(evs@);
                push_text_element(evs, "published", s.as_str());
                push_text_element(evs, "updated", s.as_str());
                assert(events_view(evs@) =~= s0 + entry_date_nodes(item@));
                true
            },
            None => false,
        },
        None => {
            assert(events_view(evs@) =~= events_view(evs@) + Seq::<XmlNode>::empty());
            true
        },
    }
}

/// Appends an entry's author.
fn push_entry_author(evs: &mut Vec<XmlEvent>, item: &DataItem)
    ensures
        events_view(final(evs)@) == events_view(old(evs)@) + entry_author_nodes(item@),
{
    match &item.author {
        Some(a) => {
            let ghost s0 = events_view(evs@);
            push_start(evs, "author", Vec::new());
            assert(attrs_view(Seq::<(String, String)>::empty()) =~= Seq::<(Seq<char>, Seq<char>)>::empty());
            push_text_element(evs, "name", a.as_str());
            push_end(evs, "author");
            assert(events_view(evs@) =~= s0 + entry_author_nodes(item@));
        },
        None => {
            assert(events_view(evs@) =~= events_view(evs@) + Seq::<XmlNode>::empty());
        },
    }
}

/// Appends one `<category term=..>` per category.
fn push_terms(evs: &mut Vec<XmlEvent>, cats: &Vec<String>)
    ensures
        events_view(final(evs)@) == events_view(old(evs)@) + term_nodes(crate::text::views(cats@)),
{
    let ghost start = events_view(evs@);
    let mut i: usize = 0;
    while i < cats.len()
        invariant
            i <= cats.len(),
            events_view(evs@) == start + term_nodes(crate::text::views(cats@.take(i as int))),
        decreases cats.len() - i,
    {
        let a = vec![attr("term", cats[i].as_str())];
        assert(attrs_view(a@) =~= seq![("term"@, cats@[i as int]@)]);
        push_empty(evs, "category", a);
        assert(crate::text::views(cats@.take(i + 1)).drop_last() =~= crate::text::views(cats@.take(i as int)));
        assert(events_view(evs@) =~= start + term_nodes(crate::text::views(cats@.take(i + 1))));
        i = i + 1;
    }
    assert(cats@.take(cats.len() as int) =~= cats@);
}

/// Appends the `<entry>` element of an item; `false` when its date cannot be
/// written.
fn push_entry(evs: &mut Vec<XmlEvent>, item: &DataItem) -> (ok: bool)
    ensures
        ok == rfc3339_ok(item.pub_date),
        ok ==> events_view(final(evs)@) == events_view(old(evs)@) + atom_entry_nodes(item@),
{
    let ghost s0 = events_view(evs@);
    push_start(evs, "entry", Vec::new());
    assert(attrs_view(Seq::<(String, String)>::empty()) =~= Seq::<(Seq<char>, Seq<char>)>::empty());
    push_text_element(evs, "title", item.title.as_str());
    push_entry_link(evs, item);
    push_entry_content(evs, item);
    if !push_entry_dates(evs, item) {
        return false;
    }
    push_entry_author(evs, item);
    push_terms(evs, &item.category);
    push_end(evs, "entry");
    assert(events_view(evs@) =~= s0 + atom_entry_nodes(item@));
    true
}

/// The events of the Atom document of a feed dated `updated`, or `None` when
/// one of its dates cannot be written.
pub fn atom_events(data: &Data, updated: &Timestamp) -> (r: Option<Vec<XmlEvent>>)
    ensures
        r is Some <==> chrono_timestamp_valid(updated.secs, updated.nanos) && atom_item_dates_ok(*data),
        r matches Some(e) ==> events_view(e@) == spec_atom_nodes(*data, *updated),
{
    let mut evs: Vec<XmlEvent> = Vec::new();
    assert(events_view(evs@) =~= Seq::<XmlNode>::empty());
    if !push_feed_head(&mut evs, data, updated) {
        return None;
    }
    let ghost head = events_view(evs@);
    let mut i: usize = 0;
    while i < data.items.len()
        invariant
            i <= data.items.len(),
            chrono_timestamp_valid(updated.secs, updated.nanos),
            head == atom_feed_head(*data, *updated),
            forall|j: int| 0 <= j < i ==> rfc3339_ok(#[trigger] data.items@[j].pub_date),
            events_view(evs@) == head + atom_entries_nodes(item_views(data.items@.take(i as int))),
        decreases data.items.len() - i,
    {
        if !push_entry(&mut evs, &data.items[i]) {
            return None;
        }
        assert(item_views(data.items@.take(i + 1)).drop_last() =~= item_views(data.items@.take(i as int)));
        assert(events_view(evs@) =~= head + atom_entries_nodes(item_views(data.items@.take(i + 1))));
        i = i + 1;
    }
    assert(data.items@.take(data.items.len() as int) =~= data.items@);
    push_end(&mut evs, "feed");
    assert(events_view(evs@) =~= spec_atom_nodes(*data, *updated));
    Some(evs)
}

/// Renders a feed dated `updated` as an Atom 1.0 document, indented by two
/// spaces.
pub fn render_at(data: &Data, updated: &Timestamp) -> (r: Result<String, AppError>)
    ensures
        r is Ok <==> chrono_timestamp_valid(updated.secs, updated.nanos) && atom_item_dates_ok(*data),
        r matches Ok(s) ==> s@ == xml_document(feed_indent(), spec_atom_nodes(*data, *updated)),
        r matches Err(e) ==> (e matches AppError::Render(m) && m@ == "date out of range"@),
{
    match atom_events(data, updated) {
        None => Err(AppError::Render(String::from_str("date out of range"))),
        Some(evs) => match write_document(&evs) {
            Ok(s) => Ok(s),
            Err(m) => Err(AppError::Render(m)),
        },
    }
}

/// What rendering a feed as Atom may give: the document of its events, dated
/// by the feed where it decides its date, when it succeeds; a rendering error
/// otherwise, and an error whenever a date cannot be written.
pub open spec fn atom_rendered(data: Data, r: Result<String, AppError>) -> bool {
    &&& r is Ok <==> (atom_item_dates_ok(data) && (atom_fixed_updated(data) matches Some(u) ==> chrono_timestamp_valid(u.secs, u.nanos)))
    &&& atom_fixed_updated(data) matches Some(u) ==> {
        &&& !chrono_timestamp_valid(u.secs, u.nanos) ==> r is Err
        &&& r matches Ok(s) ==> s@ == xml_document(feed_indent(), spec_atom_nodes(data, u))
    }
    &&& r matches Ok(s) ==> exists|u: Timestamp|
        #![trigger spec_atom_nodes(data, u)]
        chrono_timestamp_valid(u.secs, u.nanos) && s@ == xml_document(feed_indent(), spec_atom_nodes(data, u))
    &&& r matches Err(e) ==> (e matches AppError::Render(m) && m@ == "date out of range"@)
}

/// Renders a feed as an Atom 1.0 document. The feed is dated by its own
/// update date, else by its most recent item, else by the current time.
pub fn render(data: &Data) -> (r: Result<String, AppError>)
    ensures
        atom_rendered(*data, r),
{
    let updated = match fixed_updated(data) {
        Some(t) => t,
        None => utc_now(),
    };
    let r = render_at(data, &updated);
    proof {
        if r is Ok {
            assert(spec_atom_nodes(*data, updated) == spec_atom_nodes(*data, updated));
        }
    }
    r
}

// ---------------------------------------------------------------------------
// Nesting
// ---------------------------------------------------------------------------

proof fn lemma_opt_text_element_neutral(tag: Seq<char>, o: Option<Seq<char>>)
    ensures
        neutral(opt_text_element(tag, o)),
{
    match o {
        Some(s) => lemma_text_element_neutral(tag, s),
        None => lemma_neutral_empty(),
    }
}

proof fn lemma_term_nodes_neutral(cats: Seq<Seq<char>>)
    ensures
        neutral(term_nodes(cats)),
    decreases cats.len(),
{
    if cats.len() == 0 {
        lemma_neutral_empty();
    } else {
        lemma_term_nodes_neutral(cats.drop_last());
        let e = XmlNode::Empty("category"@, seq![("term"@, cats.last())]);
        lemma_neutral_content(e);
        lemma_neutral_concat(term_nodes(cats.drop_last()), seq![e]);
        assert(term_nodes(cats) =~= term_nodes(cats.drop_last()) + seq![e]);
    }
}

proof fn lemma_atom_entry_neutral(item: ItemView)
    ensures
        neutral(atom_entry_nodes(item)),
{
    let title = text_element("title"@, item.title);
    let link = entry_link_nodes(item);
    let content = entry_content_nodes(item);
    let dates = entry_date_nodes(item);
    let author = entry_author_nodes(item);
    let terms = term_nodes(item.category);
    lemma_text_element_neutral("title"@, item.title);
    match item.link {
        Some(l) => {
            let e = XmlNode::Empty("link"@, seq![("href"@, l)]);
            let id = match item.guid {
                Some(g) => g,
                None => l,
            };
            lemma_neutral_content(e);
            lemma_text_element_neutral("id"@, id);
            lemma_neutral_concat(seq![e], text_element("id"@, id));
        },
        None => lemma_opt_text_element_neutral("id"@, item.guid),
    }
    match item.description {
        Some(d) => {
            lemma_neutral_content(XmlNode::CData(d));
            lemma_element_neutral("content"@, seq![("type"@, "html"@)], seq![XmlNode::CData(d)]);
        },
        None => lemma_neutral_empty(),
    }
    match item.pub_date {
        Some(t) => {
            lemma_text_element_neutral("published"@, rfc3339_text(t));
            lemma_text_element_neutral("updated"@, rfc3339_text(t));
            lemma_neutral_concat(text_element("published"@, rfc3339_text(t)), text_element("updated"@, rfc3339_text(t)));
        },
        None => lemma_neutral_empty(),
    }
    match item.author {
        Some(a) => {
            lemma_text_element_neutral("name"@, a);
            lemma_element_neutral("author"@, Seq::empty(), text_element("name"@, a));
        },
        None => lemma_neutral_empty(),
    }
    lemma_term_nodes_neutral(item.category);
    lemma_neutral_concat(title, link);
    lemma_neutral_concat(title + link, content);
    lemma_neutral_concat(title + link + content, dates);
    lemma_neutral_concat(title + link + content + dates, author);
    lemma_neutral_concat(title + link + content + dates + author, terms);
    lemma_element_neutral("entry"@, Seq::empty(), atom_entry_body(item));
}

proof fn lemma_atom_entries_neutral(items: Seq<ItemView>)
    ensures
        neutral(atom_entries_nodes(items)),
    decreases items.len(),
{
    if items.len() == 0 {
        lemma_neutral_empty();
    } else {
        lemma_atom_entries_neutral(items.drop_last());
        lemma_atom_entry_neutral(items.last());
        lemma_neutral_concat(atom_entries_nodes(items.drop_last()), atom_entry_nodes(items.last()));
    }
}

proof fn lemma_atom_feed_body_neutral(data: Data, updated: Timestamp)
    ensures
        neutral(atom_feed_body(data, updated)),
{
    let t = text_element("title"@, data.title@);
    let l = atom_link_nodes(data);
    let sub = opt_text_element("subtitle"@, opt_view(data.description));
    let upd = text_element("updated"@, rfc3339_text(updated));
    let icon = opt_text_element("icon"@, opt_view(data.image));
    let lang = opt_text_element("dc:language"@, opt_view(data.language));
    lemma_text_element_neutral("title"@, data.title@);
    match opt_view(data.link) {
        Some(x) => {
            let a = XmlNode::Empty("link"@, seq![("href"@, x), ("rel"@, "alternate"@)]);
            let b = XmlNode::Empty("link"@, seq![("href"@, x), ("rel"@, "self"@), ("type"@, "application/atom+xml"@)]);
            lemma_neutral_content(a);
            lemma_neutral_content(b);
            lemma_neutral_concat(seq![a], seq![b]);
            lemma_text_element_neutral("id"@, x);
            lemma_neutral_concat(seq![a] + seq![b], text_element("id"@, x));
            assert(l =~= seq![a] + seq![b] + text_element("id"@, x));
        },
        None => lemma_neutral_empty(),
    }
    lemma_opt_text_element_neutral("subtitle"@, opt_view(data.description));
    lemma_text_element_neutral("updated"@, rfc3339_text(updated));
    lemma_opt_text_element_neutral("icon"@, opt_view(data.image));
    lemma_opt_text_element_neutral("dc:language"@, opt_view(data.language));
    lemma_neutral_concat(t, l);
    lemma_neutral_concat(t + l, sub);
    lemma_neutral_concat(t + l + sub, upd);
    lemma_neutral_concat(t + l + sub + upd, icon);
    lemma_neutral_concat(t + l + sub + upd + icon, lang);
}

/// Every Atom document is well nested: each element opened is closed, in
/// order, inside `<feed>`.
pub proof fn law_atom_well_nested(data: Data, updated: Timestamp)
    ensures
        well_nested(spec_atom_nodes(data, updated)),
{
    let body = atom_feed_body(data, updated);
    let entries = atom_entries_nodes(item_views(data.items@));
    lemma_atom_feed_body_neutral(data, updated);
    lemma_atom_entries_neutral(item_views(data.items@));
    lemma_neutral_concat(body, entries);
    lemma_element_neutral("feed"@, atom_attrs(), body + entries);
    lemma_declared_document_well_nested("1.0"@, "utf-8"@, element("feed"@, atom_attrs(), body + entries));
}

} // verus!
