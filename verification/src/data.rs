//! Core feed data returned by every route.
//!
//! `Data` is the universal intermediate representation: every adapter
//! produces one, and every output format (RSS, Atom, JSON Feed) consumes one.
use vstd::prelude::*;

verus! {

/// A point in time on the UTC time line: whole seconds since the Unix epoch
/// and the nanoseconds within that second.
#[derive(Debug, Clone, Copy, PartialEq, Eq, Structural)]
pub struct Timestamp {
    pub secs: i64,
    pub nanos: u32,
}

impl Timestamp {
    pub fn new(secs: i64, nanos: u32) -> (t: Timestamp)
        ensures
            t.secs == secs,
            t.nanos == nanos,
    {
        Timestamp { secs, nanos }
    }

    /// The Unix epoch, the default date of an item without one.
    pub fn epoch() -> (t: Timestamp)
        ensures
            t.secs == 0,
            t.nanos == 0,
    {
        Timestamp { secs: 0, nanos: 0 }
    }

    /// `self` is strictly earlier than `other` (seconds first, then
    /// nanoseconds).
    pub open spec fn before(self, other: Timestamp) -> bool {
        self.secs < other.secs || (self.secs == other.secs && self.nanos < other.nanos)
    }

    pub fn is_before(&self, other: &Timestamp) -> (b: bool)
        ensures
            b == self.before(*other),
    {
        self.secs < other.secs || (self.secs == other.secs && self.nanos < other.nanos)
    }
}

/// Core feed data returned by every route handler.
#[derive(Debug, Clone)]
pub struct Data {
    pub title: String,
    pub link: Option<String>,
    pub description: Option<String>,
    pub language: Option<String>,
    pub image: Option<String>,
    pub items: Vec<DataItem>,
    // Feed metadata
    pub ttl: Option<u32>,
    pub updated: Option<Timestamp>,
    // Podcast extensions (iTunes)
    pub itunes_author: Option<String>,
    pub itunes_category: Option<String>,
    pub itunes_explicit: Option<bool>,
}

/// A single item/entry in the feed.
#[derive(Debug, Clone)]
pub struct DataItem {
    pub title: String,
    pub description: Option<String>,
    pub link: Option<String>,
    pub pub_date: Option<Timestamp>,
    pub author: Option<String>,
    pub category: Vec<String>,
    pub guid: Option<String>,
    // Enclosure (podcast/media attachments)
    pub enclosure_url: Option<String>,
    pub enclosure_type: Option<String>,
    pub enclosure_length: Option<u64>,
}

/// The characters of an optional string.
pub open spec fn opt_view(o: Option<String>) -> Option<Seq<char>> {
    match o {
        Some(s) => Some(s@),
        None => None,
    }
}

/// What an item holds, as plain values.
pub struct ItemView {
    pub title: Seq<char>,
    pub description: Option<Seq<char>>,
    pub link: Option<Seq<char>>,
    pub pub_date: Option<Timestamp>,
    pub author: Option<Seq<char>>,
    pub category: Seq<Seq<char>>,
    pub guid: Option<Seq<char>>,
    pub enclosure_url: Option<Seq<char>>,
    pub enclosure_type: Option<Seq<char>>,
    pub enclosure_length: Option<u64>,
}

impl View for DataItem {
    type V = ItemView;

    open spec fn view(&self) -> ItemView {
        ItemView {
            title: self.title@,
            description: opt_view(self.description),
            link: opt_view(self.link),
            pub_date: self.pub_date,
            author: opt_view(self.author),
            category: crate::text::views(self.category@),
            guid: opt_view(self.guid),
            enclosure_url: opt_view(self.enclosure_url),
            enclosure_type: opt_view(self.enclosure_type),
            enclosure_length: self.enclosure_length,
        }
    }
}

/// The views of a sequence of items.
pub open spec fn item_views(items: Seq<DataItem>) -> Seq<ItemView> {
    items.map_values(|i: DataItem| i@)
}

impl Data {
    /// Every field but the items.
    pub open spec fn same_header(self, other: Data) -> bool {
        &&& self.title@ == other.title@
        &&& opt_view(self.link) == opt_view(other.link)
        &&& opt_view(self.description) == opt_view(other.description)
        &&& opt_view(self.language) == opt_view(other.language)
        &&& opt_view(self.image) == opt_view(other.image)
        &&& self.ttl == other.ttl
        &&& self.updated == other.updated
        &&& opt_view(self.itunes_author) == opt_view(other.itunes_author)
        &&& opt_view(self.itunes_category) == opt_view(other.itunes_category)
        &&& self.itunes_explicit == other.itunes_explicit
    }

    pub fn new(title: &str) -> (d: Data)
        ensures
            d.title@ == title@,
            d.link is None,
            d.description is None,
            d.language is None,
            d.image is None,
            d.items@.len() == 0,
            d.ttl is None,
            d.updated is None,
            d.itunes_author is None,
            d.itunes_category is None,
            d.itunes_explicit is None,
    {
        Data {
            title: String::from_str(title),
            link: None,
            description: None,
            language: None,
            image: None,
            items: Vec::new(),
            ttl: None,
            updated: None,
            itunes_author: None,
            itunes_category: None,
            itunes_explicit: None,
        }
    }
}

impl DataItem {
    pub fn new(title: &str) -> (i: DataItem)
        ensures
            i.title@ == title@,
            i.description is None,
            i.link is None,
            i.pub_date is None,
            i.author is None,
            i.category@.len() == 0,
            i.guid is None,
            i.enclosure_url is None,
            i.enclosure_type is None,
            i.enclosure_length is None,
    {
        DataItem {
            title: String::from_str(title),
            description: None,
            link: None,
            pub_date: None,
            author: None,
            category: Vec::new(),
            guid: None,
            enclosure_url: None,
            enclosure_type: None,
            enclosure_length: None,
        }
    }
}

} // verus!
