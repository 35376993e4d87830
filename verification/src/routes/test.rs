//! A route with fixed data, for verifying the middleware chain.
use vstd::prelude::*;
use crate::data::{Data, DataItem, Timestamp, opt_view};
use crate::number::decimal;
use crate::time::chrono_utc_ymd_hms;

verus! {

/// Number of items of the example feed.
pub const EXAMPLE_ITEMS: u32 = 5;

/// The `i`-th item of the example feed (counting from 1).
pub open spec fn spec_example_item(item: DataItem, i: u32) -> bool {
    &&& item.title@ == "Test Item "@ + decimal(i as nat)
    &&& opt_view(item.link) == Some("https://example.com/"@ + decimal(i as nat))
    &&& opt_view(item.description) == Some("<p>Content for item "@ + decimal(i as nat) + "</p>"@)
    &&& item.pub_date == (match chrono_utc_ymd_hms(2025, 1, (10 + i) as u32, 12, 0, 0) {
        Some((secs, nanos)) => Some(Timestamp { secs, nanos }),
        None => None,
    })
    &&& opt_view(item.author) == Some("OpenRss"@)
    &&& opt_view(item.guid) == Some("test-"@ + decimal(i as nat))
    &&& item.category@.len() == 0
    &&& item.enclosure_url is None
    &&& item.enclosure_type is None
    &&& item.enclosure_length is None
}

fn example_item(i: u32) -> (item: DataItem)
    requires
        1 <= i <= EXAMPLE_ITEMS,
    ensures
        spec_example_item(item, i),
{
    let n = crate::number::u64_to_decimal(i as u64);
    let mut title = String::from_str("Test Item ");
    title.append(n.as_str());
    let mut item = DataItem::new(title.as_str());
    let mut link = String::from_str("https://example.com/");
    link.append(n.as_str());
    item.link = Some(link);
    let mut desc = String::from_str("<p>Content for item ");
    desc.append(n.as_str());
    desc.append("</p>");
    item.description = Some(desc);
    item.pub_date = match crate::time::utc_ymd_hms(2025, 1, 10 + i, 12, 0, 0) {
        Some((secs, nanos)) => Some(Timestamp::new(secs, nanos)),
        None => None,
    };
    item.author = Some(String::from_str("OpenRss"));
    let mut guid = String::from_str("test-");
    guid.append(n.as_str());
    item.guid = Some(guid);
    item
}

/// The fixed data of the example route: five items, dated one day apart.
pub fn example_feed() -> (data: Data)
    ensures
        data.title@ == "Test Feed"@,
        opt_view(data.link) == Some("https://example.com"@),
        opt_view(data.description) == Some("A test feed for OpenRss"@),
        opt_view(data.language) == Some("en"@),
        data.items@.len() == EXAMPLE_ITEMS,
        forall|k: int| 0 <= k < EXAMPLE_ITEMS ==> spec_example_item(#[trigger] data.items@[k], (k + 1) as u32),
        data.image is None,
        data.ttl is None,
        data.updated is None,
        data.itunes_author is None,
        data.itunes_category is None,
        data.itunes_explicit is None,
{
    let mut data = Data::new("Test Feed");
    data.link = Some(String::from_str("https://example.com"));
    data.description = Some(String::from_str("A test feed for OpenRss"));
    data.language = Some(String::from_str("en"));
    let mut i: u32 = 1;
    while i <= EXAMPLE_ITEMS
        invariant
            1 <= i <= EXAMPLE_ITEMS + 1,
            data.items@.len() == i - 1,
            forall|k: int| 0 <= k < i - 1 ==> spec_example_item(#[trigger] data.items@[k], (k + 1) as u32),
            data.title@ == "Test Feed"@,
            opt_view(data.link) == Some("https://example.com"@),
            opt_view(data.description) == Some("A test feed for OpenRss"@),
            opt_view(data.language) == Some("en"@),
            data.image is None,
            data.ttl is None,
            data.updated is None,
            data.itunes_author is None,
            data.itunes_category is None,
            data.itunes_explicit is None,
        decreases EXAMPLE_ITEMS + 1 - i,
    {
        data.items.push(example_item(i));
        i = i + 1;
    }
    data
}

} // verus!
