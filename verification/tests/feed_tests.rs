use chrono::TimeZone;
use openrss::data::{Data, DataItem, Timestamp};
use openrss::feed::atom;
use openrss::feed::json;
use openrss::feed::rss;
use openrss::feed::xml_utils::{write_cdata_element, write_text_element};
use openrss::feed::{render, FeedFormat};

fn utc(y: i32, mo: u32, d: u32, h: u32, mi: u32, s: u32) -> Timestamp {
    let t = chrono::Utc.with_ymd_and_hms(y, mo, d, h, mi, s).unwrap();
    Timestamp::new(t.timestamp(), t.timestamp_subsec_nanos())
}

fn rss_sample_data() -> Data {
    let mut data = Data::new("Test Feed");
    data.link = Some("https://example.com".into());
    data.description = Some("A test feed".into());
    data.language = Some("en".into());

    let mut item = DataItem::new("Item 1");
    item.link = Some("https://example.com/1".into());
    item.description = Some("<p>Hello <b>world</b></p>".into());
    item.pub_date = Some(utc(2025, 1, 15, 12, 0, 0));
    item.author = Some("Alice".into());
    item.category = vec!["tech".into(), "rust".into()];
    item.guid = Some("guid-001".into());
    data.items.push(item);

    data
}

fn atom_sample_data() -> Data {
    let mut data = Data::new("Test Feed");
    data.link = Some("https://example.com".into());
    data.description = Some("A test feed".into());

    let mut item = DataItem::new("Item 1");
    item.link = Some("https://example.com/1".into());
    item.description = Some("<p>Hello</p>".into());
    item.pub_date = Some(utc(2025, 1, 15, 12, 0, 0));
    item.author = Some("Alice".into());
    item.category = vec!["tech".into()];
    item.guid = Some("guid-001".into());
    data.items.push(item);

    data
}

fn json_sample_data() -> Data {
    let mut data = Data::new("Test Feed");
    data.link = Some("https://example.com".into());
    data.description = Some("A test feed".into());
    data.language = Some("en".into());

    let mut item = DataItem::new("Item 1");
    item.link = Some("https://example.com/1".into());
    item.description = Some("<p>Hello</p>".into());
    item.pub_date = Some(utc(2025, 1, 15, 12, 0, 0));
    item.author = Some("Alice".into());
    item.category = vec!["tech".into()];
    item.guid = Some("guid-001".into());
    data.items.push(item);

    data
}

// ---------------------------------------------------------------------------
// Formats
// ---------------------------------------------------------------------------

#[test]
fn mod_default_format_is_rss() {
    assert_eq!(FeedFormat::default(), FeedFormat::Rss);
}

#[test]
fn format_from_str_loose() {
    assert_eq!(FeedFormat::from_str_loose("atom"), FeedFormat::Atom);
    assert_eq!(FeedFormat::from_str_loose("ATOM"), FeedFormat::Atom);
    assert_eq!(FeedFormat::from_str_loose("json"), FeedFormat::Json);
    assert_eq!(FeedFormat::from_str_loose("rss"), FeedFormat::Rss);
    assert_eq!(FeedFormat::from_str_loose("anything"), FeedFormat::Rss);
}

#[test]
fn content_types() {
    assert!(FeedFormat::Rss.content_type().contains("rss+xml"));
    assert!(FeedFormat::Atom.content_type().contains("atom+xml"));
    assert!(FeedFormat::Json.content_type().contains("application/feed+json"));
}

#[test]
fn format_name_ignores_case_on_mixed_case() {
    assert_eq!(FeedFormat::from_str_loose("JsOn"), FeedFormat::Json);
    assert_eq!(FeedFormat::from_str_loose("Atom"), FeedFormat::from_str_loose("atom"));
}

#[test]
fn content_type_exact_values() {
    assert_eq!(FeedFormat::Rss.content_type(), "application/rss+xml; charset=utf-8");
    assert_eq!(FeedFormat::Atom.content_type(), "application/atom+xml; charset=utf-8");
    assert_eq!(FeedFormat::Json.content_type(), "application/feed+json; charset=utf-8");
}

// ---------------------------------------------------------------------------
// RSS
// ---------------------------------------------------------------------------

#[test]
fn rss_renders_valid_xml() {
    let xml = rss::render(&rss_sample_data()).unwrap();
    assert!(xml.starts_with("<?xml version=\"1.0\" encoding=\"utf-8\"?>"));
    assert!(xml.contains("<rss version=\"2.0\""));
    assert!(xml.contains("</rss>"));
    // Verify it parses back
    quick_xml::Reader::from_str(&xml);
}

#[test]
fn rss_includes_channel_metadata() {
    let xml = rss::render(&rss_sample_data()).unwrap();
    assert!(xml.contains("<title>Test Feed</title>"));
    assert!(xml.contains("<link>https://example.com</link>"));
    assert!(xml.contains("<description>A test feed</description>"));
    assert!(xml.contains("<language>en</language>"));
}

#[test]
fn rss_includes_item_fields() {
    let xml = rss::render(&rss_sample_data()).unwrap();
    assert!(xml.contains("<title>Item 1</title>"));
    assert!(xml.contains("<link>https://example.com/1</link>"));
    assert!(xml.contains("<author>Alice</author>"));
    assert!(xml.contains("<category>tech</category>"));
    assert!(xml.contains("<category>rust</category>"));
}

#[test]
fn rss_includes_pubdate() {
    let xml = rss::render(&rss_sample_data()).unwrap();
    // RFC 2822 date format
    assert!(xml.contains("<pubDate>"));
    assert!(xml.contains("2025"));
}

#[test]
fn rss_includes_guid() {
    let xml = rss::render(&rss_sample_data()).unwrap();
    assert!(xml.contains("<guid isPermaLink=\"false\">guid-001</guid>"));
}

#[test]
fn rss_description_uses_cdata() {
    let xml = rss::render(&rss_sample_data()).unwrap();
    assert!(xml.contains("<![CDATA[<p>Hello <b>world</b></p>]]>"));
}

#[test]
fn rss_handles_empty_items() {
    let data = Data::new("Empty Feed");
    let xml = rss::render(&data).unwrap();
    assert!(xml.contains("<title>Empty Feed</title>"));
    assert!(!xml.contains("<item>"));
}

#[test]
fn rss_includes_enclosure() {
    let mut data = Data::new("Podcast");
    let mut item = DataItem::new("Episode 1");
    item.enclosure_url = Some("https://example.com/ep1.mp3".into());
    item.enclosure_type = Some("audio/mpeg".into());
    item.enclosure_length = Some(12345678);
    data.items.push(item);

    let xml = rss::render(&data).unwrap();
    assert!(xml.contains("enclosure"));
    assert!(xml.contains("url=\"https://example.com/ep1.mp3\""));
    assert!(xml.contains("type=\"audio/mpeg\""));
    assert!(xml.contains("length=\"12345678\""));
}

#[test]
fn rss_escapes_html_in_title() {
    let mut data = Data::new("Feed with <special> & \"chars\"");
    data.items.push(DataItem::new("Item <1> & \"2\""));

    let xml = rss::render(&data).unwrap();
    // Title text should be XML-escaped
    assert!(xml.contains("&lt;special&gt;"));
    assert!(xml.contains("&amp;"));
}

#[test]
fn rss_includes_image() {
    let mut data = Data::new("Feed");
    data.link = Some("https://example.com".into());
    data.image = Some("https://example.com/logo.png".into());

    let xml = rss::render(&data).unwrap();
    assert!(xml.contains("<image>"));
    assert!(xml.contains("<url>https://example.com/logo.png</url>"));
}

#[test]
fn rss_includes_ttl() {
    let mut data = Data::new("Feed");
    data.ttl = Some(30);

    let xml = rss::render(&data).unwrap();
    assert!(xml.contains("<ttl>30</ttl>"));
}

#[test]
fn rss_description_defaults_to_title() {
    let data = Data::new("My Feed");
    let xml = rss::render(&data).unwrap();
    assert!(xml.contains("<description>My Feed</description>"));
}

#[test]
fn rss_exact_minimal_document() {
    let data = Data::new("F");
    let xml = rss::render(&data).unwrap();
    let expected = "<?xml version=\"1.0\" encoding=\"utf-8\"?>\n<rss version=\"2.0\" xmlns:atom=\"http://www.w3.org/2005/Atom\">\n  <channel>\n    <title>F</title>\n    <description>F</description>\n    <generator>OpenRss</generator>\n  </channel>\n</rss>";
    assert_eq!(xml, expected);
}

#[test]
fn rss_pubdate_is_rfc2822() {
    let xml = rss::render(&rss_sample_data()).unwrap();
    assert!(xml.contains("<pubDate>Wed, 15 Jan 2025 12:00:00 +0000</pubDate>"));
}

#[test]
fn rss_self_link_and_build_date() {
    let mut data = Data::new("Feed");
    data.link = Some("https://example.com".into());
    data.updated = Some(utc(2024, 2, 29, 8, 30, 0));
    let xml = rss::render(&data).unwrap();
    assert!(xml.contains("<atom:link href=\"https://example.com\" rel=\"self\" type=\"application/rss+xml\"/>"));
    assert!(xml.contains("<lastBuildDate>Thu, 29 Feb 2024 08:30:00 +0000</lastBuildDate>"));
}

#[test]
fn rss_date_outside_rfc2822_years_is_render_error() {
    let mut data = Data::new("Feed");
    let mut item = DataItem::new("Far future");
    item.pub_date = Some(Timestamp::new(253402300800, 0));
    data.items.push(item);
    match rss::render(&data) {
        Err(openrss::error::AppError::Render(_)) => {},
        other => panic!("expected a render error, got {:?}", other.map(|_| ())),
    }
}

#[test]
fn rss_events_none_on_unwritable_date() {
    let mut data = Data::new("Feed");
    data.updated = Some(Timestamp::new(-62167219201, 0));
    assert!(rss::rss_events(&data).is_none());
    data.updated = Some(Timestamp::new(-62167219200, 0));
    assert!(rss::rss_events(&data).is_some());
}

// ---------------------------------------------------------------------------
// Atom
// ---------------------------------------------------------------------------

#[test]
fn atom_renders_valid_xml() {
    let xml = atom::render(&atom_sample_data()).unwrap();
    assert!(xml.starts_with("<?xml version=\"1.0\" encoding=\"utf-8\"?>"));
    assert!(xml.contains("<feed xmlns=\"http://www.w3.org/2005/Atom\">"));
    assert!(xml.contains("</feed>"));
}

#[test]
fn atom_includes_feed_metadata() {
    let xml = atom::render(&atom_sample_data()).unwrap();
    assert!(xml.contains("<title>Test Feed</title>"));
    assert!(xml.contains("<subtitle>A test feed</subtitle>"));
    assert!(xml.contains("href=\"https://example.com\""));
}

#[test]
fn atom_includes_updated() {
    let xml = atom::render(&atom_sample_data()).unwrap();
    // ISO 8601 date
    assert!(xml.contains("<updated>"));
    assert!(xml.contains("2025"));
}

#[test]
fn atom_includes_entry_fields() {
    let xml = atom::render(&atom_sample_data()).unwrap();
    assert!(xml.contains("<entry>"));
    assert!(xml.contains("<title>Item 1</title>"));
    assert!(xml.contains("href=\"https://example.com/1\""));
    assert!(xml.contains("<id>guid-001</id>"));
}

#[test]
fn atom_includes_author() {
    let xml = atom::render(&atom_sample_data()).unwrap();
    assert!(xml.contains("<author>"));
    assert!(xml.contains("<name>Alice</name>"));
}

#[test]
fn atom_includes_category() {
    let xml = atom::render(&atom_sample_data()).unwrap();
    assert!(xml.contains("term=\"tech\""));
}

#[test]
fn atom_content_is_html_cdata() {
    let xml = atom::render(&atom_sample_data()).unwrap();
    assert!(xml.contains("type=\"html\""));
    assert!(xml.contains("<![CDATA[<p>Hello</p>]]>"));
}

#[test]
fn atom_handles_empty_items() {
    let data = Data::new("Empty");
    let xml = atom::render(&data).unwrap();
    assert!(xml.contains("<title>Empty</title>"));
    assert!(!xml.contains("<entry>"));
}

#[test]
fn atom_uses_link_as_id_when_no_guid() {
    let mut data = Data::new("Feed");
    let mut item = DataItem::new("No GUID");
    item.link = Some("https://example.com/x".into());
    // guid is None
    data.items.push(item);

    let xml = atom::render(&data).unwrap();
    assert!(xml.contains("<id>https://example.com/x</id>"));
}

#[test]
fn atom_feed_dated_by_latest_item() {
    let mut data = Data::new("Feed");
    let mut a = DataItem::new("A");
    a.pub_date = Some(utc(2025, 1, 10, 0, 0, 0));
    let mut b = DataItem::new("B");
    b.pub_date = Some(utc(2025, 3, 1, 6, 0, 0));
    let c = DataItem::new("C");
    data.items = vec![a, b, c];
    assert_eq!(atom::fixed_updated(&data), Some(utc(2025, 3, 1, 6, 0, 0)));
    let xml = atom::render(&data).unwrap();
    assert!(xml.contains("<updated>2025-03-01T06:00:00+00:00</updated>"));
}

#[test]
fn atom_own_update_date_wins() {
    let mut data = Data::new("Feed");
    data.updated = Some(utc(2020, 5, 5, 5, 5, 5));
    let mut a = DataItem::new("A");
    a.pub_date = Some(utc(2025, 1, 10, 0, 0, 0));
    data.items.push(a);
    let xml = atom::render(&data).unwrap();
    assert!(xml.contains("<updated>2020-05-05T05:05:05+00:00</updated>"));
}

#[test]
fn atom_render_at_given_date() {
    let data = Data::new("Empty");
    let xml = atom::render_at(&data, &utc(2001, 9, 9, 1, 46, 40)).unwrap();
    assert!(xml.contains("<updated>2001-09-09T01:46:40+00:00</updated>"));
    assert_eq!(atom::fixed_updated(&data), None);
}

#[test]
fn atom_render_at_invalid_date_is_render_error() {
    let data = Data::new("Empty");
    let r = atom::render_at(&data, &Timestamp::new(i64::MAX, 0));
    assert!(matches!(r, Err(openrss::error::AppError::Render(_))));
}

#[test]
fn atom_entry_dates() {
    let xml = atom::render(&atom_sample_data()).unwrap();
    assert!(xml.contains("<published>2025-01-15T12:00:00+00:00</published>"));
    assert!(xml.contains("<updated>2025-01-15T12:00:00+00:00</updated>"));
}

#[test]
fn latest_item_date_ignores_undated() {
    let items = vec![DataItem::new("x"), DataItem::new("y")];
    assert_eq!(atom::latest_item_date(&items), None);
}

// ---------------------------------------------------------------------------
// JSON Feed
// ---------------------------------------------------------------------------

#[test]
fn json_feed_valid_structure() {
    let json_str = json::render(&json_sample_data()).unwrap();
    let v: serde_json::Value = serde_json::from_str(&json_str).unwrap();
    assert_eq!(v["version"], "https://jsonfeed.org/version/1.1");
    assert_eq!(v["title"], "Test Feed");
    assert!(v["items"].is_array());
}

#[test]
fn json_feed_includes_item_fields() {
    let json_str = json::render(&json_sample_data()).unwrap();
    let v: serde_json::Value = serde_json::from_str(&json_str).unwrap();
    let item = &v["items"][0];
    assert_eq!(item["id"], "guid-001");
    assert_eq!(item["title"], "Item 1");
    assert_eq!(item["url"], "https://example.com/1");
    assert_eq!(item["content_html"], "<p>Hello</p>");
}

#[test]
fn json_feed_includes_authors() {
    let json_str = json::render(&json_sample_data()).unwrap();
    let v: serde_json::Value = serde_json::from_str(&json_str).unwrap();
    let authors = &v["items"][0]["authors"];
    assert!(authors.is_array());
    assert_eq!(authors[0]["name"], "Alice");
}

#[test]
fn json_feed_includes_tags() {
    let json_str = json::render(&json_sample_data()).unwrap();
    let v: serde_json::Value = serde_json::from_str(&json_str).unwrap();
    let tags = &v["items"][0]["tags"];
    assert!(tags.is_array());
    assert_eq!(tags[0], "tech");
}

#[test]
fn json_feed_includes_attachments() {
    let mut data = Data::new("Podcast");
    let mut item = DataItem::new("Episode");
    item.enclosure_url = Some("https://example.com/ep.mp3".into());
    item.enclosure_type = Some("audio/mpeg".into());
    item.enclosure_length = Some(99999);
    data.items.push(item);

    let json_str = json::render(&data).unwrap();
    let v: serde_json::Value = serde_json::from_str(&json_str).unwrap();
    let att = &v["items"][0]["attachments"][0];
    assert_eq!(att["url"], "https://example.com/ep.mp3");
    assert_eq!(att["mime_type"], "audio/mpeg");
    assert_eq!(att["size_in_bytes"], 99999);
}

#[test]
fn json_feed_handles_empty_items() {
    let data = Data::new("Empty");
    let json_str = json::render(&data).unwrap();
    let v: serde_json::Value = serde_json::from_str(&json_str).unwrap();
    assert_eq!(v["items"].as_array().unwrap().len(), 0);
}

#[test]
fn json_feed_date_is_rfc3339() {
    let json_str = json::render(&json_sample_data()).unwrap();
    let v: serde_json::Value = serde_json::from_str(&json_str).unwrap();
    let date = v["items"][0]["date_published"].as_str().unwrap();
    // Should parse as RFC 3339
    chrono::DateTime::parse_from_rfc3339(date).unwrap();
}

#[test]
fn json_feed_skips_none_fields() {
    let data = Data::new("Minimal");
    let json_str = json::render(&data).unwrap();
    assert!(!json_str.contains("\"description\""));
    assert!(!json_str.contains("\"icon\""));
}

#[test]
fn json_feed_exact_minimal_document() {
    let data = Data::new("Minimal");
    let json_str = json::render(&data).unwrap();
    assert_eq!(
        json_str,
        "{\n  \"version\": \"https://jsonfeed.org/version/1.1\",\n  \"title\": \"Minimal\",\n  \"items\": []\n}"
    );
}

#[test]
fn json_feed_member_order() {
    let json_str = json::render(&json_sample_data()).unwrap();
    let pos = |k: &str| json_str.find(&format!("\"{}\"", k)).unwrap();
    assert!(pos("version") < pos("title"));
    assert!(pos("home_page_url") < pos("feed_url"));
    assert!(pos("feed_url") < pos("description"));
    assert!(pos("language") < pos("items"));
    assert!(pos("id") < pos("url"));
    assert!(pos("content_html") < pos("date_published"));
    assert!(pos("date_published") < pos("authors"));
    assert!(pos("authors") < pos("tags"));
}

#[test]
fn json_feed_id_falls_back_to_link_then_uuid() {
    let mut data = Data::new("Feed");
    let mut linked = DataItem::new("Linked");
    linked.link = Some("https://example.com/l".into());
    data.items.push(linked);
    data.items.push(DataItem::new("Bare"));
    let v: serde_json::Value = serde_json::from_str(&json::render(&data).unwrap()).unwrap();
    assert_eq!(v["items"][0]["id"], "https://example.com/l");
    let id = v["items"][1]["id"].as_str().unwrap();
    assert_eq!(id.len(), 36);
    assert_eq!(id.as_bytes()[8], b'-');
    assert_eq!(id.as_bytes()[14], b'4');
    assert!(matches!(id.as_bytes()[19], b'8' | b'9' | b'a' | b'b'));
    assert!(v["items"][1].get("url").is_none());
}

#[test]
fn json_feed_attachment_default_mime_type() {
    let mut data = Data::new("Podcast");
    let mut item = DataItem::new("Episode");
    item.enclosure_url = Some("https://example.com/ep.mp3".into());
    data.items.push(item);
    let v: serde_json::Value = serde_json::from_str(&json::render(&data).unwrap()).unwrap();
    let att = &v["items"][0]["attachments"][0];
    assert_eq!(att["mime_type"], "application/octet-stream");
    assert!(att.get("size_in_bytes").is_none());
}

#[test]
fn json_feed_with_given_ids() {
    let mut data = Data::new("Feed");
    data.items.push(DataItem::new("Bare"));
    let v = json::json_feed(&data, &vec!["fixed-id".to_string()]).unwrap();
    assert_eq!(v["items"][0]["id"], "fixed-id");
}

#[test]
fn fresh_ids_only_for_bare_items() {
    let mut guided = DataItem::new("G");
    guided.guid = Some("g".into());
    let items = vec![guided, DataItem::new("Bare")];
    let ids = json::fresh_ids(&items);
    assert_eq!(ids[0], "");
    assert_eq!(ids[1].len(), 36);
}

// ---------------------------------------------------------------------------
// Dispatch and element writers
// ---------------------------------------------------------------------------

#[test]
fn render_dispatches_on_format() {
    let data = Data::new("Feed");
    assert_eq!(render(&data, FeedFormat::Rss).unwrap(), rss::render(&data).unwrap());
    assert!(render(&data, FeedFormat::Atom).unwrap().contains("<feed xmlns="));
    assert!(render(&data, FeedFormat::Json).unwrap().starts_with("{"));
}

#[test]
fn write_text_element_escapes_text() {
    let mut w = quick_xml::Writer::new(std::io::Cursor::new(Vec::new()));
    write_text_element(&mut w, "title", "a < b").unwrap();
    let out = String::from_utf8(w.into_inner().into_inner()).unwrap();
    assert_eq!(out, "<title>a &lt; b</title>");
}

#[test]
fn write_cdata_element_keeps_markup() {
    let mut w = quick_xml::Writer::new(std::io::Cursor::new(Vec::new()));
    write_cdata_element(&mut w, "description", "<p>x</p>").unwrap();
    let out = String::from_utf8(w.into_inner().into_inner()).unwrap();
    assert_eq!(out, "<description><![CDATA[<p>x</p>]]></description>");
}

fn reads_back_to_end(xml: &str) -> usize {
    let mut reader = quick_xml::Reader::from_str(xml);
    let mut depth: i64 = 0;
    let mut max_depth: i64 = 0;
    loop {
        match reader.read_event().unwrap() {
            quick_xml::events::Event::Start(_) => {
                depth += 1;
                max_depth = max_depth.max(depth);
            }
            quick_xml::events::Event::End(_) => depth -= 1,
            quick_xml::events::Event::Eof => break,
            _ => {}
        }
    }
    assert_eq!(depth, 0);
    max_depth as usize
}

#[test]
fn rss_document_is_well_nested() {
    let mut data = rss_sample_data();
    data.image = Some("https://example.com/i.png".into());
    data.ttl = Some(5);
    data.updated = Some(utc(2025, 2, 1, 0, 0, 0));
    let mut e = DataItem::new("Episode");
    e.enclosure_url = Some("https://example.com/e.mp3".into());
    data.items.push(e);
    assert_eq!(reads_back_to_end(&rss::render(&data).unwrap()), 4);
}

#[test]
fn atom_document_is_well_nested() {
    assert_eq!(reads_back_to_end(&atom::render(&atom_sample_data()).unwrap()), 4);
}

#[test]
fn rss_names_its_generator() {
    let xml = rss::render(&Data::new("Test Feed")).unwrap();
    assert!(xml.contains("<generator>OpenRss</generator>"));
}
