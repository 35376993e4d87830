use chrono::TimeZone;
use openrss::config::{CacheType, Config};
use openrss::data::{Data, DataItem, Timestamp};
use openrss::error::AppError;
use openrss::feed::FeedFormat;
use openrss::middleware::access_control::{access_allowed, compute_access_code, WHITELIST};
use openrss::middleware::cache::{compute_cache_key, skips_cache};
use openrss::middleware::header::{
    cache_control_value, common_headers, compute_etag, etag_answer, etag_header_value, etag_matches, EtagAnswer,
};
use openrss::middleware::parameter::{apply_filters, apply_filters_at, FilterParams};
use openrss::middleware::sanitize::{brief, sanitize_html, strip_html_tags};
use openrss::middleware::template::{extract_format, render_response, template_response};

fn utc(y: i32, mo: u32, d: u32, h: u32, mi: u32, s: u32) -> Timestamp {
    let t = chrono::Utc.with_ymd_and_hms(y, mo, d, h, mi, s).unwrap();
    Timestamp::new(t.timestamp(), t.timestamp_subsec_nanos())
}

fn from_chrono(t: chrono::DateTime<chrono::Utc>) -> Timestamp {
    Timestamp::new(t.timestamp(), t.timestamp_subsec_nanos())
}

fn cache_key(uri: &axum::http::Uri) -> String {
    compute_cache_key(uri.path(), uri.query())
}

// ---------------------------------------------------------------------------
// Sanitizing
// ---------------------------------------------------------------------------

#[test]
fn removes_script_tags() {
    let html = r#"<p>Hello</p><script>alert("xss")</script><p>World</p>"#;
    let result = sanitize_html(html);
    assert!(!result.contains("script"));
    assert!(!result.contains("alert"));
    assert!(result.contains("<p>Hello</p>"));
    assert!(result.contains("<p>World</p>"));
}

#[test]
fn removes_script_with_attributes() {
    let html = r#"<script type="text/javascript" src="evil.js"></script><p>Safe</p>"#;
    let result = sanitize_html(html);
    assert!(!result.contains("script"));
    assert!(result.contains("<p>Safe</p>"));
}

#[test]
fn removes_event_handlers() {
    let html = r##"<img src="a.jpg" onerror="alert(1)"><a href="#" onclick="steal()">click</a>"##;
    let result = sanitize_html(html);
    assert!(!result.contains("onerror"));
    assert!(!result.contains("onclick"));
    assert!(!result.contains("alert"));
    assert!(!result.contains("steal"));
    assert!(result.contains("src=\"a.jpg\""));
    assert!(result.contains("href=\"#\""));
}

#[test]
fn fixes_lazyload_data_src() {
    let html = r#"<img data-src="https://example.com/img.jpg" src="">"#;
    let result = sanitize_html(html);
    assert!(result.contains("src=\"https://example.com/img.jpg\""));
}

#[test]
fn fixes_lazyload_data_original() {
    let html = r#"<img data-original="https://example.com/photo.png">"#;
    let result = sanitize_html(html);
    assert!(result.contains("src=\"https://example.com/photo.png\""));
}

#[test]
fn adds_referrer_policy_to_img() {
    let html = r#"<img src="photo.jpg">"#;
    let result = sanitize_html(html);
    assert!(result.contains("referrerpolicy=\"no-referrer\""));
}

#[test]
fn adds_referrer_policy_to_iframe() {
    let html = r#"<iframe src="https://example.com"></iframe>"#;
    let result = sanitize_html(html);
    assert!(result.contains("referrerpolicy=\"no-referrer\""));
}

#[test]
fn does_not_duplicate_referrer_policy() {
    let html = r#"<img src="a.jpg" referrerpolicy="origin">"#;
    let result = sanitize_html(html);
    // Should keep existing policy, not add another
    assert!(result.contains("referrerpolicy=\"origin\""));
    assert_eq!(result.matches("referrerpolicy").count(), 1);
}

#[test]
fn self_closing_img() {
    let html = r#"<img src="a.jpg" />"#;
    let result = sanitize_html(html);
    assert!(result.contains("referrerpolicy=\"no-referrer\""));
}

#[test]
fn strip_tags() {
    let html = "<p>Hello <b>world</b></p><br/><a href='#'>link</a>";
    assert_eq!(strip_html_tags(html), "Hello worldlink");
}

#[test]
fn brief_truncates() {
    let html = "<p>This is a long description that should be truncated</p>";
    let result = brief(html, 10);
    assert_eq!(result, "This is a ...");
}

#[test]
fn brief_no_truncate_when_short() {
    let html = "<p>Short</p>";
    let result = brief(html, 100);
    assert_eq!(result, "Short");
}

#[test]
fn brief_handles_unicode() {
    let html = "<p>你好世界这是一个测试</p>";
    let result = brief(html, 4);
    assert_eq!(result, "你好世界...");
}

#[test]
fn sanitize_empty() {
    assert_eq!(sanitize_html(""), "");
}

#[test]
fn sanitize_plain_text() {
    assert_eq!(sanitize_html("just text"), "just text");
}

#[test]
fn combined_sanitization() {
    let html = r#"<p>Content</p><script>evil()</script><img onerror="x" data-src="real.jpg" src="placeholder.gif"><iframe src="video.mp4"></iframe>"#;
    let result = sanitize_html(html);
    assert!(!result.contains("script"));
    assert!(!result.contains("evil"));
    assert!(!result.contains("onerror"));
    assert!(result.contains("src=\"real.jpg\""));
    assert!(result.contains("referrerpolicy=\"no-referrer\""));
}

#[test]
fn sanitize_exact_output() {
    assert_eq!(
        sanitize_html(r#"<img src="a.jpg" onerror="x()">"#),
        r#"<img src="a.jpg" referrerpolicy="no-referrer">"#
    );
    assert_eq!(sanitize_html("<SCRIPT>x</SCRIPT>ok"), "ok");
}

#[test]
fn brief_exact_length_is_kept() {
    assert_eq!(brief("<b>abcd</b>", 4), "abcd");
    assert_eq!(brief("<b>abcde</b>", 4), "abcd...");
}

// ---------------------------------------------------------------------------
// Format selection and the rendered response
// ---------------------------------------------------------------------------

#[test]
fn template_default_format_is_rss() {
    assert_eq!(extract_format(None), FeedFormat::Rss);
    assert_eq!(extract_format(Some("")), FeedFormat::Rss);
}

#[test]
fn format_atom() {
    assert_eq!(extract_format(Some("format=atom")), FeedFormat::Atom);
}

#[test]
fn format_json() {
    assert_eq!(extract_format(Some("format=json")), FeedFormat::Json);
}

#[test]
fn format_with_other_params() {
    assert_eq!(
        extract_format(Some("limit=5&format=atom&filter=test")),
        FeedFormat::Atom
    );
}

#[test]
fn unknown_format_defaults_to_rss() {
    assert_eq!(extract_format(Some("format=xml")), FeedFormat::Rss);
}

#[test]
fn first_format_parameter_wins() {
    assert_eq!(extract_format(Some("format=json&format=atom")), FeedFormat::Json);
}

#[test]
fn render_response_ok_and_error() {
    let ok = render_response(FeedFormat::Atom, Ok("body".to_string()));
    assert_eq!(ok.status, 200);
    assert_eq!(ok.body, "body");
    assert_eq!(ok.content_type, Some("application/atom+xml; charset=utf-8"));
    let err = render_response(FeedFormat::Rss, Err(AppError::Render("bad date".to_string())));
    assert_eq!(err.status, 500);
    assert_eq!(err.body, "Feed render error: bad date");
    assert_eq!(err.content_type, None);
}

#[test]
fn template_response_renders_feed() {
    let r = template_response(&Data::new("Feed"), FeedFormat::Json);
    assert_eq!(r.status, 200);
    assert!(r.body.contains("\"title\": \"Feed\""));
    assert_eq!(r.content_type, Some("application/feed+json; charset=utf-8"));
}

// ---------------------------------------------------------------------------
// Filters
// ---------------------------------------------------------------------------

fn sample_data() -> Data {
    let mut data = Data::new("Test");

    let mut i1 = DataItem::new("Rust Programming");
    i1.description = Some("Learn Rust basics".into());
    i1.author = Some("Alice".into());
    i1.category = vec!["tech".into(), "rust".into()];
    i1.pub_date = Some(utc(2025, 1, 15, 12, 0, 0));

    let mut i2 = DataItem::new("Python Tutorial");
    i2.description = Some("Python for beginners".into());
    i2.author = Some("Bob".into());
    i2.category = vec!["tech".into(), "python".into()];
    i2.pub_date = Some(utc(2025, 1, 16, 12, 0, 0));

    let mut i3 = DataItem::new("Cooking Tips");
    i3.description = Some("How to make pasta".into());
    i3.author = Some("Charlie".into());
    i3.category = vec!["food".into()];
    i3.pub_date = Some(utc(2025, 1, 14, 12, 0, 0));

    data.items = vec![i3, i1, i2]; // Intentionally unsorted
    data
}

#[test]
fn filter_by_title_regex() {
    let mut data = sample_data();
    let params = FilterParams {
        filter_title: Some("Rust".into()),
        ..Default::default()
    };
    apply_filters(&mut data, &params);
    assert_eq!(data.items.len(), 1);
    assert_eq!(data.items[0].title, "Rust Programming");
}

#[test]
fn filter_out_by_title() {
    let mut data = sample_data();
    let params = FilterParams {
        filterout_title: Some("Cooking".into()),
        ..Default::default()
    };
    apply_filters(&mut data, &params);
    assert_eq!(data.items.len(), 2);
    assert!(data.items.iter().all(|i| i.title != "Cooking Tips"));
}

#[test]
fn filter_by_description() {
    let mut data = sample_data();
    let params = FilterParams {
        filter_description: Some("pasta".into()),
        ..Default::default()
    };
    apply_filters(&mut data, &params);
    assert_eq!(data.items.len(), 1);
    assert_eq!(data.items[0].title, "Cooking Tips");
}

#[test]
fn filter_out_by_description() {
    let mut data = sample_data();
    let params = FilterParams {
        filterout_description: Some("beginners".into()),
        ..Default::default()
    };
    apply_filters(&mut data, &params);
    assert_eq!(data.items.len(), 2);
}

#[test]
fn filter_unified_matches_any_field() {
    let mut data = sample_data();
    // "Alice" is an author, should match
    let params = FilterParams {
        filter: Some("Alice".into()),
        ..Default::default()
    };
    apply_filters(&mut data, &params);
    assert_eq!(data.items.len(), 1);
    assert_eq!(data.items[0].title, "Rust Programming");
}

#[test]
fn filter_unified_matches_category() {
    let mut data = sample_data();
    let params = FilterParams {
        filter: Some("food".into()),
        ..Default::default()
    };
    apply_filters(&mut data, &params);
    assert_eq!(data.items.len(), 1);
    assert_eq!(data.items[0].title, "Cooking Tips");
}

#[test]
fn filterout_unified() {
    let mut data = sample_data();
    let params = FilterParams {
        filterout: Some("tech".into()),
        ..Default::default()
    };
    apply_filters(&mut data, &params);
    assert_eq!(data.items.len(), 1);
    assert_eq!(data.items[0].title, "Cooking Tips");
}

#[test]
fn limit_items() {
    let mut data = sample_data();
    let params = FilterParams {
        limit: Some(2),
        ..Default::default()
    };
    apply_filters(&mut data, &params);
    assert_eq!(data.items.len(), 2);
}

#[test]
fn sort_by_pubdate_desc() {
    let mut data = sample_data();
    let params = FilterParams::default();
    apply_filters(&mut data, &params);
    // Should be sorted newest first
    assert_eq!(data.items[0].title, "Python Tutorial"); // Jan 16
    assert_eq!(data.items[1].title, "Rust Programming"); // Jan 15
    assert_eq!(data.items[2].title, "Cooking Tips"); // Jan 14
}

#[test]
fn filter_case_insensitive() {
    let mut data = sample_data();
    let params = FilterParams {
        filter_title: Some("rust".into()),
        filter_case_sensitive: Some(false),
        ..Default::default()
    };
    apply_filters(&mut data, &params);
    assert_eq!(data.items.len(), 1);
    assert_eq!(data.items[0].title, "Rust Programming");
}

#[test]
fn filter_case_sensitive() {
    let mut data = sample_data();
    let params = FilterParams {
        filter_title: Some("rust".into()),
        filter_case_sensitive: Some(true),
        ..Default::default()
    };
    apply_filters(&mut data, &params);
    assert_eq!(data.items.len(), 0); // "Rust" != "rust"
}

#[test]
fn regex_filter_is_safe() {
    // Malicious regex should not crash — build_regex returns None
    let mut data = sample_data();
    let params = FilterParams {
        filter_title: Some("((((((".into()),
        ..Default::default()
    };
    apply_filters(&mut data, &params);
    // Invalid regex is silently ignored — all items pass
    assert_eq!(data.items.len(), 3);
}

#[test]
fn filter_time() {
    let mut data = Data::new("Test");

    let mut recent = DataItem::new("Recent");
    recent.pub_date = Some(from_chrono(chrono::Utc::now() - chrono::Duration::seconds(10)));
    data.items.push(recent);

    let mut old = DataItem::new("Old");
    old.pub_date = Some(from_chrono(chrono::Utc::now() - chrono::Duration::seconds(3600)));
    data.items.push(old);

    let params = FilterParams {
        filter_time: Some(60), // Keep only items from last 60 seconds
        ..Default::default()
    };
    apply_filters(&mut data, &params);
    assert_eq!(data.items.len(), 1);
    assert_eq!(data.items[0].title, "Recent");
}

#[test]
fn from_query_parses_all_params() {
    let params = FilterParams::from_query(Some(
        "filter=test&filterout=spam&filter_title=rust&limit=10&filter_time=3600&filter_case_sensitive=false&brief=200",
    ));
    assert_eq!(params.filter.as_deref(), Some("test"));
    assert_eq!(params.filterout.as_deref(), Some("spam"));
    assert_eq!(params.filter_title.as_deref(), Some("rust"));
    assert_eq!(params.limit, Some(10));
    assert_eq!(params.filter_time, Some(3600));
    assert_eq!(params.filter_case_sensitive, Some(false));
    assert_eq!(params.brief, Some(200));
}

#[test]
fn from_query_handles_none() {
    let params = FilterParams::from_query(None);
    assert!(params.filter.is_none());
    assert!(params.limit.is_none());
}

#[test]
fn brief_truncates_description() {
    let mut data = Data::new("Test");
    let mut item = DataItem::new("Item");
    item.description = Some("<p>This is a very long description that contains lots of text and should be truncated by the brief parameter</p>".into());
    data.items.push(item);

    let params = FilterParams {
        brief: Some(100),
        ..Default::default()
    };
    apply_filters(&mut data, &params);
    let desc = data.items[0].description.as_ref().unwrap();
    assert!(desc.ends_with("..."));
    // Plain text (tags stripped) + "..." should be around 103 chars
    assert!(desc.len() <= 110);
}

#[test]
fn brief_ignored_when_under_100() {
    let mut data = Data::new("Test");
    let mut item = DataItem::new("Item");
    item.description = Some("<p>Some description here</p>".into());
    data.items.push(item);

    let params = FilterParams {
        brief: Some(50), // Under 100, should be ignored
        ..Default::default()
    };
    apply_filters(&mut data, &params);
    let desc = data.items[0].description.as_ref().unwrap();
    // HTML sanitization still applies but brief is skipped
    assert!(desc.contains("Some description here"));
}

#[test]
fn sanitizes_script_in_description() {
    let mut data = Data::new("Test");
    let mut item = DataItem::new("Item");
    item.description = Some(r#"<p>Safe</p><script>alert("xss")</script>"#.into());
    data.items.push(item);

    let params = FilterParams::default();
    apply_filters(&mut data, &params);
    let desc = data.items[0].description.as_ref().unwrap();
    assert!(!desc.contains("script"));
    assert!(!desc.contains("alert"));
    assert!(desc.contains("<p>Safe</p>"));
}

#[test]
fn sanitizes_event_handlers() {
    let mut data = Data::new("Test");
    let mut item = DataItem::new("Item");
    item.description = Some(r#"<img src="a.jpg" onerror="alert(1)">"#.into());
    data.items.push(item);

    let params = FilterParams::default();
    apply_filters(&mut data, &params);
    let desc = data.items[0].description.as_ref().unwrap();
    assert!(!desc.contains("onerror"));
    assert!(desc.contains("src=\"a.jpg\""));
}

#[test]
fn unified_filter_overrides_individual() {
    let mut data = sample_data();
    // filter=food should match "Cooking Tips" (category "food")
    // filter_title=Rust should be IGNORED because unified filter is set
    let params = FilterParams {
        filter: Some("food".into()),
        filter_title: Some("Rust".into()),
        ..Default::default()
    };
    apply_filters(&mut data, &params);
    // Only "Cooking Tips" matches unified filter "food"
    assert_eq!(data.items.len(), 1);
    assert_eq!(data.items[0].title, "Cooking Tips");
}

#[test]
fn filter_time_with_fixed_cutoff() {
    let mut data = sample_data();
    let params = FilterParams {
        filter_time: Some(1),
        ..Default::default()
    };
    apply_filters_at(&mut data, &params, Some(utc(2025, 1, 15, 0, 0, 0)));
    let titles: Vec<&str> = data.items.iter().map(|i| i.title.as_str()).collect();
    assert_eq!(titles, vec!["Python Tutorial", "Rust Programming"]);
}

#[test]
fn undated_items_sort_as_epoch_and_keep_order() {
    let mut data = Data::new("T");
    data.items = vec![DataItem::new("a"), DataItem::new("b")];
    let mut dated = DataItem::new("c");
    dated.pub_date = Some(utc(1999, 1, 1, 0, 0, 0));
    data.items.push(dated);
    apply_filters(&mut data, &FilterParams::default());
    let titles: Vec<&str> = data.items.iter().map(|i| i.title.as_str()).collect();
    assert_eq!(titles, vec!["c", "a", "b"]);
}

#[test]
fn from_query_decodes_and_ignores_bad_numbers() {
    let p = FilterParams::from_query(Some("filter=a%20b&limit=x&filter_case_sensitive=yes&unknown=1"));
    assert_eq!(p.filter.as_deref(), Some("a b"));
    assert_eq!(p.limit, None);
    assert_eq!(p.filter_case_sensitive, Some(true));
}

#[test]
fn filters_keep_feed_header() {
    let mut data = sample_data();
    data.link = Some("https://example.com".into());
    apply_filters(&mut data, &FilterParams { limit: Some(0), ..Default::default() });
    assert_eq!(data.title, "Test");
    assert_eq!(data.link.as_deref(), Some("https://example.com"));
    assert!(data.items.is_empty());
}

// ---------------------------------------------------------------------------
// Cache key
// ---------------------------------------------------------------------------

#[test]
fn cache_key_format() {
    let uri: axum::http::Uri = "/github/issue?format=atom&limit=10".parse().unwrap();
    let key = cache_key(&uri);
    assert!(key.starts_with("openrss:route:"));
    assert_eq!(key.len(), "openrss:route:".len() + 16);
}

#[test]
fn cache_key_deterministic() {
    let uri: axum::http::Uri = "/test/example?format=json".parse().unwrap();
    assert_eq!(cache_key(&uri), cache_key(&uri));
}

#[test]
fn cache_key_differs_by_format() {
    let u1: axum::http::Uri = "/test?format=rss".parse().unwrap();
    let u2: axum::http::Uri = "/test?format=atom".parse().unwrap();
    assert_ne!(cache_key(&u1), cache_key(&u2));
}

#[test]
fn cache_key_differs_by_path() {
    let u1: axum::http::Uri = "/a".parse().unwrap();
    let u2: axum::http::Uri = "/b".parse().unwrap();
    assert_ne!(cache_key(&u1), cache_key(&u2));
}

#[test]
fn cache_key_default_format() {
    let u1: axum::http::Uri = "/test".parse().unwrap();
    let u2: axum::http::Uri = "/test?format=rss".parse().unwrap();
    // Both should produce the same key since default is rss
    assert_eq!(cache_key(&u1), cache_key(&u2));
}

#[test]
fn cache_key_hashes_path_format_and_limit() {
    let expected = format!("openrss:route:{:016x}", xxhash_rust::xxh64::xxh64(b"/p:atom:5", 0));
    assert_eq!(compute_cache_key("/p", Some("limit=5&format=atom")), expected);
}

#[test]
fn no_cache_header_skips_cache() {
    assert!(skips_cache(Some("no-cache")));
    assert!(skips_cache(Some("max-age=0, no-cache")));
    assert!(!skips_cache(Some("max-age=0")));
    assert!(!skips_cache(None));
}

// ---------------------------------------------------------------------------
// Entity tags and headers
// ---------------------------------------------------------------------------

#[test]
fn computes_etag() {
    let mut data = Data::new("Test");
    data.items.push(DataItem::new("Item 1"));
    let etag = compute_etag(&data);
    assert_eq!(etag.len(), 16); // xxh64 hex = 16 chars
}

#[test]
fn etag_is_deterministic() {
    let mut data = Data::new("Test");
    data.items.push(DataItem::new("Item 1"));
    assert_eq!(compute_etag(&data), compute_etag(&data));
}

#[test]
fn etag_changes_with_content() {
    let mut d1 = Data::new("Feed A");
    d1.items.push(DataItem::new("Item"));
    let mut d2 = Data::new("Feed B");
    d2.items.push(DataItem::new("Item"));
    assert_ne!(compute_etag(&d1), compute_etag(&d2));
}

#[test]
fn etag_ignores_updated_field() {
    let mut d1 = Data::new("Feed");
    d1.items.push(DataItem::new("Item"));
    d1.updated = Some(from_chrono(chrono::Utc::now()));

    let mut d2 = Data::new("Feed");
    d2.items.push(DataItem::new("Item"));
    // d2.updated is None

    assert_eq!(compute_etag(&d1), compute_etag(&d2));
}

#[test]
fn etag_of_empty_title_is_xxh64_of_nothing() {
    assert_eq!(compute_etag(&Data::new("")), "ef46db3751d8e999");
}

#[test]
fn etag_hashes_title_and_item_fields() {
    let mut d = Data::new("T");
    let mut item = DataItem::new("i");
    item.link = Some("l".into());
    item.guid = Some("g".into());
    d.items.push(item);
    let expected = format!("{:016x}", xxhash_rust::xxh64::xxh64(b"Tilg", 0));
    assert_eq!(compute_etag(&d), expected);
}

#[test]
fn sent_etag_revalidates() {
    let data = Data::new("Feed");
    let tag = compute_etag(&data);
    let header = etag_header_value(&tag);
    assert_eq!(header, format!("\"{}\"", tag));
    assert!(etag_matches(&header, &tag));
    match etag_answer(&data, Some(&header)) {
        EtagAnswer::NotModified(h) => assert_eq!(h, header),
        EtagAnswer::Send(_) => panic!("expected 304"),
    }
    match etag_answer(&data, Some("\"other\"")) {
        EtagAnswer::Send(h) => assert_eq!(h, header),
        EtagAnswer::NotModified(_) => panic!("expected the feed"),
    }
    assert!(matches!(etag_answer(&data, None), EtagAnswer::Send(_)));
}

#[test]
fn cache_control_header_value() {
    assert_eq!(cache_control_value(300), "public, max-age=300");
}

// ---------------------------------------------------------------------------
// Access control
// ---------------------------------------------------------------------------

#[test]
fn rejects_without_key() {
    // Tested via integration tests (needs axum app context)
    // Unit test: verify compute_access_code works
    let code = compute_access_code("/github/issue", "secret123");
    assert!(!code.is_empty());
    assert_eq!(code.len(), 32); // MD5 hex = 32 chars
}

#[test]
fn accepts_valid_code() {
    let key = "mykey";
    let path = "/github/issue/DIYgod/RSSHub";
    let code = compute_access_code(path, key);
    // Verify deterministic
    let code2 = compute_access_code(path, key);
    assert_eq!(code, code2);
}

#[test]
fn different_paths_produce_different_codes() {
    let key = "secret";
    let c1 = compute_access_code("/a", key);
    let c2 = compute_access_code("/b", key);
    assert_ne!(c1, c2);
}

#[test]
fn whitelist_paths() {
    for path in WHITELIST.iter() {
        assert!(WHITELIST.contains(path));
    }
}

#[test]
fn access_code_is_md5_hex() {
    assert_eq!(compute_access_code("/github/issue", "secret123"), "bc643901090c3637aec27b8eddf636c8");
    assert_eq!(compute_access_code("/a", "secret"), "4f31e435bda1f05d63d3c3399b8722a4");
}

#[test]
fn access_decisions() {
    assert!(access_allowed(None, "/feed", None));
    assert!(access_allowed(Some("k"), "/healthz", None));
    assert!(!access_allowed(Some("k"), "/feed", None));
    assert!(access_allowed(Some("k"), "/feed", Some("key=k")));
    assert!(!access_allowed(Some("k"), "/feed", Some("key=wrong")));
    assert!(access_allowed(Some("k"), "/feed", Some("code=a172341fa26f71db1d173b4cfd377d30")));
    assert!(!access_allowed(Some("k"), "/other", Some("code=a172341fa26f71db1d173b4cfd377d30")));
    assert!(access_allowed(Some("a b"), "/feed", Some("key=a%20b")));
}

#[test]
fn config_key_gates_access() {
    let c = Config::from_values(None, None, None, None, Some("k"), None, None);
    assert_eq!(c.cache_type, CacheType::Memory);
    assert!(!access_allowed(c.access_key.as_deref(), "/feed", None));
}

#[test]
fn cache_key_ignores_other_params() {
    assert_eq!(
        compute_cache_key("/p", Some("limit=5&format=atom&filter=x")),
        compute_cache_key("/p", Some("format=atom&limit=5"))
    );
    assert_ne!(
        compute_cache_key("/p", Some("format=atom&limit=5")),
        compute_cache_key("/p", Some("format=atom&limit=6"))
    );
}

#[test]
fn nested_script_is_removed_entirely() {
    assert_eq!(sanitize_html("<scr<script></script>ipt>x</script>"), "");
}

#[test]
fn split_event_handler_is_removed_entirely() {
    assert_eq!(
        sanitize_html(r#"<img o onx="1"nerror="y">"#),
        r#"<img referrerpolicy="no-referrer">"#
    );
}

#[test]
fn unrepresentable_time_window_still_filters_and_sorts() {
    let mut data = sample_data();
    data.items[0].description = Some("<script>x</script>pasta".into());
    let applied = apply_filters(&mut data, &FilterParams { filter_time: Some(i64::MAX), limit: Some(2), ..Default::default() });
    assert!(!applied);
    let titles: Vec<&str> = data.items.iter().map(|i| i.title.as_str()).collect();
    assert_eq!(titles, vec!["Python Tutorial", "Rust Programming"]);
    let mut d2 = sample_data();
    d2.items[0].description = Some("<script>x</script>pasta".into());
    apply_filters(&mut d2, &FilterParams { filter_time: Some(i64::MAX), ..Default::default() });
    assert_eq!(d2.items[2].description.as_deref(), Some("pasta"));
}

#[test]
fn access_code_has_32_digits() {
    assert_eq!(compute_access_code("", "").len(), 32);
}

#[test]
fn every_response_gets_cors_and_cache_headers() {
    let h = common_headers(300);
    let pairs: Vec<(&str, &str)> = h.iter().map(|(n, v)| (*n, v.as_str())).collect();
    assert_eq!(
        pairs,
        vec![
            ("access-control-allow-origin", "*"),
            ("access-control-allow-methods", "GET"),
            ("x-content-type-options", "nosniff"),
            ("cache-control", "public, max-age=300"),
        ]
    );
}
