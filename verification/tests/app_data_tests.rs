use openrss::config::{env_parse_u16, CacheType, Config};
use openrss::data::{Data, DataItem, Timestamp};
use openrss::error::AppError;
use openrss::http::client::{backoff_ms, is_retryable_status, next_step, random_ua, FetchOutcome, RetryStep, MAX_RETRIES};
use openrss::registry::AppState;
use openrss::routes::hackernews::{self, HnItem};
use openrss::routes::lobsters::{self, LobstersStory, LobstersUser};
use openrss::routes::test::example_feed;
use openrss::time::{from_unix, parse_rfc3339, rfc2822};

fn test_config() -> Config {
    Config {
        port: 0,
        cache_expire: 300,
        cache_type: CacheType::Memory,
        redis_url: None,
        access_key: None,
        request_timeout: 30,
        item_limit: 50,
    }
}

// ---------------------------------------------------------------------------
// Data
// ---------------------------------------------------------------------------

#[test]
fn data_new_sets_title() {
    let data = Data::new("Test Feed");
    assert_eq!(data.title, "Test Feed");
    assert!(data.items.is_empty());
}

#[test]
fn data_item_new_sets_title() {
    let item = DataItem::new("Test Item");
    assert_eq!(item.title, "Test Item");
    assert!(item.link.is_none());
    assert!(item.category.is_empty());
}

#[test]
fn timestamp_order() {
    let a = Timestamp::new(10, 5);
    assert!(a.is_before(&Timestamp::new(10, 6)));
    assert!(a.is_before(&Timestamp::new(11, 0)));
    assert!(!a.is_before(&a));
    assert_eq!(Timestamp::epoch(), Timestamp::new(0, 0));
}

// ---------------------------------------------------------------------------
// Configuration
// ---------------------------------------------------------------------------

#[test]
fn cache_type_from_env() {
    assert_eq!(
        match "redis" { "redis" => CacheType::Redis, _ => CacheType::Memory },
        CacheType::Redis
    );
    assert_eq!(
        match "memory" { "redis" => CacheType::Redis, _ => CacheType::Memory },
        CacheType::Memory
    );
}

#[test]
fn env_parse_returns_default_when_missing() {
    assert_eq!(env_parse_u16(None, 1200), 1200);
}

#[test]
fn env_parse_reads_value() {
    assert_eq!(env_parse_u16(Some("8080"), 1200), 8080);
}

#[test]
fn env_parse_returns_default_on_bad_value() {
    assert_eq!(env_parse_u16(Some("not_a_number"), 1200), 1200);
}

#[test]
fn config_defaults() {
    let c = Config::from_values(None, None, None, None, None, None, None);
    assert_eq!(c.port, 1200);
    assert_eq!(c.cache_expire, 300);
    assert_eq!(c.cache_type, CacheType::Memory);
    assert_eq!(c.redis_url, None);
    assert_eq!(c.access_key, None);
    assert_eq!(c.request_timeout, 30);
    assert_eq!(c.item_limit, 50);
}

#[test]
fn config_reads_values() {
    let c = Config::from_values(
        Some("8080"),
        Some("60"),
        Some("redis"),
        Some("redis://localhost"),
        Some(""),
        Some("+5"),
        Some("70000"),
    );
    assert_eq!(c.port, 8080);
    assert_eq!(c.cache_expire, 60);
    assert_eq!(c.cache_type, CacheType::Redis);
    assert_eq!(c.redis_url.as_deref(), Some("redis://localhost"));
    assert_eq!(c.access_key, None);
    assert_eq!(c.request_timeout, 5);
    assert_eq!(c.item_limit, 70000);
    let bad = Config::from_values(Some("70000"), Some("-1"), Some("Redis"), None, Some("k"), None, None);
    assert_eq!(bad.port, 1200);
    assert_eq!(bad.cache_expire, 300);
    assert_eq!(bad.cache_type, CacheType::Memory);
    assert_eq!(bad.access_key.as_deref(), Some("k"));
}

// ---------------------------------------------------------------------------
// Application state
// ---------------------------------------------------------------------------

#[test]
fn base_url_returns_override() {
    let mut state = AppState::new(test_config());
    state.set_base_url("hackernews", "http://localhost:9999/v0");
    assert_eq!(state.base_url("hackernews", "https://default.com"), "http://localhost:9999/v0");
    assert_eq!(state.base_url("other", "https://default.com"), "https://default.com");
}

#[test]
fn base_url_override_replaced() {
    let mut state = AppState::new(test_config());
    state.set_base_url("lobsters", "http://a");
    state.set_base_url("hackernews", "http://b");
    state.set_base_url("lobsters", "http://c");
    assert_eq!(state.base_url("lobsters", "d"), "http://c");
    assert_eq!(state.base_url("hackernews", "d"), "http://b");
    assert_eq!(state.base_urls.len(), 2);
}

// ---------------------------------------------------------------------------
// Errors
// ---------------------------------------------------------------------------

#[test]
fn error_status_codes() {
    assert_eq!(AppError::RouteNotFound("x".into()).status_code(), 404);
    assert_eq!(AppError::Config("x".into()).status_code(), 503);
    assert_eq!(AppError::Cache("x".into()).status_code(), 500);
    assert_eq!(AppError::Parse("x".into()).status_code(), 500);
    assert_eq!(AppError::Render("x".into()).status_code(), 500);
    assert_eq!(AppError::Internal("x".into()).status_code(), 500);
}

#[test]
fn error_messages() {
    assert_eq!(AppError::RouteNotFound("hackernews/x".into()).message(), "Route not found: hackernews/x");
    assert_eq!(AppError::Config("c".into()).message(), "Configuration error: c");
    assert_eq!(AppError::Cache("c".into()).message(), "Cache error: c");
    assert_eq!(AppError::Parse("p".into()).message(), "Parse error: p");
    assert_eq!(AppError::Render("r".into()).message(), "Feed render error: r");
    assert_eq!(AppError::Internal("plain".into()).message(), "plain");
}

// ---------------------------------------------------------------------------
// HTTP client decisions
// ---------------------------------------------------------------------------

#[test]
fn random_ua_rotates() {
    let ua1 = random_ua(0);
    let ua2 = random_ua(1);
    // After enough calls, we should cycle through different UAs
    let mut seen = std::collections::HashSet::new();
    for counter in 2..12 {
        seen.insert(random_ua(counter));
    }
    assert!(seen.len() > 1);
    // All returned UAs should be valid
    assert!(!ua1.is_empty());
    assert!(!ua2.is_empty());
}

#[test]
fn random_ua_cycles_through_pool() {
    assert_eq!(random_ua(0), random_ua(5));
    assert_ne!(random_ua(0), random_ua(1));
    assert!(random_ua(4).contains("Firefox"));
}

#[test]
fn retryable_statuses() {
    assert!(is_retryable_status(reqwest::StatusCode::TOO_MANY_REQUESTS.as_u16()));
    assert!(is_retryable_status(reqwest::StatusCode::INTERNAL_SERVER_ERROR.as_u16()));
    assert!(is_retryable_status(reqwest::StatusCode::BAD_GATEWAY.as_u16()));
    assert!(is_retryable_status(reqwest::StatusCode::SERVICE_UNAVAILABLE.as_u16()));
    assert!(is_retryable_status(reqwest::StatusCode::GATEWAY_TIMEOUT.as_u16()));
    assert!(is_retryable_status(reqwest::StatusCode::REQUEST_TIMEOUT.as_u16()));
    // Not retryable
    assert!(!is_retryable_status(reqwest::StatusCode::NOT_FOUND.as_u16()));
    assert!(!is_retryable_status(reqwest::StatusCode::FORBIDDEN.as_u16()));
    assert!(!is_retryable_status(reqwest::StatusCode::OK.as_u16()));
}

#[test]
fn retry_schedule() {
    assert_eq!(backoff_ms(1), 200);
    assert_eq!(backoff_ms(2), 400);
    assert_eq!(backoff_ms(3), 800);
    assert_eq!(next_step(0, FetchOutcome::Success), RetryStep::Accept);
    assert_eq!(next_step(0, FetchOutcome::Status(503)), RetryStep::RetryAfter(200));
    assert_eq!(next_step(2, FetchOutcome::TransportError), RetryStep::RetryAfter(800));
    assert_eq!(next_step(MAX_RETRIES, FetchOutcome::Status(503)), RetryStep::GiveUp);
    assert_eq!(next_step(MAX_RETRIES, FetchOutcome::TransportError), RetryStep::GiveUp);
    assert_eq!(next_step(0, FetchOutcome::Status(404)), RetryStep::GiveUp);
}

// ---------------------------------------------------------------------------
// Dates
// ---------------------------------------------------------------------------

#[test]
fn dates_through_chrono() {
    assert_eq!(from_unix(1700000000, 0), Some(Timestamp::new(1700000000, 0)));
    assert_eq!(from_unix(i64::MAX, 0), None);
    assert_eq!(parse_rfc3339("2025-01-15T12:00:00.000-05:00"), Some(Timestamp::new(1736960400, 0)));
    assert_eq!(parse_rfc3339("yesterday"), None);
    assert_eq!(rfc2822(&Timestamp::new(0, 0)).as_deref(), Some("Thu, 1 Jan 1970 00:00:00 +0000"));
    assert_eq!(rfc2822(&Timestamp::new(253402300800, 0)), None);
}

// ---------------------------------------------------------------------------
// Hacker News
// ---------------------------------------------------------------------------

fn hn(id: u64, title: Option<&str>) -> HnItem {
    HnItem {
        id,
        title: title.map(|t| t.to_string()),
        url: None,
        text: None,
        by: None,
        score: None,
        descendants: None,
        time: None,
        dead: None,
        deleted: None,
    }
}

#[test]
fn hackernews_category_mapping() {
    assert_eq!(hackernews::category_to_endpoint("top"), Some("topstories"));
    assert_eq!(hackernews::category_to_endpoint("new"), Some("newstories"));
    assert_eq!(hackernews::category_to_endpoint("best"), Some("beststories"));
    assert_eq!(hackernews::category_to_endpoint("ask"), Some("askstories"));
    assert_eq!(hackernews::category_to_endpoint("show"), Some("showstories"));
    assert_eq!(hackernews::category_to_endpoint("jobs"), Some("jobstories"));
    assert_eq!(hackernews::category_to_endpoint("invalid"), None);
}

#[test]
fn map_hn_item_full() {
    let item = HnItem {
        id: 12345,
        title: Some("Show HN: My Project".into()),
        url: Some("https://example.com".into()),
        text: Some("Check out my project".into()),
        by: Some("testuser".into()),
        score: Some(42),
        descendants: Some(10),
        time: Some(1700000000),
        dead: None,
        deleted: None,
    };
    let result = hackernews::map_hn_item(&item).unwrap();
    assert_eq!(result.title, "Show HN: My Project");
    assert_eq!(result.link.as_deref(), Some("https://example.com"));
    assert_eq!(result.author.as_deref(), Some("testuser"));
    assert_eq!(result.guid.as_deref(), Some("hn-12345"));
    assert!(result.pub_date.is_some());
    let desc = result.description.unwrap();
    assert!(desc.contains("Check out my project"));
    assert!(desc.contains("Score: 42"));
    assert!(desc.contains("Comments: 10"));
    // Text and score separated by <br/><br/>, not \n
    assert!(desc.contains("<br/><br/>"));
}

#[test]
fn map_hn_item_no_url_falls_back_to_hn() {
    let item = hn(99, Some("Ask HN: Question?"));
    let result = hackernews::map_hn_item(&item).unwrap();
    assert_eq!(
        result.link.as_deref(),
        Some("https://news.ycombinator.com/item?id=99")
    );
}

#[test]
fn map_hn_item_no_title_returns_none() {
    let item = hn(1, None);
    assert!(hackernews::map_hn_item(&item).is_none());
}

#[test]
fn map_hn_item_dead_returns_none() {
    let mut item = hn(1, Some("Dead Story"));
    item.dead = Some(true);
    assert!(hackernews::map_hn_item(&item).is_none());
}

#[test]
fn map_hn_item_deleted_returns_none() {
    let mut item = hn(1, Some("Deleted Story"));
    item.deleted = Some(true);
    assert!(hackernews::map_hn_item(&item).is_none());
}

#[test]
fn map_hn_item_exact_description() {
    let mut item = hn(7, Some("T"));
    item.score = Some(3);
    let d = hackernews::map_hn_item(&item).unwrap();
    assert_eq!(
        d.description.as_deref(),
        Some("<p>Score: 3 | <a href=\"https://news.ycombinator.com/item?id=7\">Comments: 0</a></p>")
    );
    assert_eq!(hackernews::map_hn_item(&hn(8, Some("U"))).unwrap().description, None);
}

#[test]
fn map_hn_items_keeps_shown_in_order() {
    let mut dead = hn(2, Some("dead"));
    dead.dead = Some(false);
    dead.deleted = Some(true);
    let items = vec![hn(1, Some("a")), dead, hn(3, None), hn(4, Some("b"))];
    let mapped = hackernews::map_hn_items(&items);
    let titles: Vec<&str> = mapped.iter().map(|d| d.title.as_str()).collect();
    assert_eq!(titles, vec!["a", "b"]);
}

#[test]
fn hn_urls_and_feed() {
    assert_eq!(
        hackernews::ids_url(hackernews::HN_API_BASE, "topstories"),
        "https://hacker-news.firebaseio.com/v0/topstories.json"
    );
    assert_eq!(hackernews::item_url("http://localhost:9/v0", 42), "http://localhost:9/v0/item/42.json");
    assert_eq!(hackernews::take_ids(vec![1, 2, 3], 2), vec![1, 2]);
    assert_eq!(hackernews::take_ids(vec![1, 2, 3], 9), vec![1, 2, 3]);
    let feed = hackernews::category_feed("ask", vec![]);
    assert_eq!(feed.title, "Hacker News - Ask HN");
    assert_eq!(feed.description.as_deref(), Some("Hacker News - Ask HN via OpenRss"));
    assert_eq!(hackernews::category_title("nope"), "Hacker News");
}

#[test]
fn hn_category_errors() {
    match hackernews::category_endpoint_or_error(Some("bogus")) {
        Err(AppError::RouteNotFound(m)) => assert_eq!(m, "hackernews/bogus"),
        _ => panic!("expected route not found"),
    }
    match hackernews::category_endpoint_or_error(None) {
        Err(AppError::Internal(m)) => assert_eq!(m, "missing category param"),
        _ => panic!("expected internal error"),
    }
    assert_eq!(hackernews::category_endpoint_or_error(Some("top")).ok(), Some("topstories"));
}

// ---------------------------------------------------------------------------
// Lobsters
// ---------------------------------------------------------------------------

fn story(short_id: &str, url: Option<&str>, description: Option<&str>) -> LobstersStory {
    LobstersStory {
        short_id: short_id.into(),
        title: "Title".into(),
        url: url.map(|u| u.to_string()),
        description: description.map(|d| d.to_string()),
        comments_url: format!("https://lobste.rs/s/{}", short_id),
        comment_count: 0,
        score: 1,
        created_at: "2025-01-15T12:00:00.000-05:00".into(),
        submitter_user: LobstersUser { username: "u".into() },
        tags: vec![],
    }
}

#[test]
fn lobsters_category_mapping() {
    assert_eq!(lobsters::category_to_endpoint("hottest"), Some("hottest"));
    assert_eq!(lobsters::category_to_endpoint("hot"), Some("hottest"));
    assert_eq!(lobsters::category_to_endpoint("newest"), Some("newest"));
    assert_eq!(lobsters::category_to_endpoint("new"), Some("newest"));
    assert_eq!(lobsters::category_to_endpoint("active"), Some("active"));
    assert_eq!(lobsters::category_to_endpoint("invalid"), None);
}

#[test]
fn map_story_full() {
    let story = LobstersStory {
        short_id: "abc123".into(),
        title: "Rust is great".into(),
        url: Some("https://example.com/rust".into()),
        description: Some("An article about Rust".into()),
        comments_url: "https://lobste.rs/s/abc123".into(),
        comment_count: 15,
        score: 42,
        created_at: "2025-01-15T12:00:00.000-05:00".into(),
        submitter_user: LobstersUser {
            username: "rustfan".into(),
        },
        tags: vec!["rust".into(), "programming".into()],
    };
    let item = lobsters::map_lobsters_story(&story);
    assert_eq!(item.title, "Rust is great");
    assert_eq!(item.link.as_deref(), Some("https://example.com/rust"));
    assert_eq!(item.author.as_deref(), Some("rustfan"));
    assert_eq!(item.guid.as_deref(), Some("lobsters-abc123"));
    assert_eq!(item.category, vec!["rust", "programming"]);
    assert!(item.pub_date.is_some());
    let desc = item.description.unwrap();
    assert!(desc.contains("An article about Rust"));
    assert!(desc.contains("Score: 42"));
    assert!(desc.contains("Comments: 15"));
}

#[test]
fn map_story_no_url_falls_back_to_comments() {
    let story = LobstersStory {
        short_id: "xyz".into(),
        title: "Ask Lobsters".into(),
        url: None,
        description: None,
        comments_url: "https://lobste.rs/s/xyz".into(),
        comment_count: 5,
        score: 10,
        created_at: "2025-01-15T12:00:00.000-05:00".into(),
        submitter_user: LobstersUser {
            username: "user1".into(),
        },
        tags: vec![],
    };
    let item = lobsters::map_lobsters_story(&story);
    assert_eq!(item.link.as_deref(), Some("https://lobste.rs/s/xyz"));
}

#[test]
fn map_story_empty_url_falls_back() {
    let story = LobstersStory {
        short_id: "e".into(),
        title: "Empty URL".into(),
        url: Some("".into()),
        description: None,
        comments_url: "https://lobste.rs/s/e".into(),
        comment_count: 0,
        score: 1,
        created_at: "2025-01-15T12:00:00.000-05:00".into(),
        submitter_user: LobstersUser {
            username: "u".into(),
        },
        tags: vec![],
    };
    let item = lobsters::map_lobsters_story(&story);
    assert_eq!(item.link.as_deref(), Some("https://lobste.rs/s/e"));
}

#[test]
fn lobsters_story_description_and_date() {
    let item = lobsters::map_lobsters_story(&story("q", None, Some("")));
    assert_eq!(
        item.description.as_deref(),
        Some("<p>Score: 1 | <a href=\"https://lobste.rs/s/q\">Comments: 0</a></p>")
    );
    assert_eq!(item.pub_date, Some(Timestamp::new(1736960400, 0)));
    let mut bad = story("r", None, None);
    bad.created_at = "not a date".into();
    assert_eq!(lobsters::map_lobsters_story(&bad).pub_date, None);
}

#[test]
fn lobsters_stories_limit_and_feed() {
    let stories = vec![story("a", None, None), story("b", None, None), story("c", None, None)];
    let items = lobsters::map_stories(&stories, 2);
    let guids: Vec<&str> = items.iter().map(|i| i.guid.as_deref().unwrap()).collect();
    assert_eq!(guids, vec!["lobsters-a", "lobsters-b"]);
    assert_eq!(lobsters::stories_url("http://x", "newest"), "http://x/newest.json");
    let feed = lobsters::category_feed("hot", items);
    assert_eq!(feed.title, "Lobsters - Hottest");
    assert_eq!(feed.link.as_deref(), Some("https://lobste.rs"));
    match lobsters::category_endpoint_or_error(Some("zzz")) {
        Err(AppError::RouteNotFound(m)) => assert_eq!(m, "lobsters/zzz"),
        _ => panic!("expected route not found"),
    }
}

// ---------------------------------------------------------------------------
// Example route
// ---------------------------------------------------------------------------

#[test]
fn example_feed_has_five_dated_items() {
    let data = example_feed();
    assert_eq!(data.title, "Test Feed");
    assert_eq!(data.items.len(), 5);
    assert_eq!(data.items[0].title, "Test Item 1");
    assert_eq!(data.items[4].guid.as_deref(), Some("test-5"));
    assert_eq!(data.items[0].pub_date, Some(Timestamp::new(1736596800, 0)));
}

#[test]
fn known_categories_have_titles() {
    for c in ["top", "new", "best", "ask", "show", "jobs"] {
        assert!(hackernews::category_to_endpoint(c).is_some());
        assert_ne!(hackernews::category_title(c), "Hacker News");
    }
}
