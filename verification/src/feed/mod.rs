//! Output formats for feed rendering.
pub mod xml;
pub mod rss;
pub mod atom;
pub mod json;
pub mod xml_utils;
use vstd::prelude::*;
use crate::text::{ascii_lower, lower_char};
use crate::data::Data;
use crate::error::AppError;

verus! {

/// Output format for feed rendering.
#[derive(Debug, Clone, Copy, PartialEq, Eq, Structural)]
pub enum FeedFormat {
    Rss,
    Atom,
    Json,
}

impl Default for FeedFormat {
    fn default() -> (f: FeedFormat)
        ensures
            f == FeedFormat::Rss,
    {
        FeedFormat::Rss
    }
}

/// The format a (case-insensitive) name selects; anything unknown is RSS.
pub open spec fn spec_format_from_name(s: Seq<char>) -> FeedFormat {
    if ascii_lower(s) == "atom"@ {
        FeedFormat::Atom
    } else if ascii_lower(s) == "json"@ {
        FeedFormat::Json
    } else {
        FeedFormat::Rss
    }
}

pub open spec fn spec_content_type(f: FeedFormat) -> Seq<char> {
    match f {
        FeedFormat::Rss => "application/rss+xml; charset=utf-8"@,
        FeedFormat::Atom => "application/atom+xml; charset=utf-8"@,
        FeedFormat::Json => "application/feed+json; charset=utf-8"@,
    }
}

impl FeedFormat {
    pub fn from_str_loose(s: &str) -> (f: FeedFormat)
        ensures
            f == spec_format_from_name(s@),
    {
        let lower = crate::text::to_ascii_lowercase(s);
        if crate::text::str_eq(lower.as_str(), "atom") {
            FeedFormat::Atom
        } else if crate::text::str_eq(lower.as_str(), "json") {
            FeedFormat::Json
        } else {
            FeedFormat::Rss
        }
    }

    pub fn content_type(&self) -> (r: &'static str)
        ensures
            r@ == spec_content_type(*self),
    {
        match self {
            FeedFormat::Rss => "application/rss+xml; charset=utf-8",
            FeedFormat::Atom => "application/atom+xml; charset=utf-8",
            FeedFormat::Json => "application/feed+json; charset=utf-8",
        }
    }
}

/// What rendering a feed in a format may give.
pub open spec fn feed_rendered(data: Data, format: FeedFormat, r: Result<String, AppError>) -> bool {
    match format {
        FeedFormat::Rss => rss::rss_rendered(data, r),
        FeedFormat::Atom => atom::atom_rendered(data, r),
        FeedFormat::Json => json::json_rendered(data, r),
    }
}

/// The feed can be rendered in the format: every date it carries can be
/// written there.
pub open spec fn feed_renderable(data: Data, format: FeedFormat) -> bool {
    match format {
        FeedFormat::Rss => rss::rss_dates_ok(data),
        FeedFormat::Atom => atom::atom_item_dates_ok(data) && (atom::atom_fixed_updated(data) matches Some(u)
            ==> crate::time::chrono_timestamp_valid(u.secs, u.nanos)),
        FeedFormat::Json => json::json_dates_ok(data),
    }
}

/// Render feed data to the requested format.
pub fn render(data: &Data, format: FeedFormat) -> (r: Result<String, AppError>)
    ensures
        feed_rendered(*data, format, r),
        r is Ok <==> feed_renderable(*data, format),
{
    match format {
        FeedFormat::Rss => rss::render(data),
        FeedFormat::Atom => atom::render(data),
        FeedFormat::Json => json::render(data),
    }
}

/// Folding the case of a name twice is folding it once.
pub proof fn lemma_ascii_lower_idempotent(s: Seq<char>)
    ensures
        ascii_lower(ascii_lower(s)) == ascii_lower(s),
{
    assert(ascii_lower(ascii_lower(s)) =~= ascii_lower(s)) by {
        assert forall|i: int| 0 <= i < s.len() implies lower_char(lower_char(s[i])) == lower_char(s[i]) by {
            let c = s[i];
            if 'A' <= c <= 'Z' {
                assert(((c as u32) + 32) as char == lower_char(c));
            }
        }
    }
}

/// The name of a format is read without regard to ASCII case: a name and its
/// lower-case form select the same format.
pub proof fn law_format_name_ignores_case(s: Seq<char>)
    ensures
        spec_format_from_name(ascii_lower(s)) == spec_format_from_name(s),
{
    lemma_ascii_lower_idempotent(s);
}

} // verus!
