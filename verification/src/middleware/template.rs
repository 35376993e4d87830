//! The choice of output format from the request's query string.
use vstd::prelude::*;
use crate::feed::{FeedFormat, feed_renderable, feed_rendered, spec_content_type, spec_format_from_name};
use crate::data::Data;
use crate::error::{AppError, spec_message};
use crate::text::{split_on, first_prefixed};

verus! {

/// The format named by the first `format=` parameter of the query, RSS when
/// there is none.
pub open spec fn spec_extract_format(query: Option<Seq<char>>) -> FeedFormat {
    match query {
        None => FeedFormat::Rss,
        Some(q) => match first_prefixed(split_on(q, '&'), "format="@) {
            Some(v) => spec_format_from_name(v),
            None => FeedFormat::Rss,
        },
    }
}

/// Reads `?format=` from the query (default: rss).
pub fn extract_format(query: Option<&str>) -> (f: FeedFormat)
    ensures
        f == spec_extract_format(match query {
            Some(q) => Some(q@),
            None => None,
        }),
{
    let query = match query {
        Some(q) => q,
        None => return FeedFormat::default(),
    };
    let pairs = crate::text::split_char(query, '&');
    match crate::text::first_prefixed_exec(&pairs, "format=") {
        Some(val) => FeedFormat::from_str_loose(val.as_str()),
        None => FeedFormat::default(),
    }
}

/// The response made of a rendered feed.
pub struct FeedResponse {
    pub status: u16,
    pub body: String,
    /// The `Content-Type` of a rendered feed.
    pub content_type: Option<&'static str>,
}

/// A rendered feed is answered 200 with its format's content type; a
/// rendering failure 500 with the error's message.
pub open spec fn response_for(r: FeedResponse, format: FeedFormat, rendered: Result<String, AppError>) -> bool {
    match rendered {
        Ok(body) => {
            &&& r.status == 200
            &&& r.body@ == body@
            &&& r.content_type matches Some(t) && t@ == spec_content_type(format)
        },
        Err(e) => {
            &&& r.status == 500
            &&& r.body@ == spec_message(e)
            &&& r.content_type is None
        },
    }
}

/// The response for a feed rendered in `format`, given what rendering gave.
pub fn render_response(format: FeedFormat, rendered: Result<String, AppError>) -> (r: FeedResponse)
    requires
        rendered matches Err(e) ==> !(e is Http),
    ensures
        response_for(r, format, rendered),
{
    match rendered {
        Ok(body) => FeedResponse { status: 200, body, content_type: Some(format.content_type()) },
        Err(e) => FeedResponse { status: 500, body: e.message(), content_type: None },
    }
}

/// Renders a feed in the requested format and makes the response of it.
pub fn template_response(data: &Data, format: FeedFormat) -> (r: FeedResponse)
    ensures
        exists|rendered: Result<String, AppError>|
            #![trigger feed_rendered(*data, format, rendered)]
            feed_rendered(*data, format, rendered) && response_for(r, format, rendered),
        r.status == 200 <==> feed_renderable(*data, format),
{
    let rendered = crate::feed::render(data, format);
    proof {
        assert(feed_rendered(*data, format, rendered));
    }
    render_response(format, rendered)
}

} // verus!
