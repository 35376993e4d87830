//! HTML clean-up applied to item descriptions: scripts and event handlers
//! removed, lazy-loaded images given a real `src`, and a referrer policy on
//! every image and frame.
use vstd::prelude::*;
use crate::pattern::{
    group, interleave, join_pieces, lemma_removal_len, match_texts, Pattern, regex_compiles, regex_split, regex_captures_all, regex_captures_first,
    DEFAULT_SIZE_LIMIT, captures_views, opt_views,
};
use crate::text::{views, has_substring};

verus! {

/// `<script>` elements with their content.
pub const SCRIPT_PATTERN: &'static str = "<script\\b[^>]*>[\\s\\S]*?</script>";

/// `on*` event handler attributes, quoted or not.
pub const EVENT_PATTERN: &'static str = "\\s+on\\w+\\s*=\\s*(?:\"[^\"]*\"|'[^']*'|\\S+)";

/// An `<img` prefix, an optional `src`, and a `data-src` or `data-original`
/// attribute.
pub const LAZYLOAD_PATTERN: &'static str = "(<img\\b[^>]*?)(?:\\s+src\\s*=\\s*(?:\"[^\"]*\"|'[^']*'))?\\s+(data-(?:src|original)\\s*=\\s*(?:\"[^\"]*\"|'[^']*'))";

/// The URL of a double-quoted lazy-load attribute.
pub const LAZY_URL_DOUBLE_PATTERN: &'static str = "data-(?:src|original)\\s*=\\s*\"([^\"]*)\"";

/// The URL of a single-quoted lazy-load attribute.
pub const LAZY_URL_SINGLE_PATTERN: &'static str = "data-(?:src|original)\\s*=\\s*'([^']*)'";

/// An `<img>` or `<iframe>` start tag: name, attributes, optional `/`.
pub const MEDIA_TAG_PATTERN: &'static str = "<(img|iframe)\\b([^>]*?)(/?)>";

/// Every match of `pattern` (case-insensitive) removed from `html`.
pub open spec fn spec_remove_matches(pattern: Seq<char>, html: Seq<char>) -> Seq<char> {
    if regex_compiles(pattern, true, DEFAULT_SIZE_LIMIT) {
        interleave(regex_split(pattern, true, DEFAULT_SIZE_LIMIT, html), Seq::<Seq<char>>::empty())
    } else {
        html
    }
}

/// The first capture of `pattern` (case-sensitive, default limits) in `text`.
pub open spec fn first_captures(pattern: Seq<char>, text: Seq<char>) -> Option<Seq<Option<Seq<char>>>> {
    if regex_compiles(pattern, false, DEFAULT_SIZE_LIMIT) {
        regex_captures_first(pattern, false, DEFAULT_SIZE_LIMIT, text)
    } else {
        None
    }
}

/// What replaces one lazy-load match: the `<img` prefix followed by a `src`
/// attribute carrying the lazy-load URL, in the quotes it came in.
pub open spec fn lazy_replacement(caps: Seq<Option<Seq<char>>>) -> Seq<char> {
    let prefix = group(caps, 1);
    let data_attr = group(caps, 2);
    match first_captures(LAZY_URL_DOUBLE_PATTERN@, data_attr) {
        Some(u) => prefix + " src=\""@ + group(u, 1) + "\""@,
        None => match first_captures(LAZY_URL_SINGLE_PATTERN@, data_attr) {
            Some(u) => prefix + " src='"@ + group(u, 1) + "'"@,
            None => group(caps, 0),
        },
    }
}

/// What replaces one `<img>`/`<iframe>` start tag: itself when it already
/// names a referrer policy, otherwise the tag with `referrerpolicy="no-referrer"`.
pub open spec fn referrer_replacement(caps: Seq<Option<Seq<char>>>) -> Seq<char> {
    if has_substring(group(caps, 2), "referrerpolicy"@) {
        group(caps, 0)
    } else {
        "<"@ + group(caps, 1) + group(caps, 2) + " referrerpolicy=\"no-referrer\""@ + group(caps, 3)
            + ">"@
    }
}

/// Every match of a case-insensitive `pattern` replaced through `f`.
pub open spec fn spec_replace_matches(
    pattern: Seq<char>,
    html: Seq<char>,
    f: spec_fn(Seq<Option<Seq<char>>>) -> Seq<char>,
) -> Seq<char> {
    if regex_compiles(pattern, true, DEFAULT_SIZE_LIMIT) {
        interleave(
            regex_split(pattern, true, DEFAULT_SIZE_LIMIT, html),
            regex_captures_all(pattern, true, DEFAULT_SIZE_LIMIT, html).map_values(f),
        )
    } else {
        html
    }
}

pub open spec fn spec_remove_script_tags(html: Seq<char>) -> Seq<char> {
    spec_remove_matches(SCRIPT_PATTERN@, html)
}

pub open spec fn spec_remove_event_attributes(html: Seq<char>) -> Seq<char> {
    spec_remove_matches(EVENT_PATTERN@, html)
}

pub open spec fn spec_fix_lazyload_images(html: Seq<char>) -> Seq<char> {
    spec_replace_matches(LAZYLOAD_PATTERN@, html, |c: Seq<Option<Seq<char>>>| lazy_replacement(c))
}

pub open spec fn spec_add_referrer_policy(html: Seq<char>) -> Seq<char> {
    spec_replace_matches(MEDIA_TAG_PATTERN@, html, |c: Seq<Option<Seq<char>>>| referrer_replacement(c))
}

/// The four clean-up steps in order; the empty document stays empty.
pub open spec fn spec_sanitize_html(html: Seq<char>) -> Seq<char> {
    if html.len() == 0 {
        Seq::<char>::empty()
    } else {
        spec_strip_active(spec_add_referrer_policy(spec_fix_lazyload_images(spec_strip_active(html))))
    }
}

/// One pass of script removal, then one of event handler removal.
pub open spec fn active_pass(html: Seq<char>) -> Seq<char> {
    spec_remove_event_attributes(spec_remove_script_tags(html))
}

/// Scripts and event handlers removed again and again, as long as a pass
/// still shortens the text: removing one can join the pieces of another.
pub open spec fn spec_strip_active(html: Seq<char>) -> Seq<char>
    decreases html.len(),
{
    if active_pass(html).len() < html.len() {
        spec_strip_active(active_pass(html))
    } else {
        html
    }
}

/// Every match the case-insensitive `pattern` finds in `text` is empty
/// (where the pattern compiles): nothing of it is left to remove.
pub open spec fn no_nonempty_match(pattern: Seq<char>, text: Seq<char>) -> bool {
    regex_compiles(pattern, true, DEFAULT_SIZE_LIMIT) ==> forall|i: int|
        0 <= i < regex_captures_all(pattern, true, DEFAULT_SIZE_LIMIT, text).len() ==> (#[trigger] group(
            regex_captures_all(pattern, true, DEFAULT_SIZE_LIMIT, text)[i],
            0,
        )).len() == 0
}

/// The text nodes of `html` parsed as an HTML fragment by `scraper`,
/// concatenated in document order.
pub uninterp spec fn html_fragment_text(html: Seq<char>) -> Seq<char>;

/// `html` reduced to plain text, cut to `max_chars` characters with `...`
/// appended when it was longer.
pub open spec fn spec_brief(html: Seq<char>, max_chars: nat) -> Seq<char> {
    let plain = html_fragment_text(html);
    if plain.len() <= max_chars {
        plain
    } else {
        plain.take(max_chars as int) + "..."@
    }
}

/// Concatenates the pieces with the replacements between them.
pub fn interleave_exec(gaps: &Vec<String>, reps: &Vec<String>) -> (r: String)
    ensures
        r@ == interleave(views(gaps@), views(reps@)),
{
    let mut r = String::new();
    let mut i: usize = 0;
    while i < gaps.len()
        invariant
            i <= gaps.len(),
            r@ == join_pieces(views(gaps@), views(reps@), i as int),
        decreases gaps.len() - i,
    {
        r.append(gaps[i].as_str());
        if i + 1 < gaps.len() && i < reps.len() {
            r.append(reps[i].as_str());
        }
        assert(r@ =~= join_pieces(views(gaps@), views(reps@), i + 1));
        i = i + 1;
    }
    r
}

fn group_exec(caps: &Vec<Option<String>>, i: usize) -> (r: String)
    ensures
        r@ == group(opt_views(caps@), i as int),
{
    if i < caps.len() {
        match &caps[i] {
            Some(s) => s.clone(),
            None => String::new(),
        }
    } else {
        String::new()
    }
}

fn remove_matches(pattern: &str, html: &str) -> (r: String)
    ensures
        r@ == spec_remove_matches(pattern@, html@),
        r@.len() <= html@.len(),
        r@.len() == html@.len() ==> r@ == html@ && no_nonempty_match(pattern@, html@),
{
    match Pattern::new(pattern, true, DEFAULT_SIZE_LIMIT) {
        Some(re) => {
            let gaps = re.split(html);
            let reps: Vec<String> = Vec::new();
            assert(views(reps@) =~= Seq::<Seq<char>>::empty());
            let ghost caps = regex_captures_all(pattern@, true, DEFAULT_SIZE_LIMIT, html@);
            proof {
                lemma_removal_len(views(gaps@), match_texts(caps));
                if interleave(views(gaps@), Seq::empty()).len() == html@.len() {
                    assert forall|i: int| 0 <= i < caps.len() implies (#[trigger] group(caps[i], 0)).len() == 0 by {
                        assert(match_texts(caps)[i] == group(caps[i], 0));
                    }
                }
            }
            interleave_exec(&gaps, &reps)
        },
        None => String::from_str(html),
    }
}

/// Removes `<script>` elements with their content.
pub fn remove_script_tags(html: &str) -> (r: String)
    ensures
        r@ == spec_remove_script_tags(html@),
        r@.len() <= html@.len(),
        r@.len() == html@.len() ==> r@ == html@ && no_nonempty_match(SCRIPT_PATTERN@, html@),
{
    remove_matches(SCRIPT_PATTERN, html)
}

/// Removes `on*` event handler attributes.
pub fn remove_event_attributes(html: &str) -> (r: String)
    ensures
        r@ == spec_remove_event_attributes(html@),
        r@.len() <= html@.len(),
        r@.len() == html@.len() ==> r@ == html@ && no_nonempty_match(EVENT_PATTERN@, html@),
{
    remove_matches(EVENT_PATTERN, html)
}

/// What replaces one lazy-load match, given its capture groups and the
/// compiled URL patterns.
pub fn lazy_replacement_exec(
    caps: &Vec<Option<String>>,
    double: &Option<Pattern>,
    single: &Option<Pattern>,
) -> (r: String)
    requires
        double matches Some(p) ==> p.source() == LAZY_URL_DOUBLE_PATTERN@ && !p.case_insensitive()
            && p.size_limit() == DEFAULT_SIZE_LIMIT,
        double is Some <==> regex_compiles(LAZY_URL_DOUBLE_PATTERN@, false, DEFAULT_SIZE_LIMIT),
        single matches Some(p) ==> p.source() == LAZY_URL_SINGLE_PATTERN@ && !p.case_insensitive()
            && p.size_limit() == DEFAULT_SIZE_LIMIT,
        single is Some <==> regex_compiles(LAZY_URL_SINGLE_PATTERN@, false, DEFAULT_SIZE_LIMIT),
    ensures
        r@ == lazy_replacement(opt_views(caps@)),
{
    let prefix = group_exec(caps, 1);
    let data_attr = group_exec(caps, 2);
    let found_double = match double {
        Some(p) => p.captures_first(data_attr.as_str()),
        None => None,
    };
    match found_double {
        Some(u) => {
            let mut r = prefix;
            r.append(" src=\"");
            r.append(group_exec(&u, 1).as_str());
            r.append("\"");
            return r;
        },
        None => {},
    }
    let found_single = match single {
        Some(p) => p.captures_first(data_attr.as_str()),
        None => None,
    };
    match found_single {
        Some(u) => {
            let mut r = prefix;
            r.append(" src='");
            r.append(group_exec(&u, 1).as_str());
            r.append("'");
            r
        },
        None => group_exec(caps, 0),
    }
}

/// Gives lazy-loaded images (`data-src`, `data-original`) a real `src`.
pub fn fix_lazyload_images(html: &str) -> (r: String)
    ensures
        r@ == spec_fix_lazyload_images(html@),
{
    match Pattern::new(LAZYLOAD_PATTERN, true, DEFAULT_SIZE_LIMIT) {
        Some(re) => {
            let double = Pattern::new(LAZY_URL_DOUBLE_PATTERN, false, DEFAULT_SIZE_LIMIT);
            let single = Pattern::new(LAZY_URL_SINGLE_PATTERN, false, DEFAULT_SIZE_LIMIT);
            let gaps = re.split(html);
            let caps = re.captures_all(html);
            let mut reps: Vec<String> = Vec::new();
            let mut i: usize = 0;
            while i < caps.len()
                invariant
                    i <= caps.len(),
                    reps@.len() == i,
                    double matches Some(p) ==> p.source() == LAZY_URL_DOUBLE_PATTERN@
                        && !p.case_insensitive() && p.size_limit() == DEFAULT_SIZE_LIMIT,
                    double is Some <==> regex_compiles(LAZY_URL_DOUBLE_PATTERN@, false, DEFAULT_SIZE_LIMIT),
                    single matches Some(p) ==> p.source() == LAZY_URL_SINGLE_PATTERN@
                        && !p.case_insensitive() && p.size_limit() == DEFAULT_SIZE_LIMIT,
                    single is Some <==> regex_compiles(LAZY_URL_SINGLE_PATTERN@, false, DEFAULT_SIZE_LIMIT),
                    forall|j: int| 0 <= j < i ==> #[trigger] reps@[j]@ == lazy_replacement(opt_views(caps@[j]@)),
                decreases caps.len() - i,
            {
                reps.push(lazy_replacement_exec(&caps[i], &double, &single));
                i = i + 1;
            }
            assert(views(reps@) =~= captures_views(caps@).map_values(
                |c: Seq<Option<Seq<char>>>| lazy_replacement(c),
            ));
            interleave_exec(&gaps, &reps)
        },
        None => String::from_str(html),
    }
}

/// What replaces one `<img>`/`<iframe>` start tag, given its capture
/// groups.
pub fn referrer_replacement_exec(caps: &Vec<Option<String>>) -> (r: String)
    ensures
        r@ == referrer_replacement(opt_views(caps@)),
{
    let tag = group_exec(caps, 1);
    let attrs = group_exec(caps, 2);
    let close = group_exec(caps, 3);
    if crate::text::str_contains(attrs.as_str(), "referrerpolicy") {
        group_exec(caps, 0)
    } else {
        let mut r = String::from_str("<");
        r.append(tag.as_str());
        r.append(attrs.as_str());
        r.append(" referrerpolicy=\"no-referrer\"");
        r.append(close.as_str());
        r.append(">");
        r
    }
}

/// Adds `referrerpolicy="no-referrer"` to `<img>` and `<iframe>` tags that
/// do not name a policy already.
pub fn add_referrer_policy(html: &str) -> (r: String)
    ensures
        r@ == spec_add_referrer_policy(html@),
{
    match Pattern::new(MEDIA_TAG_PATTERN, true, DEFAULT_SIZE_LIMIT) {
        Some(re) => {
            let gaps = re.split(html);
            let caps = re.captures_all(html);
            let mut reps: Vec<String> = Vec::new();
            let mut i: usize = 0;
            while i < caps.len()
                invariant
                    i <= caps.len(),
                    reps@.len() == i,
                    forall|j: int| 0 <= j < i ==> #[trigger] reps@[j]@ == referrer_replacement(opt_views(caps@[j]@)),
                decreases caps.len() - i,
            {
                reps.push(referrer_replacement_exec(&caps[i]));
                i = i + 1;
            }
            assert(views(reps@) =~= captures_views(caps@).map_values(
                |c: Seq<Option<Seq<char>>>| referrer_replacement(c),
            ));
            interleave_exec(&gaps, &reps)
        },
        None => String::from_str(html),
    }
}

fn strip_active_from(s: String) -> (r: String)
    ensures
        r@ == spec_strip_active(s@),
        no_nonempty_match(SCRIPT_PATTERN@, r@),
        no_nonempty_match(EVENT_PATTERN@, r@),
    decreases s@.len(),
{
    let a = remove_script_tags(s.as_str());
    let b = remove_event_attributes(a.as_str());
    if b.unicode_len() < s.unicode_len() {
        strip_active_from(b)
    } else {
        s
    }
}

/// Removes scripts and event handlers until none is left: when this returns,
/// neither pattern finds anything but empty matches in the result.
pub fn strip_active_content(html: &str) -> (r: String)
    ensures
        r@ == spec_strip_active(html@),
        no_nonempty_match(SCRIPT_PATTERN@, r@),
        no_nonempty_match(EVENT_PATTERN@, r@),
{
    strip_active_from(String::from_str(html))
}

/// Sanitize HTML content: remove scripts and event handlers (until none is
/// left), fix lazyload, add referrerpolicy, and make sure once more that
/// those rewrites left no script or event handler behind.
pub fn sanitize_html(html: &str) -> (r: String)
    ensures
        r@ == spec_sanitize_html(html@),
        no_nonempty_match(SCRIPT_PATTERN@, r@),
        no_nonempty_match(EVENT_PATTERN@, r@),
{
    if html.is_empty() {
        // The empty document is clean as it is.
        return strip_active_content(html);
    }
    let result = strip_active_content(html);
    let result = fix_lazyload_images(result.as_str());
    let result = add_referrer_policy(result.as_str());
    strip_active_content(result.as_str())
}

/// The text nodes of `html`, parsed by `scraper` as a fragment
/// (`Html::parse_fragment`, then the text of the root element), concatenated.
#[verifier::external_body]
fn fragment_text(html: &str) -> (r: String)
    ensures
        r@ == html_fragment_text(html@),
{
    scraper::Html::parse_fragment(html).root_element().text().collect::<String>()
}

/// Strip all HTML tags, returning plain text.
pub fn strip_html_tags(html: &str) -> (r: String)
    ensures
        r@ == html_fragment_text(html@),
{
    fragment_text(html)
}

/// Truncate text to N characters, adding "..." if truncated.
pub fn brief(html: &str, max_chars: usize) -> (r: String)
    ensures
        r@ == spec_brief(html@, max_chars as nat),
{
    let plain = strip_html_tags(html);
    let chars = crate::text::chars_of(plain.as_str());
    if chars.len() <= max_chars {
        return plain;
    }
    let mut r = crate::text::string_of(&chars, 0, max_chars);
    r.append("...");
    r
}

} // verus!
