//! Query parameters that filter, sort, shorten and limit a feed's items.
use vstd::prelude::*;
use crate::codec::{decoded_or_empty, decode_or_empty};
use crate::data::{Data, DataItem, ItemView, Timestamp, opt_view, item_views};
use crate::middleware::sanitize::{spec_sanitize_html, spec_brief};
use crate::pattern::{Pattern, regex_compiles, regex_is_match};
use crate::number::{parse_unsigned, parse_signed};
use crate::text::{split_on, index_of_char, views};
use crate::time::{chrono_sub_seconds, chrono_timestamp_valid};

verus! {

/// Query parameters that control item filtering, sorting, and limiting.
#[derive(Debug)]
pub struct FilterParams {
    pub filter: Option<String>,
    pub filterout: Option<String>,
    pub filter_title: Option<String>,
    pub filterout_title: Option<String>,
    pub filter_description: Option<String>,
    pub filterout_description: Option<String>,
    pub filter_case_sensitive: Option<bool>,
    pub limit: Option<usize>,
    pub filter_time: Option<i64>,
    pub brief: Option<usize>,
}

impl Default for FilterParams {
    fn default() -> (p: FilterParams)
        ensures
            p.filter is None,
            p.filterout is None,
            p.filter_title is None,
            p.filterout_title is None,
            p.filter_description is None,
            p.filterout_description is None,
            p.filter_case_sensitive is None,
            p.limit is None,
            p.filter_time is None,
            p.brief is None,
    {
        FilterParams {
            filter: None,
            filterout: None,
            filter_title: None,
            filterout_title: None,
            filter_description: None,
            filterout_description: None,
            filter_case_sensitive: None,
            limit: None,
            filter_time: None,
            brief: None,
        }
    }
}

/// The key of a `key=value` pair: everything before the first `=`.
pub open spec fn pair_key(p: Seq<char>) -> Seq<char> {
    p.take(index_of_char(p, '='))
}

/// The value of a `key=value` pair: everything after the first `=`, or
/// nothing when there is no `=`.
pub open spec fn pair_value(p: Seq<char>) -> Seq<char> {
    let i = index_of_char(p, '=');
    if i < p.len() {
        p.skip(i + 1)
    } else {
        Seq::<char>::empty()
    }
}

/// The (still encoded) value of the last pair whose key is `key`.
pub open spec fn last_value(pairs: Seq<Seq<char>>, key: Seq<char>) -> Option<Seq<char>>
    decreases pairs.len(),
{
    if pairs.len() == 0 {
        None
    } else if pair_key(pairs.last()) == key {
        Some(pair_value(pairs.last()))
    } else {
        last_value(pairs.drop_last(), key)
    }
}

/// A text parameter: the decoded value of its last occurrence.
pub open spec fn text_param(pairs: Seq<Seq<char>>, key: Seq<char>) -> Option<Seq<char>> {
    match last_value(pairs, key) {
        Some(v) => Some(decoded_or_empty(v)),
        None => None,
    }
}

/// An unsigned parameter: its last occurrence, parsed (`None` when that
/// does not parse).
pub open spec fn unsigned_param(pairs: Seq<Seq<char>>, key: Seq<char>, max: int) -> Option<int> {
    match last_value(pairs, key) {
        Some(v) => parse_unsigned(decoded_or_empty(v), max),
        None => None,
    }
}

/// What `FilterParams::from_query` reads from a query: each field from the
/// last pair with its key.
pub open spec fn spec_from_query(p: FilterParams, query: Option<Seq<char>>) -> bool {
    match query {
        None => {
            &&& p.filter is None
            &&& p.filterout is None
            &&& p.filter_title is None
            &&& p.filterout_title is None
            &&& p.filter_description is None
            &&& p.filterout_description is None
            &&& p.filter_case_sensitive is None
            &&& p.limit is None
            &&& p.filter_time is None
            &&& p.brief is None
        },
        Some(q) => {
            let pairs = split_on(q, '&');
            &&& opt_view(p.filter) == text_param(pairs, "filter"@)
            &&& opt_view(p.filterout) == text_param(pairs, "filterout"@)
            &&& opt_view(p.filter_title) == text_param(pairs, "filter_title"@)
            &&& opt_view(p.filterout_title) == text_param(pairs, "filterout_title"@)
            &&& opt_view(p.filter_description) == text_param(pairs, "filter_description"@)
            &&& opt_view(p.filterout_description) == text_param(pairs, "filterout_description"@)
            &&& p.filter_case_sensitive == (match text_param(pairs, "filter_case_sensitive"@) {
                Some(v) => Some(v != "false"@),
                None => None,
            })
            &&& (match unsigned_param(pairs, "limit"@, usize::MAX as int) {
                Some(n) => p.limit == Some(n as usize),
                None => p.limit is None,
            })
            &&& (match last_value(pairs, "filter_time"@) {
                Some(v) => match parse_signed(decoded_or_empty(v), i64::MAX as int) {
                    Some(n) => p.filter_time == Some(n as i64),
                    None => p.filter_time is None,
                },
                None => p.filter_time is None,
            })
            &&& (match unsigned_param(pairs, "brief"@, usize::MAX as int) {
                Some(n) => p.brief == Some(n as usize),
                None => p.brief is None,
            })
        },
    }
}


/// The limit on the compiled size of a filter pattern (one mebibyte).
pub const FILTER_SIZE_LIMIT: usize = 1048576;

/// How a filter pattern decides which items stay.
#[derive(Debug, Clone, Copy, PartialEq, Eq, Structural)]
pub enum FilterKind {
    /// Keep items with a match in the title, description, author or a category.
    Any,
    /// Drop items with a match in the title, description, author or a category.
    NotAny,
    /// Keep items whose title matches.
    Title,
    /// Drop items whose title matches.
    NotTitle,
    /// Keep items with a matching description.
    Description,
    /// Drop items with a matching description.
    NotDescription,
}

/// `pattern` (compiled with the filter size limit) matches `text`.
pub open spec fn re_match(pattern: Seq<char>, ci: bool, text: Seq<char>) -> bool {
    regex_is_match(pattern, ci, FILTER_SIZE_LIMIT, text)
}

pub open spec fn category_matches(pattern: Seq<char>, ci: bool, cats: Seq<Seq<char>>) -> bool {
    exists|j: int| 0 <= j < cats.len() && re_match(pattern, ci, #[trigger] cats[j])
}

/// The pattern matches the title, the description, the author or a category.
pub open spec fn any_field_matches(pattern: Seq<char>, ci: bool, v: ItemView) -> bool {
    ||| re_match(pattern, ci, v.title)
    ||| (v.description matches Some(d) && re_match(pattern, ci, d))
    ||| (v.author matches Some(a) && re_match(pattern, ci, a))
    ||| category_matches(pattern, ci, v.category)
}

/// Whether a filter of this kind keeps the item.
pub open spec fn keeps(kind: FilterKind, pattern: Seq<char>, ci: bool, v: ItemView) -> bool {
    match kind {
        FilterKind::Any => any_field_matches(pattern, ci, v),
        FilterKind::NotAny => !any_field_matches(pattern, ci, v),
        FilterKind::Title => re_match(pattern, ci, v.title),
        FilterKind::NotTitle => !re_match(pattern, ci, v.title),
        FilterKind::Description => match v.description {
            Some(d) => re_match(pattern, ci, d),
            None => false,
        },
        FilterKind::NotDescription => match v.description {
            Some(d) => !re_match(pattern, ci, d),
            None => true,
        },
    }
}

pub open spec fn keep_pred(kind: FilterKind, pattern: Seq<char>, ci: bool) -> spec_fn(ItemView) -> bool {
    |v: ItemView| keeps(kind, pattern, ci, v)
}

/// One pattern parameter applied: the items it keeps, or all of them when
/// the parameter is absent or its pattern does not compile.
pub open spec fn pattern_step(
    items: Seq<ItemView>,
    pattern: Option<Seq<char>>,
    ci: bool,
    kind: FilterKind,
) -> Seq<ItemView> {
    match pattern {
        Some(p) => if regex_compiles(p, ci, FILTER_SIZE_LIMIT) {
            items.filter(keep_pred(kind, p, ci))
        } else {
            items
        },
        None => items,
    }
}

/// The item is not older than the cutoff (undated items always stay).
pub open spec fn time_kept(v: ItemView, cutoff: Timestamp) -> bool {
    match v.pub_date {
        Some(d) => !d.before(cutoff),
        None => true,
    }
}

pub open spec fn time_pred(cutoff: Timestamp) -> spec_fn(ItemView) -> bool {
    |v: ItemView| time_kept(v, cutoff)
}

/// Patterns match case-insensitively only when asked to.
pub open spec fn case_insensitive(params: FilterParams) -> bool {
    match params.filter_case_sensitive {
        Some(b) => !b,
        None => false,
    }
}

/// The items the filters keep, in their original order: the time window
/// first, then either the unified filters (when `filter` or `filterout` is
/// given) or the four field filters.
pub open spec fn spec_select(items: Seq<ItemView>, params: FilterParams, cutoff: Option<Timestamp>) -> Seq<ItemView> {
    let ci = case_insensitive(params);
    let s0 = match (params.filter_time, cutoff) {
        (Some(_), Some(c)) => items.filter(time_pred(c)),
        _ => items,
    };
    if params.filter is Some || params.filterout is Some {
        pattern_step(
            pattern_step(s0, opt_view(params.filter), ci, FilterKind::Any),
            opt_view(params.filterout),
            ci,
            FilterKind::NotAny,
        )
    } else {
        pattern_step(
            pattern_step(
                pattern_step(
                    pattern_step(s0, opt_view(params.filter_title), ci, FilterKind::Title),
                    opt_view(params.filterout_title),
                    ci,
                    FilterKind::NotTitle,
                ),
                opt_view(params.filter_description),
                ci,
                FilterKind::Description,
            ),
            opt_view(params.filterout_description),
            ci,
            FilterKind::NotDescription,
        )
    }
}

/// An item's description sanitized, then shortened when `brief` asks for at
/// least 100 characters.
pub open spec fn spec_prepare(v: ItemView, brief: Option<usize>) -> ItemView {
    ItemView {
        description: match v.description {
            Some(d) => match brief {
                Some(n) => if n >= 100 {
                    Some(spec_brief(spec_sanitize_html(d), n as nat))
                } else {
                    Some(spec_sanitize_html(d))
                },
                None => Some(spec_sanitize_html(d)),
            },
            None => None,
        },
        ..v
    }
}

pub open spec fn prepare_fn(brief: Option<usize>) -> spec_fn(ItemView) -> ItemView {
    |v: ItemView| spec_prepare(v, brief)
}

/// The date items are ordered by; undated items count as the Unix epoch.
pub open spec fn sort_key(v: ItemView) -> Timestamp {
    match v.pub_date {
        Some(t) => t,
        None => Timestamp { secs: 0, nanos: 0 },
    }
}

/// Where `x` goes in a newest-first sequence: after every item that is not
/// older than it.
pub open spec fn insert_pos(s: Seq<ItemView>, x: ItemView) -> int
    decreases s.len(),
{
    if s.len() == 0 {
        0
    } else if sort_key(s[0]).before(sort_key(x)) {
        0
    } else {
        1 + insert_pos(s.drop_first(), x)
    }
}

/// The items newest first; items with the same date keep their order.
pub open spec fn sort_newest_first(s: Seq<ItemView>) -> Seq<ItemView>
    decreases s.len(),
{
    if s.len() == 0 {
        s
    } else {
        let r = sort_newest_first(s.drop_last());
        r.insert(insert_pos(r, s.last()), s.last())
    }
}

/// What `apply_filters` makes of the items: selected, prepared, sorted
/// newest first, and cut to `limit`.
pub open spec fn spec_apply_filters(items: Seq<ItemView>, params: FilterParams, cutoff: Option<Timestamp>) -> Seq<ItemView> {
    let prepared = spec_select(items, params, cutoff).map_values(prepare_fn(params.brief));
    let sorted = sort_newest_first(prepared);
    match params.limit {
        Some(l) => if l < sorted.len() {
            sorted.take(l as int)
        } else {
            sorted
        },
        None => sorted,
    }
}

proof fn lemma_insert_pos_at(s: Seq<ItemView>, x: ItemView, p: int)
    requires
        0 <= p <= s.len(),
        p < s.len() ==> sort_key(s[p]).before(sort_key(x)),
        forall|j: int| 0 <= j < p ==> !sort_key(#[trigger] s[j]).before(sort_key(x)),
    ensures
        insert_pos(s, x) == p,
    decreases s.len(),
{
    if s.len() > 0 && p > 0 {
        assert forall|j: int| 0 <= j < p - 1 implies !sort_key(#[trigger] s.drop_first()[j]).before(sort_key(x)) by {
            assert(s.drop_first()[j] == s[j + 1]);
        }
        lemma_insert_pos_at(s.drop_first(), x, p - 1);
    }
}

fn key_of(item: &DataItem) -> (t: Timestamp)
    ensures
        t == sort_key(item@),
{
    match item.pub_date {
        Some(t) => t,
        None => Timestamp::epoch(),
    }
}

/// The items newest first, stably.
fn sort_items(items: Vec<DataItem>) -> (r: Vec<DataItem>)
    ensures
        item_views(r@) == sort_newest_first(item_views(items@)),
{
    let ghost orig = item_views(items@);
    let mut sorted: Vec<DataItem> = Vec::new();
    let mut rest = items;
    let mut taken: Vec<DataItem> = Vec::new();
    proof {
        assert(orig.take(0) =~= Seq::<ItemView>::empty());
    }
    // Move the items out back to front, then insert them front to back.
    let n = rest.len();
    let mut k: usize = n;
    while k > 0
        invariant
            k == rest.len(),
            n == orig.len(),
            k <= n,
            item_views(rest@) == orig.take(k as int),
            taken@.len() == n - k,
            forall|j: int| 0 <= j < n - k ==> (#[trigger] taken@[j])@ == orig[n - 1 - j],
        decreases k,
    {
        let ghost before = rest@;
        assert(item_views(before)[k - 1] == before[k - 1]@);
        let it = rest.pop().unwrap();
        proof {
            assert(it@ == orig[k - 1]);
            assert(item_views(rest@) =~= orig.take(k - 1));
        }
        taken.push(it);
        k = k - 1;
    }
    // taken holds the items in reverse order.
    let mut i: usize = 0;
    assert(sort_newest_first(orig.take(0)) =~= Seq::<ItemView>::empty());
    while i < n
        invariant
            i <= n,
            n == orig.len(),
            taken@.len() == n - i,
            forall|j: int| 0 <= j < n - i ==> (#[trigger] taken@[j])@ == orig[n - 1 - j],
            item_views(sorted@) == sort_newest_first(orig.take(i as int)),
        decreases n - i,
    {
        let item = taken.pop().unwrap();
        assert(item@ == orig[i as int]);
        let key = key_of(&item);
        let mut p: usize = 0;
        while p < sorted.len() && !key_of(&sorted[p]).is_before(&key)
            invariant
                p <= sorted.len(),
                key == sort_key(item@),
                forall|j: int| 0 <= j < p ==> !sort_key(#[trigger] item_views(sorted@)[j]).before(key),
            decreases sorted.len() - p,
        {
            p = p + 1;
        }
        proof {
            lemma_insert_pos_at(item_views(sorted@), item@, p as int);
            assert(orig.take(i + 1).drop_last() =~= orig.take(i as int));
            assert(orig.take(i + 1).last() == item@);
        }
        let ghost before = item_views(sorted@);
        sorted.insert(p, item);
        assert(item_views(sorted@) =~= before.insert(p as int, orig[i as int]));
        i = i + 1;
    }
    assert(orig.take(n as int) =~= orig);
    sorted
}


/// The items in reverse order (moved, not copied).
fn reversed(items: Vec<DataItem>) -> (r: Vec<DataItem>)
    ensures
        r@.len() == items@.len(),
        forall|j: int| 0 <= j < r@.len() ==> #[trigger] r@[j] == items@[items@.len() - 1 - j],
{
    let ghost orig = items@;
    let mut rest = items;
    let mut taken: Vec<DataItem> = Vec::new();
    let n = rest.len();
    while rest.len() > 0
        invariant
            n == orig.len(),
            rest@.len() <= n,
            rest@ == orig.take(rest@.len() as int),
            taken@.len() == n - rest@.len(),
            forall|j: int| 0 <= j < taken@.len() ==> #[trigger] taken@[j] == orig[n - 1 - j],
        decreases rest@.len(),
    {
        let k = rest.len();
        let it = rest.pop().unwrap();
        assert(it == orig[k - 1]);
        assert(rest@ =~= orig.take(k - 1));
        taken.push(it);
    }
    taken
}

fn category_matches_exec(re: &Pattern, cats: &Vec<String>) -> (b: bool)
    requires
        re.size_limit() == FILTER_SIZE_LIMIT,
    ensures
        b == category_matches(re.source(), re.case_insensitive(), views(cats@)),
{
    let mut j: usize = 0;
    while j < cats.len()
        invariant
            j <= cats.len(),
            re.size_limit() == FILTER_SIZE_LIMIT,
            forall|k: int| 0 <= k < j ==> !re_match(re.source(), re.case_insensitive(), #[trigger] views(cats@)[k]),
        decreases cats.len() - j,
    {
        if re.is_match(cats[j].as_str()) {
            assert(views(cats@)[j as int] == cats@[j as int]@);
            return true;
        }
        j = j + 1;
    }
    false
}

fn keeps_exec(kind: FilterKind, re: &Pattern, item: &DataItem) -> (b: bool)
    requires
        re.size_limit() == FILTER_SIZE_LIMIT,
    ensures
        b == keeps(kind, re.source(), re.case_insensitive(), item@),
{
    match kind {
        FilterKind::Any | FilterKind::NotAny => {
            let m = re.is_match(item.title.as_str()) || (match &item.description {
                Some(d) => re.is_match(d.as_str()),
                None => false,
            }) || (match &item.author {
                Some(a) => re.is_match(a.as_str()),
                None => false,
            }) || category_matches_exec(re, &item.category);
            if kind == FilterKind::Any {
                m
            } else {
                !m
            }
        },
        FilterKind::Title => re.is_match(item.title.as_str()),
        FilterKind::NotTitle => !re.is_match(item.title.as_str()),
        FilterKind::Description => match &item.description {
            Some(d) => re.is_match(d.as_str()),
            None => false,
        },
        FilterKind::NotDescription => match &item.description {
            Some(d) => !re.is_match(d.as_str()),
            None => true,
        },
    }
}

/// The items a compiled filter keeps, in order.
fn retain_matching(items: Vec<DataItem>, re: &Pattern, kind: FilterKind) -> (r: Vec<DataItem>)
    requires
        re.size_limit() == FILTER_SIZE_LIMIT,
    ensures
        item_views(r@) == item_views(items@).filter(keep_pred(kind, re.source(), re.case_insensitive())),
{
    let ghost orig = item_views(items@);
    let ghost pred = keep_pred(kind, re.source(), re.case_insensitive());
    let n = items.len();
    let mut rev = reversed(items);
    let mut kept: Vec<DataItem> = Vec::new();
    let mut i: usize = 0;
    assert(orig.take(0) =~= Seq::<ItemView>::empty());
    reveal(Seq::filter);
    while i < n
        invariant
            i <= n,
            n == orig.len(),
            re.size_limit() == FILTER_SIZE_LIMIT,
            pred == keep_pred(kind, re.source(), re.case_insensitive()),
            rev@.len() == n - i,
            forall|j: int| 0 <= j < rev@.len() ==> (#[trigger] rev@[j])@ == orig[n - 1 - j],
            item_views(kept@) == orig.take(i as int).filter(pred),
        decreases n - i,
    {
        let item = rev.pop().unwrap();
        assert(item@ == orig[i as int]);
        proof {
            orig.take(i as int).lemma_filter_push(item@, pred);
            assert(orig.take(i + 1) =~= orig.take(i as int).push(item@));
        }
        if keeps_exec(kind, re, &item) {
            let ghost before = item_views(kept@);
            kept.push(item);
            assert(item_views(kept@) =~= before.push(orig[i as int]));
        }
        i = i + 1;
    }
    assert(orig.take(n as int) =~= orig);
    kept
}

/// The items not older than `cutoff`, in order.
fn retain_recent(items: Vec<DataItem>, cutoff: Timestamp) -> (r: Vec<DataItem>)
    ensures
        item_views(r@) == item_views(items@).filter(time_pred(cutoff)),
{
    let ghost orig = item_views(items@);
    let ghost pred = time_pred(cutoff);
    let n = items.len();
    let mut rev = reversed(items);
    let mut kept: Vec<DataItem> = Vec::new();
    let mut i: usize = 0;
    assert(orig.take(0) =~= Seq::<ItemView>::empty());
    reveal(Seq::filter);
    while i < n
        invariant
            i <= n,
            n == orig.len(),
            pred == time_pred(cutoff),
            rev@.len() == n - i,
            forall|j: int| 0 <= j < rev@.len() ==> (#[trigger] rev@[j])@ == orig[n - 1 - j],
            item_views(kept@) == orig.take(i as int).filter(pred),
        decreases n - i,
    {
        let item = rev.pop().unwrap();
        assert(item@ == orig[i as int]);
        proof {
            orig.take(i as int).lemma_filter_push(item@, pred);
            assert(orig.take(i + 1) =~= orig.take(i as int).push(item@));
        }
        let keep = match item.pub_date {
            Some(d) => !d.is_before(&cutoff),
            None => true,
        };
        if keep {
            let ghost before = item_views(kept@);
            kept.push(item);
            assert(item_views(kept@) =~= before.push(orig[i as int]));
        }
        i = i + 1;
    }
    assert(orig.take(n as int) =~= orig);
    kept
}

/// One pattern parameter applied to the items.
fn pattern_step_exec(items: Vec<DataItem>, pattern: &Option<String>, ci: bool, kind: FilterKind) -> (r: Vec<DataItem>)
    ensures
        item_views(r@) == pattern_step(item_views(items@), opt_view(*pattern), ci, kind),
{
    match pattern {
        Some(p) => match Pattern::new(p.as_str(), ci, FILTER_SIZE_LIMIT) {
            Some(re) => retain_matching(items, &re, kind),
            None => items,
        },
        None => items,
    }
}

/// An item with its description sanitized and, when asked, shortened.
fn prepare_item(item: DataItem, brief: Option<usize>) -> (r: DataItem)
    ensures
        r@ == spec_prepare(item@, brief),
{
    let mut item = item;
    let desc = match &item.description {
        Some(d) => {
            let clean = crate::middleware::sanitize::sanitize_html(d.as_str());
            match brief {
                Some(n) => if n >= 100 {
                    Some(crate::middleware::sanitize::brief(clean.as_str(), n))
                } else {
                    Some(clean)
                },
                None => Some(clean),
            }
        },
        None => None,
    };
    item.description = desc;
    item
}

fn prepare_items(items: Vec<DataItem>, brief: Option<usize>) -> (r: Vec<DataItem>)
    ensures
        item_views(r@) == item_views(items@).map_values(prepare_fn(brief)),
{
    let ghost orig = item_views(items@);
    let n = items.len();
    let mut rev = reversed(items);
    let mut out: Vec<DataItem> = Vec::new();
    let mut i: usize = 0;
    while i < n
        invariant
            i <= n,
            n == orig.len(),
            rev@.len() == n - i,
            forall|j: int| 0 <= j < rev@.len() ==> (#[trigger] rev@[j])@ == orig[n - 1 - j],
            item_views(out@) == orig.take(i as int).map_values(prepare_fn(brief)),
        decreases n - i,
    {
        let item = rev.pop().unwrap();
        assert(item@ == orig[i as int]);
        let ghost before = item_views(out@);
        out.push(prepare_item(item, brief));
        assert(prepare_fn(brief)(orig[i as int]) == spec_prepare(orig[i as int], brief));
        assert(item_views(out@) =~= before.push(spec_prepare(orig[i as int], brief)));
        assert(orig.take(i + 1) =~= orig.take(i as int).push(orig[i as int]));
        assert(orig.take(i + 1).map_values(prepare_fn(brief)) =~= orig.take(i as int).map_values(
            prepare_fn(brief),
        ).push(spec_prepare(orig[i as int], brief)));
        i = i + 1;
    }
    assert(orig.take(n as int) =~= orig);
    out
}

/// Apply filter/sort/limit parameters to the items, with the time window
/// starting at `cutoff` (used when `filter_time` is given; without a cutoff
/// no item is dropped for its date).
pub fn apply_filters_at(data: &mut Data, params: &FilterParams, cutoff: Option<Timestamp>)
    ensures
        final(data).same_header(*old(data)),
        item_views(final(data).items@) == spec_apply_filters(item_views(old(data).items@), *params, cutoff),
{
    let ci = match params.filter_case_sensitive {
        Some(b) => !b,
        None => false,
    };
    let mut items: Vec<DataItem> = Vec::new();
    core::mem::swap(&mut items, &mut data.items);

    // filter_time: only keep items within N seconds
    if params.filter_time.is_some() {
        match cutoff {
            Some(c) => {
                items = retain_recent(items, c);
            },
            None => {},
        }
    }

    // Unified filter/filterout take priority over individual field filters.
    if params.filter.is_some() || params.filterout.is_some() {
        items = pattern_step_exec(items, &params.filter, ci, FilterKind::Any);
        items = pattern_step_exec(items, &params.filterout, ci, FilterKind::NotAny);
    } else {
        items = pattern_step_exec(items, &params.filter_title, ci, FilterKind::Title);
        items = pattern_step_exec(items, &params.filterout_title, ci, FilterKind::NotTitle);
        items = pattern_step_exec(items, &params.filter_description, ci, FilterKind::Description);
        items = pattern_step_exec(items, &params.filterout_description, ci, FilterKind::NotDescription);
    }

    // HTML sanitization (always) and brief (when at least 100)
    items = prepare_items(items, params.brief);

    // Sort by pub_date descending (newest first)
    items = sort_items(items);

    // limit
    match params.limit {
        Some(limit) => {
            if limit < items.len() {
                items.truncate(limit);
            }
        },
        None => {},
    }
    data.items = items;
}

/// Apply filter/sort/limit parameters to Data items.
///
/// The time window of `filter_time` starts that many seconds before the
/// current time. When chrono cannot compute that start (the span or the
/// date is out of its range) no item is dropped for its date, everything else
/// is applied, and the result is `false`.
pub fn apply_filters(data: &mut Data, params: &FilterParams) -> (applied: bool)
    ensures
        params.filter_time is None ==> applied,
        final(data).same_header(*old(data)),
        applied && params.filter_time is None ==> item_views(final(data).items@) == spec_apply_filters(
            item_views(old(data).items@),
            *params,
            None,
        ),
        applied && params.filter_time is Some ==> exists|now: Timestamp, c: Timestamp|
            #![trigger spec_apply_filters(item_views(old(data).items@), *params, Some(c)), now.secs]
            {
                &&& chrono_timestamp_valid(now.secs, now.nanos)
                &&& chrono_sub_seconds(now.secs, now.nanos, params.filter_time->0) == Some((c.secs, c.nanos))
                &&& item_views(final(data).items@) == spec_apply_filters(item_views(old(data).items@), *params, Some(c))
            },
        !applied ==> params.filter_time is Some && exists|now: Timestamp|
            chrono_timestamp_valid(now.secs, now.nanos) && #[trigger] chrono_sub_seconds(now.secs, now.nanos, params.filter_time->0) is None,
        !applied ==> item_views(final(data).items@) == spec_apply_filters(item_views(old(data).items@), *params, None),
{
    match params.filter_time {
        Some(seconds) => {
            let now = crate::time::utc_now();
            match crate::time::sub_seconds(&now, seconds) {
                Some((secs, nanos)) => {
                    let c = Timestamp::new(secs, nanos);
                    apply_filters_at(data, params, Some(c));
                    assert(chrono_sub_seconds(now.secs, now.nanos, params.filter_time->0) == Some((c.secs, c.nanos)));
                    true
                },
                None => {
                    apply_filters_at(data, params, None);
                    false
                },
            }
        },
        None => {
            apply_filters_at(data, params, None);
            true
        },
    }
}

proof fn lemma_last_value_step(pairs: Seq<Seq<char>>, i: int, key: Seq<char>)
    requires
        0 <= i < pairs.len(),
    ensures
        last_value(pairs.take(i + 1), key) == (if pair_key(pairs[i]) == key {
            Some(pair_value(pairs[i]))
        } else {
            last_value(pairs.take(i), key)
        }),
{
    assert(pairs.take(i + 1).drop_last() =~= pairs.take(i));
    assert(pairs.take(i + 1).last() == pairs[i]);
}

impl FilterParams {
    /// Parse from URL query string.
    pub fn from_query(query: Option<&str>) -> (p: FilterParams)
        ensures
            spec_from_query(p, match query {
                Some(q) => Some(q@),
                None => None,
            }),
    {
        let query = match query {
            Some(q) => q,
            None => return Self::default(),
        };
        let mut params = Self::default();
        let pairs = crate::text::split_char(query, '&');
        let ghost ps = views(pairs@);
        let mut i: usize = 0;
        while i < pairs.len()
            invariant
                i <= pairs.len(),
                ps == views(pairs@),
                ps == split_on(query@, '&'),
                opt_view(params.filter) == text_param(ps.take(i as int), "filter"@),
                opt_view(params.filterout) == text_param(ps.take(i as int), "filterout"@),
                opt_view(params.filter_title) == text_param(ps.take(i as int), "filter_title"@),
                opt_view(params.filterout_title) == text_param(ps.take(i as int), "filterout_title"@),
                opt_view(params.filter_description) == text_param(ps.take(i as int), "filter_description"@),
                opt_view(params.filterout_description) == text_param(
                    ps.take(i as int),
                    "filterout_description"@,
                ),
                params.filter_case_sensitive == (match text_param(ps.take(i as int), "filter_case_sensitive"@) {
                    Some(v) => Some(v != "false"@),
                    None => None,
                }),
                (match unsigned_param(ps.take(i as int), "limit"@, usize::MAX as int) {
                    Some(n) => params.limit == Some(n as usize),
                    None => params.limit is None,
                }),
                (match last_value(ps.take(i as int), "filter_time"@) {
                    Some(v) => match parse_signed(decoded_or_empty(v), i64::MAX as int) {
                        Some(n) => params.filter_time == Some(n as i64),
                        None => params.filter_time is None,
                    },
                    None => params.filter_time is None,
                }),
                (match unsigned_param(ps.take(i as int), "brief"@, usize::MAX as int) {
                    Some(n) => params.brief == Some(n as usize),
                    None => params.brief is None,
                }),
            decreases pairs.len() - i,
        {
            let pv = crate::text::chars_of(pairs[i].as_str());
            let eq = crate::text::find_char(&pv, '=', 0);
            assert(pv@.skip(0) == pv@);
            proof {
                crate::text::lemma_index_of_char(pv@, '=');
            }
            let key = crate::text::string_of(&pv, 0, eq);
            let raw = if eq < pv.len() {
                crate::text::string_of(&pv, eq + 1, pv.len())
            } else {
                String::new()
            };
            assert(key@ == pair_key(ps[i as int]));
            assert(raw@ == pair_value(ps[i as int]));
            let val = decode_or_empty(raw.as_str());
            proof {
                reveal_strlit("filter");
                reveal_strlit("filterout");
                reveal_strlit("filter_title");
                reveal_strlit("filterout_title");
                reveal_strlit("filter_description");
                reveal_strlit("filterout_description");
                reveal_strlit("filter_case_sensitive");
                reveal_strlit("limit");
                reveal_strlit("filter_time");
                reveal_strlit("brief");
                assert("filter_case_sensitive"@[6] != "filterout_description"@[6]);
                assert("limit"@[0] != "brief"@[0]);
                lemma_last_value_step(ps, i as int, "filter"@);
                lemma_last_value_step(ps, i as int, "filterout"@);
                lemma_last_value_step(ps, i as int, "filter_title"@);
                lemma_last_value_step(ps, i as int, "filterout_title"@);
                lemma_last_value_step(ps, i as int, "filter_description"@);
                lemma_last_value_step(ps, i as int, "filterout_description"@);
                lemma_last_value_step(ps, i as int, "filter_case_sensitive"@);
                lemma_last_value_step(ps, i as int, "limit"@);
                lemma_last_value_step(ps, i as int, "filter_time"@);
                lemma_last_value_step(ps, i as int, "brief"@);
            }
            let k = key.as_str();
            if crate::text::str_eq(k, "filter") {
                params.filter = Some(val);
            } else if crate::text::str_eq(k, "filterout") {
                params.filterout = Some(val);
            } else if crate::text::str_eq(k, "filter_title") {
                params.filter_title = Some(val);
            } else if crate::text::str_eq(k, "filterout_title") {
                params.filterout_title = Some(val);
            } else if crate::text::str_eq(k, "filter_description") {
                params.filter_description = Some(val);
            } else if crate::text::str_eq(k, "filterout_description") {
                params.filterout_description = Some(val);
            } else if crate::text::str_eq(k, "filter_case_sensitive") {
                params.filter_case_sensitive = Some(!crate::text::str_eq(val.as_str(), "false"));
            } else if crate::text::str_eq(k, "limit") {
                params.limit = crate::number::parse_usize(val.as_str());
            } else if crate::text::str_eq(k, "filter_time") {
                params.filter_time = crate::number::parse_i64(val.as_str());
            } else if crate::text::str_eq(k, "brief") {
                params.brief = crate::number::parse_usize(val.as_str());
            }
            i = i + 1;
        }
        assert(ps.take(pairs.len() as int) == ps);
        params
    }
}

} // verus!

verus! {

/// No item is older than one after it.
pub open spec fn newest_first(s: Seq<ItemView>) -> bool {
    forall|i: int, j: int| 0 <= i < j < s.len() ==> !sort_key(#[trigger] s[i]).before(sort_key(#[trigger] s[j]))
}

/// The items dated `t` (undated items count as the epoch).
pub open spec fn dated(t: Timestamp) -> spec_fn(ItemView) -> bool {
    |v: ItemView| sort_key(v) == t
}

proof fn lemma_insert_pos(s: Seq<ItemView>, x: ItemView)
    ensures
        0 <= insert_pos(s, x) <= s.len(),
        forall|j: int| 0 <= j < insert_pos(s, x) ==> !sort_key(#[trigger] s[j]).before(sort_key(x)),
        insert_pos(s, x) < s.len() ==> sort_key(s[insert_pos(s, x)]).before(sort_key(x)),
    decreases s.len(),
{
    if s.len() > 0 && !sort_key(s[0]).before(sort_key(x)) {
        lemma_insert_pos(s.drop_first(), x);
        assert forall|j: int| 0 <= j < insert_pos(s, x) implies !sort_key(#[trigger] s[j]).before(sort_key(x)) by {
            if j > 0 {
                assert(s[j] == s.drop_first()[j - 1]);
            }
        }
    }
}

/// Sorting puts the items newest first.
pub proof fn law_sort_orders_newest_first(s: Seq<ItemView>)
    ensures
        newest_first(sort_newest_first(s)),
    decreases s.len(),
{
    if s.len() > 0 {
        let r = sort_newest_first(s.drop_last());
        law_sort_orders_newest_first(s.drop_last());
        let x = s.last();
        let p = insert_pos(r, x);
        lemma_insert_pos(r, x);
        r.insert_ensures(p, x);
        let q = r.insert(p, x);
        assert forall|i: int, j: int| 0 <= i < j < q.len() implies !sort_key(#[trigger] q[i]).before(
            sort_key(#[trigger] q[j]),
        ) by {
            if j < p {
                assert(q[i] == r[i] && q[j] == r[j]);
            } else if j == p {
                assert(q[i] == r[i]);
            } else if i < p {
                assert(q[i] == r[i] && q[j] == r[j - 1]);
            } else if i == p {
                assert(q[j] == r[j - 1]);
                assert(sort_key(r[p]).before(sort_key(x)));
                if j - 1 > p {
                    assert(!sort_key(r[p]).before(sort_key(r[j - 1])));
                }
            } else {
                assert(q[i] == r[i - 1] && q[j] == r[j - 1]);
            }
        }
    }
}

/// Sorting neither loses nor adds items.
pub proof fn law_sort_is_permutation(s: Seq<ItemView>)
    ensures
        sort_newest_first(s).to_multiset() == s.to_multiset(),
    decreases s.len(),
{
    broadcast use vstd::seq_lib::to_multiset_insert, vstd::seq_lib::to_multiset_build;
    if s.len() > 0 {
        let r = sort_newest_first(s.drop_last());
        law_sort_is_permutation(s.drop_last());
        lemma_insert_pos(r, s.last());
        assert(s =~= s.drop_last().push(s.last()));
        assert(s.to_multiset() == s.drop_last().to_multiset().insert(s.last()));
    }
}

/// Sorting is stable: the items of any one date come out in the order they
/// went in.
pub proof fn law_sort_is_stable(s: Seq<ItemView>, t: Timestamp)
    ensures
        sort_newest_first(s).filter(dated(t)) == s.filter(dated(t)),
    decreases s.len(),
{
    broadcast use vstd::seq_lib::group_filter_ensures;
    if s.len() > 0 {
        let r = sort_newest_first(s.drop_last());
        let x = s.last();
        law_sort_is_stable(s.drop_last(), t);
        law_sort_orders_newest_first(s.drop_last());
        lemma_insert_pos(r, x);
        let p = insert_pos(r, x);
        let pre = r.subrange(0, p);
        let post = r.subrange(p, r.len() as int);
        assert(r =~= pre + post);
        assert(r.insert(p, x) =~= pre.push(x) + post);
        Seq::filter_distributes_over_add(pre.push(x), post, dated(t));
        Seq::filter_distributes_over_add(pre, post, dated(t));
        pre.lemma_filter_push(x, dated(t));
        assert(s =~= s.drop_last().push(x));
        s.drop_last().lemma_filter_push(x, dated(t));
        if sort_key(x) == t {
            // everything after the insertion point is strictly older than x
            assert forall|j: int| 0 <= j < post.len() implies !dated(t)(#[trigger] post[j]) by {
                assert(post[j] == r[p + j]);
                if j > 0 {
                    assert(!sort_key(r[p]).before(sort_key(r[p + j])));
                }
            }
            post.lemma_all_neg_filter_empty(dated(t));
            assert(post.filter(dated(t)) =~= Seq::<ItemView>::empty());
        }
    }
}

/// What `apply_filters` leaves is newest first, within the limit, and made
/// only of (prepared) items that the filters keep.
pub proof fn law_apply_filters_result(items: Seq<ItemView>, params: FilterParams, cutoff: Option<Timestamp>)
    ensures
        newest_first(spec_apply_filters(items, params, cutoff)),
        params.limit matches Some(l) ==> spec_apply_filters(items, params, cutoff).len() <= l,
        spec_apply_filters(items, params, cutoff).len() <= spec_select(items, params, cutoff).len(),
        forall|i: int| 0 <= i < spec_apply_filters(items, params, cutoff).len()
            ==> spec_select(items, params, cutoff).map_values(prepare_fn(params.brief)).contains(
                #[trigger] spec_apply_filters(items, params, cutoff)[i],
            ),
        spec_apply_filters(items, params, cutoff).len() == match params.limit {
            Some(l) => if l < spec_select(items, params, cutoff).len() {
                l as int
            } else {
                spec_select(items, params, cutoff).len() as int
            },
            None => spec_select(items, params, cutoff).len() as int,
        },
        spec_apply_filters(items, params, cutoff).to_multiset().subset_of(
            spec_select(items, params, cutoff).map_values(prepare_fn(params.brief)).to_multiset(),
        ),
{
    let prepared = spec_select(items, params, cutoff).map_values(prepare_fn(params.brief));
    let sorted = sort_newest_first(prepared);
    let result = spec_apply_filters(items, params, cutoff);
    law_sort_orders_newest_first(prepared);
    law_sort_is_permutation(prepared);
    sorted.to_multiset_ensures();
    prepared.to_multiset_ensures();
    lemma_take_sub_multiset(sorted, result.len() as int);
    assert(result =~= sorted.take(result.len() as int));
    assert forall|i: int| 0 <= i < result.len() implies prepared.contains(#[trigger] result[i]) by {
        assert(result[i] == sorted[i]);
        assert(sorted.contains(sorted[i]));
        assert(sorted.to_multiset().count(sorted[i]) > 0);
        assert(prepared.to_multiset().count(sorted[i]) > 0);
    }
}

/// A prefix holds no item more often than the whole.
proof fn lemma_take_sub_multiset(s: Seq<ItemView>, k: int)
    requires
        0 <= k <= s.len(),
    ensures
        s.take(k).to_multiset().subset_of(s.to_multiset()),
    decreases s.len(),
{
    broadcast use vstd::seq_lib::group_to_multiset_ensures;
    if k < s.len() {
        lemma_take_sub_multiset(s.drop_last(), k);
        assert(s.drop_last().take(k) =~= s.take(k));
        assert(s =~= s.drop_last().push(s.last()));
        assert(s.to_multiset() =~= s.drop_last().to_multiset().insert(s.last()));
    } else {
        assert(s.take(k) =~= s);
    }
}

/// An item the filters keep satisfies the time window and every filter that
/// applies: in particular, with a unified `filter` that compiles, every kept
/// item matches it in some field.
pub proof fn law_unified_filter_keeps_only_matches(items: Seq<ItemView>, params: FilterParams, cutoff: Option<Timestamp>)
    requires
        params.filter is Some,
        params.filterout is None,
        regex_compiles(params.filter->0@, case_insensitive(params), FILTER_SIZE_LIMIT),
    ensures
        forall|i: int| 0 <= i < spec_select(items, params, cutoff).len() ==> any_field_matches(
            params.filter->0@,
            case_insensitive(params),
            #[trigger] spec_select(items, params, cutoff)[i],
        ),
{
    broadcast use vstd::seq_lib::group_filter_ensures;
    let ci = case_insensitive(params);
    let s0 = match (params.filter_time, cutoff) {
        (Some(_), Some(c)) => items.filter(time_pred(c)),
        _ => items,
    };
    let kept = s0.filter(keep_pred(FilterKind::Any, params.filter->0@, ci));
    assert(spec_select(items, params, cutoff) == kept);
    assert forall|i: int| 0 <= i < kept.len() implies any_field_matches(params.filter->0@, ci, #[trigger] kept[i]) by {
        assert(keep_pred(FilterKind::Any, params.filter->0@, ci)(kept[i]));
    }
}

/// With a unified `filter` or `filterout`, the per-field filters are
/// ignored: two requests that differ only in them get the same items.
pub proof fn law_unified_filter_overrides_field_filters(
    items: Seq<ItemView>,
    p: FilterParams,
    q: FilterParams,
    cutoff: Option<Timestamp>,
)
    requires
        p.filter is Some || p.filterout is Some,
        opt_view(p.filter) == opt_view(q.filter),
        opt_view(p.filterout) == opt_view(q.filterout),
        p.filter_case_sensitive == q.filter_case_sensitive,
        p.limit == q.limit,
        p.filter_time == q.filter_time,
        p.brief == q.brief,
    ensures
        spec_apply_filters(items, p, cutoff) == spec_apply_filters(items, q, cutoff),
{
    assert(q.filter is Some || q.filterout is Some);
    assert(spec_select(items, p, cutoff) == spec_select(items, q, cutoff));
}

} // verus!
