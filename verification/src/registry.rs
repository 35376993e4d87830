//! Shared application state: the configuration and the overrides of the
//! services' API addresses.
use vstd::prelude::*;
use crate::config::Config;
use crate::text::str_eq;

verus! {

/// Shared application state available to route handlers: the configuration,
/// and the API base URLs that override a service's default (for tests
/// against a local server). The application keeps the cache and the HTTP
/// client beside it.
pub struct AppState {
    pub config: Config,
    /// Service name and base URL; no service occurs twice.
    pub base_urls: Vec<(String, String)>,
}

/// The names of the pairs are pairwise distinct.
pub open spec fn names_distinct(s: Seq<(String, String)>) -> bool {
    forall|i: int, j: int| 0 <= i < j < s.len() ==> #[trigger] s[i].0@ != #[trigger] s[j].0@
}

/// The map from service name to base URL that distinct pairs stand for.
pub open spec fn pairs_map(s: Seq<(String, String)>) -> Map<Seq<char>, Seq<char>> {
    Map::new(
        |k: Seq<char>| exists|i: int| 0 <= i < s.len() && s[i].0@ == k,
        |k: Seq<char>| s[choose|i: int| 0 <= i < s.len() && s[i].0@ == k].1@,
    )
}

/// With distinct names, the pair at `i` gives the value of its name.
proof fn lemma_pairs_map_at(s: Seq<(String, String)>, i: int)
    requires
        names_distinct(s),
        0 <= i < s.len(),
    ensures
        pairs_map(s).contains_key(s[i].0@),
        pairs_map(s)[s[i].0@] == s[i].1@,
{
    let k = s[i].0@;
    assert(exists|j: int| 0 <= j < s.len() && s[j].0@ == k);
    let c = choose|j: int| 0 <= j < s.len() && s[j].0@ == k;
    if c != i {
        if c < i {
            assert(s[c].0@ != s[i].0@);
        } else {
            assert(s[i].0@ != s[c].0@);
        }
    }
}

impl AppState {
    /// No service has two base URLs.
    pub open spec fn wf(&self) -> bool {
        names_distinct(self.base_urls@)
    }

    /// The base URL overrides, by service name.
    pub open spec fn overrides(&self) -> Map<Seq<char>, Seq<char>> {
        pairs_map(self.base_urls@)
    }

    /// A state with no overrides.
    pub fn new(config: Config) -> (s: AppState)
        ensures
            s.wf(),
            s.overrides() == Map::<Seq<char>, Seq<char>>::empty(),
            s.config == config,
    {
        let s = AppState { config, base_urls: Vec::new() };
        assert(s.overrides() =~= Map::<Seq<char>, Seq<char>>::empty());
        s
    }

    /// The position of a service's override.
    fn find(&self, service: &str) -> (r: Option<usize>)
        requires
            self.wf(),
        ensures
            match r {
                Some(i) => i < self.base_urls@.len() && self.base_urls@[i as int].0@ == service@,
                None => !self.overrides().contains_key(service@),
            },
    {
        let mut i: usize = 0;
        while i < self.base_urls.len()
            invariant
                i <= self.base_urls@.len(),
                forall|j: int| 0 <= j < i ==> #[trigger] self.base_urls@[j].0@ != service@,
            decreases self.base_urls.len() - i,
        {
            if str_eq(self.base_urls[i].0.as_str(), service) {
                return Some(i);
            }
            i = i + 1;
        }
        None
    }

    /// Overrides the base URL of a service.
    pub fn set_base_url(&mut self, service: &str, url: &str)
        requires
            old(self).wf(),
        ensures
            final(self).wf(),
            final(self).overrides() == old(self).overrides().insert(service@, url@),
            final(self).config == old(self).config,
    {
        let ghost old_urls = self.base_urls@;
        match self.find(service) {
            Some(i) => {
                self.base_urls.set(i, (String::from_str(service), String::from_str(url)));
                let ghost s = self.base_urls@;
                assert(names_distinct(s)) by {
                    assert forall|a: int, b: int| 0 <= a < b < s.len() implies #[trigger] s[a].0@ != #[trigger] s[b].0@ by {
                        assert(old_urls[a].0@ != old_urls[b].0@);
                    }
                }
                assert forall|k: Seq<char>| #[trigger] pairs_map(s).contains_key(k) == pairs_map(old_urls).insert(service@, url@).contains_key(k) by {
                    if k != service@ && pairs_map(old_urls).contains_key(k) {
                        let j = choose|j: int| 0 <= j < old_urls.len() && old_urls[j].0@ == k;
                        assert(s[j].0@ == k);
                    }
                    if pairs_map(s).contains_key(k) {
                        let j = choose|j: int| 0 <= j < s.len() && s[j].0@ == k;
                        if j != i {
                            assert(old_urls[j].0@ == k);
                        }
                    }
                    assert(s[i as int].0@ == service@);
                }
                assert forall|k: Seq<char>| #[trigger] pairs_map(s).contains_key(k) implies pairs_map(s)[k] == pairs_map(old_urls).insert(service@, url@)[k] by {
                    let j = choose|j: int| 0 <= j < s.len() && s[j].0@ == k;
                    lemma_pairs_map_at(s, j);
                    if k != service@ {
                        lemma_pairs_map_at(old_urls, j);
                    }
                }
                assert(pairs_map(s) =~= pairs_map(old_urls).insert(service@, url@));
            },
            None => {
                self.base_urls.push((String::from_str(service), String::from_str(url)));
                let ghost s = self.base_urls@;
                let ghost n = old_urls.len() as int;
                assert(names_distinct(s)) by {
                    assert forall|a: int, b: int| 0 <= a < b < s.len() implies #[trigger] s[a].0@ != #[trigger] s[b].0@ by {
                        if b == n {
                            if s[a].0@ == service@ {
                                assert(old_urls[a].0@ == service@);
                            }
                        } else {
                            assert(old_urls[a].0@ != old_urls[b].0@);
                        }
                    }
                }
                assert forall|k: Seq<char>| #[trigger] pairs_map(s).contains_key(k) == pairs_map(old_urls).insert(service@, url@).contains_key(k) by {
                    if k != service@ && pairs_map(old_urls).contains_key(k) {
                        let j = choose|j: int| 0 <= j < old_urls.len() && old_urls[j].0@ == k;
                        assert(s[j].0@ == k);
                    }
                    if pairs_map(s).contains_key(k) {
                        let j = choose|j: int| 0 <= j < s.len() && s[j].0@ == k;
                        if j != n {
                            assert(old_urls[j].0@ == k);
                        }
                    }
                    assert(s[n].0@ == service@);
                }
                assert forall|k: Seq<char>| #[trigger] pairs_map(s).contains_key(k) implies pairs_map(s)[k] == pairs_map(old_urls).insert(service@, url@)[k] by {
                    let j = choose|j: int| 0 <= j < s.len() && s[j].0@ == k;
                    lemma_pairs_map_at(s, j);
                    if k != service@ {
                        lemma_pairs_map_at(old_urls, j);
                    }
                }
                assert(pairs_map(s) =~= pairs_map(old_urls).insert(service@, url@));
            },
        }
    }

    /// Get the API base URL for a service, falling back to the default.
    pub fn base_url(&self, service: &str, default: &str) -> (url: String)
        requires
            self.wf(),
        ensures
            url@ == spec_base_url(*self, service@, default@),
    {
        match self.find(service) {
            Some(i) => {
                proof {
                    lemma_pairs_map_at(self.base_urls@, i as int);
                }
                self.base_urls[i].1.clone()
            },
            None => String::from_str(default),
        }
    }
}

/// The base URL a state gives for a service: its override, else the
/// default.
pub open spec fn spec_base_url(s: AppState, service: Seq<char>, default: Seq<char>) -> Seq<char> {
    if s.overrides().contains_key(service) {
        s.overrides()[service]
    } else {
        default
    }
}

/// After a service's base URL is set, reading it gives that URL whatever
/// the default, and every other service reads as before.
pub proof fn law_base_url_read_after_set(
    before: AppState,
    after: AppState,
    service: Seq<char>,
    url: Seq<char>,
    other: Seq<char>,
    default: Seq<char>,
)
    requires
        after.overrides() == before.overrides().insert(service, url),
        other != service,
    ensures
        spec_base_url(after, service, default) == url,
        spec_base_url(after, other, default) == spec_base_url(before, other, default),
{
}

} // verus!
