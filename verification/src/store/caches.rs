//! The long-lived caches of the store and the replies assembled straight
//! from them.

use vstd::prelude::*;

use crate::cache::{law_empty_cache_serves_nothing, served, CacheKey, TtlCache};
use crate::text::{owned, str_eq};
use super::entry::{
    dict_view, enrich_entry_dict, AppEntry, Dict, DictValueView, EnrichEntry, PluginEntry,
};
use super::InstalledSets;

verus! {

/// Capacity of every per-key cache of the store.
pub const CACHE_CAP: usize = 512;

/// How long a search result page is served, in milliseconds.
pub const SEARCH_CACHE_TTL: u64 = 60_000;

/// How long an alternate-sources listing is served, in milliseconds.
pub const ALT_CACHE_TTL: u64 = 300_000;

/// How long Flathub enrichment and resolved licenses are served, in
/// milliseconds.
pub const ENRICH_CACHE_TTL: u64 = 3_600_000;

/// How long a module's plugin catalogue is served, in milliseconds.
pub const PLUGINS_CACHE_TTL: u64 = 300_000;

/// How long what the configuration declares as installed is served, in
/// milliseconds. Writes through the daemon invalidate it instead.
pub const INSTALLED_CACHE_TTL: u64 = 5_000;

/// How long the outdated-inputs listing is served, in milliseconds.
pub const UPDATE_CACHE_TTL: u64 = 3_600_000;

/// Ceiling on license evaluations one `GetPackageLicenses` call may start.
pub const MAX_LICENSE_EVALS: usize = 16;

/// Cap on concurrent fetches within one batched call.
pub const CONCURRENCY_LIMIT: usize = 8;

/// Timeout of the module lookup prepended to the alternate-sources list, in
/// milliseconds.
pub const MODULE_LOOKUP_TIMEOUT: u64 = 500;

/// Max nix variants pulled from a live pname search.
pub const MAX_VARIANT_SEARCH: u32 = 50;

/// Which catalogue a search ran over.
pub enum SearchKind {
    Packages,
    Modules,
}

/// Key of the search cache: the catalogue, the query and the row cap, so
/// that a package and a module search never share an entry.
pub struct SearchKey {
    pub kind: SearchKind,
    pub query: String,
    pub max: u32,
}

impl View for SearchKey {
    type V = (bool, Seq<char>, u32);

    open spec fn view(&self) -> (bool, Seq<char>, u32) {
        (self.kind is Modules, self.query@, self.max)
    }
}

impl CacheKey for SearchKey {
    fn same_key(&self, other: &Self) -> (r: bool) {
        let a = match self.kind {
            SearchKind::Modules => true,
            SearchKind::Packages => false,
        };
        let b = match other.kind {
            SearchKind::Modules => true,
            SearchKind::Packages => false,
        };
        a == b && self.max == other.max && str_eq(self.query.as_str(), other.query.as_str())
    }

    fn copy_key(&self) -> (r: Self) {
        SearchKey {
            kind: match self.kind {
                SearchKind::Modules => SearchKind::Modules,
                SearchKind::Packages => SearchKind::Packages,
            },
            query: self.query.clone(),
            max: self.max,
        }
    }
}

/// The state of `org.modulix.Store1`: every cache its reads go through.
pub struct Store {
    /// Raw search hits, before install stamping and grouping.
    pub search: TtlCache<SearchKey, Vec<AppEntry>>,
    /// Alternate-sources rows per group id, before install stamping.
    pub alt: TtlCache<String, Vec<AppEntry>>,
    /// Flathub enrichment per app id; a missing listing is cached too.
    pub enrich: TtlCache<String, Option<EnrichEntry>>,
    /// Plugin catalogue per module, before install stamping.
    pub plugins: TtlCache<String, Vec<PluginEntry>>,
    /// Resolved license per nixpkgs attribute; a missing one is cached too.
    pub license: TtlCache<String, Option<String>>,
    /// What the configuration declares, under the single key `()`.
    pub installed: TtlCache<(), InstalledSets>,
    /// Bare names of the plugins configured per module.
    pub installed_plugins: TtlCache<String, Vec<String>>,
    /// Every configured `(module, bare plugin name)` pair, under `()`.
    pub installed_plugins_all: TtlCache<(), Vec<(String, String)>>,
    /// The outdated-inputs rows, as sent, under `()`.
    pub update: TtlCache<(), Vec<Dict>>,
}

impl Store {
    /// Empty caches with the store's lifetimes and capacities: the
    /// single-key caches keep one entry.
    pub fn new() -> (r: Store)
        ensures
            r.search.contents().len() == 0 && r.search.spec_ttl() == SEARCH_CACHE_TTL && r.search.spec_cap() == CACHE_CAP,
            r.alt.contents().len() == 0 && r.alt.spec_ttl() == ALT_CACHE_TTL && r.alt.spec_cap() == CACHE_CAP,
            r.enrich.contents().len() == 0 && r.enrich.spec_ttl() == ENRICH_CACHE_TTL && r.enrich.spec_cap() == CACHE_CAP,
            r.plugins.contents().len() == 0 && r.plugins.spec_ttl() == PLUGINS_CACHE_TTL && r.plugins.spec_cap() == CACHE_CAP,
            r.license.contents().len() == 0 && r.license.spec_ttl() == ENRICH_CACHE_TTL && r.license.spec_cap() == CACHE_CAP,
            r.installed.contents().len() == 0 && r.installed.spec_ttl() == INSTALLED_CACHE_TTL && r.installed.spec_cap() == 1,
            r.installed_plugins.contents().len() == 0 && r.installed_plugins.spec_ttl() == INSTALLED_CACHE_TTL
                && r.installed_plugins.spec_cap() == CACHE_CAP,
            r.installed_plugins_all.contents().len() == 0 && r.installed_plugins_all.spec_ttl() == INSTALLED_CACHE_TTL
                && r.installed_plugins_all.spec_cap() == 1,
            r.update.contents().len() == 0 && r.update.spec_ttl() == UPDATE_CACHE_TTL && r.update.spec_cap() == 1,
    {
        Store {
            search: TtlCache::new(SEARCH_CACHE_TTL, CACHE_CAP),
            alt: TtlCache::new(ALT_CACHE_TTL, CACHE_CAP),
            enrich: TtlCache::new(ENRICH_CACHE_TTL, CACHE_CAP),
            plugins: TtlCache::new(PLUGINS_CACHE_TTL, CACHE_CAP),
            license: TtlCache::new(ENRICH_CACHE_TTL, CACHE_CAP),
            installed: TtlCache::new(INSTALLED_CACHE_TTL, 1),
            installed_plugins: TtlCache::new(INSTALLED_CACHE_TTL, CACHE_CAP),
            installed_plugins_all: TtlCache::new(INSTALLED_CACHE_TTL, 1),
            update: TtlCache::new(UPDATE_CACHE_TTL, 1),
        }
    }

    /// Drops everything cached about what is installed (the declared sets,
    /// the per-module plugin names and the plugin pairs), fresh entries
    /// included, so that the next read re-parses the configuration. Every
    /// other cache is left as it was.
    pub fn invalidate_installed(&mut self)
        ensures
            final(self).installed.contents().len() == 0,
            final(self).installed_plugins.contents().len() == 0,
            final(self).installed_plugins_all.contents().len() == 0,
            final(self).installed.spec_ttl() == old(self).installed.spec_ttl(),
            final(self).installed.spec_cap() == old(self).installed.spec_cap(),
            final(self).installed_plugins.spec_ttl() == old(self).installed_plugins.spec_ttl(),
            final(self).installed_plugins.spec_cap() == old(self).installed_plugins.spec_cap(),
            final(self).installed_plugins_all.spec_ttl() == old(self).installed_plugins_all.spec_ttl(),
            final(self).installed_plugins_all.spec_cap() == old(self).installed_plugins_all.spec_cap(),
            final(self).search == old(self).search,
            final(self).alt == old(self).alt,
            final(self).enrich == old(self).enrich,
            final(self).plugins == old(self).plugins,
            final(self).license == old(self).license,
            final(self).update == old(self).update,
    {
        self.installed.clear();
        self.installed_plugins.clear();
        self.installed_plugins_all.clear();
    }

    /// Drops the cached outdated-inputs listing, fresh or not, so that the
    /// next read re-probes every input. Every other cache is left as it was.
    pub fn invalidate_updates(&mut self)
        ensures
            final(self).update.contents().len() == 0,
            final(self).update.spec_ttl() == old(self).update.spec_ttl(),
            final(self).update.spec_cap() == old(self).update.spec_cap(),
            final(self).search == old(self).search,
            final(self).alt == old(self).alt,
            final(self).enrich == old(self).enrich,
            final(self).plugins == old(self).plugins,
            final(self).license == old(self).license,
            final(self).installed == old(self).installed,
            final(self).installed_plugins == old(self).installed_plugins,
            final(self).installed_plugins_all == old(self).installed_plugins_all,
    {
        self.update.clear();
    }
}

/// Drops everything cached about what is installed; see
/// [`Store::invalidate_installed`].
pub fn invalidate_installed(caches: &mut Store)
    ensures
        final(caches).installed.contents().len() == 0,
        final(caches).installed_plugins.contents().len() == 0,
        final(caches).installed_plugins_all.contents().len() == 0,
        final(caches).search == old(caches).search,
        final(caches).alt == old(caches).alt,
        final(caches).enrich == old(caches).enrich,
        final(caches).plugins == old(caches).plugins,
        final(caches).license == old(caches).license,
        final(caches).update == old(caches).update,
        forall|now: u64| #[trigger] final(caches).installed.fresh_value((), now) is None,
        forall|m: Seq<char>, now: u64| #[trigger] final(caches).installed_plugins.fresh_value(m, now) is None,
        forall|now: u64| #[trigger] final(caches).installed_plugins_all.fresh_value((), now) is None,
{
    caches.invalidate_installed();
    proof {
        assert forall|now: u64| #[trigger] caches.installed.fresh_value((), now) is None by {
            law_empty_cache_serves_nothing(caches.installed, (), now);
        }
        assert forall|m: Seq<char>, now: u64| #[trigger] caches.installed_plugins.fresh_value(m, now) is None by {
            law_empty_cache_serves_nothing(caches.installed_plugins, m, now);
        }
        assert forall|now: u64| #[trigger] caches.installed_plugins_all.fresh_value((), now) is None by {
            law_empty_cache_serves_nothing(caches.installed_plugins_all, (), now);
        }
    }
}

/// Drops the cached outdated-inputs listing; see
/// [`Store::invalidate_updates`].
pub fn invalidate_updates(caches: &mut Store)
    ensures
        final(caches).update.contents().len() == 0,
        final(caches).search == old(caches).search,
        final(caches).alt == old(caches).alt,
        final(caches).enrich == old(caches).enrich,
        final(caches).plugins == old(caches).plugins,
        final(caches).license == old(caches).license,
        final(caches).installed == old(caches).installed,
        final(caches).installed_plugins == old(caches).installed_plugins,
        final(caches).installed_plugins_all == old(caches).installed_plugins_all,
        forall|now: u64| #[trigger] final(caches).update.fresh_value((), now) is None,
{
    caches.invalidate_updates();
    proof {
        assert forall|now: u64| #[trigger] caches.update.fresh_value((), now) is None by {
            law_empty_cache_serves_nothing(caches.update, (), now);
        }
    }
}

/// The requested keys, in order, that have no fresh entry in `c` at `now`.
pub open spec fn not_fresh_keys<V>(c: TtlCache<String, V>, keys: Seq<&str>, now: u64) -> Seq<Seq<char>>
    decreases keys.len(),
{
    if keys.len() == 0 {
        Seq::empty()
    } else {
        not_fresh_keys(c, keys.drop_last(), now) + if c.fresh_value(keys.last()@, now) is None {
            seq![keys.last()@]
        } else {
            Seq::empty()
        }
    }
}

/// The first `n` of `s`, or all of `s` when it is shorter.
pub open spec fn at_most<A>(s: Seq<A>, n: int) -> Seq<A> {
    if s.len() > n {
        s.take(n)
    } else {
        s
    }
}

/// The views of a list of owned strings.
pub open spec fn owned_views(v: Seq<String>) -> Seq<Seq<char>> {
    v.map_values(|s: String| s@)
}

/// The requested keys, in order, that have no fresh entry in `c`.
pub fn keys_to_fetch<V>(c: &TtlCache<String, V>, keys: &[&str], now: u64) -> (r: Vec<String>)
    ensures
        owned_views(r@) == not_fresh_keys(*c, keys@, now),
{
    let mut out: Vec<String> = Vec::new();
    let mut i: usize = 0;
    while i < keys.len()
        invariant
            i <= keys@.len(),
            owned_views(out@) == not_fresh_keys(*c, keys@.take(i as int), now),
        decreases keys.len() - i,
    {
        proof {
            assert(keys@.take(i + 1).drop_last() =~= keys@.take(i as int));
        }
        let k = owned(keys[i]);
        let fresh = c.get_fresh(&k, now).is_some();
        if !fresh {
            out.push(k);
        }
        proof {
            assert(owned_views(out@) =~= not_fresh_keys(*c, keys@.take(i + 1), now));
        }
        i = i + 1;
    }
    proof {
        assert(keys@.take(keys@.len() as int) =~= keys@);
    }
    out
}

/// The attributes a `GetPackageLicenses` call evaluates: those without a
/// fresh cached license, in request order, at most [`MAX_LICENSE_EVALS`].
pub fn licenses_to_fetch(caches: &Store, attrs: &[&str], now: u64) -> (r: Vec<String>)
    ensures
        owned_views(r@) == at_most(not_fresh_keys(caches.license, attrs@, now), MAX_LICENSE_EVALS as int),
{
    let mut all = keys_to_fetch(&caches.license, attrs, now);
    if all.len() > MAX_LICENSE_EVALS {
        all.truncate(MAX_LICENSE_EVALS);
        proof {
            assert(owned_views(all@) =~= at_most(
                not_fresh_keys(caches.license, attrs@, now),
                MAX_LICENSE_EVALS as int,
            ));
        }
    }
    all
}

/// The app ids a `GetAppEnrichment` call fetches: those without a fresh
/// cached enrichment, in request order.
pub fn enrichment_to_fetch(caches: &Store, ids: &[&str], now: u64) -> (r: Vec<String>)
    ensures
        owned_views(r@) == not_fresh_keys(caches.enrich, ids@, now),
{
    keys_to_fetch(&caches.enrich, ids, now)
}

/// Whether one of the pairs has key `k`.
pub open spec fn has_key<B>(pairs: Seq<(Seq<char>, B)>, k: Seq<char>) -> bool {
    exists|i: int| 0 <= i < pairs.len() && (#[trigger] pairs[i]).0 == k
}

/// The `GetPackageLicenses` reply: `attr => license` for each distinct
/// requested attribute, in order of first request, that has a fresh cached
/// license.
pub open spec fn license_pairs(c: TtlCache<String, Option<String>>, attrs: Seq<&str>, now: u64) -> Seq<
    (Seq<char>, Seq<char>),
>
    decreases attrs.len(),
{
    if attrs.len() == 0 {
        Seq::empty()
    } else {
        let prev = license_pairs(c, attrs.drop_last(), now);
        let a = attrs.last()@;
        match c.fresh_value(a, now) {
            Some(Some(l)) => if has_key(prev, a) {
                prev
            } else {
                prev.push((a, l@))
            },
            _ => prev,
        }
    }
}

fn pairs_have_key<B>(pairs: &Vec<(String, B)>, k: &str) -> (r: bool)
    ensures
        r == exists|j: int| 0 <= j < pairs@.len() && (#[trigger] pairs@[j]).0@ == k@,
{
    let mut i: usize = 0;
    while i < pairs.len()
        invariant
            i <= pairs@.len(),
            forall|j: int| 0 <= j < i ==> (#[trigger] pairs@[j]).0@ != k@,
        decreases pairs.len() - i,
    {
        if str_eq(pairs[i].0.as_str(), k) {
            return true;
        }
        i = i + 1;
    }
    false
}

/// The `GetPackageLicenses` reply, assembled from the license cache.
pub fn license_reply(caches: &Store, attrs: &[&str], now: u64) -> (r: Vec<(String, String)>)
    ensures
        r@.map_values(|p: (String, String)| (p.0@, p.1@)) == license_pairs(caches.license, attrs@, now),
{
    let mut out: Vec<(String, String)> = Vec::new();
    let mut i: usize = 0;
    while i < attrs.len()
        invariant
            i <= attrs@.len(),
            out@.map_values(|p: (String, String)| (p.0@, p.1@)) == license_pairs(
                caches.license,
                attrs@.take(i as int),
                now,
            ),
        decreases attrs.len() - i,
    {
        proof {
            assert(attrs@.take(i + 1).drop_last() =~= attrs@.take(i as int));
        }
        let k = owned(attrs[i]);
        match caches.license.get_fresh(&k, now) {
            Some(Some(l)) => {
                let ghost v = out@.map_values(|p: (String, String)| (p.0@, p.1@));
                let dup = pairs_have_key(&out, attrs[i]);
                proof {
                    if dup {
                        let j = choose|j: int| 0 <= j < out@.len() && (#[trigger] out@[j]).0@ == attrs@[i as int]@;
                        assert(v[j].0 == attrs@[i as int]@);
                    } else {
                        assert forall|j: int| 0 <= j < v.len() implies (#[trigger] v[j]).0 != attrs@[i as int]@ by {
                            assert(out@[j].0@ == v[j].0);
                        }
                    }
                }
                if !dup {
                    out.push((k, l.clone()));
                }
            },
            _ => {},
        }
        proof {
            assert(out@.map_values(|p: (String, String)| (p.0@, p.1@)) =~= license_pairs(
                caches.license,
                attrs@.take(i + 1),
                now,
            ));
        }
        i = i + 1;
    }
    proof {
        assert(attrs@.take(attrs@.len() as int) =~= attrs@);
    }
    out
}

/// The `GetAppEnrichment` reply: `id => dict` for each distinct requested
/// id, in order of first request, that has a fresh cached enrichment.
pub open spec fn enrich_pairs(c: TtlCache<String, Option<EnrichEntry>>, ids: Seq<&str>, now: u64) -> Seq<
    (Seq<char>, Seq<(Seq<char>, DictValueView)>),
>
    decreases ids.len(),
{
    if ids.len() == 0 {
        Seq::empty()
    } else {
        let prev = enrich_pairs(c, ids.drop_last(), now);
        let a = ids.last()@;
        match c.fresh_value(a, now) {
            Some(Some(e)) => if has_key(prev, a) {
                prev
            } else {
                prev.push((a, enrich_entry_dict(e)))
            },
            _ => prev,
        }
    }
}

/// The `GetAppEnrichment` reply, assembled from the enrichment cache.
pub fn enrichment_reply(caches: &Store, ids: &[&str], now: u64) -> (r: Vec<(String, Dict)>)
    ensures
        r@.map_values(|p: (String, Dict)| (p.0@, dict_view(p.1))) == enrich_pairs(caches.enrich, ids@, now),
{
    let mut out: Vec<(String, Dict)> = Vec::new();
    let mut i: usize = 0;
    while i < ids.len()
        invariant
            i <= ids@.len(),
            out@.map_values(|p: (String, Dict)| (p.0@, dict_view(p.1))) == enrich_pairs(
                caches.enrich,
                ids@.take(i as int),
                now,
            ),
        decreases ids.len() - i,
    {
        proof {
            assert(ids@.take(i + 1).drop_last() =~= ids@.take(i as int));
        }
        let k = owned(ids[i]);
        match caches.enrich.get_fresh(&k, now) {
            Some(Some(e)) => {
                let ghost v = out@.map_values(|p: (String, Dict)| (p.0@, dict_view(p.1)));
                let dup = pairs_have_key(&out, ids[i]);
                proof {
                    if dup {
                        let j = choose|j: int| 0 <= j < out@.len() && (#[trigger] out@[j]).0@ == ids@[i as int]@;
                        assert(v[j].0 == ids@[i as int]@);
                    } else {
                        assert forall|j: int| 0 <= j < v.len() implies (#[trigger] v[j]).0 != ids@[i as int]@ by {
                            assert(out@[j].0@ == v[j].0);
                        }
                    }
                }
                if !dup {
                    out.push((k, e.duplicate().into_dict()));
                }
            },
            _ => {},
        }
        proof {
            assert(out@.map_values(|p: (String, Dict)| (p.0@, dict_view(p.1))) =~= enrich_pairs(
                caches.enrich,
                ids@.take(i + 1),
                now,
            ));
        }
        i = i + 1;
    }
    proof {
        assert(ids@.take(ids@.len() as int) =~= ids@);
    }
    out
}

/// Index of the first plugin at or after `j` named `name`, or `-1`.
pub open spec fn first_named(list: Seq<PluginEntry>, name: Seq<char>, j: int) -> int
    decreases list.len() - j,
{
    if j < 0 || j >= list.len() {
        -1
    } else if list[j].name@ == name {
        j
    } else {
        first_named(list, name, j + 1)
    }
}

/// The description of plugin `name` in a cached catalogue, empty when there
/// is no fresh catalogue or it does not list the plugin.
pub open spec fn described(catalogue: Option<Vec<PluginEntry>>, name: Seq<char>) -> Seq<char> {
    match catalogue {
        Some(list) => {
            let i = first_named(list@, name, 0);
            if i >= 0 {
                list@[i].description@
            } else {
                Seq::empty()
            }
        },
        None => Seq::empty(),
    }
}

/// A plugin row taken by its view: name, description, installed, module.
pub open spec fn plugin_view(e: PluginEntry) -> (Seq<char>, Seq<char>, bool, Option<Seq<char>>) {
    (e.name@, e.description@, e.installed, opt_view_owned(e.module))
}

/// The view of an optional owned string.
pub open spec fn opt_view_owned(s: Option<String>) -> Option<Seq<char>> {
    match s {
        Some(x) => Some(x@),
        None => None,
    }
}

/// The `ListInstalledPlugins` rows: one per configured `(module, plugin)`
/// pair, restricted to `module` when it is non-empty, each installed and
/// described from the module's cached catalogue when there is a fresh one.
pub open spec fn installed_plugin_rows_spec(
    c: TtlCache<String, Vec<PluginEntry>>,
    all: Seq<(String, String)>,
    module: Seq<char>,
    now: u64,
) -> Seq<(Seq<char>, Seq<char>, bool, Option<Seq<char>>)>
    decreases all.len(),
{
    if all.len() == 0 {
        Seq::empty()
    } else {
        let prev = installed_plugin_rows_spec(c, all.drop_last(), module, now);
        let (m, name) = all.last();
        if module.len() == 0 || m@ == module {
            prev.push((name@, described(c.fresh_value(m@, now), name@), true, Some(m@)))
        } else {
            prev
        }
    }
}

fn description_in(list: &Vec<PluginEntry>, name: &str) -> (r: String)
    ensures
        r@ == described(Some(*list), name@),
{
    let mut i: usize = 0;
    while i < list.len()
        invariant
            i <= list@.len(),
            first_named(list@, name@, 0) == first_named(list@, name@, i as int),
        decreases list.len() - i,
    {
        if str_eq(list[i].name.as_str(), name) {
            return list[i].description.clone();
        }
        i = i + 1;
    }
    String::new()
}

/// The `ListInstalledPlugins` rows for the configured `(module, plugin)`
/// pairs `all`: every pair, or only those of `module` when it is non-empty;
/// descriptions are read from cached catalogues only, never fetched.
pub fn installed_plugin_rows(caches: &Store, all: &Vec<(String, String)>, module: &str, now: u64) -> (r:
    Vec<PluginEntry>)
    ensures
        r@.map_values(|e: PluginEntry| plugin_view(e)) == installed_plugin_rows_spec(
            caches.plugins,
            all@,
            module@,
            now,
        ),
{
    let mut out: Vec<PluginEntry> = Vec::new();
    let every = module.unicode_len() == 0;
    let mut i: usize = 0;
    while i < all.len()
        invariant
            i <= all@.len(),
            every == (module@.len() == 0),
            out@.map_values(|e: PluginEntry| plugin_view(e)) == installed_plugin_rows_spec(
                caches.plugins,
                all@.take(i as int),
                module@,
                now,
            ),
        decreases all.len() - i,
    {
        proof {
            assert(all@.take(i + 1).drop_last() =~= all@.take(i as int));
        }
        let m = &all[i].0;
        let name = &all[i].1;
        if every || str_eq(m.as_str(), module) {
            let description = match caches.plugins.get_fresh(m, now) {
                Some(list) => description_in(list, name.as_str()),
                None => String::new(),
            };
            out.push(PluginEntry { name: name.clone(), description, installed: true, module: Some(m.clone()) });
        }
        proof {
            assert(out@.map_values(|e: PluginEntry| plugin_view(e)) =~= installed_plugin_rows_spec(
                caches.plugins,
                all@.take(i + 1),
                module@,
                now,
            ));
        }
        i = i + 1;
    }
    proof {
        assert(all@.take(all@.len() as int) =~= all@);
    }
    out
}

/// A package search and a module search never share a cache entry, even for
/// the same query and row cap.
pub proof fn law_search_kinds_never_share_entries(query: String, max: u32)
    ensures
        (SearchKey { kind: SearchKind::Packages, query: query, max: max })@ != (SearchKey {
            kind: SearchKind::Modules,
            query: query,
            max: max,
        })@,
{
}

} // verus!
