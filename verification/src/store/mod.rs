//! `org.modulix.Store1`, the read-only side: what the configuration declares
//! as installed, the install flags stamped on every listing, and each reply
//! as it is assembled from fetched rows.

pub mod caches;
pub mod entry;

use vstd::prelude::*;

use crate::text::{
    ends_with, find_last, has_suffix, last_index, lemma_bytes_lt_irreflexive, lemma_bytes_lt_total,
    lemma_bytes_lt_transitive, lemma_encode_injective, owned, slice_owned, str_eq, str_less, str_lt,
};
pub use caches::Store;
use entry::{
    app_entry_dict, dedup_by_group, dict_view, kind_module, plugin_entry_dict, spec_dedup_by_group,
    AppEntry, Dict, DictValueView, PluginEntry,
};

verus! {

/// Whether one of `names` has the view `n`.
pub open spec fn names_contain(names: Seq<String>, n: Seq<char>) -> bool {
    exists|i: int| 0 <= i < names.len() && (#[trigger] names[i])@ == n
}

fn list_contains(names: &Vec<String>, n: &str) -> (r: bool)
    ensures
        r == names_contain(names@, n@),
{
    let mut i: usize = 0;
    while i < names.len()
        invariant
            i <= names@.len(),
            forall|j: int| 0 <= j < i ==> (#[trigger] names@[j])@ != n@,
        decreases names.len() - i,
    {
        if str_eq(names[i].as_str(), n) {
            return true;
        }
        i = i + 1;
    }
    false
}

/// What the system configuration currently declares: nixpkgs attributes in
/// `environment.systemPackages`, and enabled `mx.*` modules.
#[derive(Clone)]
pub struct InstalledSets {
    /// Declared nixpkgs attribute names.
    pub packages: Vec<String>,
    /// Keys of the enabled modules.
    pub modules: Vec<String>,
}

/// Whether `e` is declared in the configuration: a module row is looked up
/// among the enabled modules, any other row among the declared packages.
pub open spec fn sets_contain(sets: InstalledSets, e: AppEntry) -> bool {
    if e.kind@ == kind_module() {
        names_contain(sets.modules@, e.name@)
    } else {
        names_contain(sets.packages@, e.name@)
    }
}

impl InstalledSets {
    /// The sets of declared packages and enabled modules.
    pub fn new(packages: Vec<String>, modules: Vec<String>) -> (r: InstalledSets)
        ensures
            r.packages == packages,
            r.modules == modules,
    {
        InstalledSets { packages, modules }
    }

    /// Whether `entry` is currently in the system configuration; a module and
    /// a package sharing a name are tracked independently.
    pub fn contains(&self, entry: &AppEntry) -> (r: bool)
        ensures
            r == sets_contain(*self, *entry),
    {
        if entry.is_module() {
            list_contains(&self.modules, entry.name.as_str())
        } else {
            list_contains(&self.packages, entry.name.as_str())
        }
    }
}

/// `e` with its install flag set to `b`.
pub open spec fn with_installed(e: AppEntry, b: bool) -> AppEntry {
    AppEntry {
        name: e.name,
        base_name: e.base_name,
        pname: e.pname,
        app_name: e.app_name,
        summary: e.summary,
        version: e.version,
        app_id: e.app_id,
        group_id: e.group_id,
        icon: e.icon,
        icon_name: e.icon_name,
        kind: e.kind,
        flatpak_preferred: e.flatpak_preferred,
        variant_rank: e.variant_rank,
        score: e.score,
        installed: b,
    }
}

/// `entries`, each stamped with whether the configuration declares it.
pub open spec fn stamped(entries: Seq<AppEntry>, sets: InstalledSets) -> Seq<AppEntry> {
    entries.map_values(|e: AppEntry| with_installed(e, sets_contain(sets, e)))
}

/// `entries`, each marked installed.
pub open spec fn all_installed(entries: Seq<AppEntry>) -> Seq<AppEntry> {
    entries.map_values(|e: AppEntry| with_installed(e, true))
}

fn set_installed(e: &AppEntry, b: bool) -> (r: AppEntry)
    ensures
        r == with_installed(*e, b),
{
    let mut c = e.duplicate();
    c.installed = b;
    c
}

/// Fills in every entry's install flag from `sets`, overwriting it.
pub fn stamp_installed(entries: &mut Vec<AppEntry>, sets: &InstalledSets)
    ensures
        final(entries)@ == stamped(old(entries)@, *sets),
{
    let ghost orig = entries@;
    let mut i: usize = 0;
    while i < entries.len()
        invariant
            entries@.len() == orig.len(),
            i <= orig.len(),
            forall|j: int| 0 <= j < i ==> #[trigger] entries@[j] == with_installed(orig[j], sets_contain(*sets, orig[j])),
            forall|j: int| i <= j < orig.len() ==> #[trigger] entries@[j] == orig[j],
        decreases orig.len() - i,
    {
        let flag = sets.contains(&entries[i]);
        let stamped_entry = set_installed(&entries[i], flag);
        entries.set(i, stamped_entry);
        i = i + 1;
    }
    assert(entries@ =~= stamped(orig, *sets));
}

/// Marks every entry installed.
pub fn mark_all_installed(entries: &mut Vec<AppEntry>)
    ensures
        final(entries)@ == all_installed(old(entries)@),
{
    let ghost orig = entries@;
    let mut i: usize = 0;
    while i < entries.len()
        invariant
            entries@.len() == orig.len(),
            i <= orig.len(),
            forall|j: int| 0 <= j < i ==> #[trigger] entries@[j] == with_installed(orig[j], true),
            forall|j: int| i <= j < orig.len() ==> #[trigger] entries@[j] == orig[j],
        decreases orig.len() - i,
    {
        let stamped_entry = set_installed(&entries[i], true);
        entries.set(i, stamped_entry);
        i = i + 1;
    }
    assert(entries@ =~= all_installed(orig));
}

/// The dicts of `rows`, in order.
pub open spec fn app_dicts(rows: Seq<AppEntry>) -> Seq<Seq<(Seq<char>, DictValueView)>> {
    rows.map_values(|e: AppEntry| app_entry_dict(e))
}

/// The views of a list of dicts.
pub open spec fn dicts_view(ds: Seq<Dict>) -> Seq<Seq<(Seq<char>, DictValueView)>> {
    ds.map_values(|d: Dict| dict_view(d))
}

/// Serializes every row, in order.
pub fn into_dicts(rows: Vec<AppEntry>) -> (r: Vec<Dict>)
    ensures
        dicts_view(r@) == app_dicts(rows@),
{
    let ghost orig = rows@;
    let mut out: Vec<Dict> = Vec::new();
    let mut rest = rows;
    assert(rest@ =~= orig.skip(0));
    while rest.len() > 0
        invariant
            out@.len() + rest@.len() == orig.len(),
            forall|j: int| 0 <= j < out@.len() ==> dict_view(#[trigger] out@[j]) == app_entry_dict(orig[j]),
            rest@ == orig.skip(out@.len() as int),
        decreases rest.len(),
    {
        let e = rest.remove(0);
        out.push(e.into_dict());
        assert(rest@ =~= orig.skip(out@.len() as int));
    }
    assert(dicts_view(out@) =~= app_dicts(orig));
    out
}

/// The dicts of plugin rows, in order.
pub open spec fn plugin_dicts(rows: Seq<PluginEntry>) -> Seq<Seq<(Seq<char>, DictValueView)>> {
    rows.map_values(|e: PluginEntry| plugin_entry_dict(e))
}

/// Serializes every plugin row, in order.
pub fn plugins_into_dicts(rows: Vec<PluginEntry>) -> (r: Vec<Dict>)
    ensures
        dicts_view(r@) == plugin_dicts(rows@),
{
    let ghost orig = rows@;
    let mut out: Vec<Dict> = Vec::new();
    let mut rest = rows;
    assert(rest@ =~= orig.skip(0));
    while rest.len() > 0
        invariant
            out@.len() + rest@.len() == orig.len(),
            forall|j: int| 0 <= j < out@.len() ==> dict_view(#[trigger] out@[j]) == plugin_entry_dict(orig[j]),
            rest@ == orig.skip(out@.len() as int),
        decreases rest.len(),
    {
        let e = rest.remove(0);
        out.push(e.into_dict());
        assert(rest@ =~= orig.skip(out@.len() as int));
    }
    assert(dicts_view(out@) =~= plugin_dicts(orig));
    out
}

/// The `SearchPackages` reply for the (cached) search hits `hits`: every hit
/// stamped against `sets`, variants then collapsed by group.
pub fn search_packages_reply(hits: Vec<AppEntry>, sets: &InstalledSets) -> (r: Vec<Dict>)
    ensures
        dicts_view(r@) == app_dicts(spec_dedup_by_group(stamped(hits@, *sets))),
{
    let mut entries = hits;
    stamp_installed(&mut entries, sets);
    into_dicts(dedup_by_group(entries))
}

/// The `SearchModules` reply for the (cached) module hits `hits`: every hit
/// stamped against `sets`; modules are not collapsed.
pub fn search_modules_reply(hits: Vec<AppEntry>, sets: &InstalledSets) -> (r: Vec<Dict>)
    ensures
        dicts_view(r@) == app_dicts(stamped(hits@, *sets)),
{
    let mut entries = hits;
    stamp_installed(&mut entries, sets);
    into_dicts(entries)
}

/// The `ListInstalledPackages` reply: every declared package marked
/// installed, variants collapsed by group.
pub fn installed_packages_reply(rows: Vec<AppEntry>) -> (r: Vec<Dict>)
    ensures
        dicts_view(r@) == app_dicts(spec_dedup_by_group(all_installed(rows@))),
{
    let mut entries = rows;
    mark_all_installed(&mut entries);
    into_dicts(dedup_by_group(entries))
}

/// The `ListInstalledModules` reply: every enabled module marked installed.
pub fn installed_modules_reply(rows: Vec<AppEntry>) -> (r: Vec<Dict>)
    ensures
        dicts_view(r@) == app_dicts(all_installed(rows@)),
{
    let mut entries = rows;
    mark_all_installed(&mut entries);
    into_dicts(entries)
}

/// The bare name of a plugin attribute: its last dotted component, the whole
/// attribute when undotted.
pub open spec fn spec_bare_plugin_name(attr: Seq<char>) -> Seq<char> {
    let dot = last_index(attr, '.');
    if dot >= 0 {
        attr.skip(dot + 1)
    } else {
        attr
    }
}

/// The bare plugin name of a `pkgs.<namespace>.<plugin>` token.
pub fn bare_plugin_name(attr: &str) -> (r: String)
    ensures
        r@ == spec_bare_plugin_name(attr@),
{
    match find_last(attr, '.') {
        Some(i) => {
            let n = attr.unicode_len();
            slice_owned(attr, i + 1, n)
        },
        None => owned(attr),
    }
}

/// The bare names of configured plugin attributes, in order.
pub fn bare_plugin_names(attrs: &Vec<String>) -> (r: Vec<String>)
    ensures
        r@.len() == attrs@.len(),
        forall|i: int| 0 <= i < attrs@.len() ==> (#[trigger] r@[i])@ == spec_bare_plugin_name(attrs@[i]@),
{
    let mut out: Vec<String> = Vec::new();
    let mut i: usize = 0;
    while i < attrs.len()
        invariant
            i <= attrs@.len(),
            out@.len() == i,
            forall|j: int| 0 <= j < i ==> (#[trigger] out@[j])@ == spec_bare_plugin_name(attrs@[j]@),
        decreases attrs.len() - i,
    {
        out.push(bare_plugin_name(attrs[i].as_str()));
        i = i + 1;
    }
    out
}

/// `e` with its install flag set to `b`.
pub open spec fn plugin_with_installed(e: PluginEntry, b: bool) -> PluginEntry {
    PluginEntry { name: e.name, description: e.description, installed: b, module: e.module }
}

/// Plugin rows, each stamped with whether its name is among `installed`.
pub open spec fn plugins_stamped(entries: Seq<PluginEntry>, installed: Seq<String>) -> Seq<PluginEntry> {
    entries.map_values(|e: PluginEntry| plugin_with_installed(e, names_contain(installed, e.name@)))
}

/// Fills in every plugin row's install flag from the bare names of the
/// plugins the module currently lists.
pub fn stamp_plugins_installed(entries: &mut Vec<PluginEntry>, installed: &Vec<String>)
    ensures
        final(entries)@ == plugins_stamped(old(entries)@, installed@),
{
    let ghost orig = entries@;
    let mut i: usize = 0;
    while i < entries.len()
        invariant
            entries@.len() == orig.len(),
            i <= orig.len(),
            forall|j: int|
                0 <= j < i ==> #[trigger] entries@[j] == plugin_with_installed(
                    orig[j],
                    names_contain(installed@, orig[j].name@),
                ),
            forall|j: int| i <= j < orig.len() ==> #[trigger] entries@[j] == orig[j],
        decreases orig.len() - i,
    {
        let flag = list_contains(installed, entries[i].name.as_str());
        let mut e = entries[i].duplicate();
        e.installed = flag;
        entries.set(i, e);
        i = i + 1;
    }
    assert(entries@ =~= plugins_stamped(orig, installed@));
}

/// The `ListModulePlugins` reply for the (cached) plugin catalogue of a
/// module: every row stamped against the module's configured plugins.
pub fn module_plugins_reply(catalogue: Vec<PluginEntry>, installed: &Vec<String>) -> (r: Vec<Dict>)
    ensures
        dicts_view(r@) == plugin_dicts(plugins_stamped(catalogue@, installed@)),
{
    let mut entries = catalogue;
    stamp_plugins_installed(&mut entries, installed);
    plugins_into_dicts(entries)
}

/// Numeric rank of a row's kind in the alternate-sources order.
pub open spec fn kind_order(e: AppEntry) -> int {
    if e.kind@ == kind_module() {
        0
    } else {
        1
    }
}

/// `a` sorts strictly before `b` in the alternate-sources order: modules
/// first, then by variant rank, then by name bytes.
pub open spec fn alt_before(a: AppEntry, b: AppEntry) -> bool {
    kind_order(a) < kind_order(b) || (kind_order(a) == kind_order(b) && (a.variant_rank < b.variant_rank
        || (a.variant_rank == b.variant_rank && str_lt(a.name@, b.name@))))
}

proof fn lemma_alt_before_transitive(a: AppEntry, b: AppEntry, c: AppEntry)
    requires
        alt_before(a, b),
        alt_before(b, c),
    ensures
        alt_before(a, c),
{
    if kind_order(a) == kind_order(b) && kind_order(b) == kind_order(c) && a.variant_rank
        == b.variant_rank && b.variant_rank == c.variant_rank {
        lemma_bytes_lt_transitive(
            vstd::utf8::encode_utf8(a.name@),
            vstd::utf8::encode_utf8(b.name@),
            vstd::utf8::encode_utf8(c.name@),
        );
    }
}

proof fn lemma_alt_before_asymmetric(a: AppEntry, b: AppEntry)
    requires
        alt_before(a, b),
    ensures
        !alt_before(b, a),
{
    if alt_before(b, a) {
        lemma_alt_before_transitive(a, b, a);
        lemma_bytes_lt_irreflexive(vstd::utf8::encode_utf8(a.name@));
    }
}

fn alt_less(a: &AppEntry, b: &AppEntry) -> (r: bool)
    ensures
        r == alt_before(*a, *b),
{
    let ka: u8 = if a.is_module() { 0 } else { 1 };
    let kb: u8 = if b.is_module() { 0 } else { 1 };
    ka < kb || (ka == kb && (a.variant_rank < b.variant_rank || (a.variant_rank == b.variant_rank
        && str_less(a.name.as_str(), b.name.as_str()))))
}

/// `a` and `b` have the same sort key: kind, variant rank and name.
pub open spec fn same_alt_key(a: AppEntry, b: AppEntry) -> bool {
    kind_order(a) == kind_order(b) && a.variant_rank == b.variant_rank && a.name@ == b.name@
}

/// Whether a row has the sort key of `k`.
pub open spec fn has_key_of(k: AppEntry) -> spec_fn(AppEntry) -> bool {
    |x: AppEntry| same_alt_key(x, k)
}

/// A row never sorts before a row with the same key.
proof fn lemma_same_key_not_before(a: AppEntry, b: AppEntry)
    requires
        same_alt_key(a, b),
    ensures
        !alt_before(a, b),
{
    lemma_bytes_lt_irreflexive(vstd::utf8::encode_utf8(a.name@));
}

/// Filtering a sequence none of whose elements passes gives nothing.
proof fn lemma_filter_none(s: Seq<AppEntry>, pred: spec_fn(AppEntry) -> bool)
    requires
        forall|j: int| 0 <= j < s.len() ==> !pred(#[trigger] s[j]),
    ensures
        s.filter(pred) == Seq::<AppEntry>::empty(),
    decreases s.len(),
{
    reveal(Seq::filter);
    if s.len() > 0 {
        lemma_filter_none(s.drop_last(), pred);
    }
}

/// Filtering `s` with `x` appended.
proof fn lemma_filter_push(s: Seq<AppEntry>, x: AppEntry, pred: spec_fn(AppEntry) -> bool)
    ensures
        s.push(x).filter(pred) == (if pred(x) {
            s.filter(pred).push(x)
        } else {
            s.filter(pred)
        }),
{
    reveal(Seq::filter);
    assert(s.push(x).drop_last() =~= s);
}

/// No row sorts strictly before an earlier one.
pub open spec fn alt_sorted(s: Seq<AppEntry>) -> bool {
    forall|i: int, j: int| 0 <= i < j < s.len() ==> !alt_before(#[trigger] s[j], #[trigger] s[i])
}

/// Sorts the alternate-sources rows: modules first, then packages by variant
/// rank, ties by name; the rows themselves are unchanged, and rows with the
/// same key keep their order (the sort is stable).
pub fn sort_alt_entries(entries: Vec<AppEntry>) -> (r: Vec<AppEntry>)
    ensures
        alt_sorted(r@),
        r@.to_multiset() == entries@.to_multiset(),
        forall|k: AppEntry| #[trigger] r@.filter(has_key_of(k)) == entries@.filter(has_key_of(k)),
{
    broadcast use vstd::seq_lib::to_multiset_build, vstd::seq_lib::to_multiset_insert;

    let ghost orig = entries@;
    let mut out: Vec<AppEntry> = Vec::new();
    let mut i: usize = 0;
    assert(orig.take(0) =~= Seq::<AppEntry>::empty());
    while i < entries.len()
        invariant
            orig == entries@,
            i <= orig.len(),
            alt_sorted(out@),
            out@.to_multiset() == orig.take(i as int).to_multiset(),
            forall|k: AppEntry| #[trigger] out@.filter(has_key_of(k)) == orig.take(i as int).filter(has_key_of(k)),
        decreases orig.len() - i,
    {
        let e = entries[i].duplicate();
        let mut p: usize = 0;
        while p < out.len() && !alt_less(&e, &out[p])
            invariant
                p <= out@.len(),
                forall|k: int| 0 <= k < p ==> !alt_before(e, #[trigger] out@[k]),
            decreases out.len() - p,
        {
            p = p + 1;
        }
        let ghost before = out@;
        proof {
            assert forall|k: int| p <= k < before.len() implies alt_before(e, #[trigger] before[k]) by {
                if p < before.len() {
                    assert(alt_before(e, before[p as int]));
                    if k > p {
                        if !alt_before(e, before[k]) {
                            assert(!alt_before(before[k], before[p as int]));
                            if alt_before(before[p as int], before[k]) {
                                // e < before[p] < before[k]
                                lemma_alt_before_transitive(e, before[p as int], before[k]);
                            } else {
                                assert(!alt_before(before[p as int], before[k]));
                                // before[p] and before[k] incomparable: equal keys
                                lemma_alt_equal_keys(e, before[p as int], before[k]);
                            }
                        }
                    }
                }
            }
        }
        out.insert(p, e);
        proof {
            assert(orig.take(i + 1) =~= orig.take(i as int).push(orig[i as int]));
            assert forall|k: AppEntry| #[trigger] out@.filter(has_key_of(k)) == orig.take(i + 1).filter(
                has_key_of(k),
            ) by {
                let pred = has_key_of(k);
                let head = before.take(p as int);
                let tail = before.skip(p as int);
                assert(before =~= head + tail);
                assert(out@ =~= head + seq![e] + tail);
                Seq::filter_distributes_over_add(head, tail, pred);
                Seq::filter_distributes_over_add(head + seq![e], tail, pred);
                Seq::filter_distributes_over_add(head, seq![e], pred);
                lemma_filter_push(Seq::<AppEntry>::empty(), e, pred);
                assert(Seq::<AppEntry>::empty().push(e) =~= seq![e]);
                reveal_with_fuel(Seq::filter, 1);
                assert(Seq::<AppEntry>::empty().filter(pred) =~= Seq::<AppEntry>::empty());
                lemma_filter_push(orig.take(i as int), e, pred);
                if pred(e) {
                    assert forall|j: int| 0 <= j < tail.len() implies !pred(#[trigger] tail[j]) by {
                        assert(tail[j] == before[p + j]);
                        assert(alt_before(e, before[p + j]));
                        if pred(tail[j]) {
                            assert(same_alt_key(e, tail[j]));
                            lemma_same_key_not_before(e, tail[j]);
                        }
                    }
                    lemma_filter_none(tail, pred);
                    assert(tail.filter(pred) =~= Seq::<AppEntry>::empty());
                    assert(out@.filter(pred) =~= head.filter(pred) + seq![e]);
                    assert(before.filter(pred) =~= head.filter(pred));
                } else {
                    assert(out@.filter(pred) =~= head.filter(pred) + tail.filter(pred));
                }
            }
            assert(out@ == before.insert(p as int, e));
            vstd::seq_lib::to_multiset_insert(before, p as int, e);
            vstd::seq_lib::to_multiset_build(orig.take(i as int), orig[i as int]);
            assert forall|a: int, b: int| 0 <= a < b < out@.len() implies !alt_before(
                #[trigger] out@[b],
                #[trigger] out@[a],
            ) by {
                if a < p && b == p {
                } else if a == p && b > p {
                    lemma_alt_before_asymmetric(e, before[b - 1]);
                } else if a < p && b > p {
                    assert(out@[a] == before[a]);
                    assert(out@[b] == before[b - 1]);
                } else if b < p {
                } else {
                    assert(out@[a] == before[a - 1]);
                    assert(out@[b] == before[b - 1]);
                }
            }
        }
        i = i + 1;
    }
    assert(orig.take(orig.len() as int) =~= orig);
    out
}

/// When neither of `b`, `c` sorts before the other, whatever sorts before
/// `b` sorts before `c`.
proof fn lemma_alt_equal_keys(e: AppEntry, b: AppEntry, c: AppEntry)
    requires
        alt_before(e, b),
        !alt_before(b, c),
        !alt_before(c, b),
    ensures
        alt_before(e, c),
{
    if kind_order(b) == kind_order(c) && b.variant_rank == c.variant_rank {
        let x = vstd::utf8::encode_utf8(b.name@);
        let y = vstd::utf8::encode_utf8(c.name@);
        if x != y {
            lemma_bytes_lt_total(x, y);
        }
        assert(x == y);
        lemma_encode_injective(b.name@, c.name@);
    }
}

/// How the curated table is consulted for an app id.
pub enum AltLookup {
    /// The app id as given.
    Direct,
    /// The app id without its `.desktop` suffix, since the direct lookup
    /// found nothing.
    Retry(String),
}

/// How to consult the curated table for `app_id`, given whether the direct
/// lookup found anything: once more without a `.desktop` suffix when it
/// found nothing and `app_id` has that suffix.
pub fn alt_lookup(app_id: &str, direct_found: bool) -> (r: AltLookup)
    ensures
        match r {
            AltLookup::Direct => direct_found || !has_suffix(app_id@, ".desktop"@),
            AltLookup::Retry(s) => !direct_found && has_suffix(app_id@, ".desktop"@) && s@ == app_id@.take(
                app_id@.len() - ".desktop"@.len(),
            ),
        },
{
    if !direct_found && ends_with(app_id, ".desktop") {
        let n = app_id.unicode_len();
        let m = ".desktop".unicode_len();
        AltLookup::Retry(slice_owned(app_id, 0, n - m))
    } else {
        AltLookup::Direct
    }
}

/// The grouping key of the alternate-sources list: the stripped app id when
/// the retried lookup found curated attributes, else the app id itself.
pub fn alt_group_id(app_id: &str, lookup: &AltLookup, retry_found: bool) -> (r: String)
    ensures
        match lookup {
            AltLookup::Retry(s) => r@ == (if retry_found { s@ } else { app_id@ }),
            AltLookup::Direct => r@ == app_id@,
        },
{
    match lookup {
        AltLookup::Retry(s) => if retry_found {
            s.clone()
        } else {
            owned(app_id)
        },
        AltLookup::Direct => owned(app_id),
    }
}

/// The `PackagesForAppId` reply for the (cached) rows of a group: every row
/// stamped against `sets`, then ordered modules first, packages by variant
/// rank, ties by name; rows with the same key keep their order.
pub fn packages_for_app_id_reply(rows: Vec<AppEntry>, sets: &InstalledSets) -> (r: Vec<Dict>)
    ensures
        exists|s: Seq<AppEntry>|
            alt_sorted(s) && s.to_multiset() == stamped(rows@, *sets).to_multiset() && (forall|k: AppEntry|
                #[trigger] s.filter(has_key_of(k)) == stamped(rows@, *sets).filter(has_key_of(k))) && dicts_view(r@)
                == app_dicts(s),
{
    let mut entries = rows;
    stamp_installed(&mut entries, sets);
    let sorted = sort_alt_entries(entries);
    let ghost s = sorted@;
    let r = into_dicts(sorted);
    assert(alt_sorted(s) && s.to_multiset() == stamped(rows@, *sets).to_multiset() && (forall|k: AppEntry|
        #[trigger] s.filter(has_key_of(k)) == stamped(rows@, *sets).filter(has_key_of(k))) && dicts_view(r@)
        == app_dicts(s));
    r
}

/// The install flag of a listing depends on the configuration alone:
/// stamping overwrites whatever flags the rows carried, so stamping twice
/// is stamping once.
pub proof fn law_stamping_overwrites_flags(entries: Seq<AppEntry>, sets: InstalledSets, b: bool)
    ensures
        stamped(entries.map_values(|e: AppEntry| with_installed(e, b)), sets) == stamped(entries, sets),
        stamped(stamped(entries, sets), sets) == stamped(entries, sets),
{
    let flagged = entries.map_values(|e: AppEntry| with_installed(e, b));
    assert(stamped(flagged, sets) =~= stamped(entries, sets)) by {
        assert forall|i: int| 0 <= i < entries.len() implies stamped(flagged, sets)[i] == stamped(entries, sets)[i] by {
            assert(sets_contain(sets, flagged[i]) == sets_contain(sets, entries[i]));
        }
    }
    let once = stamped(entries, sets);
    assert(stamped(once, sets) =~= once) by {
        assert forall|i: int| 0 <= i < entries.len() implies stamped(once, sets)[i] == once[i] by {
            assert(sets_contain(sets, once[i]) == sets_contain(sets, entries[i]));
        }
    }
}

} // verus!
