use mx_daemon::cache::TtlCache;
use mx_daemon::store::caches::{
    enrichment_reply, enrichment_to_fetch, installed_plugin_rows, invalidate_installed, invalidate_updates,
    keys_to_fetch, license_reply, licenses_to_fetch, SearchKey, SearchKind, Store, INSTALLED_CACHE_TTL,
    MAX_LICENSE_EVALS, SEARCH_CACHE_TTL,
};
use mx_daemon::store::entry::{AppEntry, Dict, DictValue, EnrichEntry, PluginEntry};
use mx_daemon::store::{
    alt_group_id, alt_lookup, bare_plugin_name, bare_plugin_names, installed_modules_reply,
    installed_packages_reply, mark_all_installed, module_plugins_reply, packages_for_app_id_reply,
    search_modules_reply, search_packages_reply, sort_alt_entries, stamp_installed, stamp_plugins_installed,
    AltLookup, InstalledSets,
};

fn row(name: &str, kind: &'static str) -> AppEntry {
    AppEntry {
        name: name.to_string(),
        base_name: name.to_string(),
        pname: name.to_string(),
        app_name: None,
        summary: String::new(),
        version: String::new(),
        app_id: None,
        group_id: None,
        icon: None,
        icon_name: None,
        kind,
        flatpak_preferred: false,
        variant_rank: 0,
        score: 0,
        installed: false,
    }
}

fn sets(packages: &[&str], modules: &[&str]) -> InstalledSets {
    InstalledSets::new(
        packages.iter().map(|s| s.to_string()).collect(),
        modules.iter().map(|s| s.to_string()).collect(),
    )
}

fn dict_str(d: &Dict, key: &str) -> Option<String> {
    match d.get(key) {
        Some(DictValue::Str(s)) => Some(s.clone()),
        _ => None,
    }
}

fn dict_bool(d: &Dict, key: &str) -> Option<bool> {
    match d.get(key) {
        Some(DictValue::Bool(b)) => Some(*b),
        _ => None,
    }
}

fn plugin(name: &str, description: &str) -> PluginEntry {
    PluginEntry { name: name.to_string(), description: description.to_string(), installed: false, module: None }
}

#[test]
fn installed_sets_match_per_kind() {
    let sets = sets(&["htop"], &["audio"]);
    assert!(sets.contains(&row("htop", "package")));
    assert!(sets.contains(&row("audio", "module")));
    assert!(!sets.contains(&row("audio", "package")));
    assert!(!sets.contains(&row("htop", "module")));
}

#[test]
fn into_dict_always_carries_installed() {
    let dict = row("htop", "package").into_dict();
    assert!(dict.contains_key("installed"));
}

#[test]
fn stamping_overwrites_stale_flags() {
    let mut stale = row("vim", "package");
    stale.installed = true;
    let mut rows = vec![row("htop", "package"), stale, row("audio", "module")];
    let s = sets(&["htop"], &["audio"]);
    stamp_installed(&mut rows, &s);
    let flags: Vec<bool> = rows.iter().map(|e| e.installed).collect();
    assert_eq!(flags, vec![true, false, true]);
    stamp_installed(&mut rows, &s);
    let again: Vec<bool> = rows.iter().map(|e| e.installed).collect();
    assert_eq!(again, flags);
    mark_all_installed(&mut rows);
    assert!(rows.iter().all(|e| e.installed));
}

#[test]
fn search_packages_reply_stamps_then_groups() {
    let mut a = row("firefox", "package");
    a.group_id = Some("org.mozilla.firefox".to_string());
    let mut b = row("firefox-bin", "package");
    b.group_id = Some("org.mozilla.firefox".to_string());
    let c = row("htop", "package");
    let reply = search_packages_reply(vec![a, b, c], &sets(&["firefox-bin"], &[]));
    assert_eq!(reply.len(), 2);
    assert_eq!(dict_str(&reply[0], "name").as_deref(), Some("firefox-bin"));
    assert_eq!(dict_bool(&reply[0], "installed"), Some(true));
    assert_eq!(dict_str(&reply[1], "name").as_deref(), Some("htop"));
    assert_eq!(dict_bool(&reply[1], "installed"), Some(false));
}

#[test]
fn search_modules_reply_stamps_without_grouping() {
    let mut a = row("audio", "module");
    a.group_id = Some("g".to_string());
    let mut b = row("video", "module");
    b.group_id = Some("g".to_string());
    let reply = search_modules_reply(vec![a, b], &sets(&["audio"], &["video"]));
    assert_eq!(reply.len(), 2);
    assert_eq!(dict_bool(&reply[0], "installed"), Some(false));
    assert_eq!(dict_bool(&reply[1], "installed"), Some(true));
}

#[test]
fn installed_replies_mark_everything_installed() {
    let mut a = row("nvtopPackages.amd", "package");
    a.group_id = Some("nvtop".to_string());
    let mut b = row("nvtopPackages.nvidia", "package");
    b.group_id = Some("nvtop".to_string());
    let reply = installed_packages_reply(vec![a, b]);
    assert_eq!(reply.len(), 1);
    assert_eq!(dict_bool(&reply[0], "installed"), Some(true));
    let reply = installed_modules_reply(vec![row("audio", "module"), row("video", "module")]);
    assert_eq!(reply.len(), 2);
    assert!(reply.iter().all(|d| dict_bool(d, "installed") == Some(true)));
}

#[test]
fn plugin_names_and_stamps() {
    assert_eq!(bare_plugin_name("pkgs.audioPlugins.reverb"), "reverb");
    assert_eq!(bare_plugin_name("reverb"), "reverb");
    assert_eq!(bare_plugin_name("pkgs."), "");
    let names = bare_plugin_names(&vec!["pkgs.a.x".to_string(), "y".to_string()]);
    assert_eq!(names, vec!["x".to_string(), "y".to_string()]);
    let mut rows = vec![plugin("x", "X"), plugin("z", "Z")];
    stamp_plugins_installed(&mut rows, &names);
    assert!(rows[0].installed);
    assert!(!rows[1].installed);
    let reply = module_plugins_reply(vec![plugin("y", "Y"), plugin("w", "W")], &names);
    assert_eq!(dict_bool(&reply[0], "installed"), Some(true));
    assert_eq!(dict_bool(&reply[1], "installed"), Some(false));
}

#[test]
fn alternate_sources_are_sorted_modules_first() {
    let mut bin = row("firefox-bin", "package");
    bin.variant_rank = 10;
    let mut esr = row("firefox-esr", "package");
    esr.variant_rank = 100;
    let mut base = row("firefox", "package");
    base.variant_rank = 20;
    let module = row("programs.firefox", "module");
    let sorted = sort_alt_entries(vec![esr, base, module, bin]);
    let names: Vec<&str> = sorted.iter().map(|e| e.name.as_str()).collect();
    assert_eq!(names, vec!["programs.firefox", "firefox-bin", "firefox", "firefox-esr"]);
    let mut b = row("b", "package");
    b.variant_rank = 5;
    let mut a = row("a", "package");
    a.variant_rank = 5;
    let reply = packages_for_app_id_reply(vec![b, a], &sets(&["b"], &[]));
    assert_eq!(dict_str(&reply[0], "name").as_deref(), Some("a"));
    assert_eq!(dict_bool(&reply[1], "installed"), Some(true));
}

#[test]
fn desktop_suffix_is_retried() {
    assert!(matches!(alt_lookup("org.x.App", false), AltLookup::Direct));
    assert!(matches!(alt_lookup("org.x.App.desktop", true), AltLookup::Direct));
    let lookup = alt_lookup("org.x.App.desktop", false);
    match &lookup {
        AltLookup::Retry(s) => assert_eq!(s, "org.x.App"),
        AltLookup::Direct => panic!("retry expected"),
    }
    assert_eq!(alt_group_id("org.x.App.desktop", &lookup, true), "org.x.App");
    assert_eq!(alt_group_id("org.x.App.desktop", &lookup, false), "org.x.App.desktop");
    assert_eq!(alt_group_id("nvtop", &AltLookup::Direct, true), "nvtop");
}

#[test]
fn ttl_cache_serves_fresh_values_only() {
    let mut c: TtlCache<String, u32> = TtlCache::new(100, 2);
    c.insert("a".to_string(), 1, 1_000);
    assert_eq!(c.get_fresh(&"a".to_string(), 1_000), Some(&1));
    assert_eq!(c.get_fresh(&"a".to_string(), 1_099), Some(&1));
    assert_eq!(c.get_fresh(&"a".to_string(), 1_100), None);
    assert_eq!(c.get_fresh(&"b".to_string(), 1_000), None);
    c.insert("a".to_string(), 2, 1_050);
    assert_eq!(c.len(), 1);
    assert_eq!(c.get_fresh(&"a".to_string(), 1_100), Some(&2));
}

#[test]
fn ttl_cache_evicts_expired_then_oldest() {
    let mut c: TtlCache<String, u32> = TtlCache::new(100, 2);
    c.insert("a".to_string(), 1, 0);
    c.insert("b".to_string(), 2, 10);
    c.insert("c".to_string(), 3, 20);
    assert_eq!(c.len(), 2);
    assert_eq!(c.get_fresh(&"a".to_string(), 20), None);
    assert_eq!(c.get_fresh(&"b".to_string(), 20), Some(&2));
    c.insert("d".to_string(), 4, 500);
    assert_eq!(c.len(), 1);
    assert_eq!(c.get_fresh(&"d".to_string(), 500), Some(&4));
    c.evict(1_000);
    assert_eq!(c.len(), 0);
    c.insert("e".to_string(), 5, 1_000);
    c.clear();
    assert_eq!(c.len(), 0);
    assert_eq!(c.get_fresh(&"e".to_string(), 1_000), None);
}

#[test]
fn search_keys_separate_catalogues() {
    let mut caches = Store::new();
    let key = |kind: SearchKind| SearchKey { kind, query: "vim".to_string(), max: 10 };
    caches.search.insert(key(SearchKind::Packages), vec![row("vim", "package")], 0);
    assert!(caches.search.get_fresh(&key(SearchKind::Packages), 0).is_some());
    assert!(caches.search.get_fresh(&key(SearchKind::Modules), 0).is_none());
    assert!(caches.search.get_fresh(&SearchKey { kind: SearchKind::Packages, query: "vim".to_string(), max: 20 }, 0).is_none());
    assert!(caches.search.get_fresh(&key(SearchKind::Packages), SEARCH_CACHE_TTL).is_none());
}

#[test]
fn invalidation_drops_only_the_installed_listing() {
    let mut caches = Store::new();
    caches.installed.insert((), sets(&["htop"], &[]), 0);
    caches.installed_plugins.insert("audio".to_string(), vec!["reverb".to_string()], 0);
    caches.alt.insert("nvtop".to_string(), vec![row("nvtop", "package")], 0);
    caches.update.insert((), Vec::new(), 0);
    assert!(caches.installed.get_fresh(&(), INSTALLED_CACHE_TTL - 1).is_some());
    invalidate_installed(&mut caches);
    assert!(caches.installed.get_fresh(&(), 0).is_none());
    assert!(caches.installed_plugins.get_fresh(&"audio".to_string(), 0).is_none());
    assert!(caches.alt.get_fresh(&"nvtop".to_string(), 0).is_some());
    assert!(caches.update.get_fresh(&(), 0).is_some());
    invalidate_updates(&mut caches);
    assert!(caches.update.get_fresh(&(), 0).is_none());
    assert!(caches.alt.get_fresh(&"nvtop".to_string(), 0).is_some());
}

#[test]
fn license_requests_skip_cached_and_cap_evaluations() {
    let mut caches = Store::new();
    caches.license.insert("htop".to_string(), Some("GPL-2.0".to_string()), 0);
    caches.license.insert("blob".to_string(), None, 0);
    assert_eq!(keys_to_fetch(&caches.license, &["htop", "vim", "blob"], 0), vec!["vim".to_string()]);
    let many: Vec<String> = (0..20).map(|i| format!("p{i}")).collect();
    let refs: Vec<&str> = many.iter().map(|s| s.as_str()).collect();
    let todo = licenses_to_fetch(&caches, &refs, 0);
    assert_eq!(todo.len(), MAX_LICENSE_EVALS);
    assert_eq!(todo[0], "p0");
    let reply = license_reply(&caches, &["htop", "blob", "htop", "vim"], 0);
    assert_eq!(reply, vec![("htop".to_string(), "GPL-2.0".to_string())]);
}

#[test]
fn enrichment_requests_and_reply() {
    let mut caches = Store::new();
    let e = EnrichEntry {
        description: Some("A browser".to_string()),
        screenshots: Vec::new(),
        icon: None,
        icon_name: Some("firefox".to_string()),
        license: None,
    };
    caches.enrich.insert("org.mozilla.firefox".to_string(), Some(e), 0);
    caches.enrich.insert("org.none".to_string(), None, 0);
    assert_eq!(
        enrichment_to_fetch(&caches, &["org.mozilla.firefox", "org.new", "org.none"], 0),
        vec!["org.new".to_string()]
    );
    let reply = enrichment_reply(&caches, &["org.mozilla.firefox", "org.none", "org.new"], 0);
    assert_eq!(reply.len(), 1);
    assert_eq!(reply[0].0, "org.mozilla.firefox");
    assert_eq!(dict_str(&reply[0].1, "description").as_deref(), Some("A browser"));
}

#[test]
fn installed_plugins_listing() {
    let mut caches = Store::new();
    caches.plugins.insert("audio".to_string(), vec![plugin("reverb", "Adds reverb")], 0);
    let all = vec![
        ("audio".to_string(), "reverb".to_string()),
        ("video".to_string(), "blur".to_string()),
    ];
    let rows = installed_plugin_rows(&caches, &all, "", 0);
    assert_eq!(rows.len(), 2);
    assert_eq!(rows[0].description, "Adds reverb");
    assert_eq!(rows[0].module.as_deref(), Some("audio"));
    assert!(rows[0].installed);
    assert_eq!(rows[1].description, "");
    let only = installed_plugin_rows(&caches, &all, "video", 0);
    assert_eq!(only.len(), 1);
    assert_eq!(only[0].name, "blur");
}

#[test]
fn alternate_sort_is_stable() {
    let mut first = row("dup", "package");
    first.version = "1".to_string();
    let mut second = row("dup", "package");
    second.version = "2".to_string();
    let module = row("zmod", "module");
    let sorted = sort_alt_entries(vec![first, module, second]);
    let versions: Vec<&str> = sorted.iter().map(|e| e.version.as_str()).collect();
    assert_eq!(versions, vec!["", "1", "2"]);
    assert_eq!(sorted[0].name, "zmod");
}
