use mx_daemon::store::entry::{
    alt_entries, alt_sort_key, base_attr, collect_screenshots, dedup_by_group, enrichment_entry, icon_base_name,
    module_entry, module_rows_for_app_id, needs_pname_search, package_entry, pname_rows, table_rows,
    variant_label, variant_rank, variant_suffix, AppEntry, Dict, DictValue, EnrichEntry, ModuleFacts,
    PackageFacts, PluginEntry, ScreenshotImage, ScreenshotSet, SizedScreenshot, TableAttr,
};

fn pkg_entry(name: &str, app_id: Option<&str>) -> AppEntry {
    AppEntry {
        name: name.to_string(),
        base_name: name.to_string(),
        pname: name.to_string(),
        app_name: None,
        summary: "summary".to_string(),
        version: "1.0".to_string(),
        group_id: app_id.map(str::to_string).or_else(|| Some(name.to_string())),
        app_id: app_id.map(str::to_string),
        icon: None,
        icon_name: None,
        kind: "package",
        flatpak_preferred: false,
        variant_rank: 20,
        score: 0,
        installed: false,
    }
}

fn grp_entry(name: &str, app_id: Option<&str>, group: &str) -> AppEntry {
    AppEntry { group_id: Some(group.to_string()), ..pkg_entry(name, app_id) }
}

fn names(out: &[AppEntry]) -> Vec<&str> {
    out.iter().map(|e| e.name.as_str()).collect()
}

fn keys(d: Dict) -> Vec<String> {
    d.into_entries().into_iter().map(|(k, _)| k).collect()
}

fn str_value(d: &Dict, key: &str) -> Option<String> {
    match d.get(key) {
        Some(DictValue::Str(s)) => Some(s.clone()),
        _ => None,
    }
}

fn bool_value(d: &Dict, key: &str) -> Option<bool> {
    match d.get(key) {
        Some(DictValue::Bool(b)) => Some(*b),
        _ => None,
    }
}

#[test]
fn dedup_by_group_collapses_same_pname() {
    let out = dedup_by_group(vec![
        grp_entry("nvtopPackages.full", None, "nvtop"),
        grp_entry("nvtopPackages.amd", None, "nvtop"),
        grp_entry("nvtopPackages.nvidia", None, "nvtop"),
    ]);
    assert_eq!(out.len(), 1);
    assert_eq!(out[0].name, "nvtopPackages.full");
}

#[test]
fn dedup_by_group_installed_variant_wins() {
    let mut installed = grp_entry("nvtopPackages.amd", None, "nvtop");
    installed.installed = true;
    let out = dedup_by_group(vec![
        grp_entry("nvtopPackages.full", None, "nvtop"),
        installed,
        grp_entry("nvtopPackages.nvidia", None, "nvtop"),
    ]);
    assert_eq!(out.len(), 1);
    assert_eq!(out[0].name, "nvtopPackages.amd");
    assert!(out[0].installed);
}

#[test]
fn dedup_by_group_keeps_group_order() {
    let mut installed = grp_entry("b2", None, "b");
    installed.installed = true;
    let out = dedup_by_group(vec![
        grp_entry("a1", None, "a"),
        grp_entry("b1", None, "b"),
        installed,
        grp_entry("c1", None, "c"),
    ]);
    assert_eq!(names(&out), vec!["a1", "b2", "c1"]);
}

#[test]
fn dedup_by_group_keeps_distinct_pnames() {
    let out = dedup_by_group(vec![grp_entry("a", None, "a"), grp_entry("b", None, "b")]);
    assert_eq!(out.len(), 2);
}

#[test]
fn dedup_by_group_collapses_same_app_id() {
    let out = dedup_by_group(vec![
        grp_entry("firefox", Some("org.mozilla.firefox"), "org.mozilla.firefox"),
        grp_entry("firefox-bin", Some("org.mozilla.firefox"), "org.mozilla.firefox"),
    ]);
    assert_eq!(out.len(), 1);
}

#[test]
fn dedup_by_group_keeps_every_ungrouped_entry() {
    let mut a = pkg_entry("a", None);
    a.group_id = None;
    let mut b = pkg_entry("a", None);
    b.group_id = None;
    b.version = "2.0".to_string();
    let out = dedup_by_group(vec![a, grp_entry("x", None, "g"), b, grp_entry("y", None, "g")]);
    assert_eq!(names(&out), vec!["a", "x", "a"]);
    assert_eq!(out[2].version, "2.0");
    assert!(dedup_by_group(Vec::new()).is_empty());
}

#[test]
fn dedup_by_group_first_installed_wins_among_several() {
    let mut second = grp_entry("g2", None, "g");
    second.installed = true;
    let mut third = grp_entry("g3", None, "g");
    third.installed = true;
    let out = dedup_by_group(vec![grp_entry("g1", None, "g"), second, third]);
    assert_eq!(names(&out), vec!["g2"]);
}

#[test]
fn variant_suffix_cases() {
    assert_eq!(variant_suffix("nvtopPackages.amd", "nvtop").as_deref(), Some("amd"));
    assert_eq!(variant_suffix("nvtop-amd", "nvtop").as_deref(), Some("amd"));
    assert_eq!(variant_suffix("nvtop", "nvtop"), None);
    assert_eq!(variant_suffix("firefox-esr", "firefox").as_deref(), Some("esr"));
}

#[test]
fn variant_suffix_edge_cases() {
    assert_eq!(variant_suffix("pkgs.", "pkgs"), None);
    assert_eq!(variant_suffix("nvtop__-x", "nvtop").as_deref(), Some("x"));
    assert_eq!(variant_suffix("nvtop-", "nvtop"), None);
    assert_eq!(variant_suffix("htop", "nvtop").as_deref(), Some("htop"));
}

#[test]
fn variant_label_formats() {
    assert_eq!(variant_label("nvtop", "nvtopPackages.amd"), "nvtop (amd)");
    assert_eq!(variant_label("nvtop", "nvtop"), "nvtop");
}

#[test]
fn base_attr_picks_shortest() {
    assert_eq!(base_attr(&["firefox-bin", "firefox", "firefox-esr"]), "firefox");
}

#[test]
fn base_attr_breaks_ties_lexicographically() {
    assert_eq!(base_attr(&["bbb", "aaa"]), "aaa");
}

#[test]
fn base_attr_of_nothing_is_empty() {
    assert_eq!(base_attr(&[]), "");
    assert_eq!(base_attr(&["only"]), "only");
}

#[test]
fn variant_rank_known_suffixes() {
    assert_eq!(variant_rank("firefox", "firefox"), 20);
    assert_eq!(variant_rank("firefox-bin", "firefox"), 10);
    assert_eq!(variant_rank("firefox-esr", "firefox"), 100);
    assert_eq!(variant_rank("firefox-esr-bin", "firefox"), 90);
    assert_eq!(variant_rank("firefox-unwrapped", "firefox"), 800);
    assert_eq!(variant_rank("firefox-nonsense", "firefox"), 900);
}

#[test]
fn variant_rank_other_known_suffixes() {
    assert_eq!(variant_rank("firefox-beta-bin", "firefox"), 30);
    assert_eq!(variant_rank("firefox-beta", "firefox"), 40);
    assert_eq!(variant_rank("firefox-nightly-bin", "firefox"), 50);
    assert_eq!(variant_rank("firefox-nightly", "firefox"), 60);
    assert_eq!(variant_rank("firefox-devedition-bin", "firefox"), 70);
    assert_eq!(variant_rank("firefox-devedition", "firefox"), 80);
}

#[test]
fn icon_base_name_strips_known_suffixes() {
    assert_eq!(icon_base_name("davinci-resolve-studio").as_deref(), Some("davinci-resolve"));
    assert_eq!(icon_base_name("firefox-esr-unwrapped").as_deref(), Some("firefox"));
    assert_eq!(icon_base_name("nvtopPackages.amd"), None);
    assert_eq!(icon_base_name("code"), None);
    assert_eq!(icon_base_name("vscode-fhs").as_deref(), Some("vscode"));
}

#[test]
fn icon_base_name_keeps_two_characters() {
    assert_eq!(icon_base_name("a-bin"), None);
    assert_eq!(icon_base_name("ab-bin").as_deref(), Some("ab"));
    assert_eq!(icon_base_name("foo_qt6").as_deref(), Some("foo"));
    let base = icon_base_name("foo-gtk-bin").unwrap();
    assert_eq!(base, "foo");
    assert_eq!(icon_base_name(&base), None);
}

#[test]
fn app_entry_dict_keys_in_order() {
    let mut e = pkg_entry("htop", Some("org.htop"));
    e.score = 7;
    let d = e.clone().into_dict();
    assert_eq!(
        keys(e.into_dict()),
        vec![
            "name",
            "base_name",
            "pname",
            "summary",
            "version",
            "app_id",
            "group_id",
            "kind",
            "flatpak_preferred",
            "variant_rank",
            "score",
            "installed"
        ]
    );
    assert_eq!(str_value(&d, "kind").as_deref(), Some("package"));
    assert_eq!(bool_value(&d, "installed"), Some(false));
    assert!(matches!(d.get("variant_rank"), Some(DictValue::I32(20))));
    assert!(matches!(d.get("score"), Some(DictValue::U32(7))));
    let plain = pkg_entry("htop", None).into_dict();
    assert!(!plain.contains_key("score"));
    assert!(!plain.contains_key("app_id"));
    assert!(plain.contains_key("group_id"));
}

#[test]
fn plugin_entry_dict() {
    let reverb = PluginEntry {
        name: "reverb".to_string(),
        description: "Reverb".to_string(),
        installed: true,
        module: None,
    };
    let d = reverb.clone().into_dict();
    assert_eq!(keys(reverb.into_dict()), vec!["name", "description", "installed"]);
    assert_eq!(bool_value(&d, "installed"), Some(true));
    let d = PluginEntry {
        name: "reverb".to_string(),
        description: String::new(),
        installed: false,
        module: Some("audio".to_string()),
    }
    .into_dict();
    assert_eq!(str_value(&d, "module").as_deref(), Some("audio"));
}

fn facts(attr: &str, pname: &str, id: Option<&str>) -> PackageFacts {
    PackageFacts {
        package_name: attr.to_string(),
        display_name: pname.to_string(),
        id: id.map(str::to_string),
        app_name: None,
        summary: "s".to_string(),
        version: "1".to_string(),
        icon: None,
        icon_name: Some("icon".to_string()),
    }
}

#[test]
fn package_entry_groups_by_app_id_then_pname_then_attr() {
    let e = package_entry(&facts("firefox-bin", "firefox", Some("org.mozilla.firefox")), 3, true);
    assert_eq!(e.group_id.as_deref(), Some("org.mozilla.firefox"));
    assert_eq!(e.app_id.as_deref(), Some("org.mozilla.firefox"));
    assert!(e.flatpak_preferred);
    assert_eq!(e.variant_rank, 10);
    assert_eq!(e.base_name, "firefox");
    assert_eq!(e.score, 3);
    assert_eq!(e.kind, "package");
    assert!(!e.installed);
    let e = package_entry(&facts("nvtopPackages.amd", "nvtop", None), 0, true);
    assert_eq!(e.group_id.as_deref(), Some("nvtop"));
    assert!(!e.flatpak_preferred);
    assert_eq!(e.base_name, "nvtopPackages.amd");
    let e = package_entry(&facts("weird", "", None), 0, false);
    assert_eq!(e.group_id.as_deref(), Some("weird"));
}

fn module(name: &str, display: &str, id: Option<&str>) -> ModuleFacts {
    ModuleFacts {
        package_name: name.to_string(),
        display_name: display.to_string(),
        id: id.map(str::to_string),
        summary: "m".to_string(),
        icon: Some("/icon.png".to_string()),
        icon_name: None,
    }
}

#[test]
fn module_entry_fields() {
    let e = module_entry(&module("programs.firefox", "Firefox module", Some("org.mozilla.firefox")), 5, Some("Firefox"));
    assert_eq!(e.name, "programs.firefox");
    assert_eq!(e.base_name, "programs.firefox");
    assert_eq!(e.pname, "Firefox");
    assert_eq!(e.group_id.as_deref(), Some("org.mozilla.firefox"));
    assert_eq!(e.kind, "module");
    assert_eq!(e.variant_rank, 0);
    assert_eq!(e.version, "");
    assert_eq!(e.icon.as_deref(), Some("/icon.png"));
    let e = module_entry(&module("audio", "Audio", None), 0, None);
    assert_eq!(e.pname, "Audio");
    assert_eq!(e.group_id, None);
}

#[test]
fn module_rows_share_the_flatpak_name() {
    let mods = vec![module("a", "A", None), module("b", "B", None)];
    let rows = module_rows_for_app_id("org.x.App", &mods, Some("App"));
    assert_eq!(names(&rows), vec!["a", "b"]);
    assert!(rows.iter().all(|r| r.pname == "App" && r.icon.is_none() && r.kind == "module"));
    assert!(rows.iter().all(|r| r.app_id.as_deref() == Some("org.x.App") && r.group_id.as_deref() == Some("org.x.App")));
    let rows = module_rows_for_app_id("org.x.App", &mods, None);
    assert_eq!(rows[1].pname, "B");
}

#[test]
fn alternate_rows_for_an_app_id_group() {
    let table = vec![
        TableAttr { attr: "firefox-bin".to_string(), app_name: Some("Firefox".to_string()), icon_name: None },
        TableAttr { attr: "firefox".to_string(), app_name: None, icon_name: Some("firefox".to_string()) },
    ];
    let rows = table_rows("org.mozilla.firefox", &table, true);
    assert_eq!(names(&rows), vec!["firefox-bin", "firefox"]);
    assert_eq!(rows[0].variant_rank, 10);
    assert_eq!(rows[1].variant_rank, 20);
    assert!(rows[0].flatpak_preferred);
    assert_eq!(rows[0].pname, "firefox-bin");
    assert_eq!(rows[0].app_name.as_deref(), Some("Firefox"));
    let mods = module_rows_for_app_id("org.mozilla.firefox", &vec![module("programs.firefox", "F", None)], None);
    let all = alt_entries("org.mozilla.firefox", mods, &table, false, None);
    assert_eq!(names(&all), vec!["programs.firefox", "firefox-bin", "firefox"]);
}

#[test]
fn alternate_rows_for_a_pname_group() {
    assert!(needs_pname_search("nvtop", 0));
    assert!(!needs_pname_search("org.x.App", 0));
    assert!(!needs_pname_search("nvtop", 2));
    let found = vec![
        facts("nvtopPackages.amd", "nvtop", None),
        facts("htop", "htop", None),
        facts("nvtop", "nvtop", None),
    ];
    let rows = pname_rows("nvtop", &found);
    assert_eq!(names(&rows), vec!["nvtopPackages.amd", "nvtop"]);
    assert_eq!(rows[0].pname, "nvtop (amd)");
    assert_eq!(rows[1].pname, "nvtop");
    assert_eq!(rows[0].variant_rank, 900);
    assert_eq!(rows[1].variant_rank, 20);
    let all = alt_entries("nvtop", Vec::new(), &Vec::new(), false, Some(&found));
    assert_eq!(all.len(), 2);
    assert!(alt_entries("org.x.App", Vec::new(), &Vec::new(), false, Some(&found)).is_empty());
}

#[test]
fn alt_sort_key_orders_modules_first() {
    let m = module_entry(&module("zz", "Z", None), 0, None);
    let p = pkg_entry("aa", None);
    assert_eq!(alt_sort_key(&m), (0, 0, "zz"));
    assert_eq!(alt_sort_key(&p), (1, 20, "aa"));
}

#[test]
fn screenshots_mark_the_default() {
    let set = ScreenshotSet {
        default: 1,
        screenshots: vec![
            SizedScreenshot { caption: "one".to_string(), images: vec![] },
            SizedScreenshot {
                caption: "two".to_string(),
                images: vec![ScreenshotImage { url: "u".to_string(), width: 3, height: 4 }],
            },
        ],
    };
    let rows = collect_screenshots(Some(&set));
    assert_eq!(rows.len(), 2);
    assert_eq!(rows[0].0, "one");
    assert!(!rows[0].1);
    assert!(rows[1].1);
    assert_eq!(rows[1].2, vec![("u".to_string(), 3, 4)]);
    assert!(collect_screenshots(None).is_empty());
}

#[test]
fn enrichment_drops_empty_fields() {
    let e: EnrichEntry = enrichment_entry("", Vec::new(), "https://icon", Some("firefox"), None);
    assert!(e.description.is_none());
    assert_eq!(e.icon.as_deref(), Some("https://icon"));
    assert_eq!(e.icon_name.as_deref(), Some("firefox"));
    let d = e.into_dict();
    assert!(!d.contains_key("description"));
    assert!(d.contains_key("icon"));
}

#[test]
fn base_attribute_has_no_suffix_even_when_dotted() {
    assert_eq!(variant_suffix("a.b", "a.b"), None);
    assert_eq!(variant_rank("a.b", "a.b"), 20);
    assert_eq!(variant_label("a.b", "a.b"), "a.b");
    assert_eq!(variant_suffix("a.b", "a").as_deref(), Some("b"));
}

#[test]
fn icon_base_name_floor_counts_characters() {
    assert_eq!(icon_base_name("é-bin"), None);
    assert_eq!(icon_base_name("éé-bin").as_deref(), Some("éé"));
}

#[test]
fn dict_keys_are_distinct() {
    let mut e = pkg_entry("htop", Some("org.htop"));
    e.app_name = Some("Htop".to_string());
    e.icon = Some("i".to_string());
    e.icon_name = Some("n".to_string());
    e.score = 1;
    let mut ks = keys(e.into_dict());
    let n = ks.len();
    ks.sort();
    ks.dedup();
    assert_eq!(ks.len(), n);
    assert_eq!(n, 15);
}
