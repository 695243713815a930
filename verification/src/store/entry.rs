//! Neutral, store-side app/plugin/enrichment rows and the pure logic on them:
//! grouping of variants, variant labels and ranks, icon-name fallback, and
//! the `a{sv}` shape each row is sent as.

use vstd::prelude::*;
use vstd::string::*;
use vstd::utf8::*;

use crate::text::{
    byte_len, contains_char, copy_opt, find_last, find_last_sep, has_prefix, is_sep, last_index, last_sep,
    lemma_bytes_lt_irreflexive, lemma_bytes_lt_total, lemma_bytes_lt_transitive, lemma_encode_injective,
    opt_eq, opt_view, owned, skip_leading_seps, slice_owned, starts_with, str_eq, str_less, str_lt,
    trim_seps,
};

verus! {

/// A value of one `a{sv}` entry, as it goes on the bus.
#[derive(Clone)]
pub enum DictValue {
    /// zvariant `s`.
    Str(String),
    /// zvariant `b`.
    Bool(bool),
    /// zvariant `i`.
    I32(i32),
    /// zvariant `u`.
    U32(u32),
    /// zvariant `a(sba(suu))`.
    Shots(Vec<ShotTuple>),
}

/// A screenshot row as sent: `(caption, is_default, images)`, each image
/// `(url, width, height)`.
pub type ShotTuple = (String, bool, Vec<(String, u32, u32)>);

/// One screenshot row taken by its view.
pub type ShotView = (Seq<char>, bool, Seq<(Seq<char>, u32, u32)>);

/// The view of one screenshot row.
pub open spec fn shot_view(t: ShotTuple) -> ShotView {
    (t.0@, t.1, t.2@.map_values(|img: (String, u32, u32)| (img.0@, img.1, img.2)))
}

/// A dict value, strings taken by their view.
pub enum DictValueView {
    Str(Seq<char>),
    Bool(bool),
    I32(i32),
    U32(u32),
    Shots(Seq<ShotView>),
}

impl View for DictValue {
    type V = DictValueView;

    open spec fn view(&self) -> DictValueView {
        match self {
            DictValue::Str(s) => DictValueView::Str(s@),
            DictValue::Bool(b) => DictValueView::Bool(*b),
            DictValue::I32(v) => DictValueView::I32(*v),
            DictValue::U32(v) => DictValueView::U32(*v),
            DictValue::Shots(v) => DictValueView::Shots(v@.map_values(|t: ShotTuple| shot_view(t))),
        }
    }
}

/// One `org.modulix.Store1` row: string keys to values, in the order they
/// were inserted; no key occurs twice.
pub struct Dict {
    entries: Vec<(String, DictValue)>,
}

/// The keys and values of a dict, keys taken by their view.
pub closed spec fn dict_view(d: Dict) -> Seq<(Seq<char>, DictValueView)> {
    d.entries@.map_values(|p: (String, DictValue)| (p.0@, p.1@))
}

/// Whether one of the pairs has key `k`.
pub open spec fn view_has_key(s: Seq<(Seq<char>, DictValueView)>, k: Seq<char>) -> bool {
    exists|i: int| 0 <= i < s.len() && (#[trigger] s[i]).0 == k
}

/// No two of the pairs share a key.
pub open spec fn view_keys_distinct(s: Seq<(Seq<char>, DictValueView)>) -> bool {
    forall|i: int, j: int| 0 <= i < j < s.len() ==> (#[trigger] s[i]).0 != (#[trigger] s[j]).0
}

impl Dict {
    /// No key occurs twice.
    #[verifier::type_invariant]
    spec fn keys_distinct(self) -> bool {
        view_keys_distinct(dict_view(self))
    }

    /// An empty dict.
    pub fn new() -> (d: Dict)
        ensures
            dict_view(d) == Seq::<(Seq<char>, DictValueView)>::empty(),
    {
        let d = Dict { entries: Vec::new() };
        assert(dict_view(d) =~= Seq::<(Seq<char>, DictValueView)>::empty());
        d
    }

    /// Whether `key` is one of the dict's keys.
    pub fn contains_key(&self, key: &str) -> (r: bool)
        ensures
            r == view_has_key(dict_view(*self), key@),
    {
        let mut i: usize = 0;
        while i < self.entries.len()
            invariant
                i <= self.entries@.len(),
                forall|j: int| 0 <= j < i ==> #[trigger] self.entries@[j].0@ != key@,
            decreases self.entries.len() - i,
        {
            if str_eq(self.entries[i].0.as_str(), key) {
                assert(dict_view(*self)[i as int].0 == key@);
                return true;
            }
            i = i + 1;
        }
        assert forall|j: int| 0 <= j < dict_view(*self).len() implies (#[trigger] dict_view(*self)[j]).0 != key@ by {
            assert(dict_view(*self)[j].0 == self.entries@[j].0@);
        }
        false
    }

    /// The value stored under `key`, if any.
    pub fn get(&self, key: &str) -> (r: Option<&DictValue>)
        ensures
            match r {
                Some(v) => exists|i: int|
                    0 <= i < dict_view(*self).len() && #[trigger] dict_view(*self)[i] == (key@, v@),
                None => !view_has_key(dict_view(*self), key@),
            },
    {
        let mut i: usize = 0;
        while i < self.entries.len()
            invariant
                i <= self.entries@.len(),
                forall|j: int| 0 <= j < i ==> #[trigger] self.entries@[j].0@ != key@,
            decreases self.entries.len() - i,
        {
            if str_eq(self.entries[i].0.as_str(), key) {
                assert(dict_view(*self)[i as int] == (key@, self.entries@[i as int].1@));
                return Some(&self.entries[i].1);
            }
            i = i + 1;
        }
        assert forall|j: int| 0 <= j < dict_view(*self).len() implies (#[trigger] dict_view(*self)[j]).0 != key@ by {
            assert(dict_view(*self)[j].0 == self.entries@[j].0@);
        }
        None
    }

    /// The keys and values, in insertion order.
    pub fn into_entries(self) -> (r: Vec<(String, DictValue)>)
        ensures
            r@.map_values(|p: (String, DictValue)| (p.0@, p.1@)) == dict_view(self),
    {
        self.entries
    }
}

/// Appends `key => value` to `d`, whose keys do not include `key`.
fn push_entry(d: &mut Dict, key: &str, value: DictValue)
    requires
        !view_has_key(dict_view(*old(d)), key@),
    ensures
        dict_view(*final(d)) == dict_view(*old(d)).push((key@, value@)),
        forall|k: Seq<char>|
            #[trigger] view_has_key(dict_view(*final(d)), k) == (view_has_key(dict_view(*old(d)), k) || k == key@),
{
    proof {
        use_type_invariant(&*d);
    }
    let ghost before = dict_view(*d);
    let mut entries: Vec<(String, DictValue)> = Vec::new();
    std::mem::swap(&mut entries, &mut d.entries);
    let ghost value_view = value@;
    entries.push((key.to_owned(), value));
    let ghost after = entries@.map_values(|p: (String, DictValue)| (p.0@, p.1@));
    proof {
        assert(after =~= before.push((key@, value_view)));
        assert forall|i: int, j: int| 0 <= i < j < after.len() implies (#[trigger] after[i]).0 != (
        #[trigger] after[j]).0 by {
            if j == before.len() {
                assert(before[i] == after[i]);
                assert(!(before[i].0 == key@));
            } else {
                assert(before[i] == after[i]);
                assert(before[j] == after[j]);
            }
        }
        assert forall|k: Seq<char>| #[trigger] view_has_key(after, k) == (view_has_key(before, k) || k == key@) by {
            if view_has_key(before, k) {
                let i = choose|i: int| 0 <= i < before.len() && (#[trigger] before[i]).0 == k;
                assert(after[i] == before[i]);
            }
            if k == key@ {
                assert(after[before.len() as int].0 == k);
            }
            if view_has_key(after, k) && k != key@ {
                let i = choose|i: int| 0 <= i < after.len() && (#[trigger] after[i]).0 == k;
                assert(before[i] == after[i]);
            }
        }
    }
    d.entries = entries;
}

/// Appends `key => value` to `d` when `value` is set; `d`'s keys do not
/// include `key`.
fn push_opt_str(d: &mut Dict, key: &str, value: Option<String>)
    requires
        !view_has_key(dict_view(*old(d)), key@),
    ensures
        dict_view(*final(d)) == dict_view(*old(d)) + opt_str_entry(key@, value),
        forall|k: Seq<char>|
            #[trigger] view_has_key(dict_view(*final(d)), k) == (view_has_key(dict_view(*old(d)), k) || (
            value is Some && k == key@)),
{
    match value {
        Some(v) => {
            push_entry(d, key, DictValue::Str(v));
        },
        None => {
            assert(dict_view(*old(d)) + Seq::empty() =~= dict_view(*old(d)));
        },
    }
}

/// What the keys of the dicts sent over `org.modulix.Store1` are made of:
/// their lengths and enough of their characters to tell them apart.
proof fn lemma_dict_keys()
    ensures
        "name"@.len() == 4 && "name"@[0] == 'n',
        "base_name"@.len() == 9 && "base_name"@[0] == 'b',
        "pname"@.len() == 5 && "pname"@[0] == 'p',
        "app_name"@.len() == 8 && "app_name"@[0] == 'a',
        "summary"@.len() == 7 && "summary"@[0] == 's',
        "version"@.len() == 7 && "version"@[0] == 'v',
        "app_id"@.len() == 6 && "app_id"@[0] == 'a',
        "group_id"@.len() == 8 && "group_id"@[0] == 'g',
        "icon"@.len() == 4 && "icon"@[0] == 'i',
        "icon_name"@.len() == 9 && "icon_name"@[0] == 'i' && "icon_name"@[1] == 'c',
        "kind"@.len() == 4 && "kind"@[0] == 'k',
        "flatpak_preferred"@.len() == 17,
        "variant_rank"@.len() == 12,
        "score"@.len() == 5 && "score"@[0] == 's',
        "installed"@.len() == 9 && "installed"@[0] == 'i' && "installed"@[1] == 'n',
        "description"@.len() == 11 && "description"@[0] == 'd',
        "module"@.len() == 6 && "module"@[0] == 'm',
        "screenshots"@.len() == 11 && "screenshots"@[0] == 's',
        "license"@.len() == 7 && "license"@[0] == 'l',
{
    reveal_strlit("name");
    reveal_strlit("base_name");
    reveal_strlit("pname");
    reveal_strlit("app_name");
    reveal_strlit("summary");
    reveal_strlit("version");
    reveal_strlit("app_id");
    reveal_strlit("group_id");
    reveal_strlit("icon");
    reveal_strlit("icon_name");
    reveal_strlit("kind");
    reveal_strlit("flatpak_preferred");
    reveal_strlit("variant_rank");
    reveal_strlit("score");
    reveal_strlit("installed");
    reveal_strlit("description");
    reveal_strlit("module");
    reveal_strlit("screenshots");
    reveal_strlit("license");
}

/// `kind` of a package row.
pub open spec fn kind_package() -> Seq<char> {
    seq!['p', 'a', 'c', 'k', 'a', 'g', 'e']
}

/// `kind` of a module row.
pub open spec fn kind_module() -> Seq<char> {
    seq!['m', 'o', 'd', 'u', 'l', 'e']
}

/// One installable app row (nix package or Modulix module), store-side and
/// bus-neutral. Sent as a dict by [`AppEntry::into_dict`].
#[derive(Clone, Debug)]
pub struct AppEntry {
    /// nixpkgs attribute (package) or module name: the install identifier.
    pub name: String,
    /// Themed-icon fallback: `name` with known edition suffixes stripped.
    pub base_name: String,
    /// Human display name.
    pub pname: String,
    /// Flatpak/AppStream display name, when the package matches a known app.
    pub app_name: Option<String>,
    /// One-line summary.
    pub summary: String,
    /// Package version; empty for modules.
    pub version: String,
    /// Canonical AppStream id, when known.
    pub app_id: Option<String>,
    /// Stable grouping key: `app_id` when known, otherwise `pname`.
    pub group_id: Option<String>,
    /// Icon URL or path.
    pub icon: Option<String>,
    /// Themed icon name.
    pub icon_name: Option<String>,
    /// `"package"` or `"module"`.
    pub kind: &'static str,
    /// Whether the Flatpak counterpart should be preferred over this entry.
    pub flatpak_preferred: bool,
    /// Rank of this entry within its variant group (see [`variant_rank`]).
    pub variant_rank: i32,
    /// Raw search relevance, `0` outside search paths.
    pub score: u32,
    /// Whether this exact `name` is in the system configuration.
    pub installed: bool,
}

impl AppEntry {
    /// A field-by-field copy.
    pub fn duplicate(&self) -> (r: AppEntry)
        ensures
            r == *self,
    {
        AppEntry {
            name: self.name.clone(),
            base_name: self.base_name.clone(),
            pname: self.pname.clone(),
            app_name: copy_opt(&self.app_name),
            summary: self.summary.clone(),
            version: self.version.clone(),
            app_id: copy_opt(&self.app_id),
            group_id: copy_opt(&self.group_id),
            icon: copy_opt(&self.icon),
            icon_name: copy_opt(&self.icon_name),
            kind: self.kind,
            flatpak_preferred: self.flatpak_preferred,
            variant_rank: self.variant_rank,
            score: self.score,
            installed: self.installed,
        }
    }

    /// Whether this is a module row.
    pub fn is_module(&self) -> (r: bool)
        ensures
            r == (self.kind@ == kind_module()),
    {
        proof {
            reveal_strlit("module");
            assert("module"@ =~= kind_module());
        }
        str_eq(self.kind, "module")
    }
}

/// The dict an [`AppEntry`] is sent as: always `name`, `base_name`, `pname`,
/// `summary`, `version`, `kind`, `flatpak_preferred`, `variant_rank` and
/// `installed`; `app_name`, `app_id`, `group_id`, `icon`, `icon_name` only
/// when set; `score` only when positive.
pub open spec fn app_entry_dict(e: AppEntry) -> Seq<(Seq<char>, DictValueView)> {
    seq![("name"@, DictValueView::Str(e.name@)), ("base_name"@, DictValueView::Str(e.base_name@)), (
        "pname"@,
        DictValueView::Str(e.pname@),
    )] + opt_str_entry("app_name"@, e.app_name) + seq![
        ("summary"@, DictValueView::Str(e.summary@)),
        ("version"@, DictValueView::Str(e.version@)),
    ] + opt_str_entry("app_id"@, e.app_id) + opt_str_entry("group_id"@, e.group_id)
        + opt_str_entry("icon"@, e.icon) + opt_str_entry("icon_name"@, e.icon_name) + seq![
        ("kind"@, DictValueView::Str(e.kind@)),
        ("flatpak_preferred"@, DictValueView::Bool(e.flatpak_preferred)),
        ("variant_rank"@, DictValueView::I32(e.variant_rank)),
    ] + (if e.score > 0 {
        seq![("score"@, DictValueView::U32(e.score))]
    } else {
        Seq::empty()
    }) + seq![("installed"@, DictValueView::Bool(e.installed))]
}

/// The entry `key => value` when `value` is set, nothing otherwise.
pub open spec fn opt_str_entry(key: Seq<char>, value: Option<String>) -> Seq<(Seq<char>, DictValueView)> {
    match value {
        Some(v) => seq![(key, DictValueView::Str(v@))],
        None => Seq::empty(),
    }
}

/// The keys an [`AppEntry`] dict can hold before its `kind`.
pub open spec fn app_head_key(k: Seq<char>) -> bool {
    ||| k == "name"@
    ||| k == "base_name"@
    ||| k == "pname"@
    ||| k == "app_name"@
    ||| k == "summary"@
    ||| k == "version"@
    ||| k == "app_id"@
    ||| k == "group_id"@
    ||| k == "icon"@
    ||| k == "icon_name"@
}

/// The dict entries of a row from its `kind` on.
pub open spec fn app_tail_dict(kind: Seq<char>, flatpak_preferred: bool, variant_rank: i32, score: u32, installed: bool) -> Seq<
    (Seq<char>, DictValueView),
> {
    seq![
        ("kind"@, DictValueView::Str(kind)),
        ("flatpak_preferred"@, DictValueView::Bool(flatpak_preferred)),
        ("variant_rank"@, DictValueView::I32(variant_rank)),
    ] + (if score > 0 {
        seq![("score"@, DictValueView::U32(score))]
    } else {
        Seq::empty()
    }) + seq![("installed"@, DictValueView::Bool(installed))]
}

/// The keys an [`AppEntry`] dict can hold before its `app_id`.
pub open spec fn app_lead_key(k: Seq<char>) -> bool {
    ||| k == "name"@
    ||| k == "base_name"@
    ||| k == "pname"@
    ||| k == "app_name"@
    ||| k == "summary"@
    ||| k == "version"@
}

/// Appends the optional `app_id`, `group_id`, `icon` and `icon_name`
/// entries of a row to `d`, which holds only entries that come before them.
fn push_app_ids(
    d: &mut Dict,
    app_id: Option<String>,
    group_id: Option<String>,
    icon: Option<String>,
    icon_name: Option<String>,
)
    requires
        forall|k: Seq<char>| #[trigger] view_has_key(dict_view(*old(d)), k) ==> app_lead_key(k),
    ensures
        dict_view(*final(d)) == dict_view(*old(d)) + opt_str_entry("app_id"@, app_id) + opt_str_entry(
            "group_id"@,
            group_id,
        ) + opt_str_entry("icon"@, icon) + opt_str_entry("icon_name"@, icon_name),
        forall|k: Seq<char>| #[trigger] view_has_key(dict_view(*final(d)), k) ==> app_head_key(k),
{
    proof {
        lemma_dict_keys();
    }
    push_opt_str(d, "app_id", app_id);
    push_opt_str(d, "group_id", group_id);
    push_opt_str(d, "icon", icon);
    push_opt_str(d, "icon_name", icon_name);
}

/// Appends the entries of a row from its `kind` on to `d`, which holds only
/// entries that come before them.
fn push_app_tail(d: &mut Dict, kind: &str, flatpak_preferred: bool, variant_rank: i32, score: u32, installed: bool)
    requires
        forall|k: Seq<char>| #[trigger] view_has_key(dict_view(*old(d)), k) ==> app_head_key(k),
    ensures
        dict_view(*final(d)) == dict_view(*old(d)) + app_tail_dict(kind@, flatpak_preferred, variant_rank, score, installed),
{
    proof {
        lemma_dict_keys();
    }
    let ghost p3 = dict_view(*d);
    push_entry(d, "kind", DictValue::Str(owned(kind)));
    push_entry(d, "flatpak_preferred", DictValue::Bool(flatpak_preferred));
    push_entry(d, "variant_rank", DictValue::I32(variant_rank));
    let ghost p4 = dict_view(*d);
    if score > 0 {
        push_entry(d, "score", DictValue::U32(score));
    } else {
        assert(p4 + Seq::empty() =~= p4);
    }
    push_entry(d, "installed", DictValue::Bool(installed));
    assert(dict_view(*d) =~= p3 + app_tail_dict(kind@, flatpak_preferred, variant_rank, score, installed));
}

impl AppEntry {
    /// Serializes `self` into the dict sent over `org.modulix.Store1`; no key
    /// occurs twice.
    pub fn into_dict(self) -> (d: Dict)
        ensures
            dict_view(d) == app_entry_dict(self),
            view_keys_distinct(dict_view(d)),
    {
        let mut d = Dict::new();
        proof {
            lemma_dict_keys();
        }
        let ghost e = self;
        push_entry(&mut d, "name", DictValue::Str(self.name));
        push_entry(&mut d, "base_name", DictValue::Str(self.base_name));
        push_entry(&mut d, "pname", DictValue::Str(self.pname));
        assert(dict_view(d) =~= seq![("name"@, DictValueView::Str(e.name@)), ("base_name"@, DictValueView::Str(e.base_name@)), ("pname"@, DictValueView::Str(e.pname@))]);
        let ghost p1 = dict_view(d);
        push_opt_str(&mut d, "app_name", self.app_name);
        push_entry(&mut d, "summary", DictValue::Str(self.summary));
        push_entry(&mut d, "version", DictValue::Str(self.version));
        assert(dict_view(d) =~= p1 + opt_str_entry("app_name"@, e.app_name) + seq![("summary"@, DictValueView::Str(e.summary@)), ("version"@, DictValueView::Str(e.version@))]);
        push_app_ids(&mut d, self.app_id, self.group_id, self.icon, self.icon_name);
        push_app_tail(&mut d, self.kind, self.flatpak_preferred, self.variant_rank, self.score, self.installed);
        proof {
            assert(dict_view(d) =~= app_entry_dict(e));
            use_type_invariant(&d);
        }
        d
    }
}

/// Distinguishing suffix of a nix attribute within its pname group: `None`
/// when `attr` is `pname` itself; else the text after the last `.` when
/// `attr` is dotted; else the text after `pname`, leading `-`/`_` trimmed,
/// when `attr` starts with `pname`; else `attr` itself. `None` when that
/// text is empty.
pub open spec fn spec_variant_suffix(attr: Seq<char>, pname: Seq<char>) -> Option<Seq<char>> {
    let dot = last_index(attr, '.');
    if attr == pname {
        None
    } else if dot >= 0 {
        let tail = attr.skip(dot + 1);
        if tail.len() > 0 {
            Some(tail)
        } else {
            None
        }
    } else if has_prefix(attr, pname) {
        let rest = trim_seps(attr.skip(pname.len() as int));
        if rest.len() > 0 {
            Some(rest)
        } else {
            None
        }
    } else {
        Some(attr)
    }
}

/// Distinguishing suffix of `attr` within the group of `pname`:
/// `nvtopPackages.amd` gives `amd`, `nvtop-amd` gives `amd`, `firefox-esr`
/// gives `esr`; `None` when `attr` carries nothing over `pname`.
pub fn variant_suffix(attr: &str, pname: &str) -> (r: Option<String>)
    ensures
        opt_view(r) == spec_variant_suffix(attr@, pname@),
{
    if str_eq(attr, pname) {
        return None;
    }
    let n = attr.unicode_len();
    match find_last(attr, '.') {
        Some(i) => {
            if i + 1 < n {
                Some(slice_owned(attr, i + 1, n))
            } else {
                None
            }
        },
        None => {
            if starts_with(attr, pname) {
                let m = pname.unicode_len();
                let rest = attr.substring_char(m, n);
                let k = skip_leading_seps(rest);
                let rn = rest.unicode_len();
                if k < rn {
                    Some(slice_owned(rest, k, rn))
                } else {
                    None
                }
            } else {
                Some(owned(attr))
            }
        },
    }
}

/// `pname (suffix)` when `attr` has a suffix over `pname`, else `pname`.
pub open spec fn spec_variant_label(pname: Seq<char>, attr: Seq<char>) -> Seq<char> {
    match spec_variant_suffix(attr, pname) {
        Some(suffix) => pname + " ("@ + suffix + ")"@,
        None => pname,
    }
}

/// Display label for a stacked pname variant: `pname (suffix)`, or the bare
/// `pname` when `attr` has no distinguishing suffix.
pub fn variant_label(pname: &str, attr: &str) -> (r: String)
    ensures
        r@ == spec_variant_label(pname@, attr@),
{
    match variant_suffix(attr, pname) {
        Some(suffix) => {
            let mut out = owned(pname);
            out.append(" (");
            out.append(suffix.as_str());
            out.append(")");
            out
        },
        None => owned(pname),
    }
}

/// Rank of a suffix token within a variant group.
pub open spec fn suffix_rank(s: Seq<char>) -> i32 {
    if s == "bin"@ {
        10
    } else if s == "beta-bin"@ {
        30
    } else if s == "beta"@ {
        40
    } else if s == "nightly-bin"@ {
        50
    } else if s == "nightly"@ {
        60
    } else if s == "devedition-bin"@ {
        70
    } else if s == "devedition"@ {
        80
    } else if s == "esr-bin"@ {
        90
    } else if s == "esr"@ {
        100
    } else if s == "unwrapped"@ {
        800
    } else {
        900
    }
}

/// Rank of `attr` within the variant group of `base`: `20` without a suffix,
/// else the rank of its suffix.
pub open spec fn spec_variant_rank(attr: Seq<char>, base: Seq<char>) -> i32 {
    match spec_variant_suffix(attr, base) {
        None => 20,
        Some(s) => suffix_rank(s),
    }
}

/// Ordering rank of a nix attribute within its variant group: `20` for the
/// base attribute; `10` for `-bin`; `30`/`40` for `-beta-bin`/`-beta`;
/// `50`/`60` for `-nightly-bin`/`-nightly`; `70`/`80` for
/// `-devedition-bin`/`-devedition`; `90`/`100` for `-esr-bin`/`-esr`; `800`
/// for `-unwrapped`; `900` for any other suffix.
pub fn variant_rank(attr: &str, base: &str) -> (r: i32)
    ensures
        r == spec_variant_rank(attr@, base@),
{
    match variant_suffix(attr, base) {
        None => 20,
        Some(suffix) => {
            let s = suffix.as_str();
            if str_eq(s, "bin") {
                10
            } else if str_eq(s, "beta-bin") {
                30
            } else if str_eq(s, "beta") {
                40
            } else if str_eq(s, "nightly-bin") {
                50
            } else if str_eq(s, "nightly") {
                60
            } else if str_eq(s, "devedition-bin") {
                70
            } else if str_eq(s, "devedition") {
                80
            } else if str_eq(s, "esr-bin") {
                90
            } else if str_eq(s, "esr") {
                100
            } else if str_eq(s, "unwrapped") {
                800
            } else {
                900
            }
        },
    }
}

/// Attribute suffixes that name another build or edition of the same program,
/// for the themed-icon fallback only.
pub open spec fn is_icon_suffix(t: Seq<char>) -> bool {
    t == "bin"@ || t == "unwrapped"@ || t == "wrapped"@ || t == "stable"@ || t == "unstable"@
        || t == "git"@ || t == "nightly"@ || t == "beta"@ || t == "dev"@ || t == "devedition"@
        || t == "esr"@ || t == "fhs"@ || t == "appimage"@ || t == "electron"@ || t == "gtk"@
        || t == "gtk3"@ || t == "gtk4"@ || t == "qt"@ || t == "qt5"@ || t == "qt6"@
        || t == "wayland"@ || t == "x11"@ || t == "static"@ || t == "studio"@ || t == "free"@
        || t == "full"@ || t == "lite"@ || t == "minimal"@ || t == "pro"@ || t == "cli"@
        || t == "gui"@ || t == "desktop"@ || t == "community"@ || t == "enterprise"@
}

/// Whether `t` is one of the icon-fallback suffixes.
fn icon_suffix(t: &str) -> (r: bool)
    ensures
        r == is_icon_suffix(t@),
{
    str_eq(t, "bin") || str_eq(t, "unwrapped") || str_eq(t, "wrapped") || str_eq(t, "stable")
        || str_eq(t, "unstable") || str_eq(t, "git") || str_eq(t, "nightly") || str_eq(t, "beta")
        || str_eq(t, "dev") || str_eq(t, "devedition") || str_eq(t, "esr") || str_eq(t, "fhs")
        || str_eq(t, "appimage") || str_eq(t, "electron") || str_eq(t, "gtk") || str_eq(t, "gtk3")
        || str_eq(t, "gtk4") || str_eq(t, "qt") || str_eq(t, "qt5") || str_eq(t, "qt6")
        || str_eq(t, "wayland") || str_eq(t, "x11") || str_eq(t, "static") || str_eq(t, "studio")
        || str_eq(t, "free") || str_eq(t, "full") || str_eq(t, "lite") || str_eq(t, "minimal")
        || str_eq(t, "pro") || str_eq(t, "cli") || str_eq(t, "gui") || str_eq(t, "desktop")
        || str_eq(t, "community") || str_eq(t, "enterprise")
}

/// `base` with its trailing `-<suffix>`/`_<suffix>` tokens removed, one at a
/// time from the end, while the token is an icon-fallback suffix and what
/// remains is at least two characters long.
pub open spec fn strip_icon_suffixes(base: Seq<char>) -> Seq<char>
    decreases base.len(),
{
    let idx = last_sep(base);
    if idx < 0 || idx >= base.len() {
        base
    } else if !is_icon_suffix(base.skip(idx + 1)) || idx < 2 {
        base
    } else {
        strip_icon_suffixes(base.take(idx))
    }
}

/// `None` for a dotted attribute or when nothing was stripped, else the
/// stripped attribute.
pub open spec fn spec_icon_base_name(attr: Seq<char>) -> Option<Seq<char>> {
    if attr.contains('.') {
        None
    } else {
        let base = strip_icon_suffixes(attr);
        if base != attr {
            Some(base)
        } else {
            None
        }
    }
}

/// Strips trailing known edition suffixes from a nix attribute, for the
/// themed-icon fallback: `davinci-resolve-studio` gives `davinci-resolve`,
/// `firefox-esr-unwrapped` gives `firefox`.
pub fn icon_base_name(attr: &str) -> (r: Option<String>)
    ensures
        opt_view(r) == spec_icon_base_name(attr@),
{
    if contains_char(attr, '.') {
        return None;
    }
    let mut base: &str = attr;
    loop
        invariant
            strip_icon_suffixes(attr@) == strip_icon_suffixes(base@),
        ensures
            strip_icon_suffixes(attr@) == base@,
        decreases base@.len(),
    {
        match find_last_sep(base) {
            None => {
                break;
            },
            Some(idx) => {
                let n = base.unicode_len();
                let token = base.substring_char(idx + 1, n);
                proof {
                    assert(token@ =~= base@.skip(idx + 1));
                }
                if !icon_suffix(token) {
                    break;
                }
                let candidate = base.substring_char(0, idx);
                proof {
                    assert(candidate@ =~= base@.take(idx as int));
                }
                if idx < 2 {
                    break;
                }
                base = candidate;
            },
        }
    }
    if str_eq(base, attr) {
        None
    } else {
        Some(owned(base))
    }
}

/// `a` sorts before `b` when picking a group's base attribute: shorter in
/// bytes first, byte order breaking ties.
pub open spec fn attr_before(a: Seq<char>, b: Seq<char>) -> bool {
    byte_len(a) < byte_len(b) || (byte_len(a) == byte_len(b) && str_lt(a, b))
}

proof fn lemma_attr_before_transitive(a: Seq<char>, b: Seq<char>, c: Seq<char>)
    requires
        attr_before(a, b),
        attr_before(b, c),
    ensures
        attr_before(a, c),
{
    if byte_len(a) == byte_len(b) && byte_len(b) == byte_len(c) {
        lemma_bytes_lt_transitive(encode_utf8(a), encode_utf8(b), encode_utf8(c));
    }
}

fn attr_less(a: &str, b: &str) -> (r: bool)
    ensures
        r == attr_before(a@, b@),
{
    let la = a.as_bytes().len();
    let lb = b.as_bytes().len();
    la < lb || (la == lb && str_less(a, b))
}

/// The first of the attributes that no other sorts before, scanning from
/// the left; empty for no attribute.
pub open spec fn min_attr(attrs: Seq<Seq<char>>) -> Seq<char>
    decreases attrs.len(),
{
    if attrs.len() == 0 {
        Seq::empty()
    } else if attrs.len() == 1 {
        attrs[0]
    } else {
        let m = min_attr(attrs.drop_last());
        if attr_before(attrs.last(), m) {
            attrs.last()
        } else {
            m
        }
    }
}

/// The views of a slice of string slices.
pub open spec fn strs_view(attrs: Seq<&str>) -> Seq<Seq<char>> {
    attrs.map_values(|a: &str| a@)
}

/// The base nix attribute of a group of variants: the shortest attribute,
/// byte order breaking ties; `""` when `attrs` is empty.
pub fn base_attr<'a>(attrs: &[&'a str]) -> (r: &'a str)
    ensures
        r@ == min_attr(strs_view(attrs@)),
        attrs@.len() == 0 ==> r@.len() == 0,
        attrs@.len() > 0 ==> (exists|k: int| 0 <= k < attrs@.len() && r@ == #[trigger] attrs@[k]@),
        forall|j: int| 0 <= j < attrs@.len() ==> !attr_before(#[trigger] attrs@[j]@, r@),
{
    if attrs.len() == 0 {
        proof {
            reveal_strlit("");
        }
        return "";
    }
    let mut best: &'a str = attrs[0];
    let ghost mut kb: int = 0;
    let mut i: usize = 1;
    proof {
        lemma_bytes_lt_irreflexive(encode_utf8(attrs@[0]@));
        assert(strs_view(attrs@.take(1)) =~= seq![attrs@[0]@]);
    }
    while i < attrs.len()
        invariant
            1 <= i <= attrs@.len(),
            0 <= kb < attrs@.len(),
            best@ == attrs@[kb]@,
            best@ == min_attr(strs_view(attrs@.take(i as int))),
            forall|j: int| 0 <= j < i ==> !attr_before(#[trigger] attrs@[j]@, best@),
        decreases attrs.len() - i,
    {
        proof {
            assert(strs_view(attrs@.take(i + 1)).drop_last() =~= strs_view(attrs@.take(i as int)));
        }
        if attr_less(attrs[i], best) {
            proof {
                assert forall|j: int| 0 <= j < i implies !attr_before(#[trigger] attrs@[j]@, attrs@[i as int]@) by {
                    if attr_before(attrs@[j]@, attrs@[i as int]@) {
                        lemma_attr_before_transitive(attrs@[j]@, attrs@[i as int]@, best@);
                    }
                }
                lemma_bytes_lt_irreflexive(encode_utf8(attrs@[i as int]@));
                kb = i as int;
            }
            best = attrs[i];
        } else {
        }
        i = i + 1;
    }
    proof {
        assert(attrs@.take(attrs@.len() as int) =~= attrs@);
    }
    best
}

/// The grouping key of a row, taken by its view.
pub open spec fn gid_view(e: AppEntry) -> Option<Seq<char>> {
    opt_view(e.group_id)
}

/// Entry `i` of `s` opens an output row: it has no group, or no earlier entry
/// shares its group.
pub open spec fn opens_row(s: Seq<AppEntry>, i: int) -> bool {
    gid_view(s[i]) is None || forall|j: int| 0 <= j < i ==> gid_view(#[trigger] s[j]) != gid_view(s[i])
}

/// Indices, in increasing order, of the entries among the first `n` that
/// open an output row.
pub open spec fn row_starts(s: Seq<AppEntry>, n: int) -> Seq<int>
    decreases n,
{
    if n <= 0 {
        Seq::empty()
    } else {
        row_starts(s, n - 1) + if opens_row(s, n - 1) {
            seq![n - 1]
        } else {
            Seq::empty()
        }
    }
}

/// First index at or after `j` of an installed entry of group `g`, or `-1`.
pub open spec fn first_installed_from(s: Seq<AppEntry>, g: Option<Seq<char>>, j: int) -> int
    decreases s.len() - j,
{
    if j < 0 || j >= s.len() {
        -1
    } else if gid_view(s[j]) == g && s[j].installed {
        j
    } else {
        first_installed_from(s, g, j + 1)
    }
}

/// The entry that represents the row opened by entry `i`: itself when it has
/// no group; else the first installed entry of its group if there is one,
/// else itself (the first entry of its group).
pub open spec fn row_winner(s: Seq<AppEntry>, i: int) -> int {
    if gid_view(s[i]) is None {
        i
    } else {
        let f = first_installed_from(s, gid_view(s[i]), i);
        if f >= 0 {
            f
        } else {
            i
        }
    }
}

/// One entry per distinct group plus every ungrouped entry, in order of first
/// appearance, each group represented by its first installed entry, or by its
/// first entry when none is installed.
pub open spec fn spec_dedup_by_group(s: Seq<AppEntry>) -> Seq<AppEntry> {
    row_starts(s, s.len() as int).map_values(|i: int| s[row_winner(s, i)])
}

fn opens_row_at(entries: &Vec<AppEntry>, i: usize) -> (r: bool)
    requires
        i < entries@.len(),
    ensures
        r == opens_row(entries@, i as int),
{
    if entries[i].group_id.is_none() {
        return true;
    }
    let mut j: usize = 0;
    while j < i
        invariant
            i < entries@.len(),
            j <= i,
            gid_view(entries@[i as int]) is Some,
            forall|k: int| 0 <= k < j ==> gid_view(#[trigger] entries@[k]) != gid_view(entries@[i as int]),
        decreases i - j,
    {
        if opt_eq(&entries[j].group_id, &entries[i].group_id) {
            return false;
        }
        j = j + 1;
    }
    true
}

fn winner_at(entries: &Vec<AppEntry>, i: usize) -> (r: usize)
    requires
        i < entries@.len(),
    ensures
        r == row_winner(entries@, i as int),
        r < entries@.len(),
{
    if entries[i].group_id.is_none() {
        return i;
    }
    let ghost g = gid_view(entries@[i as int]);
    let mut j: usize = i;
    while j < entries.len()
        invariant
            i <= j <= entries@.len(),
            g == gid_view(entries@[i as int]),
            g is Some,
            first_installed_from(entries@, g, i as int) == first_installed_from(entries@, g, j as int),
        decreases entries.len() - j,
    {
        if entries[j].installed && opt_eq(&entries[j].group_id, &entries[i].group_id) {
            proof {
                assert(gid_view(entries@[j as int]) == g);
                assert(first_installed_from(entries@, g, j as int) == j);
                assert(gid_view(entries@[i as int]) is Some);
                assert(first_installed_from(entries@, g, i as int) == j);
            }
            return j;
        }
        j = j + 1;
    }
    i
}

/// Collapses variants sharing a grouping key into one row; ungrouped entries
/// are kept individually. An installed variant represents its group,
/// otherwise the first entry of the group does; rows keep the order in which
/// their groups first appear.
pub fn dedup_by_group(entries: Vec<AppEntry>) -> (r: Vec<AppEntry>)
    ensures
        r@ == spec_dedup_by_group(entries@),
{
    let n = entries.len();
    let mut starts: Vec<usize> = Vec::new();
    let mut i: usize = 0;
    while i < n
        invariant
            n == entries@.len(),
            i <= n,
            starts@.map_values(|x: usize| x as int) == row_starts(entries@, i as int),
            forall|k: int| 0 <= k < starts@.len() ==> #[trigger] starts@[k] < i,
        decreases n - i,
    {
        let ghost before = starts@;
        if opens_row_at(&entries, i) {
            starts.push(i);
        }
        proof {
            assert(starts@.map_values(|x: usize| x as int) =~= row_starts(entries@, i + 1));
        }
        i = i + 1;
    }
    let ghost rows = row_starts(entries@, n as int);
    let mut out: Vec<AppEntry> = Vec::new();
    let mut k: usize = 0;
    while k < starts.len()
        invariant
            n == entries@.len(),
            starts@.map_values(|x: usize| x as int) == rows,
            rows == row_starts(entries@, n as int),
            forall|m: int| 0 <= m < starts@.len() ==> #[trigger] starts@[m] < n,
            k <= starts@.len(),
            out@ == rows.take(k as int).map_values(|i: int| entries@[row_winner(entries@, i)]),
        decreases starts.len() - k,
    {
        let w = winner_at(&entries, starts[k]);
        out.push(entries[w].duplicate());
        proof {
            assert(rows[k as int] == starts@[k as int] as int);
            assert(out@ =~= rows.take(k + 1).map_values(|i: int| entries@[row_winner(entries@, i)]));
        }
        k = k + 1;
    }
    proof {
        assert(rows.take(starts@.len() as int) =~= rows);
    }
    out
}

/// Client-visible ordering key of a row: modules first, then by variant rank,
/// then by name.
pub fn alt_sort_key(e: &AppEntry) -> (r: (u8, i32, &str))
    ensures
        r.0 == (if e.kind@ == kind_module() { 0u8 } else { 1u8 }),
        r.1 == e.variant_rank,
        r.2@ == e.name@,
{
    (if e.is_module() { 0 } else { 1 }, e.variant_rank, e.name.as_str())
}

/// One module-plugin (addon) row. Sent as a dict by [`PluginEntry::into_dict`].
#[derive(Clone, Debug)]
pub struct PluginEntry {
    /// Plugin identifier, the install identifier of this addon.
    pub name: String,
    /// Human-readable description.
    pub description: String,
    /// Whether the plugin is in the module's configured plugin list.
    pub installed: bool,
    /// The module the plugin belongs to, on listings that span modules.
    pub module: Option<String>,
}

/// The dict a [`PluginEntry`] is sent as: always `name`, `description` and
/// `installed`; `module` only when set.
pub open spec fn plugin_entry_dict(e: PluginEntry) -> Seq<(Seq<char>, DictValueView)> {
    seq![
        ("name"@, DictValueView::Str(e.name@)),
        ("description"@, DictValueView::Str(e.description@)),
        ("installed"@, DictValueView::Bool(e.installed)),
    ] + opt_str_entry("module"@, e.module)
}

impl PluginEntry {
    /// A field-by-field copy.
    pub fn duplicate(&self) -> (r: PluginEntry)
        ensures
            r == *self,
    {
        PluginEntry {
            name: self.name.clone(),
            description: self.description.clone(),
            installed: self.installed,
            module: copy_opt(&self.module),
        }
    }

    /// Serializes `self` into the dict sent over `org.modulix.Store1`.
    pub fn into_dict(self) -> (d: Dict)
        ensures
            dict_view(d) == plugin_entry_dict(self),
            view_keys_distinct(dict_view(d)),
    {
        let ghost e = self;
        let mut d = Dict::new();
        proof {
            lemma_dict_keys();
        }
        push_entry(&mut d, "name", DictValue::Str(self.name));
        push_entry(&mut d, "description", DictValue::Str(self.description));
        push_entry(&mut d, "installed", DictValue::Bool(self.installed));
        push_opt_str(&mut d, "module", self.module);
        proof {
            assert(dict_view(d) =~= plugin_entry_dict(e));
            use_type_invariant(&d);
        }
        d
    }
}

/// Store-fetched app enrichment (Flathub metadata that nixpkgs lacks). Sent
/// as a dict by [`EnrichEntry::into_dict`].
#[derive(Clone)]
pub struct EnrichEntry {
    /// HTML app description.
    pub description: Option<String>,
    /// Screenshot rows.
    pub screenshots: Vec<ShotTuple>,
    /// Flathub icon URL.
    pub icon: Option<String>,
    /// Themed icon name.
    pub icon_name: Option<String>,
    /// SPDX expression (or `LicenseRef-*`).
    pub license: Option<String>,
}

/// The dict an [`EnrichEntry`] is sent as: `description`, `icon`,
/// `icon_name`, `license` when set, `screenshots` when non-empty.
pub open spec fn enrich_entry_dict(e: EnrichEntry) -> Seq<(Seq<char>, DictValueView)> {
    opt_str_entry("description"@, e.description) + (if e.screenshots@.len() > 0 {
        seq![
            ("screenshots"@, DictValueView::Shots(
                e.screenshots@.map_values(|t: ShotTuple| shot_view(t)),
            )),
        ]
    } else {
        Seq::empty()
    }) + opt_str_entry("icon"@, e.icon) + opt_str_entry("icon_name"@, e.icon_name) + opt_str_entry(
        "license"@,
        e.license,
    )
}

impl EnrichEntry {
    /// Serializes `self` into the dict sent over `org.modulix.Store1`.
    pub fn into_dict(self) -> (d: Dict)
        ensures
            dict_view(d) == enrich_entry_dict(self),
            view_keys_distinct(dict_view(d)),
    {
        let ghost e = self;
        let mut d = Dict::new();
        proof {
            lemma_dict_keys();
        }
        push_opt_str(&mut d, "description", self.description);
        let ghost p1 = dict_view(d);
        if self.screenshots.len() > 0 {
            push_entry(&mut d, "screenshots", DictValue::Shots(self.screenshots));
        } else {
            assert(p1 + Seq::empty() =~= p1);
        }
        push_opt_str(&mut d, "icon", self.icon);
        push_opt_str(&mut d, "icon_name", self.icon_name);
        push_opt_str(&mut d, "license", self.license);
        proof {
            assert(dict_view(d) =~= enrich_entry_dict(e));
            use_type_invariant(&d);
        }
        d
    }
}

/// One sized image of a screenshot.
pub struct ScreenshotImage {
    pub url: String,
    pub width: u32,
    pub height: u32,
}

/// One screenshot, in every size the source offers.
pub struct SizedScreenshot {
    pub caption: String,
    pub images: Vec<ScreenshotImage>,
}

/// An app's screenshot set; `default` is the index of the default one.
pub struct ScreenshotSet {
    pub default: usize,
    pub screenshots: Vec<SizedScreenshot>,
}

/// The row sent for screenshot `i` of `set`.
pub open spec fn shot_row(set: ScreenshotSet, i: int) -> ShotView {
    (
        set.screenshots@[i].caption@,
        i == set.default,
        set.screenshots@[i].images@.map_values(|img: ScreenshotImage| (img.url@, img.width, img.height)),
    )
}

fn collect_images(images: &Vec<ScreenshotImage>) -> (r: Vec<(String, u32, u32)>)
    ensures
        r@.map_values(|img: (String, u32, u32)| (img.0@, img.1, img.2)) == images@.map_values(
            |img: ScreenshotImage| (img.url@, img.width, img.height),
        ),
{
    let mut out: Vec<(String, u32, u32)> = Vec::new();
    let mut j: usize = 0;
    while j < images.len()
        invariant
            j <= images@.len(),
            out@.len() == j,
            forall|m: int|
                0 <= m < j ==> (#[trigger] out@[m]).0@ == images@[m].url@ && out@[m].1 == images@[m].width
                    && out@[m].2 == images@[m].height,
        decreases images.len() - j,
    {
        let img = &images[j];
        out.push((img.url.clone(), img.width, img.height));
        j = j + 1;
    }
    assert(out@.map_values(|img: (String, u32, u32)| (img.0@, img.1, img.2)) =~= images@.map_values(
        |img: ScreenshotImage| (img.url@, img.width, img.height),
    ));
    out
}

/// Screenshot rows for a source app's screenshot set, in source order;
/// `is_default` holds exactly for the row at the set's default index. Empty
/// when there is no set.
pub fn collect_screenshots(shot: Option<&ScreenshotSet>) -> (r: Vec<ShotTuple>)
    ensures
        match shot {
            None => r@.len() == 0,
            Some(set) => r@.map_values(|t: ShotTuple| shot_view(t)) == Seq::new(
                set.screenshots@.len(),
                |i: int| shot_row(*set, i),
            ),
        },
{
    let set = match shot {
        None => {
            return Vec::new();
        },
        Some(set) => set,
    };
    let mut out: Vec<ShotTuple> = Vec::new();
    let mut i: usize = 0;
    while i < set.screenshots.len()
        invariant
            i <= set.screenshots@.len(),
            out@.len() == i,
            forall|m: int| 0 <= m < i ==> shot_view(#[trigger] out@[m]) == shot_row(*set, m),
        decreases set.screenshots.len() - i,
    {
        let sized = &set.screenshots[i];
        let images = collect_images(&sized.images);
        out.push((sized.caption.clone(), i == set.default, images));
        i = i + 1;
    }
    assert(out@.map_values(|t: ShotTuple| shot_view(t)) =~= Seq::new(
        set.screenshots@.len(),
        |i: int| shot_row(*set, i),
    ));
    out
}

/// An [`AppEntry`] with its strings taken by their view.
pub struct AppEntryView {
    pub name: Seq<char>,
    pub base_name: Seq<char>,
    pub pname: Seq<char>,
    pub app_name: Option<Seq<char>>,
    pub summary: Seq<char>,
    pub version: Seq<char>,
    pub app_id: Option<Seq<char>>,
    pub group_id: Option<Seq<char>>,
    pub icon: Option<Seq<char>>,
    pub icon_name: Option<Seq<char>>,
    pub kind: Seq<char>,
    pub flatpak_preferred: bool,
    pub variant_rank: i32,
    pub score: u32,
    pub installed: bool,
}

impl View for AppEntry {
    type V = AppEntryView;

    open spec fn view(&self) -> AppEntryView {
        AppEntryView {
            name: self.name@,
            base_name: self.base_name@,
            pname: self.pname@,
            app_name: opt_view(self.app_name),
            summary: self.summary@,
            version: self.version@,
            app_id: opt_view(self.app_id),
            group_id: opt_view(self.group_id),
            icon: opt_view(self.icon),
            icon_name: opt_view(self.icon_name),
            kind: self.kind@,
            flatpak_preferred: self.flatpak_preferred,
            variant_rank: self.variant_rank,
            score: self.score,
            installed: self.installed,
        }
    }
}

/// The icon fallback of an attribute: its stripped form, else itself.
pub open spec fn base_name_of(attr: Seq<char>) -> Seq<char> {
    match spec_icon_base_name(attr) {
        Some(b) => b,
        None => attr,
    }
}

fn base_name_for(attr: &str) -> (r: String)
    ensures
        r@ == base_name_of(attr@),
{
    match icon_base_name(attr) {
        Some(b) => b,
        None => owned(attr),
    }
}

/// What a resolved nix package reports of itself.
pub struct PackageFacts {
    /// The nixpkgs attribute.
    pub package_name: String,
    /// The package's pname.
    pub display_name: String,
    /// The AppStream id the package is known to provide, if any.
    pub id: Option<String>,
    /// The Flatpak/AppStream display name, if known.
    pub app_name: Option<String>,
    pub summary: String,
    pub version: String,
    pub icon: Option<String>,
    pub icon_name: Option<String>,
}

/// What a Modulix module reports of itself.
pub struct ModuleFacts {
    /// The module key.
    pub package_name: String,
    /// The module's own display name.
    pub display_name: String,
    /// The AppStream id the module targets, if any.
    pub id: Option<String>,
    pub summary: String,
    /// Icon, populated once the module has been resolved.
    pub icon: Option<String>,
    pub icon_name: Option<String>,
}

/// The grouping key of a package: its app id when known, else its pname when
/// non-empty, else its attribute.
pub open spec fn package_group(pkg: PackageFacts) -> Option<Seq<char>> {
    match pkg.id {
        Some(id) => Some(id@),
        None => if pkg.display_name@.len() > 0 {
            Some(pkg.display_name@)
        } else {
            Some(pkg.package_name@)
        },
    }
}

/// The row of a resolved nix package.
pub open spec fn package_row(pkg: PackageFacts, score: u32, id_flatpak_preferred: bool) -> AppEntryView {
    AppEntryView {
        name: pkg.package_name@,
        base_name: base_name_of(pkg.package_name@),
        pname: pkg.display_name@,
        app_name: opt_view(pkg.app_name),
        summary: pkg.summary@,
        version: pkg.version@,
        app_id: opt_view(pkg.id),
        group_id: package_group(pkg),
        icon: opt_view(pkg.icon),
        icon_name: opt_view(pkg.icon_name),
        kind: kind_package(),
        flatpak_preferred: pkg.id is Some && id_flatpak_preferred,
        variant_rank: spec_variant_rank(pkg.package_name@, pkg.display_name@),
        score: score,
        installed: false,
    }
}

/// Builds the row (`kind: "package"`) of a resolved nix package.
/// `id_flatpak_preferred` is whether the curated table prefers the Flatpak
/// for the package's app id; it is ignored for a package without one.
/// `installed` is left `false`, for the caller to stamp.
pub fn package_entry(pkg: &PackageFacts, score: u32, id_flatpak_preferred: bool) -> (r: AppEntry)
    ensures
        r@ == package_row(*pkg, score, id_flatpak_preferred),
{
    let app_id = copy_opt(&pkg.id);
    let flatpak_preferred = app_id.is_some() && id_flatpak_preferred;
    let name = pkg.package_name.clone();
    let pname = pkg.display_name.clone();
    let group_id = match &app_id {
        Some(id) => Some(id.clone()),
        None => if pname.unicode_len() > 0 {
            Some(pname.clone())
        } else {
            Some(name.clone())
        },
    };
    let rank = variant_rank(name.as_str(), pname.as_str());
    let base_name = base_name_for(name.as_str());
    proof {
        reveal_strlit("package");
        assert("package"@ =~= kind_package());
    }
    AppEntry {
        base_name,
        name,
        pname,
        app_name: copy_opt(&pkg.app_name),
        summary: pkg.summary.clone(),
        version: pkg.version.clone(),
        app_id,
        group_id,
        icon: copy_opt(&pkg.icon),
        icon_name: copy_opt(&pkg.icon_name),
        kind: "package",
        flatpak_preferred,
        variant_rank: rank,
        score,
        installed: false,
    }
}

/// The row of a Modulix module; `id_app_name` is the table's Flatpak name
/// for the module's app id.
pub open spec fn module_row(module: ModuleFacts, score: u32, id_app_name: Option<Seq<char>>) -> AppEntryView {
    AppEntryView {
        name: module.package_name@,
        base_name: module.package_name@,
        pname: if module.id is Some && id_app_name is Some {
            id_app_name->0
        } else {
            module.display_name@
        },
        app_name: None,
        summary: module.summary@,
        version: Seq::empty(),
        app_id: opt_view(module.id),
        group_id: opt_view(module.id),
        icon: opt_view(module.icon),
        icon_name: opt_view(module.icon_name),
        kind: kind_module(),
        flatpak_preferred: false,
        variant_rank: 0,
        score: score,
        installed: false,
    }
}

/// Builds the row (`kind: "module"`) of a Modulix module. `id_app_name` is
/// the Flatpak/AppStream name the curated table gives the module's app id;
/// it is ignored for a module without one. `installed` is left `false`.
pub fn module_entry(module: &ModuleFacts, score: u32, id_app_name: Option<&str>) -> (r: AppEntry)
    ensures
        r@ == module_row(
            *module,
            score,
            match id_app_name {
                Some(n) => Some(n@),
                None => None,
            },
        ),
{
    let app_id = copy_opt(&module.id);
    let pname = match (&app_id, id_app_name) {
        (Some(_), Some(n)) => owned(n),
        _ => module.display_name.clone(),
    };
    proof {
        reveal_strlit("module");
        reveal_strlit("");
        assert("module"@ =~= kind_module());
    }
    AppEntry {
        name: module.package_name.clone(),
        base_name: module.package_name.clone(),
        pname,
        app_name: None,
        summary: module.summary.clone(),
        version: String::new(),
        group_id: copy_opt(&app_id),
        app_id,
        icon: copy_opt(&module.icon),
        icon_name: copy_opt(&module.icon_name),
        kind: "module",
        flatpak_preferred: false,
        variant_rank: 0,
        score,
        installed: false,
    }
}

/// The popover row of a module targeting `app_id`: no icon, no score.
pub open spec fn module_popover_row(app_id: Seq<char>, module: ModuleFacts, flatpak_name: Option<Seq<char>>) -> AppEntryView {
    AppEntryView {
        name: module.package_name@,
        base_name: module.package_name@,
        pname: match flatpak_name {
            Some(n) => n,
            None => module.display_name@,
        },
        app_name: None,
        summary: module.summary@,
        version: Seq::empty(),
        app_id: Some(app_id),
        group_id: Some(app_id),
        icon: None,
        icon_name: opt_view(module.icon_name),
        kind: kind_module(),
        flatpak_preferred: false,
        variant_rank: 0,
        score: 0,
        installed: false,
    }
}

/// The views of a list of rows.
pub open spec fn rows_view(rows: Seq<AppEntry>) -> Seq<AppEntryView> {
    rows.map_values(|e: AppEntry| e@)
}

/// The optional view of an optional `&str`.
pub open spec fn opt_str_view(s: Option<&str>) -> Option<Seq<char>> {
    match s {
        Some(x) => Some(x@),
        None => None,
    }
}

/// The module rows of the alternate-sources list for `app_id`: one per
/// module, in order, each named after `flatpak_name` (the table's Flatpak
/// name for `app_id`) when known, else after the module itself.
pub fn module_rows_for_app_id(app_id: &str, modules: &Vec<ModuleFacts>, flatpak_name: Option<&str>) -> (r:
    Vec<AppEntry>)
    ensures
        rows_view(r@) == Seq::new(
            modules@.len(),
            |i: int| module_popover_row(app_id@, modules@[i], opt_str_view(flatpak_name)),
        ),
{
    let mut out: Vec<AppEntry> = Vec::new();
    let mut i: usize = 0;
    proof {
        reveal_strlit("module");
        reveal_strlit("");
        assert("module"@ =~= kind_module());
    }
    while i < modules.len()
        invariant
            i <= modules@.len(),
            out@.len() == i,
            "module"@ == kind_module(),
            ""@ == Seq::<char>::empty(),
            forall|m: int|
                0 <= m < i ==> (#[trigger] out@[m])@ == module_popover_row(
                    app_id@,
                    modules@[m],
                    opt_str_view(flatpak_name),
                ),
        decreases modules.len() - i,
    {
        let module = &modules[i];
        let pname = match flatpak_name {
            Some(n) => owned(n),
            None => module.display_name.clone(),
        };
        out.push(
            AppEntry {
                name: module.package_name.clone(),
                base_name: module.package_name.clone(),
                pname,
                app_name: None,
                summary: module.summary.clone(),
                version: String::new(),
                app_id: Some(owned(app_id)),
                group_id: Some(owned(app_id)),
                icon: None,
                icon_name: copy_opt(&module.icon_name),
                kind: "module",
                flatpak_preferred: false,
                variant_rank: 0,
                score: 0,
                installed: false,
            },
        );
        i = i + 1;
    }
    assert(rows_view(out@) =~= Seq::new(
        modules@.len(),
        |i: int| module_popover_row(app_id@, modules@[i], opt_str_view(flatpak_name)),
    ));
    out
}

/// A curated nix attribute mapped to an app id, with what the curated table
/// says of it.
pub struct TableAttr {
    /// The nixpkgs attribute.
    pub attr: String,
    /// The table's display name for the attribute.
    pub app_name: Option<String>,
    /// The table's themed icon name for the attribute.
    pub icon_name: Option<String>,
}

/// The row of a curated attribute of the app-id group `gid`, whose base
/// attribute is `base`.
pub open spec fn table_row(gid: Seq<char>, t: TableAttr, base: Seq<char>, flatpak_preferred: bool) -> AppEntryView {
    AppEntryView {
        name: t.attr@,
        base_name: base_name_of(t.attr@),
        pname: t.attr@,
        app_name: opt_view(t.app_name),
        summary: Seq::empty(),
        version: Seq::empty(),
        app_id: Some(gid),
        group_id: Some(gid),
        icon: None,
        icon_name: opt_view(t.icon_name),
        kind: kind_package(),
        flatpak_preferred: flatpak_preferred,
        variant_rank: spec_variant_rank(t.attr@, base),
        score: 0,
        installed: false,
    }
}

/// The attributes of a table, by view.
pub open spec fn table_attrs_view(table: Seq<TableAttr>) -> Seq<Seq<char>> {
    table.map_values(|t: TableAttr| t.attr@)
}

/// The rows of the curated attributes of app-id group `gid`, in table order.
pub open spec fn table_rows_spec(gid: Seq<char>, table: Seq<TableAttr>, flatpak_preferred: bool) -> Seq<AppEntryView> {
    Seq::new(
        table.len(),
        |i: int| table_row(gid, table[i], min_attr(table_attrs_view(table)), flatpak_preferred),
    )
}

/// The rows of the curated attributes of the app-id group `gid`; ranks are
/// taken against the group's base attribute (see [`base_attr`]).
pub fn table_rows(gid: &str, table: &Vec<TableAttr>, flatpak_preferred: bool) -> (r: Vec<AppEntry>)
    ensures
        rows_view(r@) == table_rows_spec(gid@, table@, flatpak_preferred),
{
    let mut names: Vec<&str> = Vec::new();
    let mut i: usize = 0;
    while i < table.len()
        invariant
            i <= table@.len(),
            strs_view(names@) == table_attrs_view(table@.take(i as int)),
        decreases table.len() - i,
    {
        let a = table[i].attr.as_str();
        let ghost old_names = names@;
        names.push(a);
        proof {
            assert(names@ == old_names.push(a));
            assert(table_attrs_view(table@.take(i + 1)) =~= table_attrs_view(table@.take(i as int)).push(
                table@[i as int].attr@,
            ));
            assert(strs_view(names@) =~= table_attrs_view(table@.take(i + 1)));
        }
        i = i + 1;
    }
    proof {
        assert(table@.take(table@.len() as int) =~= table@);
    }
    let base = base_attr(names.as_slice());
    proof {
        reveal_strlit("package");
        reveal_strlit("");
        assert("package"@ =~= kind_package());
    }
    let mut out: Vec<AppEntry> = Vec::new();
    let mut k: usize = 0;
    while k < table.len()
        invariant
            k <= table@.len(),
            out@.len() == k,
            base@ == min_attr(table_attrs_view(table@)),
            "package"@ == kind_package(),
            ""@ == Seq::<char>::empty(),
            forall|m: int|
                0 <= m < k ==> (#[trigger] out@[m])@ == table_row(gid@, table@[m], base@, flatpak_preferred),
        decreases table.len() - k,
    {
        let t = &table[k];
        let attr = t.attr.as_str();
        out.push(
            AppEntry {
                name: owned(attr),
                base_name: base_name_for(attr),
                pname: owned(attr),
                app_name: copy_opt(&t.app_name),
                summary: String::new(),
                version: String::new(),
                app_id: Some(owned(gid)),
                group_id: Some(owned(gid)),
                icon: None,
                icon_name: copy_opt(&t.icon_name),
                kind: "package",
                flatpak_preferred,
                variant_rank: variant_rank(attr, base),
                score: 0,
                installed: false,
            },
        );
        k = k + 1;
    }
    assert(rows_view(out@) =~= table_rows_spec(gid@, table@, flatpak_preferred));
    out
}

/// The row of a package found by a live search for the pname group `gid`.
pub open spec fn pname_row(gid: Seq<char>, p: PackageFacts) -> AppEntryView {
    AppEntryView {
        name: p.package_name@,
        base_name: base_name_of(p.package_name@),
        pname: spec_variant_label(gid, p.package_name@),
        app_name: None,
        summary: p.summary@,
        version: p.version@,
        app_id: None,
        group_id: Some(gid),
        icon: None,
        icon_name: opt_view(p.icon_name),
        kind: kind_package(),
        flatpak_preferred: false,
        variant_rank: spec_variant_rank(p.package_name@, gid),
        score: 0,
        installed: false,
    }
}

/// The rows, in search order, of the searched packages whose pname is `gid`.
pub open spec fn pname_rows_spec(gid: Seq<char>, pkgs: Seq<PackageFacts>) -> Seq<AppEntryView>
    decreases pkgs.len(),
{
    if pkgs.len() == 0 {
        Seq::empty()
    } else {
        pname_rows_spec(gid, pkgs.drop_last()) + if pkgs.last().display_name@ == gid {
            seq![pname_row(gid, pkgs.last())]
        } else {
            Seq::empty()
        }
    }
}

/// The rows of a pname group `gid` found by a live search: every searched
/// package whose pname is exactly `gid`, labelled by its variant suffix.
pub fn pname_rows(gid: &str, pkgs: &Vec<PackageFacts>) -> (r: Vec<AppEntry>)
    ensures
        rows_view(r@) == pname_rows_spec(gid@, pkgs@),
{
    let mut out: Vec<AppEntry> = Vec::new();
    let mut i: usize = 0;
    proof {
        reveal_strlit("package");
        assert("package"@ =~= kind_package());
    }
    while i < pkgs.len()
        invariant
            i <= pkgs@.len(),
            "package"@ == kind_package(),
            rows_view(out@) == pname_rows_spec(gid@, pkgs@.take(i as int)),
        decreases pkgs.len() - i,
    {
        let p = &pkgs[i];
        proof {
            assert(pkgs@.take(i + 1).drop_last() =~= pkgs@.take(i as int));
        }
        if str_eq(p.display_name.as_str(), gid) {
            let attr = p.package_name.as_str();
            out.push(
                AppEntry {
                    name: owned(attr),
                    base_name: base_name_for(attr),
                    pname: variant_label(gid, attr),
                    app_name: None,
                    summary: p.summary.clone(),
                    version: p.version.clone(),
                    app_id: None,
                    group_id: Some(owned(gid)),
                    icon: None,
                    icon_name: copy_opt(&p.icon_name),
                    kind: "package",
                    flatpak_preferred: false,
                    variant_rank: variant_rank(attr, gid),
                    score: 0,
                    installed: false,
                },
            );
        }
        proof {
            assert(rows_view(out@) =~= pname_rows_spec(gid@, pkgs@.take(i + 1)));
        }
        i = i + 1;
    }
    proof {
        assert(pkgs@.take(pkgs@.len() as int) =~= pkgs@);
    }
    out
}

/// Whether the alternate-sources list of `gid` needs a live pname search:
/// only when the curated table has nothing for it and it does not look like
/// a dotted AppStream id.
pub fn needs_pname_search(gid: &str, table_len: usize) -> (r: bool)
    ensures
        r == (table_len == 0 && !gid@.contains('.')),
{
    table_len == 0 && !contains_char(gid, '.')
}

/// The alternate-sources rows of a group, in the order they are offered.
pub open spec fn alt_rows_spec(
    gid: Seq<char>,
    modules: Seq<AppEntryView>,
    table: Seq<TableAttr>,
    flatpak_preferred: bool,
    searched: Option<Seq<PackageFacts>>,
) -> Seq<AppEntryView> {
    modules + if table.len() > 0 {
        table_rows_spec(gid, table, flatpak_preferred)
    } else if !gid.contains('.') && searched is Some {
        pname_rows_spec(gid, searched->0)
    } else {
        Seq::empty()
    }
}

/// Every installable variant of the group `gid`: the module rows first, then
/// for an app-id group (a non-empty curated `table`) one row per curated
/// attribute, else for a pname group (undotted `gid`) one row per searched
/// package of that pname. `flatpak_preferred` is the table's preference for
/// `gid`; `searched` the result of the live pname search, if one was made.
pub fn alt_entries(
    gid: &str,
    module_rows: Vec<AppEntry>,
    table: &Vec<TableAttr>,
    flatpak_preferred: bool,
    searched: Option<&Vec<PackageFacts>>,
) -> (r: Vec<AppEntry>)
    ensures
        rows_view(r@) == alt_rows_spec(
            gid@,
            rows_view(module_rows@),
            table@,
            flatpak_preferred,
            match searched {
                Some(v) => Some(v@),
                None => None,
            },
        ),
{
    let mut entries = module_rows;
    let ghost first = entries@;
    let extra = if table.len() > 0 {
        table_rows(gid, table, flatpak_preferred)
    } else if !contains_char(gid, '.') && searched.is_some() {
        pname_rows(gid, searched.unwrap())
    } else {
        Vec::new()
    };
    let ghost more = extra@;
    let mut extra = extra;
    entries.append(&mut extra);
    proof {
        assert(entries@ == first + more);
        assert(rows_view(entries@) =~= rows_view(first) + rows_view(more));
    }
    entries
}

fn copy_images(v: &Vec<(String, u32, u32)>) -> (r: Vec<(String, u32, u32)>)
    ensures
        r@ == v@,
{
    let mut out: Vec<(String, u32, u32)> = Vec::new();
    let mut i: usize = 0;
    while i < v.len()
        invariant
            i <= v@.len(),
            out@ == v@.take(i as int),
        decreases v.len() - i,
    {
        let x = &v[i];
        out.push((x.0.clone(), x.1, x.2));
        proof {
            assert(out@ =~= v@.take(i + 1));
        }
        i = i + 1;
    }
    assert(v@.take(v@.len() as int) =~= v@);
    out
}

fn copy_shots(v: &Vec<ShotTuple>) -> (r: Vec<ShotTuple>)
    ensures
        r@.map_values(|t: ShotTuple| shot_view(t)) == v@.map_values(|t: ShotTuple| shot_view(t)),
{
    let mut out: Vec<ShotTuple> = Vec::new();
    let mut i: usize = 0;
    while i < v.len()
        invariant
            i <= v@.len(),
            out@.len() == i,
            forall|j: int| 0 <= j < i ==> shot_view(#[trigger] out@[j]) == shot_view(v@[j]),
        decreases v.len() - i,
    {
        let x = &v[i];
        let images = copy_images(&x.2);
        out.push((x.0.clone(), x.1, images));
        proof {
            assert(shot_view(out@[i as int]) == shot_view(v@[i as int]));
        }
        i = i + 1;
    }
    assert(out@.map_values(|t: ShotTuple| shot_view(t)) =~= v@.map_values(|t: ShotTuple| shot_view(t)));
    out
}

impl EnrichEntry {
    /// A copy with the same contents.
    pub fn duplicate(&self) -> (r: EnrichEntry)
        ensures
            r.description == self.description,
            r.icon == self.icon,
            r.icon_name == self.icon_name,
            r.license == self.license,
            r.screenshots@.map_values(|t: ShotTuple| shot_view(t)) == self.screenshots@.map_values(
                |t: ShotTuple| shot_view(t),
            ),
            enrich_entry_dict(r) == enrich_entry_dict(*self),
    {
        let r = EnrichEntry {
            description: copy_opt(&self.description),
            screenshots: copy_shots(&self.screenshots),
            icon: copy_opt(&self.icon),
            icon_name: copy_opt(&self.icon_name),
            license: copy_opt(&self.license),
        };
        proof {
            assert(r.screenshots@.map_values(|t: ShotTuple| shot_view(t)).len() == r.screenshots@.len());
            assert(self.screenshots@.map_values(|t: ShotTuple| shot_view(t)).len() == self.screenshots@.len());
            assert(r.screenshots@.len() == self.screenshots@.len());
            assert(enrich_entry_dict(r) =~= enrich_entry_dict(*self));
        }
        r
    }
}

/// The enrichment row built from what Flathub reports of an app: an empty
/// description or icon counts as none; the themed icon name comes from the
/// curated table.
pub open spec fn enrichment_row(
    description: Seq<char>,
    shots: Seq<ShotTuple>,
    icon: Seq<char>,
    table_icon_name: Option<Seq<char>>,
    license: Option<Seq<char>>,
    e: EnrichEntry,
) -> bool {
    &&& opt_view(e.description) == (if description.len() > 0 { Some(description) } else { None })
    &&& e.screenshots@ == shots
    &&& opt_view(e.icon) == (if icon.len() > 0 { Some(icon) } else { None })
    &&& opt_view(e.icon_name) == table_icon_name
    &&& opt_view(e.license) == license
}

/// Builds the enrichment row of an app from its Flathub listing.
pub fn enrichment_entry(
    description: &str,
    screenshots: Vec<ShotTuple>,
    icon: &str,
    table_icon_name: Option<&str>,
    license: Option<String>,
) -> (r: EnrichEntry)
    ensures
        enrichment_row(description@, screenshots@, icon@, opt_str_view(table_icon_name), opt_view(license), r),
{
    EnrichEntry {
        description: if description.unicode_len() > 0 { Some(owned(description)) } else { None },
        screenshots,
        icon: if icon.unicode_len() > 0 { Some(owned(icon)) } else { None },
        icon_name: match table_icon_name {
            Some(n) => Some(owned(n)),
            None => None,
        },
        license,
    }
}

/// What `row_starts` holds: increasing indices below `n`, each opening a
/// row, and every index below `n` that opens a row.
proof fn lemma_row_starts(s: Seq<AppEntry>, n: int)
    requires
        0 <= n <= s.len(),
    ensures
        forall|a: int, b: int| 0 <= a < b < row_starts(s, n).len() ==> row_starts(s, n)[a] < row_starts(s, n)[b],
        forall|a: int| 0 <= a < row_starts(s, n).len() ==> 0 <= #[trigger] row_starts(s, n)[a] < n && opens_row(s, row_starts(s, n)[a]),
        forall|i: int| 0 <= i < n && opens_row(s, i) ==> exists|a: int| 0 <= a < row_starts(s, n).len() && #[trigger] row_starts(s, n)[a] == i,
    decreases n,
{
    if n > 0 {
        lemma_row_starts(s, n - 1);
        let prev = row_starts(s, n - 1);
        let cur = row_starts(s, n);
        assert forall|a: int| 0 <= a < prev.len() implies cur[a] == prev[a] by {}
        assert forall|i: int| 0 <= i < n && opens_row(s, i) implies exists|a: int| 0 <= a < cur.len() && #[trigger] cur[a] == i by {
            if i < n - 1 {
                let a = choose|a: int| 0 <= a < prev.len() && #[trigger] prev[a] == i;
                assert(cur[a] == i);
            } else {
                assert(cur[prev.len() as int] == i);
            }
        }
    }
}

/// What `first_installed_from` finds.
proof fn lemma_first_installed(s: Seq<AppEntry>, g: Option<Seq<char>>, j: int)
    requires
        0 <= j,
    ensures
        first_installed_from(s, g, j) >= 0 ==> j <= first_installed_from(s, g, j) < s.len() && gid_view(
            s[first_installed_from(s, g, j)],
        ) == g && s[first_installed_from(s, g, j)].installed,
        first_installed_from(s, g, j) == -1 ==> forall|k: int| j <= k < s.len() ==> !(gid_view(#[trigger] s[k]) == g && s[k].installed),
        first_installed_from(s, g, j) >= -1,
    decreases s.len() - j,
{
    if j < s.len() {
        lemma_first_installed(s, g, j + 1);
    }
}

/// The row of entry `i` is represented by an entry of the same group.
proof fn lemma_winner_same_group(s: Seq<AppEntry>, i: int)
    requires
        0 <= i < s.len(),
    ensures
        0 <= row_winner(s, i) < s.len(),
        gid_view(s[row_winner(s, i)]) == gid_view(s[i]),
{
    if gid_view(s[i]) is Some {
        lemma_first_installed(s, gid_view(s[i]), i);
    }
}

/// The first entry of the group of entry `k`, which opens its row.
proof fn lemma_group_opener(s: Seq<AppEntry>, k: int) -> (i: int)
    requires
        0 <= k < s.len(),
    ensures
        0 <= i <= k,
        opens_row(s, i),
        gid_view(s[i]) == gid_view(s[k]),
        gid_view(s[k]) is None ==> i == k,
    decreases k,
{
    if opens_row(s, k) {
        k
    } else {
        let j = choose|j: int| 0 <= j < k && gid_view(#[trigger] s[j]) == gid_view(s[k]);
        lemma_group_opener(s, j)
    }
}

/// Grouping leaves at most one row per group: no two output rows share a
/// grouping key.
pub proof fn law_dedup_one_row_per_group(entries: Seq<AppEntry>)
    ensures
        forall|a: int, b: int|
            0 <= a < b < spec_dedup_by_group(entries).len() && gid_view(#[trigger] spec_dedup_by_group(entries)[a]) is Some
                ==> gid_view(spec_dedup_by_group(entries)[a]) != gid_view(#[trigger] spec_dedup_by_group(entries)[b]),
{
    let n = entries.len() as int;
    let rows = row_starts(entries, n);
    lemma_row_starts(entries, n);
    let d = spec_dedup_by_group(entries);
    assert forall|a: int, b: int|
        0 <= a < b < d.len() && gid_view(#[trigger] d[a]) is Some implies gid_view(d[a]) != gid_view(#[trigger] d[b]) by {
        let ia = rows[a];
        let ib = rows[b];
        lemma_winner_same_group(entries, ia);
        lemma_winner_same_group(entries, ib);
        assert(ia < ib);
        assert(opens_row(entries, ib));
        if gid_view(entries[ib]) is Some {
            assert(gid_view(entries[ia]) != gid_view(entries[ib]));
        }
    }
}

/// Every input entry is accounted for: its group has a row, and an
/// ungrouped entry is a row of its own.
pub proof fn law_dedup_keeps_every_group(entries: Seq<AppEntry>)
    ensures
        forall|k: int|
            #![trigger entries[k]]
            0 <= k < entries.len() ==> exists|a: int|
                0 <= a < spec_dedup_by_group(entries).len() && gid_view(#[trigger] spec_dedup_by_group(entries)[a])
                    == gid_view(entries[k]),
        forall|k: int|
            0 <= k < entries.len() && gid_view(#[trigger] entries[k]) is None ==> spec_dedup_by_group(entries).contains(
                entries[k],
            ),
{
    let n = entries.len() as int;
    let rows = row_starts(entries, n);
    lemma_row_starts(entries, n);
    let d = spec_dedup_by_group(entries);
    assert forall|k: int| #![trigger entries[k]] 0 <= k < entries.len() implies exists|a: int|
        0 <= a < d.len() && gid_view(#[trigger] d[a]) == gid_view(entries[k]) by {
        let i = lemma_group_opener(entries, k);
        let a = choose|a: int| 0 <= a < rows.len() && #[trigger] rows[a] == i;
        lemma_winner_same_group(entries, i);
        assert(d[a] == entries[row_winner(entries, i)]);
    }
    assert forall|k: int| 0 <= k < entries.len() && gid_view(#[trigger] entries[k]) is None implies d.contains(entries[k]) by {
        let i = lemma_group_opener(entries, k);
        let a = choose|a: int| 0 <= a < rows.len() && #[trigger] rows[a] == i;
        assert(d[a] == entries[k]);
    }
}

/// An installed variant represents its group: when any entry of a group is
/// installed, the group's row is an installed one.
pub proof fn law_dedup_installed_variant_wins(entries: Seq<AppEntry>)
    ensures
        forall|a: int, k: int|
            0 <= a < spec_dedup_by_group(entries).len() && 0 <= k < entries.len() && gid_view(
                #[trigger] spec_dedup_by_group(entries)[a],
            ) is Some && gid_view(#[trigger] entries[k]) == gid_view(spec_dedup_by_group(entries)[a])
                && entries[k].installed ==> spec_dedup_by_group(entries)[a].installed,
{
    let n = entries.len() as int;
    let rows = row_starts(entries, n);
    lemma_row_starts(entries, n);
    let d = spec_dedup_by_group(entries);
    assert forall|a: int, k: int|
        0 <= a < d.len() && 0 <= k < entries.len() && gid_view(#[trigger] d[a]) is Some && gid_view(
            #[trigger] entries[k],
        ) == gid_view(d[a]) && entries[k].installed implies d[a].installed by {
        let i = rows[a];
        lemma_winner_same_group(entries, i);
        let g = gid_view(entries[i]);
        assert(opens_row(entries, i));
        assert(k >= i);
        lemma_first_installed(entries, g, i);
        assert(first_installed_from(entries, g, i) >= 0);
    }
}

/// Once stripped, an attribute has nothing more to strip: the icon base
/// name of an icon base name is itself.
pub proof fn law_icon_base_name_is_stable(attr: Seq<char>)
    ensures
        spec_icon_base_name(attr) matches Some(b) ==> spec_icon_base_name(b) is None,
{
    if let Some(b) = spec_icon_base_name(attr) {
        lemma_strip_idempotent(attr);
        lemma_strip_is_prefix(attr);
        if b.contains('.') {
            let i = choose|i: int| 0 <= i < b.len() && b[i] == '.';
            assert(attr[i] == '.');
        }
    }
}

proof fn lemma_strip_idempotent(base: Seq<char>)
    ensures
        strip_icon_suffixes(strip_icon_suffixes(base)) == strip_icon_suffixes(base),
    decreases base.len(),
{
    let idx = last_sep(base);
    if idx < 0 || idx >= base.len() {
    } else if !is_icon_suffix(base.skip(idx + 1)) || idx < 2 {
    } else {
        lemma_strip_idempotent(base.take(idx));
    }
}

proof fn lemma_strip_is_prefix(base: Seq<char>)
    ensures
        strip_icon_suffixes(base).len() <= base.len(),
        strip_icon_suffixes(base) == base.take(strip_icon_suffixes(base).len() as int),
    decreases base.len(),
{
    let idx = last_sep(base);
    if idx < 0 || idx >= base.len() {
        assert(base.take(base.len() as int) =~= base);
    } else if !is_icon_suffix(base.skip(idx + 1)) || idx < 2 {
        assert(base.take(base.len() as int) =~= base);
    } else {
        lemma_strip_is_prefix(base.take(idx));
        let r = strip_icon_suffixes(base.take(idx));
        assert(base.take(idx).take(r.len() as int) =~= base.take(r.len() as int));
    }
}

/// Rows come in the order in which their groups first appear in the input:
/// of two rows, the earlier one's group opens before the later one's.
pub proof fn law_dedup_keeps_first_appearance_order(entries: Seq<AppEntry>)
    ensures
        forall|a: int, b: int|
            0 <= a < b < spec_dedup_by_group(entries).len() ==> exists|ia: int, ib: int|
                0 <= ia < ib < entries.len() && opens_row(entries, ia) && opens_row(entries, ib) && gid_view(
                    #[trigger] entries[ia],
                ) == gid_view(#[trigger] spec_dedup_by_group(entries)[a]) && gid_view(#[trigger] entries[ib])
                    == gid_view(#[trigger] spec_dedup_by_group(entries)[b]),
{
    let n = entries.len() as int;
    let rows = row_starts(entries, n);
    lemma_row_starts(entries, n);
    let d = spec_dedup_by_group(entries);
    assert forall|a: int, b: int| 0 <= a < b < d.len() implies exists|ia: int, ib: int|
        0 <= ia < ib < entries.len() && opens_row(entries, ia) && opens_row(entries, ib) && gid_view(
            #[trigger] entries[ia],
        ) == gid_view(#[trigger] d[a]) && gid_view(#[trigger] entries[ib]) == gid_view(#[trigger] d[b]) by {
        let ia = rows[a];
        let ib = rows[b];
        lemma_winner_same_group(entries, ia);
        lemma_winner_same_group(entries, ib);
        assert(d[a] == entries[row_winner(entries, ia)]);
        assert(d[b] == entries[row_winner(entries, ib)]);
        assert(opens_row(entries, ia) && opens_row(entries, ib));
    }
}

/// What `last_sep` finds is a separator of `s`.
proof fn lemma_last_sep(s: Seq<char>)
    ensures
        last_sep(s) >= -1,
        last_sep(s) >= 0 ==> last_sep(s) < s.len() && is_sep(s[last_sep(s)]),
    decreases s.len(),
{
    if s.len() > 0 && !is_sep(s.last()) {
        lemma_last_sep(s.drop_last());
    }
}

/// Stripping either leaves `base` as it is or cuts it just before a
/// separator, keeping at least two characters.
proof fn lemma_strip_cuts_at_separator(base: Seq<char>)
    ensures
        strip_icon_suffixes(base) == base || (strip_icon_suffixes(base).len() < base.len()
            && strip_icon_suffixes(base).len() >= 2 && is_sep(base[strip_icon_suffixes(base).len() as int])),
    decreases base.len(),
{
    let idx = last_sep(base);
    lemma_last_sep(base);
    if idx < 0 || idx >= base.len() {
    } else if !is_icon_suffix(base.skip(idx + 1)) || idx < 2 {
    } else {
        let t = base.take(idx);
        lemma_strip_cuts_at_separator(t);
        lemma_strip_is_prefix(t);
        let r = strip_icon_suffixes(t);
        if r == t {
            assert(r.len() == idx);
        } else {
            assert(t[r.len() as int] == base[r.len() as int]);
        }
    }
}

/// An icon base name is the attribute cut just before a `-` or `_`: a
/// proper prefix of it, of at least two characters.
pub proof fn law_icon_base_name_is_a_cut_prefix(attr: Seq<char>)
    ensures
        spec_icon_base_name(attr) matches Some(b) ==> b.len() < attr.len() && attr.take(b.len() as int) == b
            && b.len() >= 2 && is_sep(attr[b.len() as int]),
{
    if let Some(b) = spec_icon_base_name(attr) {
        lemma_strip_cuts_at_separator(attr);
        lemma_strip_is_prefix(attr);
    }
}

/// Variant ranks lie between 10 and 900; 20 exactly for the base attribute
/// (no suffix), and an unknown suffix ranks after every known one.
pub proof fn law_variant_rank_order(attr: Seq<char>, base: Seq<char>)
    ensures
        10 <= spec_variant_rank(attr, base) <= 900,
        (spec_variant_rank(attr, base) == 20) <==> spec_variant_suffix(attr, base) is None,
        spec_variant_rank(base, base) == 20,
        spec_variant_suffix(attr, base) matches Some(s) ==> (spec_variant_rank(attr, base) == 900 <==> !(s
            == "bin"@ || s == "beta-bin"@ || s == "beta"@ || s == "nightly-bin"@ || s == "nightly"@ || s
            == "devedition-bin"@ || s == "devedition"@ || s == "esr-bin"@ || s == "esr"@ || s == "unwrapped"@)),
{
}


/// The edition suffixes that the themed-icon fallback strips: `bin`,
/// `unwrapped`, `wrapped`, `stable`, `unstable`, `git`, `nightly`, `beta`,
/// `dev`, `devedition`, `esr`, `fhs`, `appimage`, `electron`, `gtk`,
/// `gtk3`, `gtk4`, `qt`, `qt5`, `qt6`, `wayland`, `x11`, `static`, `studio`,
/// `free`, `full`, `lite`, `minimal`, `pro`, `cli`, `gui`, `desktop`,
/// `community`, `enterprise`.
pub open spec fn documented_icon_suffix(t: Seq<char>) -> bool {
    ||| t == "bin"@
    ||| t == "unwrapped"@
    ||| t == "wrapped"@
    ||| t == "stable"@
    ||| t == "unstable"@
    ||| t == "git"@
    ||| t == "nightly"@
    ||| t == "beta"@
    ||| t == "dev"@
    ||| t == "devedition"@
    ||| t == "esr"@
    ||| t == "fhs"@
    ||| t == "appimage"@
    ||| t == "electron"@
    ||| t == "gtk"@
    ||| t == "gtk3"@
    ||| t == "gtk4"@
    ||| t == "qt"@
    ||| t == "qt5"@
    ||| t == "qt6"@
    ||| t == "wayland"@
    ||| t == "x11"@
    ||| t == "static"@
    ||| t == "studio"@
    ||| t == "free"@
    ||| t == "full"@
    ||| t == "lite"@
    ||| t == "minimal"@
    ||| t == "pro"@
    ||| t == "cli"@
    ||| t == "gui"@
    ||| t == "desktop"@
    ||| t == "community"@
    ||| t == "enterprise"@
}

/// No character of `s` is a separator or a dot.
pub open spec fn plain_stem(s: Seq<char>) -> bool {
    forall|j: int| 0 <= j < s.len() ==> !is_sep(#[trigger] s[j]) && s[j] != '.'
}

/// The documented suffixes of group 0 hold no separator and no dot.
proof fn lemma_plain_suffixes_0()
    ensures
        last_sep("bin"@) == -1 && last_index("bin"@, '.') == -1,
        last_sep("unwrapped"@) == -1 && last_index("unwrapped"@, '.') == -1,
        last_sep("wrapped"@) == -1 && last_index("wrapped"@, '.') == -1,
        last_sep("stable"@) == -1 && last_index("stable"@, '.') == -1,
        last_sep("unstable"@) == -1 && last_index("unstable"@, '.') == -1,
        last_sep("git"@) == -1 && last_index("git"@, '.') == -1,
{
    reveal_strlit("bin");
    reveal_strlit("unwrapped");
    reveal_strlit("wrapped");
    reveal_strlit("stable");
    reveal_strlit("unstable");
    reveal_strlit("git");
    reveal_with_fuel(last_sep, 11);
    reveal_with_fuel(last_index, 11);
}

/// The documented suffixes of group 1 hold no separator and no dot.
proof fn lemma_plain_suffixes_1()
    ensures
        last_sep("nightly"@) == -1 && last_index("nightly"@, '.') == -1,
        last_sep("beta"@) == -1 && last_index("beta"@, '.') == -1,
        last_sep("dev"@) == -1 && last_index("dev"@, '.') == -1,
        last_sep("devedition"@) == -1 && last_index("devedition"@, '.') == -1,
        last_sep("esr"@) == -1 && last_index("esr"@, '.') == -1,
        last_sep("fhs"@) == -1 && last_index("fhs"@, '.') == -1,
{
    reveal_strlit("nightly");
    reveal_strlit("beta");
    reveal_strlit("dev");
    reveal_strlit("devedition");
    reveal_strlit("esr");
    reveal_strlit("fhs");
    reveal_with_fuel(last_sep, 11);
    reveal_with_fuel(last_index, 11);
}

/// The documented suffixes of group 2 hold no separator and no dot.
proof fn lemma_plain_suffixes_2()
    ensures
        last_sep("appimage"@) == -1 && last_index("appimage"@, '.') == -1,
        last_sep("electron"@) == -1 && last_index("electron"@, '.') == -1,
        last_sep("gtk"@) == -1 && last_index("gtk"@, '.') == -1,
        last_sep("gtk3"@) == -1 && last_index("gtk3"@, '.') == -1,
        last_sep("gtk4"@) == -1 && last_index("gtk4"@, '.') == -1,
        last_sep("qt"@) == -1 && last_index("qt"@, '.') == -1,
{
    reveal_strlit("appimage");
    reveal_strlit("electron");
    reveal_strlit("gtk");
    reveal_strlit("gtk3");
    reveal_strlit("gtk4");
    reveal_strlit("qt");
    reveal_with_fuel(last_sep, 11);
    reveal_with_fuel(last_index, 11);
}

/// The documented suffixes of group 3 hold no separator and no dot.
proof fn lemma_plain_suffixes_3()
    ensures
        last_sep("qt5"@) == -1 && last_index("qt5"@, '.') == -1,
        last_sep("qt6"@) == -1 && last_index("qt6"@, '.') == -1,
        last_sep("wayland"@) == -1 && last_index("wayland"@, '.') == -1,
        last_sep("x11"@) == -1 && last_index("x11"@, '.') == -1,
        last_sep("static"@) == -1 && last_index("static"@, '.') == -1,
        last_sep("studio"@) == -1 && last_index("studio"@, '.') == -1,
{
    reveal_strlit("qt5");
    reveal_strlit("qt6");
    reveal_strlit("wayland");
    reveal_strlit("x11");
    reveal_strlit("static");
    reveal_strlit("studio");
    reveal_with_fuel(last_sep, 11);
    reveal_with_fuel(last_index, 11);
}

/// The documented suffixes of group 4 hold no separator and no dot.
proof fn lemma_plain_suffixes_4()
    ensures
        last_sep("free"@) == -1 && last_index("free"@, '.') == -1,
        last_sep("full"@) == -1 && last_index("full"@, '.') == -1,
        last_sep("lite"@) == -1 && last_index("lite"@, '.') == -1,
        last_sep("minimal"@) == -1 && last_index("minimal"@, '.') == -1,
        last_sep("pro"@) == -1 && last_index("pro"@, '.') == -1,
        last_sep("cli"@) == -1 && last_index("cli"@, '.') == -1,
{
    reveal_strlit("free");
    reveal_strlit("full");
    reveal_strlit("lite");
    reveal_strlit("minimal");
    reveal_strlit("pro");
    reveal_strlit("cli");
    reveal_with_fuel(last_sep, 11);
    reveal_with_fuel(last_index, 11);
}

/// The documented suffixes of group 5 hold no separator and no dot.
proof fn lemma_plain_suffixes_5()
    ensures
        last_sep("gui"@) == -1 && last_index("gui"@, '.') == -1,
        last_sep("desktop"@) == -1 && last_index("desktop"@, '.') == -1,
        last_sep("community"@) == -1 && last_index("community"@, '.') == -1,
        last_sep("enterprise"@) == -1 && last_index("enterprise"@, '.') == -1,
{
    reveal_strlit("gui");
    reveal_strlit("desktop");
    reveal_strlit("community");
    reveal_strlit("enterprise");
    reveal_with_fuel(last_sep, 11);
    reveal_with_fuel(last_index, 11);
}

/// A documented suffix holds no separator and no dot.
proof fn lemma_documented_suffix_is_plain(t: Seq<char>)
    requires
        documented_icon_suffix(t),
    ensures
        plain_stem(t),
{
    lemma_plain_suffixes_0();
    lemma_plain_suffixes_1();
    lemma_plain_suffixes_2();
    lemma_plain_suffixes_3();
    lemma_plain_suffixes_4();
    lemma_plain_suffixes_5();
    assert(last_sep(t) == -1 && last_index(t, '.') == -1);
    lemma_no_sep_chars(t);
    lemma_no_char(t, '.');
}

/// When `last_sep` finds nothing, no character is a separator.
proof fn lemma_no_sep_chars(s: Seq<char>)
    requires
        last_sep(s) == -1,
    ensures
        forall|j: int| 0 <= j < s.len() ==> !is_sep(#[trigger] s[j]),
    decreases s.len(),
{
    if s.len() > 0 {
        lemma_no_sep_chars(s.drop_last());
        assert forall|j: int| 0 <= j < s.len() implies !is_sep(#[trigger] s[j]) by {
            if j < s.len() - 1 {
                assert(s.drop_last()[j] == s[j]);
            }
        }
    }
}

/// When `last_index` finds nothing, `c` does not occur.
proof fn lemma_no_char(s: Seq<char>, c: char)
    requires
        last_index(s, c) == -1,
    ensures
        forall|j: int| 0 <= j < s.len() ==> #[trigger] s[j] != c,
    decreases s.len(),
{
    if s.len() > 0 {
        lemma_no_char(s.drop_last(), c);
        assert forall|j: int| 0 <= j < s.len() implies #[trigger] s[j] != c by {
            if j < s.len() - 1 {
                assert(s.drop_last()[j] == s[j]);
            }
        }
    }
}

/// A sequence without separators has no last separator.
proof fn lemma_last_sep_none(s: Seq<char>)
    requires
        forall|j: int| 0 <= j < s.len() ==> !is_sep(#[trigger] s[j]),
    ensures
        last_sep(s) == -1,
    decreases s.len(),
{
    if s.len() > 0 {
        assert forall|j: int| 0 <= j < s.drop_last().len() implies !is_sep(#[trigger] s.drop_last()[j]) by {
            assert(s.drop_last()[j] == s[j]);
        }
        lemma_last_sep_none(s.drop_last());
    }
}

/// Appending a tail without separators leaves the last separator where it
/// was.
proof fn lemma_last_sep_append(p: Seq<char>, t: Seq<char>)
    requires
        forall|j: int| 0 <= j < t.len() ==> !is_sep(#[trigger] t[j]),
    ensures
        last_sep(p + t) == last_sep(p),
    decreases t.len(),
{
    if t.len() > 0 {
        assert((p + t).drop_last() =~= p + t.drop_last());
        assert forall|j: int| 0 <= j < t.drop_last().len() implies !is_sep(#[trigger] t.drop_last()[j]) by {
            assert(t.drop_last()[j] == t[j]);
        }
        lemma_last_sep_append(p, t.drop_last());
        assert((p + t).last() == t.last());
        assert(!is_sep(t[t.len() - 1]));
    } else {
        assert(p + t =~= p);
    }
}

/// Every documented edition suffix is stripped for the icon fallback: for a
/// stem of at least two characters without separators or dots, the icon base
/// name of `stem`, a `-` or `_`, then the suffix, is the stem.
pub proof fn law_documented_icon_suffixes_are_stripped(stem: Seq<char>, sep: char, suffix: Seq<char>)
    requires
        plain_stem(stem),
        stem.len() >= 2,
        is_sep(sep),
        documented_icon_suffix(suffix),
    ensures
        spec_icon_base_name(stem.push(sep) + suffix) == Some(stem),
{
    lemma_documented_suffix_is_plain(suffix);
    let x = stem.push(sep) + suffix;
    assert(is_icon_suffix(suffix));
    lemma_last_sep_append(stem.push(sep), suffix);
    assert(stem.push(sep).drop_last() =~= stem);
    assert(last_sep(stem.push(sep)) == stem.len());
    let idx = stem.len() as int;
    assert(x.skip(idx + 1) =~= suffix);
    assert(x.take(idx) =~= stem);
    lemma_last_sep_none(stem);
    assert(strip_icon_suffixes(stem) == stem);
    assert(strip_icon_suffixes(x) == stem);
    assert forall|j: int| 0 <= j < x.len() implies x[j] != '.' by {
        if j < stem.len() {
            assert(x[j] == stem[j]);
        } else if j == stem.len() {
            assert(x[j] == sep);
        } else {
            assert(x[j] == suffix[j - stem.len() - 1]);
        }
    }
    assert(!x.contains('.'));
    assert(x.len() != stem.len());
}


/// The attribute `min_attr` picks is one of the attributes, and none sorts
/// before it.
proof fn lemma_min_attr_is_least(attrs: Seq<Seq<char>>)
    requires
        attrs.len() > 0,
    ensures
        exists|k: int| 0 <= k < attrs.len() && attrs[k] == min_attr(attrs),
        forall|j: int| 0 <= j < attrs.len() ==> !attr_before(#[trigger] attrs[j], min_attr(attrs)),
    decreases attrs.len(),
{
    if attrs.len() == 1 {
        lemma_bytes_lt_irreflexive(encode_utf8(attrs[0]));
        assert(attrs[0] == min_attr(attrs));
    } else {
        let rest = attrs.drop_last();
        lemma_min_attr_is_least(rest);
        let m = min_attr(rest);
        let last = attrs.last();
        if attr_before(last, m) {
            assert forall|j: int| 0 <= j < attrs.len() implies !attr_before(#[trigger] attrs[j], last) by {
                if j < attrs.len() - 1 {
                    assert(attrs[j] == rest[j]);
                    if attr_before(attrs[j], last) {
                        lemma_attr_before_transitive(attrs[j], last, m);
                    }
                } else {
                    lemma_bytes_lt_irreflexive(encode_utf8(last));
                }
            }
            assert(attrs[attrs.len() - 1] == min_attr(attrs));
        } else {
            let k = choose|k: int| 0 <= k < rest.len() && rest[k] == m;
            assert(attrs[k] == rest[k]);
            assert forall|j: int| 0 <= j < attrs.len() implies !attr_before(#[trigger] attrs[j], m) by {
                if j < attrs.len() - 1 {
                    assert(attrs[j] == rest[j]);
                }
            }
        }
    }
}

/// Two attributes neither of which sorts before the other are equal.
proof fn lemma_attr_order_antisymmetric(a: Seq<char>, b: Seq<char>)
    requires
        !attr_before(a, b),
        !attr_before(b, a),
    ensures
        a == b,
{
    let x = encode_utf8(a);
    let y = encode_utf8(b);
    if x != y {
        lemma_bytes_lt_total(x, y);
    }
    lemma_encode_injective(a, b);
}

/// Every curated row of a group is ranked against the group's base
/// attribute, the one of its attributes that no other sorts before (the
/// shortest, byte order breaking ties): row `i` is attribute `i` of the
/// table, with the rank of that attribute over the base attribute.
pub proof fn law_table_rows_rank_against_base_attribute(
    gid: Seq<char>,
    table: Seq<TableAttr>,
    flatpak_preferred: bool,
    base: Seq<char>,
)
    requires
        exists|k: int| 0 <= k < table.len() && (#[trigger] table[k]).attr@ == base,
        forall|j: int| 0 <= j < table.len() ==> !attr_before((#[trigger] table[j]).attr@, base),
    ensures
        table_rows_spec(gid, table, flatpak_preferred).len() == table.len(),
        forall|i: int|
            0 <= i < table.len() ==> (#[trigger] table_rows_spec(gid, table, flatpak_preferred)[i]).name
                == table[i].attr@ && table_rows_spec(gid, table, flatpak_preferred)[i].variant_rank
                == spec_variant_rank(table[i].attr@, base),
{
    let attrs = table_attrs_view(table);
    let k = choose|k: int| 0 <= k < table.len() && (#[trigger] table[k]).attr@ == base;
    lemma_min_attr_is_least(attrs);
    let m = min_attr(attrs);
    assert(attrs[k] == base);
    assert(!attr_before(base, m));
    let km = choose|km: int| 0 <= km < attrs.len() && attrs[km] == m;
    assert(!attr_before(table[km].attr@, base));
    lemma_attr_order_antisymmetric(m, base);
}


/// The rows of a pname group are exactly the searched packages whose pname
/// is the group id: every row is named after such a package, and every such
/// package has a row; rows carry the group id as their grouping key.
pub proof fn law_pname_rows_are_exact_pname_matches(gid: Seq<char>, pkgs: Seq<PackageFacts>)
    ensures
        forall|i: int|
            0 <= i < pname_rows_spec(gid, pkgs).len() ==> exists|j: int|
                0 <= j < pkgs.len() && (#[trigger] pkgs[j]).display_name@ == gid && pkgs[j].package_name@
                    == (#[trigger] pname_rows_spec(gid, pkgs)[i]).name,
        forall|i: int|
            0 <= i < pname_rows_spec(gid, pkgs).len() ==> (#[trigger] pname_rows_spec(gid, pkgs)[i]).group_id
                == Some(gid),
        forall|j: int|
            0 <= j < pkgs.len() && (#[trigger] pkgs[j]).display_name@ == gid ==> exists|i: int|
                0 <= i < pname_rows_spec(gid, pkgs).len() && (#[trigger] pname_rows_spec(gid, pkgs)[i]).name
                    == pkgs[j].package_name@,
    decreases pkgs.len(),
{
    if pkgs.len() > 0 {
        let rest = pkgs.drop_last();
        law_pname_rows_are_exact_pname_matches(gid, rest);
        let prev = pname_rows_spec(gid, rest);
        let rows = pname_rows_spec(gid, pkgs);
        let last = pkgs.last();
        assert forall|i: int| 0 <= i < rows.len() implies exists|j: int|
            0 <= j < pkgs.len() && (#[trigger] pkgs[j]).display_name@ == gid && pkgs[j].package_name@
                == (#[trigger] rows[i]).name by {
            if i < prev.len() {
                assert(rows[i] == prev[i]);
                let j = choose|j: int|
                    0 <= j < rest.len() && (#[trigger] rest[j]).display_name@ == gid && rest[j].package_name@
                        == (#[trigger] prev[i]).name;
                assert(pkgs[j] == rest[j]);
            } else {
                assert(last.display_name@ == gid);
                assert(rows[i] == pname_row(gid, last));
                assert(pkgs[pkgs.len() - 1] == last);
            }
        }
        assert forall|i: int| 0 <= i < rows.len() implies (#[trigger] rows[i]).group_id == Some(gid) by {
            if i < prev.len() {
                assert(rows[i] == prev[i]);
            }
        }
        assert forall|j: int| 0 <= j < pkgs.len() && (#[trigger] pkgs[j]).display_name@ == gid implies exists|i: int|
            0 <= i < rows.len() && (#[trigger] rows[i]).name == pkgs[j].package_name@ by {
            if j < pkgs.len() - 1 {
                assert(pkgs[j] == rest[j]);
                let i = choose|i: int|
                    0 <= i < prev.len() && (#[trigger] prev[i]).name == rest[j].package_name@;
                assert(rows[i] == prev[i]);
            } else {
                assert(rows[prev.len() as int] == pname_row(gid, last));
            }
        }
    }
}


/// Whether one of the pairs is `k => v`.
pub open spec fn view_has_entry(s: Seq<(Seq<char>, DictValueView)>, k: Seq<char>, v: DictValueView) -> bool {
    exists|i: int| 0 <= i < s.len() && #[trigger] s[i] == (k, v)
}

/// The pairs and keys of a concatenation are those of its parts.
proof fn lemma_concat_pairs(a: Seq<(Seq<char>, DictValueView)>, b: Seq<(Seq<char>, DictValueView)>)
    ensures
        forall|k: Seq<char>, v: DictValueView|
            #[trigger] view_has_entry(a + b, k, v) == (view_has_entry(a, k, v) || view_has_entry(b, k, v)),
        forall|k: Seq<char>| #[trigger] view_has_key(a + b, k) == (view_has_key(a, k) || view_has_key(b, k)),
{
    let c = a + b;
    assert forall|k: Seq<char>, v: DictValueView|
        #[trigger] view_has_entry(c, k, v) == (view_has_entry(a, k, v) || view_has_entry(b, k, v)) by {
        if view_has_entry(c, k, v) {
            let i = choose|i: int| 0 <= i < c.len() && #[trigger] c[i] == (k, v);
            if i < a.len() {
                assert(a[i] == c[i]);
            } else {
                assert(b[i - a.len()] == c[i]);
            }
        }
        if view_has_entry(a, k, v) {
            let i = choose|i: int| 0 <= i < a.len() && #[trigger] a[i] == (k, v);
            assert(c[i] == a[i]);
        }
        if view_has_entry(b, k, v) {
            let i = choose|i: int| 0 <= i < b.len() && #[trigger] b[i] == (k, v);
            assert(c[a.len() + i] == b[i]);
        }
    }
    assert forall|k: Seq<char>| #[trigger] view_has_key(c, k) == (view_has_key(a, k) || view_has_key(b, k)) by {
        if view_has_key(c, k) {
            let i = choose|i: int| 0 <= i < c.len() && (#[trigger] c[i]).0 == k;
            if i < a.len() {
                assert(a[i] == c[i]);
            } else {
                assert(b[i - a.len()] == c[i]);
            }
        }
        if view_has_key(a, k) {
            let i = choose|i: int| 0 <= i < a.len() && (#[trigger] a[i]).0 == k;
            assert(c[i] == a[i]);
        }
        if view_has_key(b, k) {
            let i = choose|i: int| 0 <= i < b.len() && (#[trigger] b[i]).0 == k;
            assert(c[a.len() + i] == b[i]);
        }
    }
}

/// An optional string field's entry: its value under its key when set, and
/// no entry under its key otherwise.
pub open spec fn carries_opt_str(s: Seq<(Seq<char>, DictValueView)>, key: Seq<char>, value: Option<String>) -> bool {
    match value {
        Some(v) => view_has_entry(s, key, DictValueView::Str(v@)),
        None => !view_has_key(s, key),
    }
}

/// Each key of an app row's dict carries its own field: `name`, `base_name`,
/// `pname`, `summary`, `version` and `kind` their strings,
/// `flatpak_preferred` and `installed` their flags, `variant_rank` the rank;
/// `app_name`, `app_id`, `group_id`, `icon` and `icon_name` their strings
/// when set and nothing when not; `score` the score when positive and
/// nothing when zero.
pub proof fn law_app_dict_keys_carry_their_fields(e: AppEntry)
    ensures
        view_has_entry(app_entry_dict(e), "name"@, DictValueView::Str(e.name@)),
        view_has_entry(app_entry_dict(e), "base_name"@, DictValueView::Str(e.base_name@)),
        view_has_entry(app_entry_dict(e), "pname"@, DictValueView::Str(e.pname@)),
        view_has_entry(app_entry_dict(e), "summary"@, DictValueView::Str(e.summary@)),
        view_has_entry(app_entry_dict(e), "version"@, DictValueView::Str(e.version@)),
        view_has_entry(app_entry_dict(e), "kind"@, DictValueView::Str(e.kind@)),
        view_has_entry(app_entry_dict(e), "flatpak_preferred"@, DictValueView::Bool(e.flatpak_preferred)),
        view_has_entry(app_entry_dict(e), "variant_rank"@, DictValueView::I32(e.variant_rank)),
        view_has_entry(app_entry_dict(e), "installed"@, DictValueView::Bool(e.installed)),
        carries_opt_str(app_entry_dict(e), "app_name"@, e.app_name),
        carries_opt_str(app_entry_dict(e), "app_id"@, e.app_id),
        carries_opt_str(app_entry_dict(e), "group_id"@, e.group_id),
        carries_opt_str(app_entry_dict(e), "icon"@, e.icon),
        carries_opt_str(app_entry_dict(e), "icon_name"@, e.icon_name),
        e.score > 0 ==> view_has_entry(app_entry_dict(e), "score"@, DictValueView::U32(e.score)),
        e.score == 0 ==> !view_has_key(app_entry_dict(e), "score"@),
{
    lemma_dict_keys();
    let p0 = seq![("name"@, DictValueView::Str(e.name@)), ("base_name"@, DictValueView::Str(e.base_name@)), (
        "pname"@,
        DictValueView::Str(e.pname@),
    )];
    let p1 = opt_str_entry("app_name"@, e.app_name);
    let p2 = seq![("summary"@, DictValueView::Str(e.summary@)), ("version"@, DictValueView::Str(e.version@))];
    let p3 = opt_str_entry("app_id"@, e.app_id);
    let p4 = opt_str_entry("group_id"@, e.group_id);
    let p5 = opt_str_entry("icon"@, e.icon);
    let p6 = opt_str_entry("icon_name"@, e.icon_name);
    let p7 = seq![
        ("kind"@, DictValueView::Str(e.kind@)),
        ("flatpak_preferred"@, DictValueView::Bool(e.flatpak_preferred)),
        ("variant_rank"@, DictValueView::I32(e.variant_rank)),
    ];
    let p8: Seq<(Seq<char>, DictValueView)> = if e.score > 0 {
        seq![("score"@, DictValueView::U32(e.score))]
    } else {
        Seq::empty()
    };
    let p9 = seq![("installed"@, DictValueView::Bool(e.installed))];
    let q1 = p0 + p1;
    let q2 = q1 + p2;
    let q3 = q2 + p3;
    let q4 = q3 + p4;
    let q5 = q4 + p5;
    let q6 = q5 + p6;
    let q7 = q6 + p7;
    let q8 = q7 + p8;
    let q9 = q8 + p9;
    assert(app_entry_dict(e) == q9);
    lemma_concat_pairs(p0, p1);
    lemma_concat_pairs(q1, p2);
    lemma_concat_pairs(q2, p3);
    lemma_concat_pairs(q3, p4);
    lemma_concat_pairs(q4, p5);
    lemma_concat_pairs(q5, p6);
    lemma_concat_pairs(q6, p7);
    lemma_concat_pairs(q7, p8);
    lemma_concat_pairs(q8, p9);
    assert(p0[0] == ("name"@, DictValueView::Str(e.name@)));
    assert(p0[1] == ("base_name"@, DictValueView::Str(e.base_name@)));
    assert(p0[2] == ("pname"@, DictValueView::Str(e.pname@)));
    assert(p2[0] == ("summary"@, DictValueView::Str(e.summary@)));
    assert(p2[1] == ("version"@, DictValueView::Str(e.version@)));
    assert(p7[0] == ("kind"@, DictValueView::Str(e.kind@)));
    assert(p7[1] == ("flatpak_preferred"@, DictValueView::Bool(e.flatpak_preferred)));
    assert(p7[2] == ("variant_rank"@, DictValueView::I32(e.variant_rank)));
    assert(p9[0] == ("installed"@, DictValueView::Bool(e.installed)));
    lemma_opt_piece(p1, "app_name"@, e.app_name);
    lemma_opt_piece(p3, "app_id"@, e.app_id);
    lemma_opt_piece(p4, "group_id"@, e.group_id);
    lemma_opt_piece(p5, "icon"@, e.icon);
    lemma_opt_piece(p6, "icon_name"@, e.icon_name);
    if e.score > 0 {
        assert(p8[0] == ("score"@, DictValueView::U32(e.score)));
    }
    lemma_app_dict_fixed_keys_absent(p0, p2, p7, p9, e);
    assert(e.score == 0 ==> !view_has_key(p8, "score"@));
    assert(forall|k: Seq<char>| #[trigger] view_has_key(p1, k) ==> k == "app_name"@);
    assert(forall|k: Seq<char>| #[trigger] view_has_key(p3, k) ==> k == "app_id"@);
    assert(forall|k: Seq<char>| #[trigger] view_has_key(p4, k) ==> k == "group_id"@);
    assert(forall|k: Seq<char>| #[trigger] view_has_key(p5, k) ==> k == "icon"@);
    assert(forall|k: Seq<char>| #[trigger] view_has_key(p6, k) ==> k == "icon_name"@);
    assert(forall|k: Seq<char>| #[trigger] view_has_key(p8, k) ==> k == "score"@);
}

/// What an optional string piece holds.
proof fn lemma_opt_piece(p: Seq<(Seq<char>, DictValueView)>, key: Seq<char>, value: Option<String>)
    requires
        p == opt_str_entry(key, value),
    ensures
        carries_opt_str(p, key, value),
        forall|k: Seq<char>| #[trigger] view_has_key(p, k) ==> k == key,
{
    match value {
        Some(v) => {
            assert(p[0] == (key, DictValueView::Str(v@)));
        },
        None => {},
    }
}

/// The fixed pieces of an app row's dict hold none of its optional keys.
proof fn lemma_app_dict_fixed_keys_absent(
    p0: Seq<(Seq<char>, DictValueView)>,
    p2: Seq<(Seq<char>, DictValueView)>,
    p7: Seq<(Seq<char>, DictValueView)>,
    p9: Seq<(Seq<char>, DictValueView)>,
    e: AppEntry,
)
    requires
        p0 == seq![("name"@, DictValueView::Str(e.name@)), ("base_name"@, DictValueView::Str(e.base_name@)), (
            "pname"@,
            DictValueView::Str(e.pname@),
        )],
        p2 == seq![("summary"@, DictValueView::Str(e.summary@)), ("version"@, DictValueView::Str(e.version@))],
        p7 == seq![
            ("kind"@, DictValueView::Str(e.kind@)),
            ("flatpak_preferred"@, DictValueView::Bool(e.flatpak_preferred)),
            ("variant_rank"@, DictValueView::I32(e.variant_rank)),
        ],
        p9 == seq![("installed"@, DictValueView::Bool(e.installed))],
    ensures
        forall|k: Seq<char>|
            (k == "app_name"@ || k == "app_id"@ || k == "group_id"@ || k == "icon"@ || k == "icon_name"@ || k
                == "score"@) ==> !view_has_key(p0, k) && !view_has_key(p2, k) && !view_has_key(p7, k)
                && !view_has_key(p9, k),
{
    lemma_dict_keys();
}


/// An enrichment row keeps what Flathub reports as it is: a non-empty
/// description or icon verbatim and an empty one as none, every screenshot
/// row in order, the curated table's icon name and the license unchanged.
pub proof fn law_enrichment_keeps_flathub_fields(
    description: Seq<char>,
    shots: Seq<ShotTuple>,
    icon: Seq<char>,
    table_icon_name: Option<Seq<char>>,
    license: Option<Seq<char>>,
    e: EnrichEntry,
)
    requires
        enrichment_row(description, shots, icon, table_icon_name, license, e),
    ensures
        description.len() > 0 ==> (e.description matches Some(d) && d@ == description),
        description.len() == 0 ==> e.description is None,
        icon.len() > 0 ==> (e.icon matches Some(i) && i@ == icon),
        icon.len() == 0 ==> e.icon is None,
        e.screenshots@ == shots,
        opt_view(e.icon_name) == table_icon_name,
        opt_view(e.license) == license,
{
}

/// Each key of an enrichment dict carries its own field: `description`,
/// `icon`, `icon_name` and `license` their strings when set and nothing when
/// not, `screenshots` the screenshot rows when there are any and nothing
/// otherwise.
pub proof fn law_enrich_dict_keys_carry_their_fields(e: EnrichEntry)
    ensures
        carries_opt_str(enrich_entry_dict(e), "description"@, e.description),
        carries_opt_str(enrich_entry_dict(e), "icon"@, e.icon),
        carries_opt_str(enrich_entry_dict(e), "icon_name"@, e.icon_name),
        carries_opt_str(enrich_entry_dict(e), "license"@, e.license),
        e.screenshots@.len() > 0 ==> view_has_entry(
            enrich_entry_dict(e),
            "screenshots"@,
            DictValueView::Shots(e.screenshots@.map_values(|t: ShotTuple| shot_view(t))),
        ),
        e.screenshots@.len() == 0 ==> !view_has_key(enrich_entry_dict(e), "screenshots"@),
{
    lemma_dict_keys();
    let p0 = opt_str_entry("description"@, e.description);
    let p1: Seq<(Seq<char>, DictValueView)> = if e.screenshots@.len() > 0 {
        seq![("screenshots"@, DictValueView::Shots(e.screenshots@.map_values(|t: ShotTuple| shot_view(t))))]
    } else {
        Seq::empty()
    };
    let p2 = opt_str_entry("icon"@, e.icon);
    let p3 = opt_str_entry("icon_name"@, e.icon_name);
    let p4 = opt_str_entry("license"@, e.license);
    let q1 = p0 + p1;
    let q2 = q1 + p2;
    let q3 = q2 + p3;
    let q4 = q3 + p4;
    assert(enrich_entry_dict(e) == q4);
    lemma_concat_pairs(p0, p1);
    lemma_concat_pairs(q1, p2);
    lemma_concat_pairs(q2, p3);
    lemma_concat_pairs(q3, p4);
    lemma_opt_piece(p0, "description"@, e.description);
    lemma_opt_piece(p2, "icon"@, e.icon);
    lemma_opt_piece(p3, "icon_name"@, e.icon_name);
    lemma_opt_piece(p4, "license"@, e.license);
    if e.screenshots@.len() > 0 {
        assert(p1[0] == ("screenshots"@, DictValueView::Shots(e.screenshots@.map_values(|t: ShotTuple| shot_view(t)))));
    }
    assert(forall|k: Seq<char>| #[trigger] view_has_key(p1, k) ==> k == "screenshots"@);
}


/// Each key of a plugin row's dict carries its own field: `name` and
/// `description` their strings, `installed` the flag, `module` the module
/// when set and nothing when not.
pub proof fn law_plugin_dict_keys_carry_their_fields(e: PluginEntry)
    ensures
        view_has_entry(plugin_entry_dict(e), "name"@, DictValueView::Str(e.name@)),
        view_has_entry(plugin_entry_dict(e), "description"@, DictValueView::Str(e.description@)),
        view_has_entry(plugin_entry_dict(e), "installed"@, DictValueView::Bool(e.installed)),
        carries_opt_str(plugin_entry_dict(e), "module"@, e.module),
{
    lemma_dict_keys();
    let p0 = seq![
        ("name"@, DictValueView::Str(e.name@)),
        ("description"@, DictValueView::Str(e.description@)),
        ("installed"@, DictValueView::Bool(e.installed)),
    ];
    let p1 = opt_str_entry("module"@, e.module);
    assert(plugin_entry_dict(e) == p0 + p1);
    lemma_concat_pairs(p0, p1);
    assert(p0[0] == ("name"@, DictValueView::Str(e.name@)));
    assert(p0[1] == ("description"@, DictValueView::Str(e.description@)));
    assert(p0[2] == ("installed"@, DictValueView::Bool(e.installed)));
    lemma_opt_piece(p1, "module"@, e.module);
    assert(!view_has_key(p0, "module"@));
}

} // verus!
