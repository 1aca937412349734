//! Shortcut entries: which discovered files count as shortcuts, the exclusion
//! patterns, and the deduplicated, sorted list that the namespace offers.
use vstd::prelude::*;
use crate::config::keys_unique;
use crate::order::{is_permutation, sorted_arrangement, sorts_stably, stable_order};
use crate::text::{
    chars_of, contains, contains_seq, ends_with, same_chars, is_prefix_of, is_suffix_of, lower_of, starts_with,
    string_of_range, to_lower, concat,
};

verus! {

/// A launchable shortcut found on disk: its display stem and its full path.
#[derive(Clone, Debug, PartialEq, Eq)]
pub struct ShortcutEntry {
    pub name: String,
    pub path: String,
}

/// The platforms whose shortcut conventions differ.
#[derive(Clone, Copy, Debug, PartialEq, Eq)]
pub enum Platform {
    /// Link files (`.lnk`, `.url`).
    Windows,
    /// Application bundles (`.app` directories).
    MacOs,
    /// No shortcuts are scanned.
    Other,
}

/// The position of the last `c` in `s`.
pub open spec fn last_index_of(s: Seq<char>, c: char) -> Option<int>
    decreases s.len(),
{
    if s.len() == 0 {
        None
    } else if s[s.len() - 1] == c {
        Some(s.len() - 1)
    } else {
        last_index_of(s.drop_last(), c)
    }
}

/// The extensions, in lower case, that make a file a shortcut on `platform`.
pub open spec fn shortcut_extension(platform: Platform, ext: Seq<char>) -> bool {
    match platform {
        Platform::Windows => ext == seq!['l', 'n', 'k'] || ext == seq!['u', 'r', 'l'],
        Platform::MacOs => ext == seq!['a', 'p', 'p'],
        Platform::Other => false,
    }
}

/// The display stem of a file that is a shortcut on `platform`: the name before its
/// last dot, where that dot is not the first character and the extension after it,
/// lower-cased, is a shortcut extension.
pub open spec fn shortcut_stem_spec(platform: Platform, file_name: Seq<char>) -> Option<Seq<char>> {
    match last_index_of(file_name, '.') {
        Some(i) => if i > 0 && shortcut_extension(platform, lower_of(file_name.subrange(i + 1, file_name.len() as int))) {
            Some(file_name.subrange(0, i))
        } else {
            None
        },
        None => None,
    }
}

/// The name of the launcher's executable on `platform`.
pub fn binary_name(platform: Platform) -> (r: &'static str)
    ensures
        platform == Platform::Windows ==> r@ == "project-switch.exe"@,
        platform != Platform::Windows ==> r@ == "project-switch"@,
{
    match platform {
        Platform::Windows => "project-switch.exe",
        _ => "project-switch",
    }
}

/// The display stem of `file_name` where it is a shortcut on `platform`.
pub fn shortcut_stem(platform: Platform, file_name: &str) -> (r: Option<String>)
    ensures
        match r {
            Some(stem) => shortcut_stem_spec(platform, file_name@) == Some(stem@),
            None => shortcut_stem_spec(platform, file_name@) is None,
        },
{
    let cs = chars_of(file_name);
    let mut i: usize = cs.len();
    assert(cs@.subrange(0, cs@.len() as int) == cs@);
    while i > 0 && cs[i - 1] != '.'
        invariant
            cs@ == file_name@,
            i <= cs@.len(),
            last_index_of(cs@, '.') == last_index_of(cs@.subrange(0, i as int), '.'),
        decreases i,
    {
        proof {
            assert(cs@.subrange(0, i as int).drop_last() == cs@.subrange(0, i - 1));
        }
        i -= 1;
    }
    if i <= 1 {
        return None;
    }
    let ext = chars_of(to_lower(string_of_range(&cs, i, cs.len()).as_str()).as_str());
    proof {
        reveal_strlit("lnk");
        reveal_strlit("url");
        reveal_strlit("app");
        assert("lnk"@ =~= seq!['l', 'n', 'k']);
        assert("url"@ =~= seq!['u', 'r', 'l']);
        assert("app"@ =~= seq!['a', 'p', 'p']);
    }
    let is_shortcut = match platform {
        Platform::Windows => same_chars(&ext, &chars_of("lnk")) || same_chars(&ext, &chars_of("url")),
        Platform::MacOs => same_chars(&ext, &chars_of("app")),
        Platform::Other => false,
    };
    if is_shortcut {
        Some(string_of_range(&cs, 0, i - 1))
    } else {
        None
    }
}

/// What the walk does with one directory entry: the shortcut's stem where the entry is
/// a shortcut, and whether to descend into it. An application bundle is a directory;
/// a link file is taken where the walk would not descend; symbolic links to
/// directories are not followed.
pub open spec fn scan_entry_spec(
    platform: Platform,
    file_name: Seq<char>,
    is_dir: bool,
    is_link: bool,
    recursive: bool,
) -> (Option<Seq<char>>, bool) {
    let stem = shortcut_stem_spec(platform, file_name);
    let shortcut = match platform {
        Platform::MacOs => if is_dir { stem } else { None },
        _ => if is_dir && recursive { None } else { stem },
    };
    (shortcut, shortcut is None && is_dir && recursive && !is_link)
}

/// Decides, for one entry met while scanning, whether it is a shortcut and whether to
/// descend into it.
pub fn scan_entry(platform: Platform, file_name: &str, is_dir: bool, is_link: bool, recursive: bool) -> (r: (Option<String>, bool))
    ensures
        match r.0 {
            Some(stem) => scan_entry_spec(platform, file_name@, is_dir, is_link, recursive).0 == Some(stem@),
            None => scan_entry_spec(platform, file_name@, is_dir, is_link, recursive).0 is None,
        },
        r.1 == scan_entry_spec(platform, file_name@, is_dir, is_link, recursive).1,
{
    let shortcut = match platform {
        Platform::MacOs => if is_dir { shortcut_stem(platform, file_name) } else { None },
        _ => if is_dir && recursive { None } else { shortcut_stem(platform, file_name) },
    };
    let descend = shortcut.is_none() && is_dir && recursive && !is_link;
    (shortcut, descend)
}

/// A directory to scan for shortcuts, and whether its subdirectories are scanned too.
#[derive(Clone, Debug, PartialEq, Eq)]
pub struct ScanRoot {
    pub path: String,
    pub recursive: bool,
}

/// The locations of the environment that the scan roots are made from.
#[derive(Clone, Debug, PartialEq, Eq)]
pub struct ScanEnv {
    pub user_profile: Option<String>,
    pub app_data: Option<String>,
    pub all_users_profile: Option<String>,
    pub home: Option<String>,
}

/// `rest` under the directory `base`, with `sep` between them unless `base` ends in it.
pub open spec fn joined(base: Seq<char>, sep: char, rest: Seq<char>) -> Seq<char> {
    if base.len() > 0 && base[base.len() - 1] == sep {
        base + rest
    } else {
        base + seq![sep] + rest
    }
}

pub open spec fn root(path: Seq<char>, recursive: bool) -> (Seq<char>, bool) {
    (path, recursive)
}

/// A root made from an optional location, or none.
pub open spec fn optional_root(base: Option<String>, sep: char, rest: Seq<char>, recursive: bool) -> Seq<(Seq<char>, bool)> {
    match base {
        Some(b) => seq![root(joined(b@, sep, rest), recursive)],
        None => Seq::empty(),
    }
}

/// The start menu's program folder below a profile directory.
pub open spec fn start_menu() -> Seq<char> {
    "Microsoft\\Windows\\Start Menu\\Programs"@
}

/// The scan roots on `platform`, in priority order: on Windows the user's and the
/// public desktop (flat), then the user's and all users' start menu (recursive); on
/// macOS the application folders (flat); then the extra paths (recursive). Other
/// platforms scan nothing.
pub open spec fn scan_roots_spec(platform: Platform, env: ScanEnv, extra: Seq<String>) -> Seq<(Seq<char>, bool)> {
    let extras = extra.map_values(|e: String| root(e@, true));
    match platform {
        Platform::Windows => optional_root(env.user_profile, '\\', "Desktop"@, false)
            + seq![root("C:\\Users\\Public\\Desktop"@, false)]
            + optional_root(env.app_data, '\\', start_menu(), true)
            + optional_root(env.all_users_profile, '\\', start_menu(), true)
            + extras,
        Platform::MacOs => seq![root("/Applications"@, false), root("/Applications/Utilities"@, false)]
            + optional_root(env.home, '/', "Applications"@, false)
            + extras,
        Platform::Other => Seq::empty(),
    }
}

pub open spec fn root_views(rs: Seq<ScanRoot>) -> Seq<(Seq<char>, bool)> {
    rs.map_values(|r: ScanRoot| root(r.path@, r.recursive))
}

fn join_dir(base: &str, sep: char, rest: &str) -> (r: String)
    ensures
        r@ == joined(base@, sep, rest@),
{
    let cs = chars_of(base);
    let mut out = String::from_str(base);
    if !(cs.len() > 0 && cs[cs.len() - 1] == sep) {
        let mut v: Vec<char> = Vec::new();
        v.push(sep);
        let s = crate::text::string_of(&v);
        assert(s@ =~= seq![sep]);
        out = concat(out.as_str(), s.as_str());
    }
    concat(out.as_str(), rest)
}

fn push_optional_root(roots: &mut Vec<ScanRoot>, base: &Option<String>, sep: char, rest: &str, recursive: bool)
    ensures
        root_views(final(roots)@) == root_views(old(roots)@) + optional_root(*base, sep, rest@, recursive),
{
    let ghost before = roots@;
    if let Some(b) = base {
        roots.push(ScanRoot { path: join_dir(b.as_str(), sep, rest), recursive });
        assert(root_views(roots@) =~= root_views(before) + optional_root(*base, sep, rest@, recursive));
    } else {
        assert(root_views(roots@) =~= root_views(before) + optional_root(*base, sep, rest@, recursive));
    }
}

fn push_root(roots: &mut Vec<ScanRoot>, path: &str, recursive: bool)
    ensures
        root_views(final(roots)@) == root_views(old(roots)@) + seq![root(path@, recursive)],
{
    let ghost before = roots@;
    roots.push(ScanRoot { path: String::from_str(path), recursive });
    assert(root_views(roots@) =~= root_views(before) + seq![root(path@, recursive)]);
}

/// The directories to scan for shortcuts on `platform`, in priority order.
pub fn scan_roots(platform: Platform, env: &ScanEnv, extra_paths: &Vec<String>) -> (r: Vec<ScanRoot>)
    ensures
        root_views(r@) == scan_roots_spec(platform, *env, extra_paths@),
{
    let mut roots: Vec<ScanRoot> = Vec::new();
    match platform {
        Platform::Windows => {
            push_optional_root(&mut roots, &env.user_profile, '\\', "Desktop", false);
            push_root(&mut roots, "C:\\Users\\Public\\Desktop", false);
            push_optional_root(&mut roots, &env.app_data, '\\', "Microsoft\\Windows\\Start Menu\\Programs", true);
            push_optional_root(&mut roots, &env.all_users_profile, '\\', "Microsoft\\Windows\\Start Menu\\Programs", true);
        },
        Platform::MacOs => {
            push_root(&mut roots, "/Applications", false);
            push_root(&mut roots, "/Applications/Utilities", false);
            push_optional_root(&mut roots, &env.home, '/', "Applications", false);
        },
        Platform::Other => {
            assert(root_views(roots@) =~= Seq::<(Seq<char>, bool)>::empty());
            return roots;
        },
    }
    let ghost fixed = root_views(roots@);
    let mut i: usize = 0;
    while i < extra_paths.len()
        invariant
            i <= extra_paths@.len(),
            root_views(roots@) == fixed + extra_paths@.subrange(0, i as int).map_values(|e: String| root(e@, true)),
        decreases extra_paths@.len() - i,
    {
        let ghost before = roots@;
        roots.push(ScanRoot { path: extra_paths[i].clone(), recursive: true });
        assert(root_views(roots@) =~= root_views(before).push(root(extra_paths@[i as int]@, true)));
        i += 1;
        assert(root_views(roots@) =~= fixed + extra_paths@.subrange(0, i as int).map_values(|e: String| root(e@, true)));
    }
    assert(extra_paths@.subrange(0, extra_paths@.len() as int) == extra_paths@);
    roots
}

/// Whether a lower-cased name matches a lower-cased pattern: `*x*` contains `x`, `*x`
/// ends with `x`, `x*` starts with `x`, anything else is compared whole.
pub open spec fn pattern_matches(name: Seq<char>, pat: Seq<char>) -> bool {
    if pat.len() > 2 && pat[0] == '*' && pat[pat.len() - 1] == '*' {
        contains_seq(name, pat.subrange(1, pat.len() - 1))
    } else if pat.len() >= 1 && pat[0] == '*' {
        is_suffix_of(pat.drop_first(), name)
    } else if pat.len() >= 1 && pat[pat.len() - 1] == '*' {
        is_prefix_of(pat.drop_last(), name)
    } else {
        name == pat
    }
}

/// Whether some pattern excludes `name`, both compared in lower case.
pub open spec fn excluded(name: Seq<char>, patterns: Seq<String>) -> bool {
    exists|i: int| 0 <= i < patterns.len() && pattern_matches(lower_of(name), lower_of(#[trigger] patterns[i]@))
}

/// The lower-cased name of an entry: the key that deduplication goes by.
pub open spec fn entry_key(e: ShortcutEntry) -> Seq<char> {
    lower_of(e.name@)
}

/// Whether some entry of `es` has the key `k`.
pub open spec fn has_entry_key(es: Seq<ShortcutEntry>, k: Seq<char>) -> bool {
    exists|j: int| 0 <= j < es.len() && entry_key(#[trigger] es[j]) == k
}

/// The entries kept from `found`, in discovery order: an entry is dropped where a
/// pattern excludes it or an earlier kept entry has its key.
pub open spec fn kept_entries(found: Seq<ShortcutEntry>, patterns: Seq<String>) -> Seq<ShortcutEntry>
    decreases found.len(),
{
    if found.len() == 0 {
        Seq::empty()
    } else {
        let prev = kept_entries(found.drop_last(), patterns);
        let e = found.last();
        if excluded(e.name@, patterns) || has_entry_key(prev, entry_key(e)) {
            prev
        } else {
            prev.push(e)
        }
    }
}

/// The keys of a list of entries.
pub open spec fn entry_keys(es: Seq<ShortcutEntry>) -> Seq<Seq<char>> {
    es.map_values(|e: ShortcutEntry| entry_key(e))
}

/// `r` holds the entries of `kept`, stably sorted by key.
pub open spec fn sorted_by_key(r: Seq<ShortcutEntry>, kept: Seq<ShortcutEntry>) -> bool {
    sorted_arrangement(r, kept, entry_keys(kept))
}

/// Whether the lower-cased `pat` matches the lower-cased `name`.
fn pattern_matches_exec(name: &Vec<char>, pat: &Vec<char>) -> (r: bool)
    ensures
        r == pattern_matches(name@, pat@),
{
    let n = pat.len();
    if n > 2 && pat[0] == '*' && pat[n - 1] == '*' {
        let inner = chars_of(string_of_range(pat, 1, n - 1).as_str());
        contains(name, &inner)
    } else if n >= 1 && pat[0] == '*' {
        let suffix = chars_of(string_of_range(pat, 1, n).as_str());
        assert(pat@.drop_first() == pat@.subrange(1, n as int));
        ends_with(name, &suffix)
    } else if n >= 1 && pat[n - 1] == '*' {
        let prefix = chars_of(string_of_range(pat, 0, n - 1).as_str());
        assert(pat@.drop_last() == pat@.subrange(0, n - 1));
        starts_with(name, &prefix)
    } else {
        same_chars(name, pat)
    }
}

/// Whether any of `patterns` excludes `name`, both compared in lower case.
pub fn matches_any_pattern(name: &str, patterns: &Vec<String>) -> (r: bool)
    ensures
        r == excluded(name@, patterns@),
{
    let name_lower = chars_of(to_lower(name).as_str());
    let mut i: usize = 0;
    while i < patterns.len()
        invariant
            name_lower@ == lower_of(name@),
            i <= patterns@.len(),
            forall|k: int| 0 <= k < i ==> !pattern_matches(lower_of(name@), lower_of(#[trigger] patterns@[k]@)),
        decreases patterns@.len() - i,
    {
        let pat = chars_of(to_lower(patterns[i].as_str()).as_str());
        if pattern_matches_exec(&name_lower, &pat) {
            return true;
        }
        i += 1;
    }
    false
}

/// Deduplicates and filters the shortcuts found, in discovery order (scan roots by
/// priority), and sorts the result by name, ignoring case.
pub fn collect_shortcuts(found: &Vec<ShortcutEntry>, exclude_patterns: &Vec<String>) -> (r: Vec<ShortcutEntry>)
    ensures
        sorted_by_key(r@, kept_entries(found@, exclude_patterns@)),
{
    let mut kept: Vec<ShortcutEntry> = Vec::new();
    let mut keys: Vec<Vec<char>> = Vec::new();
    let mut i: usize = 0;
    while i < found.len()
        invariant
            i <= found@.len(),
            kept@ == kept_entries(found@.subrange(0, i as int), exclude_patterns@),
            keys@.len() == kept@.len(),
            forall|k: int| 0 <= k < kept@.len() ==> (#[trigger] keys@[k])@ == entry_key(kept@[k]),
        decreases found@.len() - i,
    {
        let e = &found[i];
        proof {
            assert(found@.subrange(0, i + 1).drop_last() == found@.subrange(0, i as int));
            assert(found@.subrange(0, i + 1).last() == found@[i as int]);
        }
        let key = chars_of(to_lower(e.name.as_str()).as_str());
        let mut seen = false;
        let mut k: usize = 0;
        while k < keys.len()
            invariant
                keys@.len() == kept@.len(),
                forall|m: int| 0 <= m < kept@.len() ==> (#[trigger] keys@[m])@ == entry_key(kept@[m]),
                key@ == entry_key(*e),
                k <= keys@.len(),
                seen == has_entry_key(kept@.subrange(0, k as int), key@),
            decreases keys@.len() - k,
        {
            proof {
                let before = kept@.subrange(0, k as int);
                let after = kept@.subrange(0, k + 1);
                assert forall|j: int| 0 <= j < before.len() implies before[j] == after[j] by {}
                assert(after[k as int] == kept@[k as int]);
            }
            if !seen && same_chars(&keys[k], &key) {
                seen = true;
            }
            k += 1;
        }
        assert(kept@.subrange(0, kept@.len() as int) == kept@);
        if !seen && !matches_any_pattern(e.name.as_str(), exclude_patterns) {
            kept.push(e.clone_entry());
            keys.push(key);
        }
        i += 1;
    }
    assert(found@.subrange(0, found@.len() as int) == found@);
    let order = stable_order(&keys);
    assert(keys@.map_values(|k: Vec<char>| k@) =~= entry_keys(kept@));
    let mut r: Vec<ShortcutEntry> = Vec::new();
    let mut m: usize = 0;
    while m < order.len()
        invariant
            m <= order@.len(),
            is_permutation(order@, kept@.len()),
            r@ == order@.subrange(0, m as int).map_values(|j: usize| kept@[j as int]),
        decreases order@.len() - m,
    {
        r.push(kept[order[m]].clone_entry());
        m += 1;
        assert(r@ =~= order@.subrange(0, m as int).map_values(|j: usize| kept@[j as int]));
    }
    assert(order@.subrange(0, order@.len() as int) == order@);
    r
}

impl ShortcutEntry {
    /// An exact copy.
    pub fn clone_entry(&self) -> (r: ShortcutEntry)
        ensures
            r == *self,
    {
        ShortcutEntry { name: self.name.clone(), path: self.path.clone() }
    }
}

proof fn lemma_kept_keys_unique(found: Seq<ShortcutEntry>, patterns: Seq<String>)
    ensures
        keys_unique(entry_keys(kept_entries(found, patterns))),
    decreases found.len(),
{
    if found.len() > 0 {
        let prev = kept_entries(found.drop_last(), patterns);
        lemma_kept_keys_unique(found.drop_last(), patterns);
        let kept = kept_entries(found, patterns);
        if kept != prev {
            let e = found.last();
            assert forall|a: int, b: int| 0 <= a < kept.len() && 0 <= b < kept.len()
                && entry_keys(kept)[a] == entry_keys(kept)[b] implies a == b by {
                if a < prev.len() && b == prev.len() {
                    assert(entry_key(prev[a]) == entry_key(e));
                } else if b < prev.len() && a == prev.len() {
                    assert(entry_key(prev[b]) == entry_key(e));
                } else if a < prev.len() && b < prev.len() {
                    assert(entry_keys(prev)[a] == entry_keys(prev)[b]);
                }
            }
        }
    }
}

proof fn lemma_kept_from_found(found: Seq<ShortcutEntry>, patterns: Seq<String>)
    ensures
        forall|m: int| 0 <= m < kept_entries(found, patterns).len()
            ==> found.contains(#[trigger] kept_entries(found, patterns)[m]),
    decreases found.len(),
{
    if found.len() > 0 {
        let prefix = found.drop_last();
        lemma_kept_from_found(prefix, patterns);
        let prev = kept_entries(prefix, patterns);
        let kept = kept_entries(found, patterns);
        assert forall|m: int| 0 <= m < kept.len() implies found.contains(#[trigger] kept[m]) by {
            if m < prev.len() {
                assert(prefix.contains(prev[m]));
                let k = choose|k: int| 0 <= k < prefix.len() && prefix[k] == prev[m];
                assert(found[k] == prev[m]);
            } else {
                assert(found[found.len() - 1] == kept[m]);
            }
        }
    }
}

proof fn lemma_first_of_key_kept(found: Seq<ShortcutEntry>, patterns: Seq<String>, i: int)
    requires
        0 <= i < found.len(),
        !excluded(found[i].name@, patterns),
        forall|k: int| 0 <= k < i ==> entry_key(#[trigger] found[k]) != entry_key(found[i]),
    ensures
        kept_entries(found, patterns).contains(found[i]),
    decreases found.len(),
{
    let prefix = found.drop_last();
    let prev = kept_entries(prefix, patterns);
    if i < found.len() - 1 {
        assert(prefix[i] == found[i]);
        assert forall|k: int| 0 <= k < i implies entry_key(#[trigger] prefix[k]) != entry_key(prefix[i]) by {
            assert(prefix[k] == found[k]);
        }
        lemma_first_of_key_kept(prefix, patterns, i);
        let p = choose|p: int| 0 <= p < prev.len() && prev[p] == found[i];
        assert(kept_entries(found, patterns)[p] == found[i]);
    } else {
        lemma_kept_from_found(prefix, patterns);
        assert forall|j: int| 0 <= j < prev.len() implies entry_key(#[trigger] prev[j]) != entry_key(found[i]) by {
            assert(prefix.contains(prev[j]));
            let k = choose|k: int| 0 <= k < prefix.len() && prefix[k] == prev[j];
            assert(found[k] == prefix[k]);
        }
        assert(found.last() == found[i]);
        let kept = kept_entries(found, patterns);
        assert(kept[prev.len() as int] == found[i]);
    }
}

/// Where two discovered shortcuts have names that differ only in case, the collected
/// list holds exactly one entry of that name: the one discovered first, from the
/// scan root of higher priority.
pub proof fn law_shortcut_dedup_first_wins(
    found: Seq<ShortcutEntry>,
    patterns: Seq<String>,
    i: int,
    j: int,
    r: Seq<ShortcutEntry>,
)
    requires
        0 <= i < j < found.len(),
        entry_key(found[i]) == entry_key(found[j]),
        forall|k: int| 0 <= k < i ==> entry_key(#[trigger] found[k]) != entry_key(found[i]),
        !excluded(found[i].name@, patterns),
        sorted_by_key(r, kept_entries(found, patterns)),
    ensures
        r.contains(found[i]),
        forall|a: int, b: int| 0 <= a < r.len() && 0 <= b < r.len()
            && entry_key(#[trigger] r[a]) == entry_key(found[i]) && entry_key(#[trigger] r[b]) == entry_key(found[i])
            ==> a == b,
{
    let kept = kept_entries(found, patterns);
    lemma_first_of_key_kept(found, patterns, i);
    lemma_kept_keys_unique(found, patterns);
    let order = choose|order: Seq<usize>|
        is_permutation(order, kept.len()) && sorts_stably(entry_keys(kept), order)
            && r == order.map_values(|m: usize| kept[m as int]);
    let t = choose|t: int| 0 <= t < kept.len() && kept[t] == found[i];
    assert(crate::order::covers(order, t));
    let p = choose|p: int| 0 <= p < order.len() && order[p] as int == t;
    assert(r[p] == kept[order[p] as int]);
    assert(order[p] as int == t);
    assert(r[p] == found[i]);
    assert forall|a: int, b: int| 0 <= a < r.len() && 0 <= b < r.len()
        && entry_key(#[trigger] r[a]) == entry_key(found[i]) && entry_key(#[trigger] r[b]) == entry_key(found[i])
        implies a == b by {
        assert(r[a] == kept[order[a] as int]);
        assert(r[b] == kept[order[b] as int]);
        assert(entry_keys(kept)[order[a] as int] == entry_keys(kept)[order[b] as int]);
        if a < b {
            assert(order[a] != order[b]);
        } else if b < a {
            assert(order[b] != order[a]);
        }
    }
}

} // verus!
