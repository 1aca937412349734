use project_switch::shortcuts::{scan_entry, scan_roots, ScanEnv, ScanRoot, binary_name, collect_shortcuts, matches_any_pattern, shortcut_stem, Platform, ShortcutEntry};

fn entry(name: &str, path: &str) -> ShortcutEntry {
    ShortcutEntry { name: name.to_string(), path: path.to_string() }
}

fn pats(ps: &[&str]) -> Vec<String> {
    ps.iter().map(|p| p.to_string()).collect()
}

#[test]
fn names_differing_in_case_keep_the_first_found() {
    let found = vec![entry("Visual Studio Code", "desktop/Visual Studio Code.lnk"), entry("visual studio code", "start/visual studio code.lnk")];
    let r = collect_shortcuts(&found, &vec![]);
    assert_eq!(r, vec![entry("Visual Studio Code", "desktop/Visual Studio Code.lnk")]);
}

#[test]
fn collected_shortcuts_are_sorted_ignoring_case() {
    let found = vec![entry("zoom", "z"), entry("Alpha", "a"), entry("beta", "b")];
    let r = collect_shortcuts(&found, &vec![]);
    let names: Vec<&str> = r.iter().map(|e| e.name.as_str()).collect();
    assert_eq!(names, vec!["Alpha", "beta", "zoom"]);
}

#[test]
fn excluded_shortcuts_are_dropped() {
    let found = vec![entry("Uninstall Foo", "u"), entry("Foo Help", "h"), entry("Readme", "r"), entry("Tool", "t"), entry("My Docs", "d")];
    let r = collect_shortcuts(&found, &pats(&["uninstall*", "*help", "README", "*doc*"]));
    assert_eq!(r, vec![entry("Tool", "t")]);
}

#[test]
fn no_shortcuts_found_gives_none() {
    assert!(collect_shortcuts(&vec![], &pats(&["x"])).is_empty());
}

#[test]
fn pattern_kinds() {
    assert!(matches_any_pattern("Foo Bar", &pats(&["foo*"])));
    assert!(matches_any_pattern("Foo Bar", &pats(&["*BAR"])));
    assert!(matches_any_pattern("Foo Bar", &pats(&["*o b*"])));
    assert!(matches_any_pattern("Foo Bar", &pats(&["foo bar"])));
    assert!(!matches_any_pattern("Foo Bar", &pats(&["foo"])));
    assert!(matches_any_pattern("anything", &pats(&["*"])));
    assert!(!matches_any_pattern("Foo", &pats(&[])));
}

#[test]
fn shortcut_files_by_platform() {
    assert_eq!(shortcut_stem(Platform::Windows, "Code.LNK"), Some("Code".to_string()));
    assert_eq!(shortcut_stem(Platform::Windows, "site.url"), Some("site".to_string()));
    assert_eq!(shortcut_stem(Platform::Windows, "a.b.lnk"), Some("a.b".to_string()));
    assert_eq!(shortcut_stem(Platform::Windows, "notes.txt"), None);
    assert_eq!(shortcut_stem(Platform::Windows, ".lnk"), None);
    assert_eq!(shortcut_stem(Platform::MacOs, "Safari.app"), Some("Safari".to_string()));
    assert_eq!(shortcut_stem(Platform::MacOs, "Code.lnk"), None);
    assert_eq!(shortcut_stem(Platform::Other, "Safari.app"), None);
}

#[test]
fn binary_names() {
    assert_eq!(binary_name(Platform::Windows), "project-switch.exe");
    assert_eq!(binary_name(Platform::MacOs), "project-switch");
}

fn roots(rs: &[(&str, bool)]) -> Vec<ScanRoot> {
    rs.iter().map(|(p, r)| ScanRoot { path: p.to_string(), recursive: *r }).collect()
}

#[test]
fn scan_roots_in_priority_order() {
    let env = ScanEnv {
        user_profile: Some("C:\\Users\\me".to_string()),
        app_data: Some("C:\\Users\\me\\AppData\\Roaming\\".to_string()),
        all_users_profile: None,
        home: Some("/Users/me".to_string()),
    };
    let extra = vec!["D:\\Tools".to_string()];
    assert_eq!(
        scan_roots(Platform::Windows, &env, &extra),
        roots(&[
            ("C:\\Users\\me\\Desktop", false),
            ("C:\\Users\\Public\\Desktop", false),
            ("C:\\Users\\me\\AppData\\Roaming\\Microsoft\\Windows\\Start Menu\\Programs", true),
            ("D:\\Tools", true),
        ])
    );
    assert_eq!(
        scan_roots(Platform::MacOs, &env, &vec![]),
        roots(&[("/Applications", false), ("/Applications/Utilities", false), ("/Users/me/Applications", false)])
    );
    assert!(scan_roots(Platform::Other, &env, &extra).is_empty());
}

#[test]
fn scan_entry_decisions() {
    assert_eq!(scan_entry(Platform::Windows, "Code.lnk", false, false, true), (Some("Code".to_string()), false));
    assert_eq!(scan_entry(Platform::Windows, "Tools", true, false, true), (None, true));
    assert_eq!(scan_entry(Platform::Windows, "Tools", true, false, false), (None, false));
    assert_eq!(scan_entry(Platform::Windows, "Loop", true, true, true), (None, false));
    assert_eq!(scan_entry(Platform::MacOs, "Safari.app", true, false, true), (Some("Safari".to_string()), false));
    assert_eq!(scan_entry(Platform::MacOs, "Safari.app", false, false, true), (None, false));
    assert_eq!(scan_entry(Platform::MacOs, "Games", true, false, true), (None, true));
    assert_eq!(scan_entry(Platform::Other, "x.app", true, false, true), (None, true));
}
