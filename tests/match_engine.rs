use project_switch::config::ProjectCommand;
use project_switch::matcher::{classify_input, format_suggestion, get_completion, get_suggestions, strip_ansi_codes, strip_decoration, submit_input, InputState};
use project_switch::config::Project;
use project_switch::dispatch::Action;
use project_switch::paths::{next_descent, list_matching, path_suggestions, sole_directory, split_path, PathEntry};
use project_switch::resolver::ListItem;
use project_switch::shortcuts::ShortcutEntry;

fn cmd(key: &str, url: &str) -> ListItem {
    ListItem::Command(ProjectCommand { key: key.to_string(), url: Some(url.to_string()), browser: None, args: None, url_encode: false })
}

fn entry(name: &str, is_dir: bool) -> PathEntry {
    PathEntry { name: name.to_string(), is_dir }
}

#[test]
fn suggestion_round_trip() {
    let items = vec![
        cmd("mail", "https://mail.example.com/"),
        cmd("long", &format!("https://{}", "x".repeat(80))),
        ListItem::Shortcut(ShortcutEntry { name: "Visual Studio Code".to_string(), path: "C:\\x.lnk".to_string() }),
    ];
    for item in &items {
        assert_eq!(strip_decoration(&format_suggestion(item)), item.key().as_str());
    }
}

#[test]
fn suggestion_text() {
    assert_eq!(format_suggestion(&cmd("mail", "https://m/")), "mail \u{2192} https://m/");
    let long = format!("https://{}", "x".repeat(80));
    let s = format_suggestion(&cmd("k", &long));
    assert_eq!(s, format!("k \u{2192} {}...", &long[..57]));
    let sc = ListItem::Shortcut(ShortcutEntry { name: "Paint".to_string(), path: "p".to_string() });
    assert_eq!(format_suggestion(&sc), "Paint \u{2192} [shortcut]");
}

#[test]
fn colour_codes_are_removed() {
    assert_eq!(strip_ansi_codes("\u{1b}[1;32mmail\u{1b}[0m"), "mail");
    assert_eq!(strip_ansi_codes("plain"), "plain");
    assert_eq!(strip_decoration("\u{1b}[32mmail\u{1b}[0m \u{2192} https://m/"), "mail");
    assert_eq!(strip_decoration("typed text"), "typed text");
}

#[test]
fn completion_uses_highlighted_key_or_input() {
    assert_eq!(get_completion("ma", Some("mail \u{2192} https://m/")), "mail");
    assert_eq!(get_completion("ma", None), "ma");
}

#[test]
fn suggestions_before_and_after_space() {
    let ns = vec![cmd("mail", "https://m/"), cmd("gmail", "https://g/"), cmd("wiki", "https://w/")];
    let s = get_suggestions(&ns, "MAI");
    assert_eq!(s.len(), 2);
    let one = get_suggestions(&ns, "mail hello");
    assert_eq!(one, vec!["mail \u{2192} https://m/".to_string()]);
    let fallback = get_suggestions(&ns, "ai x");
    assert_eq!(fallback.len(), 2);
    assert_eq!(get_suggestions(&ns, "").len(), 3);
}

#[test]
fn input_states() {
    assert_eq!(classify_input(""), InputState::Empty);
    assert_eq!(classify_input("ma"), InputState::PrefixTyping);
    assert_eq!(classify_input("mail x"), InputState::ArgsTyping);
    assert_eq!(classify_input("C:\\Users"), InputState::PathBrowsing);
    assert_eq!(classify_input("\\\\server\\share"), InputState::PathBrowsing);
}

#[test]
fn existing_paths_launch_directly() {
    let p = Project { name: "w".to_string(), path: None, description: None, browser: None, commands: None };
    let r = submit_input(&vec![], &p, "firefox", "C:\\tools\\app.exe", true);
    assert_eq!(r, Ok(Action::LaunchPath { path: "C:\\tools\\app.exe".to_string() }));
    let r2 = submit_input(&vec![cmd("mail", "https://m/")], &p, "firefox", "mail", false);
    assert_eq!(r2, Ok(Action::OpenUrl { url: "https://m/".to_string(), browser: "firefox".to_string() }));
}

#[test]
fn path_split_and_listing() {
    assert_eq!(split_path("C:\\Users\\Do"), ("C:\\Users\\".to_string(), "Do".to_string()));
    assert_eq!(split_path("C:"), ("C:".to_string(), String::new()));
    let es = vec![entry("documents.txt", false), entry("Downloads", true), entry("desktop", true), entry("Music", true), entry("Doc.md", false)];
    let l = list_matching(&es, "D");
    let names: Vec<&str> = l.iter().map(|e| e.name.as_str()).collect();
    assert_eq!(names, vec!["desktop", "Downloads", "Doc.md", "documents.txt"]);
    assert_eq!(sole_directory(&l), None);
    let one = list_matching(&es, "mu");
    assert_eq!(sole_directory(&one), Some("Music".to_string()));
}

#[test]
fn path_suggestion_texts() {
    let listing = vec![entry("Docs", true), entry("a.txt", false)];
    let s = path_suggestions("C:\\Users\\", "", &listing);
    assert_eq!(
        s,
        vec![
            "C:\\Users\\ \u{2192} [dir]".to_string(),
            "C:\\Users\\Docs \u{2192} [dir]".to_string(),
            "C:\\Users\\a.txt \u{2192} [file]".to_string(),
        ]
    );
    assert_eq!(path_suggestions("C:\\", "D", &vec![]).len(), 0);
    assert_eq!(strip_decoration(&s[2]), "C:\\Users\\a.txt");
}

#[test]
fn descending_into_a_sole_directory_is_bounded() {
    let one = vec![entry("Music", true)];
    assert_eq!(next_descent("C:\\Users\\", &one, 0, '\\'), Some("C:\\Users\\Music\\".to_string()));
    assert_eq!(next_descent("C:\\Users\\", &one, 8, '\\'), None);
    assert_eq!(next_descent("/home/", &vec![entry("a.txt", false)], 0, '/'), None);
    assert_eq!(next_descent("/home/", &vec![entry("a", true), entry("b", true)], 0, '/'), None);
}
