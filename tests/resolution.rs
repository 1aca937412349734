use project_switch::config::{Config, Project, ProjectCommand, ShortcutsConfig};
use project_switch::dispatch::{resolve_key, args_for, browser_for, current_project, open_command_with_args, resolve_input, split_input, Action, ResolveError};
use project_switch::manager::ConfigManager;
use project_switch::resolver::{build_namespace, resolve, ListItem};
use project_switch::shortcuts::ShortcutEntry;
use project_switch::url::{is_url, url_for, url_with_args};

fn cmd(key: &str, url: Option<&str>) -> ProjectCommand {
    ProjectCommand { key: key.to_string(), url: url.map(|u| u.to_string()), browser: None, args: None, url_encode: false }
}

fn project(name: &str, commands: Option<Vec<ProjectCommand>>) -> Project {
    Project { name: name.to_string(), path: None, description: None, browser: None, commands }
}

fn config(current: Option<&str>, global: Option<Vec<ProjectCommand>>, projects: Vec<Project>) -> Config {
    Config {
        base_file: None,
        current_project: current.map(|c| c.to_string()),
        default_browser: None,
        global,
        shortcuts: None,
        projects,
    }
}

fn shortcut(name: &str) -> ShortcutEntry {
    ShortcutEntry { name: name.to_string(), path: format!("C:\\Links\\{}.lnk", name) }
}

fn run(cfg: Config, shortcuts: Vec<ShortcutEntry>, input: &str) -> Result<Action, ResolveError> {
    let m = ConfigManager::new(cfg, None);
    let p = current_project(&m).unwrap();
    let enabled = m.config().shortcut_settings().enabled;
    let ns = build_namespace(p, &m.config().global, &shortcuts, enabled);
    resolve_input(&ns, p, m.get_default_browser(), input)
}

#[test]
fn mail_arguments_are_url_encoded() {
    let mut mail = cmd("mail", Some("https://mail.example.com/?q="));
    mail.url_encode = true;
    let cfg = config(Some("work"), None, vec![project("work", Some(vec![mail]))]);
    let r = run(cfg, vec![], "mail hello world");
    assert_eq!(
        r,
        Ok(Action::OpenUrl { url: "https://mail.example.com/?q=hello%20world".to_string(), browser: "firefox".to_string() })
    );
}

#[test]
fn global_command_opens_in_default_browser() {
    let cfg = config(Some("work"), Some(vec![cmd("wiki", Some("https://wiki.local/"))]), vec![project("work", Some(vec![cmd("mail", Some("https://m/"))]))]);
    let r = run(cfg, vec![], "wiki");
    assert_eq!(r, Ok(Action::OpenUrl { url: "https://wiki.local/".to_string(), browser: "firefox".to_string() }));
}

#[test]
fn unknown_domain_falls_back_to_url() {
    let cfg = config(Some("work"), None, vec![project("work", None)]);
    let r = run(cfg, vec![], "example.com");
    assert_eq!(r, Ok(Action::OpenUrl { url: "https://example.com".to_string(), browser: "firefox".to_string() }));
}

#[test]
fn disabled_shortcuts_leave_no_shortcut_items() {
    let mut cfg = config(Some("work"), Some(vec![cmd("wiki", Some("https://wiki.local/"))]), vec![project("work", None)]);
    cfg.shortcuts = Some(ShortcutsConfig { enabled: false, extra_paths: vec![], exclude: vec![] });
    let m = ConfigManager::new(cfg, None);
    let p = current_project(&m).unwrap();
    let enabled = m.config().shortcut_settings().enabled;
    assert!(!enabled);
    let ns = build_namespace(p, &m.config().global, &vec![shortcut("Code"), shortcut("Paint")], enabled);
    assert_eq!(ns.len(), 1);
    assert!(ns.iter().all(|i| matches!(i, ListItem::Command(_))));
    let ns_on = build_namespace(p, &m.config().global, &vec![shortcut("Code"), shortcut("Paint")], true);
    assert_eq!(ns_on.len(), 3);
}

#[test]
fn project_command_wins_over_global_of_same_key() {
    let cfg = config(
        Some("work"),
        Some(vec![cmd("docs", Some("https://global-docs/"))]),
        vec![project("work", Some(vec![cmd("docs", Some("https://project-docs/"))]))],
    );
    let r = run(cfg, vec![], "docs");
    assert_eq!(r, Ok(Action::OpenUrl { url: "https://project-docs/".to_string(), browser: "firefox".to_string() }));
}

#[test]
fn namespace_is_deduplicated_and_sorted() {
    let p = project("work", Some(vec![cmd("zeta", None), cmd("alpha", Some("p"))]));
    let global = Some(vec![cmd("alpha", Some("g")), cmd("beta", None)]);
    let ns = build_namespace(&p, &global, &vec![shortcut("Code")], true);
    let keys: Vec<&str> = ns.iter().map(|i| i.key().as_str()).collect();
    assert_eq!(keys, vec!["alpha", "beta", "zeta", "Code"]);
    assert_eq!(ns[0], ListItem::Command(cmd("alpha", Some("p"))));
}

#[test]
fn exact_match_beats_substring_and_ignores_case() {
    let ns = vec![ListItem::Command(cmd("mailbox", None)), ListItem::Command(cmd("Mail", None))];
    assert_eq!(resolve(&ns, "MAIL"), Some(1));
    assert_eq!(resolve(&ns, "box"), Some(0));
    assert_eq!(resolve(&ns, "zzz"), None);
}

#[test]
fn shortcut_selection_launches_its_path() {
    let cfg = config(Some("work"), None, vec![project("work", None)]);
    let r = run(cfg, vec![shortcut("Code")], "code");
    assert_eq!(r, Ok(Action::LaunchPath { path: "C:\\Links\\Code.lnk".to_string() }));
}

#[test]
fn unmatched_keyword_is_an_error() {
    let cfg = config(Some("work"), None, vec![project("work", None)]);
    let r = run(cfg, vec![], "nothing here");
    assert_eq!(r, Err(ResolveError::NotFound("nothing".to_string())));
    assert_eq!(r.unwrap_err().message(), "No command found matching 'nothing'");
}

#[test]
fn command_without_url_is_an_error() {
    let cfg = config(Some("work"), None, vec![project("work", Some(vec![cmd("todo", None)]))]);
    let r = run(cfg, vec![], "todo");
    assert_eq!(r, Err(ResolveError::MissingUrl("todo".to_string())));
    assert_eq!(r.unwrap_err().message(), "Command 'todo' does not have a URL configured");
}

#[test]
fn no_current_project_is_an_error() {
    let m = ConfigManager::new(config(None, None, vec![project("work", None)]), None);
    assert_eq!(current_project(&m).err(), Some(ResolveError::NoCurrentProject));
    let m2 = ConfigManager::new(config(Some("gone"), None, vec![project("work", None)]), None);
    assert_eq!(current_project(&m2).err(), Some(ResolveError::NoCurrentProject));
    assert_eq!(m2.get_current_project(), None);
    assert!(m2.resolve_current_project().is_none());
    assert_eq!(ResolveError::NoCurrentProject.message(), "No current project selected");
}

#[test]
fn shell_commands_get_joined_arguments() {
    let mut c = cmd("build", Some("cargo build"));
    c.args = Some("--release".to_string());
    let cfg = config(Some("work"), None, vec![project("work", Some(vec![c]))]);
    let r = run(cfg, vec![], "build   --verbose  ");
    assert_eq!(r, Ok(Action::RunCommand { command: "cargo build".to_string(), args: Some("--release --verbose".to_string()) }));
}

#[test]
fn browser_precedence() {
    let mut c = cmd("a", Some("https://a/"));
    let mut p = project("p", None);
    assert_eq!(browser_for(&c, &p, "firefox"), "firefox");
    p.browser = Some("chrome".to_string());
    assert_eq!(browser_for(&c, &p, "firefox"), "chrome");
    c.browser = Some("edge".to_string());
    assert_eq!(browser_for(&c, &p, "firefox"), "edge");
}

#[test]
fn argument_joining() {
    let mut c = cmd("a", None);
    assert_eq!(args_for(&c, None), None);
    assert_eq!(args_for(&c, Some("u")), Some("u".to_string()));
    c.args = Some("x".to_string());
    assert_eq!(args_for(&c, None), Some("x".to_string()));
    assert_eq!(args_for(&c, Some("u")), Some("x u".to_string()));
}

#[test]
fn url_arguments_plain_or_encoded() {
    assert_eq!(url_with_args("https://s/?q=", Some("a b"), false), "https://s/?q=a b");
    assert_eq!(url_with_args("https://s/?q=", Some("a b&c"), true), "https://s/?q=a%20b%26c");
    assert_eq!(url_with_args("https://s/?q=", Some(""), true), "https://s/?q=");
    assert_eq!(url_with_args("https://s/", None, true), "https://s/");
    assert_eq!(
        open_command_with_args("echo", "firefox", Some("hi"), false),
        Action::RunCommand { command: "echo".to_string(), args: Some("hi".to_string()) }
    );
}

#[test]
fn url_recognition() {
    assert!(is_url("http://x"));
    assert!(is_url("https://x"));
    assert!(is_url("www.x"));
    assert!(is_url("example.com"));
    assert!(!is_url("example."));
    assert!(!is_url("exa mple.com"));
    assert!(!is_url("plain"));
    assert_eq!(url_for("example.com"), "https://example.com");
    assert_eq!(url_for("http://example.com"), "http://example.com");
}

#[test]
fn input_split_at_first_space() {
    assert_eq!(split_input("mail hello world"), ("mail".to_string(), Some("hello world".to_string())));
    assert_eq!(split_input("mail   "), ("mail".to_string(), None));
    assert_eq!(split_input("mail"), ("mail".to_string(), None));
}

#[test]
fn opening_a_key_directly() {
    let mut docs = cmd("docs", Some("https://docs/?q="));
    docs.args = Some("a b".to_string());
    docs.url_encode = true;
    let mut p = project("work", Some(vec![docs, cmd("todo", None)]));
    p.browser = Some("chrome".to_string());
    let m = ConfigManager::new(config(Some("work"), Some(vec![cmd("g", Some("echo hi"))]), vec![p]), None);
    assert_eq!(resolve_key(&m, "docs"), Ok(Action::OpenUrl { url: "https://docs/?q=a%20b".to_string(), browser: "chrome".to_string() }));
    assert_eq!(resolve_key(&m, "g"), Ok(Action::RunCommand { command: "echo hi".to_string(), args: None }));
    assert_eq!(resolve_key(&m, "todo"), Err(ResolveError::MissingUrl("todo".to_string())));
    assert_eq!(resolve_key(&m, "site.org"), Ok(Action::OpenUrl { url: "https://site.org".to_string(), browser: "chrome".to_string() }));
    assert_eq!(resolve_key(&m, "nope"), Err(ResolveError::NotFound("nope".to_string())));
    let none = ConfigManager::new(config(None, None, vec![]), None);
    assert_eq!(resolve_key(&none, "www.x.org"), Ok(Action::OpenUrl { url: "https://www.x.org".to_string(), browser: "firefox".to_string() }));
    assert_eq!(resolve_key(&none, "docs"), Err(ResolveError::NoCurrentProject));
}

#[test]
fn user_arguments_are_trimmed_of_any_white_space() {
    assert_eq!(split_input("mail \t hello\u{3000}"), ("mail".to_string(), Some("hello".to_string())));
}
