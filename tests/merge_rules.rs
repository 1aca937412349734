use project_switch::config::{Config, Project, ProjectCommand, ShortcutsConfig};
use project_switch::merge::merge_configs;

fn cmd(key: &str, url: Option<&str>) -> ProjectCommand {
    ProjectCommand {
        key: key.to_string(),
        url: url.map(|u| u.to_string()),
        browser: None,
        args: None,
        url_encode: false,
    }
}

fn project(name: &str, commands: Option<Vec<ProjectCommand>>) -> Project {
    Project { name: name.to_string(), path: None, description: None, browser: None, commands }
}

fn empty() -> Config {
    Config {
        base_file: None,
        current_project: None,
        default_browser: None,
        global: None,
        shortcuts: None,
        projects: Vec::new(),
    }
}

fn sample() -> Config {
    let mut c = empty();
    c.current_project = Some("work".to_string());
    c.default_browser = Some("chrome".to_string());
    c.global = Some(vec![cmd("wiki", Some("https://wiki.local/")), cmd("mail", None)]);
    c.shortcuts = Some(ShortcutsConfig { enabled: false, extra_paths: vec!["D:\\apps".to_string()], exclude: vec![] });
    c.projects = vec![
        project("work", Some(vec![cmd("ci", Some("https://ci.example.com"))])),
        project("home", None),
    ];
    c
}

#[test]
fn merge_with_itself_gives_it_back() {
    let c = sample();
    assert_eq!(merge_configs(&c, &c), c);
}

#[test]
fn merge_of_empty_layers_is_empty() {
    assert_eq!(merge_configs(&empty(), &empty()), empty());
}

#[test]
fn overlay_scalars_win_and_base_fills_gaps() {
    let mut base = empty();
    base.current_project = Some("a".to_string());
    base.default_browser = Some("firefox".to_string());
    let mut over = empty();
    over.current_project = Some("b".to_string());
    let m = merge_configs(&base, &over);
    assert_eq!(m.current_project.as_deref(), Some("b"));
    assert_eq!(m.default_browser.as_deref(), Some("firefox"));
}

#[test]
fn shortcuts_block_is_replaced_whole() {
    let mut base = empty();
    base.shortcuts = Some(ShortcutsConfig { enabled: true, extra_paths: vec!["x".to_string()], exclude: vec!["y".to_string()] });
    let mut over = empty();
    over.shortcuts = Some(ShortcutsConfig { enabled: false, extra_paths: vec![], exclude: vec![] });
    let m = merge_configs(&base, &over);
    assert_eq!(m.shortcuts, over.shortcuts);
    let m2 = merge_configs(&base, &empty());
    assert_eq!(m2.shortcuts, base.shortcuts);
}

#[test]
fn commands_merge_by_key_field_by_field() {
    let mut base = empty();
    let mut b = cmd("mail", Some("https://base/"));
    b.browser = Some("edge".to_string());
    b.args = Some("-x".to_string());
    b.url_encode = true;
    base.global = Some(vec![b, cmd("only-base", Some("https://ob/"))]);
    let mut over = empty();
    let mut o = cmd("mail", Some("https://over/"));
    o.url_encode = false;
    over.global = Some(vec![cmd("new2", None), o, cmd("new1", None)]);
    let m = merge_configs(&base, &over);
    let g = m.global.unwrap();
    let keys: Vec<&str> = g.iter().map(|c| c.key.as_str()).collect();
    assert_eq!(keys, vec!["mail", "only-base", "new2", "new1"]);
    assert_eq!(g[0].url.as_deref(), Some("https://over/"));
    assert_eq!(g[0].browser.as_deref(), Some("edge"));
    assert_eq!(g[0].args.as_deref(), Some("-x"));
    assert!(g[0].url_encode);
    assert_eq!(g[1], cmd("only-base", Some("https://ob/")));
}

#[test]
fn projects_merge_by_name_and_new_ones_are_sorted() {
    let mut base = empty();
    let mut p = project("zeta", Some(vec![cmd("a", Some("https://a/"))]));
    p.path = Some("/base".to_string());
    p.description = Some("base desc".to_string());
    base.projects = vec![p, project("alpha", None)];
    let mut over = empty();
    let mut q = project("zeta", Some(vec![cmd("b", Some("https://b/"))]));
    q.path = Some("/over".to_string());
    over.projects = vec![project("mid", None), q, project("beta", None)];
    let m = merge_configs(&base, &over);
    let names: Vec<&str> = m.projects.iter().map(|p| p.name.as_str()).collect();
    assert_eq!(names, vec!["zeta", "alpha", "beta", "mid"]);
    assert_eq!(m.projects[0].path.as_deref(), Some("/over"));
    assert_eq!(m.projects[0].description.as_deref(), Some("base desc"));
    let keys: Vec<&str> = m.projects[0].commands.as_ref().unwrap().iter().map(|c| c.key.as_str()).collect();
    assert_eq!(keys, vec!["a", "b"]);
    assert_eq!(m.projects[1], project("alpha", None));
}
