use project_switch::config::{home_relative, Config, Project, ProjectCommand};
use project_switch::manager::{ConfigError, ConfigManager};

fn project(name: &str) -> Project {
    Project { name: name.to_string(), path: None, description: None, browser: None, commands: None }
}

fn config(projects: Vec<Project>) -> Config {
    Config { base_file: None, current_project: None, default_browser: None, global: None, shortcuts: None, projects }
}

#[test]
fn first_added_project_becomes_current() {
    let mut m = ConfigManager::new(Config::default(), None);
    assert_eq!(m.add_project(project("a")), Ok(()));
    assert_eq!(m.get_current_project().map(|s| s.as_str()), Some("a"));
    assert_eq!(m.add_project(project("b")), Ok(()));
    assert_eq!(m.get_current_project().map(|s| s.as_str()), Some("a"));
    assert_eq!(m.get_projects().len(), 2);
    assert_eq!(m.local_config().projects.len(), 2);
    assert_eq!(m.local_config().current_project.as_deref(), Some("a"));
}

#[test]
fn duplicate_project_is_refused() {
    let mut m = ConfigManager::new(config(vec![project("a")]), None);
    let e = m.add_project(project("a")).unwrap_err();
    assert_eq!(e, ConfigError::ProjectExists("a".to_string()));
    assert_eq!(e.message(), "Project 'a' already exists");
    assert_eq!(m.get_projects().len(), 1);
}

#[test]
fn switching_needs_an_existing_project() {
    let mut m = ConfigManager::new(config(vec![project("a"), project("b")]), None);
    assert_eq!(m.set_current_project("b"), Ok(()));
    assert_eq!(m.get_current_project().map(|s| s.as_str()), Some("b"));
    assert_eq!(m.local_config().current_project.as_deref(), Some("b"));
    let e = m.set_current_project("c").unwrap_err();
    assert_eq!(e.message(), "Project 'c' not found");
    assert_eq!(m.get_current_project().map(|s| s.as_str()), Some("b"));
}

#[test]
fn projects_from_the_base_are_merged_but_not_local() {
    let mut base = config(vec![project("shared")]);
    base.default_browser = Some("chrome".to_string());
    let local = config(vec![project("mine")]);
    let mut m = ConfigManager::new(local, Some(base));
    assert!(m.project_exists("shared"));
    assert!(m.project_exists("mine"));
    assert_eq!(m.get_default_browser(), "chrome");
    assert_eq!(m.set_current_project("shared"), Ok(()));
    let names: Vec<&str> = m.local_config().projects.iter().map(|p| p.name.as_str()).collect();
    assert_eq!(names, vec!["mine"]);
    assert_eq!(m.local_config().current_project.as_deref(), Some("shared"));
}

#[test]
fn command_lookup_prefers_project_then_global() {
    let mut p = project("work");
    p.commands = Some(vec![ProjectCommand { key: "a".to_string(), url: Some("p".to_string()), browser: None, args: None, url_encode: false }]);
    let mut c = config(vec![p]);
    c.global = Some(vec![
        ProjectCommand { key: "a".to_string(), url: Some("g".to_string()), browser: None, args: None, url_encode: false },
        ProjectCommand { key: "b".to_string(), url: Some("g".to_string()), browser: None, args: None, url_encode: false },
    ]);
    let m = ConfigManager::new(c, None);
    assert_eq!(m.get_project_command("work", "a").unwrap().url.as_deref(), Some("p"));
    assert_eq!(m.get_project_command("work", "b").unwrap().url.as_deref(), Some("g"));
    assert!(m.get_project_command("work", "c").is_none());
    assert!(m.get_project_command("nope", "b").is_none());
    assert_eq!(m.get_global_commands().unwrap().len(), 2);
    assert!(m.get_project("work").is_some());
    assert!(m.get_project("nope").is_none());
}

#[test]
fn default_browser_falls_back_to_firefox() {
    let m = ConfigManager::new(Config::default(), None);
    assert_eq!(m.get_default_browser(), "firefox");
    assert!(m.resolve_current_project().is_none());
}

#[test]
fn home_relative_base_file() {
    assert_eq!(home_relative("~/shared/cfg.yml"), Some("shared/cfg.yml".to_string()));
    assert_eq!(home_relative("~\\shared.yml"), Some("shared.yml".to_string()));
    assert_eq!(home_relative("/etc/cfg.yml"), None);
}

#[test]
fn toggling_shortcuts_creates_and_flips_the_block() {
    let mut m = ConfigManager::new(Config::default(), None);
    assert!(m.config().shortcut_settings().enabled);
    assert!(!m.toggle_shortcuts_enabled());
    assert_eq!(m.local_config().shortcuts.as_ref().map(|s| s.enabled), Some(false));
    assert!(!m.config().shortcut_settings().enabled);
    assert!(m.toggle_shortcuts_enabled());
    assert!(m.config().shortcut_settings().enabled);
}

#[test]
fn adding_by_typed_name_trims_and_validates() {
    let mut m = ConfigManager::new(Config::default(), None);
    assert_eq!(m.add_named_project("  web  "), Ok("web".to_string()));
    assert_eq!(m.add_named_project("   "), Err(ConfigError::EmptyName));
    assert_eq!(m.add_named_project("web"), Err(ConfigError::ProjectExists("web".to_string())));
    assert_eq!(ConfigError::EmptyName.message(), "Project name cannot be empty");
    assert_eq!(m.get_current_project().map(|s| s.as_str()), Some("web"));
}

#[test]
fn project_menu_marks_the_current_project() {
    let mut c = config(vec![project("a"), project("b")]);
    c.current_project = Some("b".to_string());
    let m = ConfigManager::new(c, None);
    assert_eq!(m.menu_labels(), vec!["  a".to_string(), "\u{25b6} b (current)".to_string()]);
    assert_eq!(m.menu_start(), 1);
    let none = ConfigManager::new(config(vec![project("a")]), None);
    assert_eq!(none.menu_start(), 0);
}
