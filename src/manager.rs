//! The configuration in force for one invocation: the merged view that lookups read,
//! and the locally declared layer that is written back after each change.
use vstd::prelude::*;
use crate::config::{
    command_keys, ShortcutsConfig, ShortcutsModel, command_position, first_index, lemma_first_index,
    project_names, project_position, Config, ConfigModel, Project, ProjectCommand, ProjectModel,
};
use crate::merge::{merge_configs, merged_config};
use crate::text::{concat, same_text, trim_text, trimmed};

verus! {

/// Why a change to the configuration was refused.
#[derive(Clone, Debug, PartialEq, Eq)]
pub enum ConfigError {
    /// No project has this name.
    ProjectNotFound(String),
    /// A project of this name exists already.
    ProjectExists(String),
    /// A project name must not be empty.
    EmptyName,
}

impl ConfigError {
    /// The message shown to the user.
    pub fn message(&self) -> (r: String)
        ensures
            match self {
                ConfigError::ProjectNotFound(n) => r@ == seq!['P', 'r', 'o', 'j', 'e', 'c', 't', ' ', '\''] + n@
                    + seq!['\'', ' ', 'n', 'o', 't', ' ', 'f', 'o', 'u', 'n', 'd'],
                ConfigError::ProjectExists(n) => r@ == seq!['P', 'r', 'o', 'j', 'e', 'c', 't', ' ', '\''] + n@
                    + seq!['\'', ' ', 'a', 'l', 'r', 'e', 'a', 'd', 'y', ' ', 'e', 'x', 'i', 's', 't', 's'],
                ConfigError::EmptyName => r@ == "Project name cannot be empty"@,
            },
    {
        proof {
            reveal_strlit("Project '");
            reveal_strlit("' not found");
            reveal_strlit("' already exists");
        }
        match self {
            ConfigError::ProjectNotFound(n) => concat(concat("Project '", n.as_str()).as_str(), "' not found"),
            ConfigError::ProjectExists(n) => concat(concat("Project '", n.as_str()).as_str(), "' already exists"),
            ConfigError::EmptyName => String::from_str("Project name cannot be empty"),
        }
    }
}

/// The browser used where neither a command nor a project names one.
pub open spec fn fallback_browser() -> Seq<char> {
    seq!['f', 'i', 'r', 'e', 'f', 'o', 'x']
}

/// The browser a configuration falls back on.
pub open spec fn default_browser_of(c: ConfigModel) -> Seq<char> {
    match c.default_browser {
        Some(b) => b@,
        None => fallback_browser(),
    }
}

/// The first project of `c` named `name`.
pub open spec fn project_named(c: ConfigModel, name: Seq<char>) -> Option<ProjectModel> {
    match first_index(project_names(c.projects), name) {
        Some(i) => Some(c.projects[i]),
        None => None,
    }
}

/// The first command keyed `key` in an optional list.
pub open spec fn command_in(cmds: Option<Seq<ProjectCommand>>, key: Seq<char>) -> Option<ProjectCommand> {
    match cmds {
        Some(cs) => match first_index(command_keys(cs), key) {
            Some(i) => Some(cs[i]),
            None => None,
        },
        None => None,
    }
}

/// The current project's name: the stored one where a project has it; a name that no
/// project has counts as unset.
pub open spec fn current_name(c: ConfigModel) -> Option<String> {
    match c.current_project {
        Some(n) => if first_index(project_names(c.projects), n@) is Some {
            Some(n)
        } else {
            None
        },
        None => None,
    }
}

/// The command that `key` names for project `name`: the project's own, else a global
/// one; nothing where the project does not exist.
pub open spec fn command_for(c: ConfigModel, name: Seq<char>, key: Seq<char>) -> Option<ProjectCommand> {
    match project_named(c, name) {
        None => None,
        Some(p) => match command_in(p.commands, key) {
            Some(cmd) => Some(cmd),
            None => command_in(c.global, key),
        },
    }
}

/// `c` with `name` as its current project.
pub open spec fn with_current(c: ConfigModel, name: String) -> ConfigModel {
    ConfigModel { current_project: Some(name), ..c }
}

/// `c` with `p` added at the end of its projects, and made current where `make_current`.
pub open spec fn with_project(c: ConfigModel, p: ProjectModel, make_current: bool) -> ConfigModel {
    ConfigModel {
        projects: c.projects.push(p),
        current_project: if make_current { Some(p.name) } else { c.current_project },
        ..c
    }
}

/// Whether shortcuts are enabled in `c`: its setting, or enabled where it has none.
pub open spec fn shortcuts_enabled(c: ConfigModel) -> bool {
    match c.shortcuts {
        Some(s) => s.enabled,
        None => true,
    }
}

/// `c`'s shortcut block with `enabled` set, made from the standard block where `c`
/// has none.
pub open spec fn with_shortcuts_enabled(c: ConfigModel, enabled: bool) -> ConfigModel {
    let block = match c.shortcuts {
        Some(s) => ShortcutsModel { enabled, ..s },
        None => ShortcutsModel { enabled, extra_paths: Seq::empty(), exclude: Seq::empty() },
    };
    ConfigModel { shortcuts: Some(block), ..c }
}

/// The marker before the current project in the project menu.
pub open spec fn current_marker() -> Seq<char> {
    seq!['\u{25b6}', ' ']
}

/// How a project is listed in the project menu: the current one marked, the others
/// indented to line up with it.
pub open spec fn menu_label(name: Seq<char>, is_current: bool) -> Seq<char> {
    if is_current {
        current_marker() + name + seq![' ', '(', 'c', 'u', 'r', 'r', 'e', 'n', 't', ')']
    } else {
        seq![' ', ' '] + name
    }
}

/// Whether `name` is the current project of `c`.
pub open spec fn is_current(c: ConfigModel, name: Seq<char>) -> bool {
    match c.current_project {
        Some(n) => n@ == name,
        None => false,
    }
}

/// A project with a name and nothing else.
pub open spec fn bare_project(name: String) -> ProjectModel {
    ProjectModel { name, path: None, description: None, browser: None, commands: None }
}

/// The configuration for one invocation.
pub struct ConfigManager {
    config: Config,
    local: Config,
}

impl ConfigManager {
    /// The merged configuration that lookups read.
    pub closed spec fn merged(&self) -> ConfigModel {
        self.config@
    }

    /// The locally declared layer, which is what gets written back.
    pub closed spec fn local_layer(&self) -> ConfigModel {
        self.local@
    }

    /// Builds the configuration from the local layer and, where the local layer names a
    /// base file that could be read, that base.
    pub fn new(local: Config, base: Option<Config>) -> (r: ConfigManager)
        ensures
            r.local_layer() == local@,
            match base {
                Some(b) => merged_config(r.merged(), b@, local@),
                None => r.merged() == local@,
            },
    {
        let config = match &base {
            Some(b) => merge_configs(b, &local),
            None => local.duplicate(),
        };
        ConfigManager { config, local }
    }

    /// The merged configuration.
    pub fn config(&self) -> (r: &Config)
        ensures
            r@ == self.merged(),
    {
        &self.config
    }

    /// The local layer, to be saved.
    pub fn local_config(&self) -> (r: &Config)
        ensures
            r@ == self.local_layer(),
    {
        &self.local
    }

    pub fn get_projects(&self) -> (r: &Vec<Project>)
        ensures
            r@.map_values(|p: Project| p@) == self.merged().projects,
    {
        &self.config.projects
    }

    pub fn get_current_project(&self) -> (r: Option<&String>)
        ensures
            match r {
                Some(s) => current_name(self.merged()) == Some(*s),
                None => current_name(self.merged()) is None,
            },
    {
        match &self.config.current_project {
            Some(n) => if self.project_exists(n.as_str()) {
                Some(n)
            } else {
                None
            },
            None => None,
        }
    }

    pub fn project_exists(&self, name: &str) -> (r: bool)
        ensures
            r == (first_index(project_names(self.merged().projects), name@) is Some),
    {
        project_position(&self.config.projects, name).is_some()
    }

    pub fn get_project(&self, name: &str) -> (r: Option<&Project>)
        ensures
            match r {
                Some(p) => project_named(self.merged(), name@) == Some(p@),
                None => project_named(self.merged(), name@) is None,
            },
    {
        proof { lemma_first_index(project_names(self.merged().projects), name@); }
        match project_position(&self.config.projects, name) {
            Some(i) => Some(&self.config.projects[i]),
            None => None,
        }
    }

    /// The current project, where one is set and it still exists.
    pub fn resolve_current_project(&self) -> (r: Option<&Project>)
        ensures
            match current_name(self.merged()) {
                None => r is None,
                Some(n) => r matches Some(p) && project_named(self.merged(), n@) == Some(p@),
            },
    {
        proof { lemma_first_index(project_names(self.merged().projects), self.merged().current_project->0@); }
        match self.get_current_project() {
            Some(n) => self.get_project(n.as_str()),
            None => None,
        }
    }

    pub fn get_project_command(&self, project_name: &str, command_key: &str) -> (r: Option<&ProjectCommand>)
        ensures
            match r {
                Some(c) => command_for(self.merged(), project_name@, command_key@) == Some(*c),
                None => command_for(self.merged(), project_name@, command_key@) is None,
            },
    {
        let project = match self.get_project(project_name) {
            Some(p) => p,
            None => return None,
        };
        if let Some(cmds) = &project.commands {
            proof { lemma_first_index(command_keys(cmds@), command_key@); }
            if let Some(i) = command_position(cmds, command_key) {
                return Some(&cmds[i]);
            }
        }
        match &self.config.global {
            Some(cmds) => {
                proof { lemma_first_index(command_keys(cmds@), command_key@); }
                match command_position(cmds, command_key) {
                    Some(i) => Some(&cmds[i]),
                    None => None,
                }
            },
            None => None,
        }
    }

    pub fn get_default_browser(&self) -> (r: &str)
        ensures
            r@ == default_browser_of(self.merged()),
    {
        match &self.config.default_browser {
            Some(b) => b.as_str(),
            None => {
                proof { reveal_strlit("firefox"); }
                "firefox"
            },
        }
    }

    pub fn get_global_commands(&self) -> (r: Option<&Vec<ProjectCommand>>)
        ensures
            match r {
                Some(g) => self.merged().global == Some(g@),
                None => self.merged().global is None,
            },
    {
        self.config.global.as_ref()
    }

    /// Makes `project_name` the current project, in the merged view and in the local
    /// layer; refused where no project has that name.
    pub fn set_current_project(&mut self, project_name: &str) -> (r: Result<(), ConfigError>)
        ensures
            r is Ok <==> first_index(project_names(old(self).merged().projects), project_name@) is Some,
            match r {
                Ok(()) => final(self).merged().current_project matches Some(n) && n@ == project_name@
                    && final(self).merged() == with_current(old(self).merged(), final(self).merged().current_project->0)
                    && final(self).local_layer() == with_current(old(self).local_layer(), final(self).merged().current_project->0),
                Err(e) => e matches ConfigError::ProjectNotFound(n) && n@ == project_name@
                    && final(self).merged() == old(self).merged()
                    && final(self).local_layer() == old(self).local_layer(),
            },
    {
        if !self.project_exists(project_name) {
            return Err(ConfigError::ProjectNotFound(String::from_str(project_name)));
        }
        let name = String::from_str(project_name);
        self.local.current_project = Some(name.clone());
        self.config.current_project = Some(name);
        proof {
            assert(self.config@ =~= with_current(old(self).merged(), self.config.current_project->0));
            assert(self.local@ =~= with_current(old(self).local_layer(), self.config.current_project->0));
        }
        Ok(())
    }

    /// Adds a project at the end of the list, in the merged view and in the local
    /// layer; the first project becomes current. Refused where the name is taken.
    pub fn add_project(&mut self, project: Project) -> (r: Result<(), ConfigError>)
        ensures
            r is Ok <==> first_index(project_names(old(self).merged().projects), project.name@) is None,
            match r {
                Ok(()) => final(self).merged() == with_project(
                        old(self).merged(), project@, old(self).merged().projects.len() == 0)
                    && final(self).local_layer() == with_project(
                        old(self).local_layer(), project@, old(self).merged().projects.len() == 0),
                Err(e) => e matches ConfigError::ProjectExists(n) && n@ == project.name@
                    && final(self).merged() == old(self).merged()
                    && final(self).local_layer() == old(self).local_layer(),
            },
    {
        if self.project_exists(project.name.as_str()) {
            return Err(ConfigError::ProjectExists(project.name));
        }
        let is_first_project = self.config.projects.len() == 0;
        let ghost m0 = self.config@;
        let ghost l0 = self.local@;
        let copy = project.duplicate();
        if is_first_project {
            self.config.current_project = Some(project.name.clone());
            self.local.current_project = Some(project.name.clone());
        }
        self.config.projects.push(project);
        self.local.projects.push(copy);
        proof {
            assert(self.config@.projects =~= m0.projects.push(project@));
            assert(self.local@.projects =~= l0.projects.push(project@));
            assert(self.config@ =~= with_project(m0, project@, is_first_project));
            assert(self.local@ =~= with_project(l0, project@, is_first_project));
        }
        Ok(())
    }

    /// Flips whether shortcuts are enabled in the local layer, creating its shortcut
    /// block where it has none, and returns the new setting. The local block replaces
    /// the base's, so the merged view takes the same block.
    pub fn toggle_shortcuts_enabled(&mut self) -> (r: bool)
        ensures
            r == !shortcuts_enabled(old(self).local_layer()),
            final(self).local_layer() == with_shortcuts_enabled(old(self).local_layer(), r),
            final(self).merged() == (ConfigModel { shortcuts: final(self).local_layer().shortcuts, ..old(self).merged() }),
    {
        let block = match &self.local.shortcuts {
            Some(s) => ShortcutsConfig { enabled: !s.enabled, extra_paths: crate::config::clone_strings(&s.extra_paths), exclude: crate::config::clone_strings(&s.exclude) },
            None => ShortcutsConfig { enabled: false, extra_paths: Vec::new(), exclude: Vec::new() },
        };
        let enabled = block.enabled;
        self.config.shortcuts = Some(block.duplicate());
        self.local.shortcuts = Some(block);
        proof {
            assert(self.local@ =~= with_shortcuts_enabled(old(self).local_layer(), enabled));
        }
        enabled
    }

    /// The labels of the project menu, one per project in order.
    pub fn menu_labels(&self) -> (r: Vec<String>)
        ensures
            r@.len() == self.merged().projects.len(),
            forall|i: int| 0 <= i < r@.len() ==> (#[trigger] r@[i])@ == menu_label(
                self.merged().projects[i].name@,
                is_current(self.merged(), self.merged().projects[i].name@),
            ),
    {
        proof {
            reveal_strlit("\u{25b6} ");
            reveal_strlit(" (current)");
            reveal_strlit("  ");
            assert("\u{25b6} "@ =~= current_marker());
            assert(" (current)"@ =~= seq![' ', '(', 'c', 'u', 'r', 'r', 'e', 'n', 't', ')']);
            assert("  "@ =~= seq![' ', ' ']);
        }
        let ps = &self.config.projects;
        let mut r: Vec<String> = Vec::new();
        let mut i: usize = 0;
        while i < ps.len()
            invariant
                ps@.map_values(|p: Project| p@) == self.merged().projects,
                i <= ps@.len(),
                r@.len() == i,
                forall|k: int| 0 <= k < i ==> (#[trigger] r@[k])@ == menu_label(
                    self.merged().projects[k].name@,
                    is_current(self.merged(), self.merged().projects[k].name@),
                ),
            decreases ps@.len() - i,
        {
            let name = &ps[i].name;
            assert(self.merged().projects[i as int].name == *name);
            let current = match &self.config.current_project {
                Some(c) => same_text(c.as_str(), name.as_str()),
                None => false,
            };
            assert(current == is_current(self.merged(), name@));
            proof {
                reveal_strlit("\u{25b6} ");
                reveal_strlit(" (current)");
                reveal_strlit("  ");
                assert("\u{25b6} "@ =~= current_marker());
                assert(" (current)"@ =~= seq![' ', '(', 'c', 'u', 'r', 'r', 'e', 'n', 't', ')']);
                assert("  "@ =~= seq![' ', ' ']);
            }
            let label = if current {
                concat(concat("\u{25b6} ", name.as_str()).as_str(), " (current)")
            } else {
                concat("  ", name.as_str())
            };
            assert(label@ == menu_label(name@, current));
            r.push(label);
            i += 1;
        }
        r
    }

    /// The position of the current project in the menu, or the first.
    pub fn menu_start(&self) -> (r: usize)
        ensures
            match self.merged().current_project {
                Some(n) => match first_index(project_names(self.merged().projects), n@) {
                    Some(i) => r == i,
                    None => r == 0,
                },
                None => r == 0,
            },
    {
        match &self.config.current_project {
            Some(n) => match project_position(&self.config.projects, n.as_str()) {
                Some(i) => i,
                None => 0,
            },
            None => 0,
        }
    }

    /// Adds a project named by what the user typed, without surrounding white space;
    /// refused where that is empty or taken. Returns the name used.
    pub fn add_named_project(&mut self, typed: &str) -> (r: Result<String, ConfigError>)
        ensures
            trimmed(typed@).len() == 0 ==> (r matches Err(ConfigError::EmptyName)
                && final(self).merged() == old(self).merged() && final(self).local_layer() == old(self).local_layer()),
            trimmed(typed@).len() > 0 && first_index(project_names(old(self).merged().projects), trimmed(typed@)) is Some
                ==> (r matches Err(ConfigError::ProjectExists(n)) && n@ == trimmed(typed@)
                && final(self).merged() == old(self).merged() && final(self).local_layer() == old(self).local_layer()),
            trimmed(typed@).len() > 0 && first_index(project_names(old(self).merged().projects), trimmed(typed@)) is None
                ==> (r matches Ok(n) && n@ == trimmed(typed@)
                && final(self).merged() == with_project(
                    old(self).merged(), bare_project(n), old(self).merged().projects.len() == 0)
                && final(self).local_layer() == with_project(
                    old(self).local_layer(), bare_project(n), old(self).merged().projects.len() == 0)),
    {
        let name = trim_text(typed);
        if name.as_str().unicode_len() == 0 {
            return Err(ConfigError::EmptyName);
        }
        let project = Project { name: name.clone(), path: None, description: None, browser: None, commands: None };
        match self.add_project(project) {
            Ok(()) => Ok(name),
            Err(e) => Err(e),
        }
    }
}

} // verus!
