//! The configuration model: commands, projects, the shortcut settings, and
//! lookups over them.
use vstd::prelude::*;
use crate::text::{chars_of, same_text, string_of_range};

verus! {

/// A named command: a URL to open, or a shell command when it is no web address.
#[derive(Clone, Debug, PartialEq, Eq)]
pub struct ProjectCommand {
    pub key: String,
    pub url: Option<String>,
    pub browser: Option<String>,
    pub args: Option<String>,
    pub url_encode: bool,
}

/// A project: a unique name, optional details and its own commands.
#[derive(Clone, Debug, PartialEq, Eq)]
pub struct Project {
    pub name: String,
    pub path: Option<String>,
    pub description: Option<String>,
    pub browser: Option<String>,
    pub commands: Option<Vec<ProjectCommand>>,
}

/// Machine-local settings of the shortcut scanner.
#[derive(Clone, Debug, PartialEq, Eq)]
pub struct ShortcutsConfig {
    pub enabled: bool,
    pub extra_paths: Vec<String>,
    pub exclude: Vec<String>,
}

/// One layer of configuration, or the merge of two.
#[derive(Clone, Debug, PartialEq, Eq)]
pub struct Config {
    pub base_file: Option<String>,
    pub current_project: Option<String>,
    pub default_browser: Option<String>,
    pub global: Option<Vec<ProjectCommand>>,
    pub shortcuts: Option<ShortcutsConfig>,
    pub projects: Vec<Project>,
}

/// A project as a mathematical value.
pub struct ProjectModel {
    pub name: String,
    pub path: Option<String>,
    pub description: Option<String>,
    pub browser: Option<String>,
    pub commands: Option<Seq<ProjectCommand>>,
}

/// The shortcut settings as a mathematical value.
pub struct ShortcutsModel {
    pub enabled: bool,
    pub extra_paths: Seq<String>,
    pub exclude: Seq<String>,
}

/// A configuration as a mathematical value.
pub struct ConfigModel {
    pub base_file: Option<String>,
    pub current_project: Option<String>,
    pub default_browser: Option<String>,
    pub global: Option<Seq<ProjectCommand>>,
    pub shortcuts: Option<ShortcutsModel>,
    pub projects: Seq<ProjectModel>,
}

pub open spec fn opt_seq<T>(o: Option<Vec<T>>) -> Option<Seq<T>> {
    match o {
        Some(v) => Some(v@),
        None => None,
    }
}

impl View for Project {
    type V = ProjectModel;

    open spec fn view(&self) -> ProjectModel {
        ProjectModel {
            name: self.name,
            path: self.path,
            description: self.description,
            browser: self.browser,
            commands: opt_seq(self.commands),
        }
    }
}

impl View for ShortcutsConfig {
    type V = ShortcutsModel;

    open spec fn view(&self) -> ShortcutsModel {
        ShortcutsModel { enabled: self.enabled, extra_paths: self.extra_paths@, exclude: self.exclude@ }
    }
}

pub open spec fn opt_shortcuts(o: Option<ShortcutsConfig>) -> Option<ShortcutsModel> {
    match o {
        Some(s) => Some(s@),
        None => None,
    }
}

impl View for Config {
    type V = ConfigModel;

    open spec fn view(&self) -> ConfigModel {
        ConfigModel {
            base_file: self.base_file,
            current_project: self.current_project,
            default_browser: self.default_browser,
            global: opt_seq(self.global),
            shortcuts: opt_shortcuts(self.shortcuts),
            projects: self.projects@.map_values(|p: Project| p@),
        }
    }
}

/// The first position at which `k` stands in `keys`.
pub open spec fn first_index(keys: Seq<Seq<char>>, k: Seq<char>) -> Option<int>
    decreases keys.len(),
{
    if keys.len() == 0 {
        None
    } else if keys[0] == k {
        Some(0)
    } else {
        match first_index(keys.drop_first(), k) {
            Some(i) => Some(i + 1),
            None => None,
        }
    }
}

pub proof fn lemma_first_index(keys: Seq<Seq<char>>, k: Seq<char>)
    ensures
        match first_index(keys, k) {
            Some(i) => 0 <= i < keys.len() && keys[i] == k && forall|j: int| 0 <= j < i ==> keys[j] != k,
            None => forall|j: int| 0 <= j < keys.len() ==> keys[j] != k,
        },
    decreases keys.len(),
{
    if keys.len() > 0 && keys[0] != k {
        lemma_first_index(keys.drop_first(), k);
        assert forall|j: int| 0 < j < keys.len() implies keys[j] == keys.drop_first()[j - 1] by {}
    }
}

/// The first position whose key is `k`: the one a lookup by key finds.
pub proof fn lemma_first_index_of(keys: Seq<Seq<char>>, k: Seq<char>, i: int)
    requires
        0 <= i < keys.len(),
        keys[i] == k,
        forall|j: int| 0 <= j < i ==> keys[j] != k,
    ensures
        first_index(keys, k) == Some(i),
{
    lemma_first_index(keys, k);
}

/// The keys of a list of commands.
pub open spec fn command_keys(cmds: Seq<ProjectCommand>) -> Seq<Seq<char>> {
    cmds.map_values(|c: ProjectCommand| c.key@)
}

/// The names of a list of projects.
pub open spec fn project_names(ps: Seq<ProjectModel>) -> Seq<Seq<char>> {
    ps.map_values(|p: ProjectModel| p.name@)
}

/// No two entries share a key.
pub open spec fn keys_unique(keys: Seq<Seq<char>>) -> bool {
    forall|i: int, j: int| 0 <= i < keys.len() && 0 <= j < keys.len() && keys[i] == keys[j] ==> i == j
}

/// Project names are unique and so are the keys of each command list.
pub open spec fn config_well_formed(c: ConfigModel) -> bool {
    &&& keys_unique(project_names(c.projects))
    &&& (c.global matches Some(g) ==> keys_unique(command_keys(g)))
    &&& forall|i: int| 0 <= i < c.projects.len() ==>
            (#[trigger] c.projects[i].commands matches Some(cs) ==> keys_unique(command_keys(cs)))
}

pub fn clone_opt_string(o: &Option<String>) -> (r: Option<String>)
    ensures
        r == *o,
{
    match o {
        Some(s) => Some(s.clone()),
        None => None,
    }
}

pub fn clone_strings(v: &Vec<String>) -> (r: Vec<String>)
    ensures
        r@ == v@,
{
    let mut r: Vec<String> = Vec::new();
    let mut i: usize = 0;
    while i < v.len()
        invariant
            i <= v@.len(),
            r@ == v@.subrange(0, i as int),
        decreases v@.len() - i,
    {
        r.push(v[i].clone());
        i += 1;
    }
    assert(r@ == v@);
    r
}

impl ProjectCommand {
    /// An exact copy.
    pub fn duplicate(&self) -> (r: ProjectCommand)
        ensures
            r == *self,
    {
        ProjectCommand {
            key: self.key.clone(),
            url: clone_opt_string(&self.url),
            browser: clone_opt_string(&self.browser),
            args: clone_opt_string(&self.args),
            url_encode: self.url_encode,
        }
    }
}

pub fn clone_commands(v: &Vec<ProjectCommand>) -> (r: Vec<ProjectCommand>)
    ensures
        r@ == v@,
{
    let mut r: Vec<ProjectCommand> = Vec::new();
    let mut i: usize = 0;
    while i < v.len()
        invariant
            i <= v@.len(),
            r@ == v@.subrange(0, i as int),
        decreases v@.len() - i,
    {
        r.push(v[i].duplicate());
        i += 1;
    }
    assert(r@ == v@);
    r
}

pub fn clone_opt_commands(o: &Option<Vec<ProjectCommand>>) -> (r: Option<Vec<ProjectCommand>>)
    ensures
        opt_seq(r) == opt_seq(*o),
{
    match o {
        Some(v) => Some(clone_commands(v)),
        None => None,
    }
}

impl Project {
    /// A copy with the same model.
    pub fn duplicate(&self) -> (r: Project)
        ensures
            r@ == self@,
    {
        Project {
            name: self.name.clone(),
            path: clone_opt_string(&self.path),
            description: clone_opt_string(&self.description),
            browser: clone_opt_string(&self.browser),
            commands: clone_opt_commands(&self.commands),
        }
    }
}

impl ShortcutsConfig {
    /// A copy with the same model.
    pub fn duplicate(&self) -> (r: ShortcutsConfig)
        ensures
            r@ == self@,
    {
        ShortcutsConfig {
            enabled: self.enabled,
            extra_paths: clone_strings(&self.extra_paths),
            exclude: clone_strings(&self.exclude),
        }
    }

    /// The settings that hold where a configuration has no shortcut block.
    pub fn standard() -> (r: ShortcutsConfig)
        ensures
            r@.enabled,
            r@.extra_paths.len() == 0,
            r@.exclude.len() == 0,
    {
        ShortcutsConfig { enabled: true, extra_paths: Vec::new(), exclude: Vec::new() }
    }
}

pub fn clone_projects(v: &Vec<Project>) -> (r: Vec<Project>)
    ensures
        r@.map_values(|p: Project| p@) == v@.map_values(|p: Project| p@),
{
    let mut r: Vec<Project> = Vec::new();
    let mut i: usize = 0;
    while i < v.len()
        invariant
            i <= v@.len(),
            r@.len() == i,
            forall|j: int| 0 <= j < i ==> r@[j]@ == v@[j]@,
        decreases v@.len() - i,
    {
        r.push(v[i].duplicate());
        i += 1;
    }
    assert(r@.map_values(|p: Project| p@) =~= v@.map_values(|p: Project| p@));
    r
}

impl Config {
    /// A copy with the same model.
    pub fn duplicate(&self) -> (r: Config)
        ensures
            r@ == self@,
    {
        let shortcuts = match &self.shortcuts {
            Some(s) => Some(s.duplicate()),
            None => None,
        };
        Config {
            base_file: clone_opt_string(&self.base_file),
            current_project: clone_opt_string(&self.current_project),
            default_browser: clone_opt_string(&self.default_browser),
            global: clone_opt_commands(&self.global),
            shortcuts,
            projects: clone_projects(&self.projects),
        }
    }

    /// The shortcut settings in force: the configured block, or the standard one.
    pub fn shortcut_settings(&self) -> (r: ShortcutsConfig)
        ensures
            match self.shortcuts {
                Some(s) => r@ == s@,
                None => r@.enabled && r@.extra_paths.len() == 0 && r@.exclude.len() == 0,
            },
    {
        match &self.shortcuts {
            Some(s) => s.duplicate(),
            None => ShortcutsConfig::standard(),
        }
    }
}

impl Default for Config {
    fn default() -> (r: Config)
        ensures
            r@.base_file is None,
            r@.current_project is None,
            r@.default_browser is None,
            r@.global is None,
            r@.shortcuts is None,
            r@.projects.len() == 0,
    {
        Config {
            base_file: None,
            current_project: None,
            default_browser: None,
            global: None,
            shortcuts: None,
            projects: Vec::new(),
        }
    }
}

/// The position of the first command whose key is `key`.
pub fn command_position(cmds: &Vec<ProjectCommand>, key: &str) -> (r: Option<usize>)
    ensures
        match r {
            Some(i) => first_index(command_keys(cmds@), key@) == Some(i as int),
            None => first_index(command_keys(cmds@), key@) is None,
        },
{
    proof { lemma_first_index(command_keys(cmds@), key@); }
    let mut i: usize = 0;
    while i < cmds.len()
        invariant
            i <= cmds@.len(),
            forall|j: int| 0 <= j < i ==> cmds@[j].key@ != key@,
        decreases cmds@.len() - i,
    {
        if same_text(cmds[i].key.as_str(), key) {
            proof { lemma_first_index_of(command_keys(cmds@), key@, i as int); }
            return Some(i);
        }
        i += 1;
    }
    None
}

/// The position of the first project named `name`.
pub fn project_position(ps: &Vec<Project>, name: &str) -> (r: Option<usize>)
    ensures
        match r {
            Some(i) => first_index(project_names(ps@.map_values(|p: Project| p@)), name@) == Some(i as int),
            None => first_index(project_names(ps@.map_values(|p: Project| p@)), name@) is None,
        },
{
    let ghost names = project_names(ps@.map_values(|p: Project| p@));
    proof { lemma_first_index(names, name@); }
    let mut i: usize = 0;
    while i < ps.len()
        invariant
            names == project_names(ps@.map_values(|p: Project| p@)),
            i <= ps@.len(),
            forall|j: int| 0 <= j < i ==> ps@[j].name@ != name@,
        decreases ps@.len() - i,
    {
        if same_text(ps[i].name.as_str(), name) {
            proof { lemma_first_index_of(names, name@, i as int); }
            return Some(i);
        }
        i += 1;
    }
    None
}

/// The part of a base-file path after a leading `~/` or `~\\`, which is relative to the
/// user's home directory; nothing where the path does not start so.
pub open spec fn home_relative_spec(path: Seq<char>) -> Option<Seq<char>> {
    if path.len() >= 2 && path[0] == '~' && (path[1] == '/' || path[1] == '\\') {
        Some(path.subrange(2, path.len() as int))
    } else {
        None
    }
}

/// The part of a base-file path that is relative to the home directory, if any.
pub fn home_relative(path: &str) -> (r: Option<String>)
    ensures
        match r {
            Some(rest) => home_relative_spec(path@) == Some(rest@),
            None => home_relative_spec(path@) is None,
        },
{
    let cs = chars_of(path);
    if cs.len() >= 2 && cs[0] == '~' && (cs[1] == '/' || cs[1] == '\\') {
        Some(string_of_range(&cs, 2, cs.len()))
    } else {
        None
    }
}

} // verus!
