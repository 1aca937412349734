//! From a submitted input to the action to perform: splitting off the arguments,
//! choosing the browser, and the URL fallback.
use vstd::prelude::*;
use crate::config::{Project, ProjectCommand};
use crate::manager::{command_for, current_name, default_browser_of, project_named, ConfigManager};
use crate::resolver::{is_namespace, law_project_command_wins, resolve, resolve_spec, ListItem};
use crate::config::{command_keys, keys_unique};
use crate::shortcuts::ShortcutEntry;
use crate::text::lower_of;
use crate::text::{
    chars_of, concat, find_char, is_prefix_of, lemma_split_at_space, split_at_space, string_of,
    string_of_range, trim_text, trimmed,
};
use crate::url::{
    http_word, is_url, is_web_command, looks_like_url, url_for, url_for_keyword, url_with_args,
    url_with_args_spec,
};

verus! {

/// What the launcher is asked to do.
#[derive(Clone, Debug, PartialEq, Eq)]
pub enum Action {
    /// Open `url` in `browser` (`default` names the system's own choice).
    OpenUrl { url: String, browser: String },
    /// Run `command` in a shell, with `args` after it.
    RunCommand { command: String, args: Option<String> },
    /// Open a file or application.
    LaunchPath { path: String },
}

/// Why an input could not be resolved.
#[derive(Clone, Debug, PartialEq, Eq)]
pub enum ResolveError {
    /// No project is current.
    NoCurrentProject,
    /// No item matches the keyword, and it is no web address.
    NotFound(String),
    /// The selected command has no URL.
    MissingUrl(String),
}

impl ResolveError {
    /// The message shown to the user.
    pub fn message(&self) -> (r: String)
        ensures
            match self {
                ResolveError::NoCurrentProject => r@ == "No current project selected"@,
                ResolveError::NotFound(k) => r@ == "No command found matching '"@ + k@ + "'"@,
                ResolveError::MissingUrl(k) => r@ == "Command '"@ + k@ + "' does not have a URL configured"@,
            },
    {
        match self {
            ResolveError::NoCurrentProject => String::from_str("No current project selected"),
            ResolveError::NotFound(k) => concat(concat("No command found matching '", k.as_str()).as_str(), "'"),
            ResolveError::MissingUrl(k) => concat(
                concat("Command '", k.as_str()).as_str(),
                "' does not have a URL configured",
            ),
        }
    }
}

pub open spec fn opt_view(o: Option<String>) -> Option<Seq<char>> {
    match o {
        Some(s) => Some(s@),
        None => None,
    }
}

/// The browser for a command: its own, else its project's, else the default.
pub open spec fn browser_choice(command: Option<String>, project: Option<String>, default: Seq<char>) -> Seq<char> {
    match command {
        Some(b) => b@,
        None => match project {
            Some(b) => b@,
            None => default,
        },
    }
}

/// A command's own arguments and the user's, joined by a space where both are there.
pub open spec fn combined_args(command: Option<String>, user: Option<Seq<char>>) -> Option<Seq<char>> {
    match (command, user) {
        (Some(a), Some(u)) => Some(a@ + seq![' '] + u),
        (Some(a), None) => Some(a@),
        (None, Some(u)) => Some(u),
        (None, None) => None,
    }
}

/// The user's arguments: what follows the first space, trimmed; nothing if that is empty.
pub open spec fn user_args(rest: Option<Seq<char>>) -> Option<Seq<char>> {
    match rest {
        Some(r) => if trimmed(r).len() == 0 { None } else { Some(trimmed(r)) },
        None => None,
    }
}

/// `a` is what running a command with this URL, browser and arguments asks for: a web
/// address is opened with the arguments after it, anything else is run in a shell.
pub open spec fn command_action(a: Action, url: Seq<char>, browser: Seq<char>, args: Option<Seq<char>>, encode: bool) -> bool {
    if is_prefix_of(http_word(), url) {
        a matches Action::OpenUrl { url: u, browser: b } && u@ == url_with_args_spec(url, args, encode) && b@ == browser
    } else {
        a matches Action::RunCommand { command: c, args: x } && c@ == url && opt_view(x) == args
    }
}

/// The browser for `command` of `project`.
pub fn browser_for(command: &ProjectCommand, project: &Project, default_browser: &str) -> (r: String)
    ensures
        r@ == browser_choice(command.browser, project.browser, default_browser@),
{
    match &command.browser {
        Some(b) => b.clone(),
        None => match &project.browser {
            Some(b) => b.clone(),
            None => String::from_str(default_browser),
        },
    }
}

/// The arguments to run `command` with, given the user's.
pub fn args_for(command: &ProjectCommand, user: Option<&str>) -> (r: Option<String>)
    ensures
        opt_view(r) == combined_args(command.args, match user { Some(u) => Some(u@), None => None }),
{
    match (&command.args, user) {
        (Some(a), Some(u)) => {
            let with_space = concat(a.as_str(), " ");
            proof { reveal_strlit(" "); }
            Some(concat(with_space.as_str(), u))
        },
        (Some(a), None) => Some(a.clone()),
        (None, Some(u)) => Some(String::from_str(u)),
        (None, None) => None,
    }
}

/// What running `command` with `args` asks for.
pub fn open_command_with_args(command: &str, browser: &str, args: Option<&str>, url_encode: bool) -> (r: Action)
    ensures
        command_action(r, command@, browser@, match args { Some(a) => Some(a@), None => None }, url_encode),
{
    if is_web_command(command) {
        Action::OpenUrl { url: url_with_args(command, args, url_encode), browser: String::from_str(browser) }
    } else {
        let args = match args {
            Some(a) => Some(String::from_str(a)),
            None => None,
        };
        Action::RunCommand { command: String::from_str(command), args }
    }
}

/// Splits an input at its first space into the keyword and the user's arguments.
pub fn split_input(input: &str) -> (r: (String, Option<String>))
    ensures
        r.0@ == split_at_space(input@).0,
        opt_view(r.1) == user_args(split_at_space(input@).1),
{
    let cs = chars_of(input);
    proof { lemma_split_at_space(input@); }
    match find_char(&cs, ' ') {
        Some(i) => {
            let keyword = string_of_range(&cs, 0, i);
            let n = cs.len();
            assert(i < n);
            let rest = string_of_range(&cs, i + 1, n);
            let args = trim_text(rest.as_str());
            if args.as_str().unicode_len() == 0 {
                (keyword, None)
            } else {
                (keyword, Some(args))
            }
        },
        None => (string_of(&cs), None),
    }
}

/// `r` is the outcome of resolving `input` against the namespace `ns` of `project`.
pub open spec fn input_outcome(
    r: Result<Action, ResolveError>,
    ns: Seq<ListItem>,
    project: Project,
    default_browser: Seq<char>,
    input: Seq<char>,
) -> bool {
    let keyword = split_at_space(input).0;
    match resolve_spec(ns, keyword) {
        None => if looks_like_url(keyword) {
            r matches Ok(Action::OpenUrl { url, browser })
                && url@ == url_for_keyword(keyword)
                && browser@ == browser_choice(None, project.browser, default_browser)
        } else {
            r matches Err(ResolveError::NotFound(k)) && k@ == keyword
        },
        Some(i) => match ns[i] {
            ListItem::Shortcut(s) => r matches Ok(Action::LaunchPath { path }) && path@ == s.path@,
            ListItem::Command(c) => match c.url {
                None => r matches Err(ResolveError::MissingUrl(k)) && k@ == c.key@,
                Some(u) => r matches Ok(a) && command_action(
                    a,
                    u@,
                    browser_choice(c.browser, project.browser, default_browser),
                    combined_args(c.args, user_args(split_at_space(input).1)),
                    c.url_encode,
                ),
            },
        },
    }
}

/// Resolves a submitted input against the namespace of `project`: the keyword selects
/// an item; a command is opened or run with its arguments and the user's; a keyword
/// that selects nothing is opened as a web address where it looks like one.
pub fn resolve_input(ns: &Vec<ListItem>, project: &Project, default_browser: &str, input: &str) -> (r: Result<Action, ResolveError>)
    ensures
        input_outcome(r, ns@, *project, default_browser@, input@),
{
    let (keyword, args) = split_input(input);
    match resolve(ns, keyword.as_str()) {
        None => {
            if is_url(keyword.as_str()) {
                let browser = match &project.browser {
                    Some(b) => b.clone(),
                    None => String::from_str(default_browser),
                };
                Ok(Action::OpenUrl { url: url_for(keyword.as_str()), browser })
            } else {
                Err(ResolveError::NotFound(keyword))
            }
        },
        Some(i) => match &ns[i] {
            ListItem::Shortcut(s) => Ok(Action::LaunchPath { path: s.path.clone() }),
            ListItem::Command(c) => match &c.url {
                None => Err(ResolveError::MissingUrl(c.key.clone())),
                Some(u) => {
                    let browser = browser_for(c, project, default_browser);
                    let user = match &args {
                        Some(a) => Some(a.as_str()),
                        None => None,
                    };
                    let all_args = args_for(c, user);
                    let all = match &all_args {
                        Some(a) => Some(a.as_str()),
                        None => None,
                    };
                    Ok(open_command_with_args(u.as_str(), browser.as_str(), all, c.url_encode))
                },
            },
        },
    }
}

/// The current project, for the interactive flow; a stored name that no project has
/// counts as no current project.
pub fn current_project(manager: &ConfigManager) -> (r: Result<&Project, ResolveError>)
    ensures
        match current_name(manager.merged()) {
            None => r matches Err(ResolveError::NoCurrentProject),
            Some(n) => r matches Ok(q) && project_named(manager.merged(), n@) == Some(q@),
        },
{
    match manager.resolve_current_project() {
        Some(p) => Ok(p),
        None => Err(ResolveError::NoCurrentProject),
    }
}

/// What opening `key` directly (without the interactive prompt) asks for: the command
/// that `key` names for the current project, else `key` as a web address where it
/// looks like one, with the project's browser or the default.
pub fn resolve_key(manager: &ConfigManager, key: &str) -> (r: Result<Action, ResolveError>)
    ensures
        match current_name(manager.merged()) {
            None => if looks_like_url(key@) {
                r matches Ok(Action::OpenUrl { url, browser }) && url@ == url_for_keyword(key@)
                    && browser@ == default_browser_of(manager.merged())
            } else {
                r matches Err(ResolveError::NoCurrentProject)
            },
            Some(n) => match command_for(manager.merged(), n@, key@) {
                None => if looks_like_url(key@) {
                    r matches Ok(Action::OpenUrl { url, browser }) && url@ == url_for_keyword(key@)
                        && browser@ == browser_choice(
                            None, project_named(manager.merged(), n@)->0.browser, default_browser_of(manager.merged()))
                } else {
                    r matches Err(ResolveError::NotFound(k)) && k@ == key@
                },
                Some(c) => match c.url {
                    None => r matches Err(ResolveError::MissingUrl(k)) && k@ == key@,
                    Some(u) => r matches Ok(a) && command_action(
                        a,
                        u@,
                        browser_choice(c.browser, project_named(manager.merged(), n@)->0.browser, default_browser_of(manager.merged())),
                        opt_view(c.args),
                        c.url_encode,
                    ),
                },
            },
        },
{
    let default_browser = manager.get_default_browser();
    let name = match manager.get_current_project() {
        Some(n) => n,
        None => {
            if is_url(key) {
                return Ok(Action::OpenUrl { url: url_for(key), browser: String::from_str(default_browser) });
            }
            return Err(ResolveError::NoCurrentProject);
        },
    };
    let project = match manager.resolve_current_project() {
        Some(p) => p,
        None => return Err(ResolveError::NoCurrentProject),
    };
    match manager.get_project_command(name.as_str(), key) {
        None => {
            if is_url(key) {
                let browser = match &project.browser {
                    Some(b) => b.clone(),
                    None => String::from_str(default_browser),
                };
                Ok(Action::OpenUrl { url: url_for(key), browser })
            } else {
                Err(ResolveError::NotFound(String::from_str(key)))
            }
        },
        Some(c) => match &c.url {
            None => Err(ResolveError::MissingUrl(String::from_str(key))),
            Some(u) => {
                let browser = browser_for(c, project, default_browser);
                let args = match &c.args {
                    Some(a) => Some(a.as_str()),
                    None => None,
                };
                Ok(open_command_with_args(u.as_str(), browser.as_str(), args, c.url_encode))
            },
        },
    }
}

/// Where a project command and a global command share a key, an input whose keyword
/// is that key is carried out with the project command: its URL, browser, arguments
/// and encoding. (As for resolution, no other command's key may equal it ignoring case.)
pub proof fn law_project_command_dispatched(
    project_cmds: Seq<ProjectCommand>,
    global: Seq<ProjectCommand>,
    shortcuts: Seq<ShortcutEntry>,
    enabled: bool,
    ns: Seq<ListItem>,
    i: int,
    j: int,
    project: Project,
    default_browser: Seq<char>,
    input: Seq<char>,
    r: Result<Action, ResolveError>,
)
    requires
        keys_unique(command_keys(project_cmds)),
        0 <= i < project_cmds.len(),
        0 <= j < global.len(),
        global[j].key@ == project_cmds[i].key@,
        forall|c: ProjectCommand| (project_cmds + global).contains(c) && lower_of(c.key@) == lower_of(project_cmds[i].key@)
            ==> c.key@ == project_cmds[i].key@,
        is_namespace(ns, project_cmds + global, shortcuts, enabled),
        split_at_space(input).0 == project_cmds[i].key@,
        input_outcome(r, ns, project, default_browser, input),
    ensures
        match project_cmds[i].url {
            None => r matches Err(ResolveError::MissingUrl(k)) && k@ == project_cmds[i].key@,
            Some(u) => r matches Ok(a) && command_action(
                a,
                u@,
                browser_choice(project_cmds[i].browser, project.browser, default_browser),
                combined_args(project_cmds[i].args, user_args(split_at_space(input).1)),
                project_cmds[i].url_encode,
            ),
        },
{
    law_project_command_wins(project_cmds, global, shortcuts, enabled, ns, i, j);
}

} // verus!
