//! Merging a base configuration with an overlay: the overlay's values win field by
//! field, lists of commands merge by key and projects by name.
use vstd::prelude::*;
use crate::config::{
    clone_opt_string, command_keys, command_position, config_well_formed, first_index,
    keys_unique, lemma_first_index, lemma_first_index_of, opt_seq,
    project_names, project_position, Config, ConfigModel, Project, ProjectCommand,
    ProjectModel,
};
use crate::order::{is_permutation, sorted_arrangement, sorts_stably, stable_order};
use crate::text::chars_of;

verus! {

/// The overlay's value where it has one, else the base's.
pub open spec fn pick<T>(overlay: Option<T>, base: Option<T>) -> Option<T> {
    if overlay is Some {
        overlay
    } else {
        base
    }
}

/// Two commands with one key, merged field by field.
pub open spec fn merge_command_spec(b: ProjectCommand, o: ProjectCommand) -> ProjectCommand {
    ProjectCommand {
        key: b.key,
        url: pick(o.url, b.url),
        browser: pick(o.browser, b.browser),
        args: pick(o.args, b.args),
        url_encode: b.url_encode || o.url_encode,
    }
}

/// A base command merged with the overlay's command of the same key, if there is one.
pub open spec fn merge_command_into(b: ProjectCommand, over: Seq<ProjectCommand>) -> ProjectCommand {
    match first_index(command_keys(over), b.key@) {
        Some(j) => merge_command_spec(b, over[j]),
        None => b,
    }
}

/// The overlay's commands whose key the base lacks, in overlay order.
pub open spec fn overlay_only_commands(base: Seq<ProjectCommand>, over: Seq<ProjectCommand>) -> Seq<ProjectCommand>
    decreases over.len(),
{
    if over.len() == 0 {
        Seq::empty()
    } else {
        let prev = overlay_only_commands(base, over.drop_last());
        if first_index(command_keys(base), over.last().key@) is Some {
            prev
        } else {
            prev.push(over.last())
        }
    }
}

/// Two command lists merged by key.
pub open spec fn merged_commands(base: Seq<ProjectCommand>, over: Seq<ProjectCommand>) -> Seq<ProjectCommand> {
    Seq::new(base.len(), |i: int| merge_command_into(base[i], over)) + overlay_only_commands(base, over)
}

/// Two optional command lists merged: a missing list takes the other.
pub open spec fn merged_command_lists(
    base: Option<Seq<ProjectCommand>>,
    over: Option<Seq<ProjectCommand>>,
) -> Option<Seq<ProjectCommand>> {
    match (base, over) {
        (Some(b), Some(o)) => Some(merged_commands(b, o)),
        (Some(b), None) => Some(b),
        (None, o) => o,
    }
}

/// Two projects with one name, merged field by field.
pub open spec fn merge_project_spec(b: ProjectModel, o: ProjectModel) -> ProjectModel {
    ProjectModel {
        name: b.name,
        path: pick(o.path, b.path),
        description: pick(o.description, b.description),
        browser: pick(o.browser, b.browser),
        commands: merged_command_lists(b.commands, o.commands),
    }
}

/// A base project merged with the overlay's project of the same name, if there is one.
pub open spec fn merge_project_into(b: ProjectModel, over: Seq<ProjectModel>) -> ProjectModel {
    match first_index(project_names(over), b.name@) {
        Some(j) => merge_project_spec(b, over[j]),
        None => b,
    }
}

/// The overlay's projects whose name the base lacks, in overlay order.
pub open spec fn overlay_only_projects(base: Seq<ProjectModel>, over: Seq<ProjectModel>) -> Seq<ProjectModel>
    decreases over.len(),
{
    if over.len() == 0 {
        Seq::empty()
    } else {
        let prev = overlay_only_projects(base, over.drop_last());
        if first_index(project_names(base), over.last().name@) is Some {
            prev
        } else {
            prev.push(over.last())
        }
    }
}

/// `tail` holds the projects of `fresh`, stably sorted by name.
pub open spec fn sorted_by_name(tail: Seq<ProjectModel>, fresh: Seq<ProjectModel>) -> bool {
    sorted_arrangement(tail, fresh, project_names(fresh))
}

/// `r` is the base's projects, each merged with its overlay namesake, followed by the
/// overlay-only projects sorted by name.
pub open spec fn merged_projects(r: Seq<ProjectModel>, base: Seq<ProjectModel>, over: Seq<ProjectModel>) -> bool {
    &&& r.len() >= base.len()
    &&& r.subrange(0, base.len() as int) == Seq::new(base.len(), |i: int| merge_project_into(base[i], over))
    &&& sorted_by_name(r.subrange(base.len() as int, r.len() as int), overlay_only_projects(base, over))
}

/// `r` is `over` layered on `base`.
pub open spec fn merged_config(r: ConfigModel, base: ConfigModel, over: ConfigModel) -> bool {
    &&& r.base_file == pick(over.base_file, base.base_file)
    &&& r.current_project == pick(over.current_project, base.current_project)
    &&& r.default_browser == pick(over.default_browser, base.default_browser)
    &&& r.global == merged_command_lists(base.global, over.global)
    &&& r.shortcuts == pick(over.shortcuts, base.shortcuts)
    &&& merged_projects(r.projects, base.projects, over.projects)
}

fn pick_string(overlay: &Option<String>, base: &Option<String>) -> (r: Option<String>)
    ensures
        r == pick(*overlay, *base),
{
    if overlay.is_some() {
        clone_opt_string(overlay)
    } else {
        clone_opt_string(base)
    }
}

/// Merges two commands that share a key.
pub fn merge_command(b: &ProjectCommand, o: &ProjectCommand) -> (r: ProjectCommand)
    ensures
        r == merge_command_spec(*b, *o),
{
    ProjectCommand {
        key: b.key.clone(),
        url: pick_string(&o.url, &b.url),
        browser: pick_string(&o.browser, &b.browser),
        args: pick_string(&o.args, &b.args),
        url_encode: b.url_encode || o.url_encode,
    }
}

/// Merges two command lists by key.
pub fn merge_commands(base: &Vec<ProjectCommand>, over: &Vec<ProjectCommand>) -> (r: Vec<ProjectCommand>)
    ensures
        r@ == merged_commands(base@, over@),
{
    let mut r: Vec<ProjectCommand> = Vec::new();
    let mut i: usize = 0;
    while i < base.len()
        invariant
            i <= base@.len(),
            r@ == Seq::new(i as nat, |k: int| merge_command_into(base@[k], over@)),
        decreases base@.len() - i,
    {
        let b = &base[i];
        proof { lemma_first_index(command_keys(over@), b.key@); }
        let c = match command_position(over, b.key.as_str()) {
            Some(j) => merge_command(b, &over[j]),
            None => b.duplicate(),
        };
        r.push(c);
        i += 1;
        assert(r@ =~= Seq::new(i as nat, |k: int| merge_command_into(base@[k], over@)));
    }
    let ghost head = r@;
    let mut j: usize = 0;
    while j < over.len()
        invariant
            j <= over@.len(),
            head == Seq::new(base@.len(), |k: int| merge_command_into(base@[k], over@)),
            r@ == head + overlay_only_commands(base@, over@.subrange(0, j as int)),
        decreases over@.len() - j,
    {
        let o = &over[j];
        proof {
            assert(over@.subrange(0, j + 1).drop_last() == over@.subrange(0, j as int));
        }
        if command_position(base, o.key.as_str()).is_none() {
            r.push(o.duplicate());
        }
        j += 1;
        assert(r@ =~= head + overlay_only_commands(base@, over@.subrange(0, j as int)));
    }
    assert(over@.subrange(0, over@.len() as int) == over@);
    r
}

/// Merges two optional command lists.
pub fn merge_command_lists(
    base: &Option<Vec<ProjectCommand>>,
    over: &Option<Vec<ProjectCommand>>,
) -> (r: Option<Vec<ProjectCommand>>)
    ensures
        opt_seq(r) == merged_command_lists(opt_seq(*base), opt_seq(*over)),
{
    match (base, over) {
        (Some(b), Some(o)) => Some(merge_commands(b, o)),
        (Some(b), None) => Some(crate::config::clone_commands(b)),
        (None, o) => crate::config::clone_opt_commands(o),
    }
}

/// Merges two projects that share a name.
pub fn merge_project(b: &Project, o: &Project) -> (r: Project)
    ensures
        r@ == merge_project_spec(b@, o@),
{
    Project {
        name: b.name.clone(),
        path: pick_string(&o.path, &b.path),
        description: pick_string(&o.description, &b.description),
        browser: pick_string(&o.browser, &b.browser),
        commands: merge_command_lists(&b.commands, &o.commands),
    }
}

/// The projects of `fresh`, stably sorted by name.
fn sort_by_name(fresh: &Vec<Project>) -> (r: Vec<Project>)
    ensures
        sorted_by_name(r@.map_values(|p: Project| p@), fresh@.map_values(|p: Project| p@)),
{
    let ghost fm = fresh@.map_values(|p: Project| p@);
    let mut keys: Vec<Vec<char>> = Vec::new();
    let mut i: usize = 0;
    while i < fresh.len()
        invariant
            i <= fresh@.len(),
            keys@.len() == i,
            forall|k: int| 0 <= k < i ==> keys@[k]@ == fresh@[k].name@,
        decreases fresh@.len() - i,
    {
        keys.push(chars_of(fresh[i].name.as_str()));
        i += 1;
    }
    assert(keys@.map_values(|k: Vec<char>| k@) =~= project_names(fm));
    let order = stable_order(&keys);
    let mut r: Vec<Project> = Vec::new();
    let mut k: usize = 0;
    while k < order.len()
        invariant
            k <= order@.len(),
            is_permutation(order@, fresh@.len()),
            r@.len() == k,
            forall|m: int| 0 <= m < k ==> r@[m]@ == fresh@[order@[m] as int]@,
        decreases order@.len() - k,
    {
        r.push(fresh[order[k]].duplicate());
        k += 1;
    }
    assert(r@.map_values(|p: Project| p@) =~= order@.map_values(|m: usize| fm[m as int]));
    r
}

/// Merges two project lists by name; the overlay's new projects come last, sorted by name.
pub fn merge_projects(base: &Vec<Project>, over: &Vec<Project>) -> (r: Vec<Project>)
    ensures
        merged_projects(
            r@.map_values(|p: Project| p@),
            base@.map_values(|p: Project| p@),
            over@.map_values(|p: Project| p@),
        ),
{
    let ghost bm = base@.map_values(|p: Project| p@);
    let ghost om = over@.map_values(|p: Project| p@);
    let mut r: Vec<Project> = Vec::new();
    let mut i: usize = 0;
    while i < base.len()
        invariant
            bm == base@.map_values(|p: Project| p@),
            om == over@.map_values(|p: Project| p@),
            i <= base@.len(),
            r@.map_values(|p: Project| p@) == Seq::new(i as nat, |k: int| merge_project_into(bm[k], om)),
        decreases base@.len() - i,
    {
        let b = &base[i];
        proof { lemma_first_index(project_names(om), b.name@); }
        let c = match project_position(over, b.name.as_str()) {
            Some(j) => merge_project(b, &over[j]),
            None => b.duplicate(),
        };
        assert(c@ == merge_project_into(bm[i as int], om));
        let ghost before = r@.map_values(|p: Project| p@);
        r.push(c);
        assert(r@.map_values(|p: Project| p@) =~= before.push(c@));
        i += 1;
        assert(r@.map_values(|p: Project| p@) =~= Seq::new(i as nat, |k: int| merge_project_into(bm[k], om)));
    }
    let mut fresh: Vec<Project> = Vec::new();
    let mut j: usize = 0;
    while j < over.len()
        invariant
            bm == base@.map_values(|p: Project| p@),
            om == over@.map_values(|p: Project| p@),
            j <= over@.len(),
            fresh@.map_values(|p: Project| p@) == overlay_only_projects(bm, om.subrange(0, j as int)),
        decreases over@.len() - j,
    {
        let o = &over[j];
        proof {
            assert(om.subrange(0, j + 1).drop_last() == om.subrange(0, j as int));
            assert(om.subrange(0, j + 1).last() == o@);
        }
        if project_position(base, o.name.as_str()).is_none() {
            fresh.push(o.duplicate());
        }
        j += 1;
        assert(fresh@.map_values(|p: Project| p@) =~= overlay_only_projects(bm, om.subrange(0, j as int)));
    }
    assert(om.subrange(0, om.len() as int) == om);
    let ghost head = r@.map_values(|p: Project| p@);
    assert(head.len() == bm.len());
    let mut tail = sort_by_name(&fresh);
    let ghost tm = tail@.map_values(|p: Project| p@);
    r.append(&mut tail);
    proof {
        let rm = r@.map_values(|p: Project| p@);
        assert(rm.len() == head.len() + tm.len());
        assert(rm.subrange(0, bm.len() as int) =~= head);
        assert(rm.subrange(bm.len() as int, rm.len() as int) =~= tm);
    }
    r
}

/// Layers `overlay` on `base`.
pub fn merge_configs(base: &Config, overlay: &Config) -> (r: Config)
    ensures
        merged_config(r@, base@, overlay@),
{
    let shortcuts = match &overlay.shortcuts {
        Some(s) => Some(s.duplicate()),
        None => match &base.shortcuts {
            Some(s) => Some(s.duplicate()),
            None => None,
        },
    };
    Config {
        base_file: pick_string(&overlay.base_file, &base.base_file),
        current_project: pick_string(&overlay.current_project, &base.current_project),
        default_browser: pick_string(&overlay.default_browser, &base.default_browser),
        global: merge_command_lists(&base.global, &overlay.global),
        shortcuts,
        projects: merge_projects(&base.projects, &overlay.projects),
    }
}

proof fn lemma_overlay_only_commands_empty(base: Seq<ProjectCommand>, over: Seq<ProjectCommand>)
    requires
        forall|i: int| 0 <= i < over.len() ==> first_index(command_keys(base), #[trigger] over[i].key@) is Some,
    ensures
        overlay_only_commands(base, over) == Seq::<ProjectCommand>::empty(),
    decreases over.len(),
{
    if over.len() > 0 {
        let prefix = over.drop_last();
        assert forall|i: int| 0 <= i < prefix.len() implies first_index(command_keys(base), #[trigger] prefix[i].key@) is Some by {
            assert(prefix[i] == over[i]);
        }
        lemma_overlay_only_commands_empty(base, prefix);
        assert(over.last() == over[over.len() - 1]);
    }
}

proof fn lemma_overlay_only_projects_empty(base: Seq<ProjectModel>, over: Seq<ProjectModel>)
    requires
        forall|i: int| 0 <= i < over.len() ==> first_index(project_names(base), #[trigger] over[i].name@) is Some,
    ensures
        overlay_only_projects(base, over) == Seq::<ProjectModel>::empty(),
    decreases over.len(),
{
    if over.len() > 0 {
        let prefix = over.drop_last();
        assert forall|i: int| 0 <= i < prefix.len() implies first_index(project_names(base), #[trigger] prefix[i].name@) is Some by {
            assert(prefix[i] == over[i]);
        }
        lemma_overlay_only_projects_empty(base, prefix);
        assert(over.last() == over[over.len() - 1]);
    }
}

/// Merging a command list with itself gives it back, when its keys are unique.
pub proof fn lemma_merge_commands_self(s: Seq<ProjectCommand>)
    requires
        keys_unique(command_keys(s)),
    ensures
        merged_commands(s, s) == s,
{
    let keys = command_keys(s);
    assert forall|i: int| 0 <= i < s.len() implies first_index(keys, #[trigger] s[i].key@) == Some(i) by {
        assert(keys[i] == s[i].key@);
        assert forall|j: int| 0 <= j < i implies keys[j] != s[i].key@ by {}
        lemma_first_index_of(keys, s[i].key@, i);
    }
    lemma_overlay_only_commands_empty(s, s);
    assert(merged_commands(s, s) =~= s);
}

proof fn lemma_merge_command_lists_self(s: Option<Seq<ProjectCommand>>)
    requires
        s matches Some(cs) ==> keys_unique(command_keys(cs)),
    ensures
        merged_command_lists(s, s) == s,
{
    if let Some(cs) = s {
        lemma_merge_commands_self(cs);
    }
}

/// Merging a configuration with itself, as base and as overlay, gives it back.
pub proof fn law_merge_idempotent(c: ConfigModel, r: ConfigModel)
    requires
        config_well_formed(c),
        merged_config(r, c, c),
    ensures
        r == c,
{
    let ps = c.projects;
    let names = project_names(ps);
    lemma_merge_command_lists_self(c.global);
    assert forall|i: int| 0 <= i < ps.len() implies merge_project_into(#[trigger] ps[i], ps) == ps[i] by {
        assert(names[i] == ps[i].name@);
        assert forall|j: int| 0 <= j < i implies names[j] != ps[i].name@ by {}
        lemma_first_index_of(names, ps[i].name@, i);
        lemma_merge_command_lists_self(ps[i].commands);
    }
    assert forall|i: int| 0 <= i < ps.len() implies first_index(names, #[trigger] ps[i].name@) is Some by {
        assert(names[i] == ps[i].name@);
        lemma_first_index(names, ps[i].name@);
    }
    lemma_overlay_only_projects_empty(ps, ps);
    let tail = r.projects.subrange(ps.len() as int, r.projects.len() as int);
    let order = choose|order: Seq<usize>|
        is_permutation(order, 0) && sorts_stably(project_names(Seq::<ProjectModel>::empty()), order)
            && tail == order.map_values(|i: usize| Seq::<ProjectModel>::empty()[i as int]);
    assert(tail.len() == 0);
    assert(r.projects =~= r.projects.subrange(0, ps.len() as int));
    assert(r.projects =~= ps);
}

/// Over two command lists: the base's commands come first, in their order; a base
/// command whose key the overlay lacks is kept as it is; one whose key the overlay has takes each field that the overlay sets; and the
/// overlay's other commands follow the base's.
pub proof fn law_merge_commands_overlay_wins(base: Seq<ProjectCommand>, over: Seq<ProjectCommand>)
    ensures
        merged_commands(base, over).len() >= base.len(),
        forall|i: int| 0 <= i < base.len() ==> (#[trigger] merged_commands(base, over)[i]).key == base[i].key,
        forall|i: int| 0 <= i < base.len() ==> match #[trigger] first_index(command_keys(over), base[i].key@) {
            None => merged_commands(base, over)[i] == base[i],
            Some(j) => {
                let m = merged_commands(base, over)[i];
                &&& m.key == base[i].key
                &&& (over[j].url is Some ==> m.url == over[j].url)
                &&& (over[j].url is None ==> m.url == base[i].url)
                &&& (over[j].browser is Some ==> m.browser == over[j].browser)
                &&& (over[j].browser is None ==> m.browser == base[i].browser)
                &&& (over[j].args is Some ==> m.args == over[j].args)
                &&& (over[j].args is None ==> m.args == base[i].args)
                &&& m.url_encode == (base[i].url_encode || over[j].url_encode)
            },
        },
        merged_commands(base, over).subrange(base.len() as int, merged_commands(base, over).len() as int)
            == overlay_only_commands(base, over),
{
    let m = merged_commands(base, over);
    assert(m.subrange(base.len() as int, m.len() as int) =~= overlay_only_commands(base, over));
}

/// Over two configurations: every value that the overlay sets wins; the base's
/// projects come first, in their order; a project that only the base has is kept as it is, and one that both have takes each detail that
/// the overlay sets.
pub proof fn law_merge_overlay_wins(base: ConfigModel, over: ConfigModel, r: ConfigModel)
    requires
        merged_config(r, base, over),
    ensures
        over.base_file is Some ==> r.base_file == over.base_file,
        over.base_file is None ==> r.base_file == base.base_file,
        over.current_project is Some ==> r.current_project == over.current_project,
        over.current_project is None ==> r.current_project == base.current_project,
        over.default_browser is Some ==> r.default_browser == over.default_browser,
        over.default_browser is None ==> r.default_browser == base.default_browser,
        over.shortcuts is Some ==> r.shortcuts == over.shortcuts,
        over.shortcuts is None ==> r.shortcuts == base.shortcuts,
        over.global is None ==> r.global == base.global,
        base.global is None ==> r.global == over.global,
        (base.global is Some && over.global is Some) ==> r.global == Some(merged_commands(base.global->0, over.global->0)),
        r.projects.len() >= base.projects.len(),
        forall|i: int| 0 <= i < base.projects.len() ==> (#[trigger] r.projects[i]).name == base.projects[i].name,
        forall|i: int| 0 <= i < base.projects.len() ==> match #[trigger] first_index(project_names(over.projects), base.projects[i].name@) {
            None => r.projects[i] == base.projects[i],
            Some(j) => {
                let p = r.projects[i];
                let b = base.projects[i];
                let o = over.projects[j];
                &&& p.name == b.name
                &&& (o.path is Some ==> p.path == o.path)
                &&& (o.path is None ==> p.path == b.path)
                &&& (o.description is Some ==> p.description == o.description)
                &&& (o.description is None ==> p.description == b.description)
                &&& (o.browser is Some ==> p.browser == o.browser)
                &&& (o.browser is None ==> p.browser == b.browser)
                &&& p.commands == merged_command_lists(b.commands, o.commands)
            },
        },
{
    let n = base.projects.len() as int;
    assert forall|i: int| 0 <= i < n implies r.projects[i] == merge_project_into(base.projects[i], over.projects) by {
        assert(r.projects[i] == r.projects.subrange(0, n)[i]);
    }
}

} // verus!
