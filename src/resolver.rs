//! The namespace of selectable items (project commands, global commands, shortcuts)
//! and the resolution of a typed keyword to one of them.
use vstd::prelude::*;
use crate::config::{
    command_keys, command_position, first_index, keys_unique, lemma_first_index,
    lemma_first_index_of, Project, ProjectCommand,
};
use crate::order::{covers, is_permutation, sorts_stably, stable_order};
use crate::shortcuts::ShortcutEntry;
use crate::text::{chars_of, contains, contains_seq, lower_of, same_chars, to_lower};

verus! {

/// One selectable item: a configured command or a discovered shortcut.
#[derive(Clone, Debug, PartialEq, Eq)]
pub enum ListItem {
    Command(ProjectCommand),
    Shortcut(ShortcutEntry),
}

/// The key an item is looked up by: a command's key or a shortcut's name.
pub open spec fn item_key(i: ListItem) -> Seq<char> {
    match i {
        ListItem::Command(c) => c.key@,
        ListItem::Shortcut(s) => s.name@,
    }
}

impl ListItem {
    pub fn key(&self) -> (r: &String)
        ensures
            r@ == item_key(*self),
    {
        match self {
            ListItem::Command(c) => &c.key,
            ListItem::Shortcut(s) => &s.name,
        }
    }
}

/// The commands of `cmds` whose key no earlier command has, in order.
pub open spec fn unique_commands(cmds: Seq<ProjectCommand>) -> Seq<ProjectCommand>
    decreases cmds.len(),
{
    if cmds.len() == 0 {
        Seq::empty()
    } else {
        let prev = unique_commands(cmds.drop_last());
        if first_index(command_keys(prev), cmds.last().key@) is Some {
            prev
        } else {
            prev.push(cmds.last())
        }
    }
}

/// `ns` is the namespace built from `cmds` (project commands first, then global ones)
/// and `shortcuts`: the commands deduplicated by key, the first kept, stably sorted by
/// key; then the shortcuts in their order where they are enabled.
pub open spec fn is_namespace(
    ns: Seq<ListItem>,
    cmds: Seq<ProjectCommand>,
    shortcuts: Seq<ShortcutEntry>,
    enabled: bool,
) -> bool {
    let u = unique_commands(cmds);
    let extra = if enabled { shortcuts.len() } else { 0 };
    &&& ns.len() == u.len() + extra
    &&& exists|order: Seq<usize>|
        #![trigger is_permutation(order, u.len())]
        is_permutation(order, u.len()) && sorts_stably(command_keys(u), order)
            && forall|p: int| 0 <= p < u.len() ==> ns[p] == ListItem::Command(u[order[p] as int])
    &&& forall|q: int| 0 <= q < extra ==> ns[u.len() + q] == ListItem::Shortcut(shortcuts[q])
}

/// The commands of a project, or none.
pub open spec fn own_commands(p: Project) -> Seq<ProjectCommand> {
    match p.commands {
        Some(cs) => cs@,
        None => Seq::empty(),
    }
}

/// The global commands, or none.
pub open spec fn global_commands(g: Option<Vec<ProjectCommand>>) -> Seq<ProjectCommand> {
    match g {
        Some(cs) => cs@,
        None => Seq::empty(),
    }
}

fn append_commands(all: &mut Vec<ProjectCommand>, cmds: &Option<Vec<ProjectCommand>>)
    ensures
        final(all)@ == old(all)@ + match cmds { Some(cs) => cs@, None => Seq::<ProjectCommand>::empty() },
{
    if let Some(cs) = cmds {
        let mut i: usize = 0;
        let ghost start = all@;
        while i < cs.len()
            invariant
                i <= cs@.len(),
                all@ == start + cs@.subrange(0, i as int),
            decreases cs@.len() - i,
        {
            all.push(cs[i].duplicate());
            i += 1;
            assert(all@ =~= start + cs@.subrange(0, i as int));
        }
        assert(cs@.subrange(0, cs@.len() as int) == cs@);
    } else {
        assert(all@ =~= all@ + Seq::<ProjectCommand>::empty());
    }
}

/// Builds the namespace for `project`: its commands, then the global ones, then the
/// shortcuts where they are enabled.
pub fn build_namespace(
    project: &Project,
    global: &Option<Vec<ProjectCommand>>,
    shortcuts: &Vec<ShortcutEntry>,
    shortcuts_enabled: bool,
) -> (r: Vec<ListItem>)
    ensures
        is_namespace(r@, own_commands(*project) + global_commands(*global), shortcuts@, shortcuts_enabled),
        !shortcuts_enabled ==> forall|i: int| 0 <= i < r@.len() ==> r@[i] is Command,
{
    let mut all: Vec<ProjectCommand> = Vec::new();
    append_commands(&mut all, &project.commands);
    append_commands(&mut all, global);
    assert(all@ =~= own_commands(*project) + global_commands(*global));
    let mut uniq: Vec<ProjectCommand> = Vec::new();
    let mut i: usize = 0;
    while i < all.len()
        invariant
            i <= all@.len(),
            uniq@ == unique_commands(all@.subrange(0, i as int)),
        decreases all@.len() - i,
    {
        proof {
            assert(all@.subrange(0, i + 1).drop_last() == all@.subrange(0, i as int));
            assert(all@.subrange(0, i + 1).last() == all@[i as int]);
        }
        if command_position(&uniq, all[i].key.as_str()).is_none() {
            uniq.push(all[i].duplicate());
        }
        i += 1;
    }
    assert(all@.subrange(0, all@.len() as int) == all@);
    let mut keys: Vec<Vec<char>> = Vec::new();
    let mut k: usize = 0;
    while k < uniq.len()
        invariant
            k <= uniq@.len(),
            keys@.len() == k,
            forall|m: int| 0 <= m < k ==> (#[trigger] keys@[m])@ == uniq@[m].key@,
        decreases uniq@.len() - k,
    {
        keys.push(chars_of(uniq[k].key.as_str()));
        k += 1;
    }
    assert(keys@.map_values(|key: Vec<char>| key@) =~= command_keys(uniq@));
    let order = stable_order(&keys);
    let mut r: Vec<ListItem> = Vec::new();
    let mut p: usize = 0;
    while p < order.len()
        invariant
            p <= order@.len(),
            is_permutation(order@, uniq@.len()),
            r@.len() == p,
            forall|m: int| 0 <= m < p ==> r@[m] == ListItem::Command(uniq@[order@[m] as int]),
        decreases order@.len() - p,
    {
        r.push(ListItem::Command(uniq[order[p]].duplicate()));
        p += 1;
    }
    if shortcuts_enabled {
        let mut q: usize = 0;
        while q < shortcuts.len()
            invariant
                q <= shortcuts@.len(),
                r@.len() == uniq@.len() + q,
                forall|m: int| 0 <= m < uniq@.len() ==> r@[m] == ListItem::Command(uniq@[order@[m] as int]),
                forall|m: int| 0 <= m < q ==> r@[uniq@.len() + m] == ListItem::Shortcut(shortcuts@[m]),
            decreases shortcuts@.len() - q,
        {
            r.push(ListItem::Shortcut(shortcuts[q].clone_entry()));
            q += 1;
        }
    }
    assert(is_permutation(order@, uniq@.len()));
    r
}

/// The lower-cased keys of a namespace.
pub open spec fn lowered_keys(ns: Seq<ListItem>) -> Seq<Seq<char>> {
    ns.map_values(|i: ListItem| lower_of(item_key(i)))
}

/// The first position whose key contains `p`.
pub open spec fn first_containing(keys: Seq<Seq<char>>, p: Seq<char>) -> Option<int>
    decreases keys.len(),
{
    if keys.len() == 0 {
        None
    } else if contains_seq(keys[0], p) {
        Some(0)
    } else {
        match first_containing(keys.drop_first(), p) {
            Some(i) => Some(i + 1),
            None => None,
        }
    }
}

pub proof fn lemma_first_containing(keys: Seq<Seq<char>>, p: Seq<char>, i: int)
    requires
        0 <= i < keys.len(),
        contains_seq(keys[i], p),
        forall|j: int| 0 <= j < i ==> !contains_seq(#[trigger] keys[j], p),
    ensures
        first_containing(keys, p) == Some(i),
    decreases keys.len(),
{
    if i > 0 {
        let rest = keys.drop_first();
        assert forall|j: int| 0 <= j < i - 1 implies !contains_seq(#[trigger] rest[j], p) by {
            assert(rest[j] == keys[j + 1]);
        }
        lemma_first_containing(rest, p, i - 1);
    }
}

pub proof fn lemma_none_containing(keys: Seq<Seq<char>>, p: Seq<char>)
    requires
        forall|j: int| 0 <= j < keys.len() ==> !contains_seq(#[trigger] keys[j], p),
    ensures
        first_containing(keys, p) is None,
    decreases keys.len(),
{
    if keys.len() > 0 {
        let rest = keys.drop_first();
        assert forall|j: int| 0 <= j < rest.len() implies !contains_seq(#[trigger] rest[j], p) by {
            assert(rest[j] == keys[j + 1]);
        }
        lemma_none_containing(rest, p);
    }
}

/// The item a keyword selects: the first whose key equals it ignoring case, else the
/// first whose key contains it ignoring case.
pub open spec fn resolve_spec(ns: Seq<ListItem>, keyword: Seq<char>) -> Option<int> {
    match first_index(lowered_keys(ns), lower_of(keyword)) {
        Some(i) => Some(i),
        None => first_containing(lowered_keys(ns), lower_of(keyword)),
    }
}

/// The position of the item that `keyword` selects in `ns`.
pub fn resolve(ns: &Vec<ListItem>, keyword: &str) -> (r: Option<usize>)
    ensures
        match r {
            Some(i) => resolve_spec(ns@, keyword@) == Some(i as int) && i < ns@.len(),
            None => resolve_spec(ns@, keyword@) is None,
        },
{
    let ghost lk = lowered_keys(ns@);
    let kw = chars_of(to_lower(keyword).as_str());
    let mut keys: Vec<Vec<char>> = Vec::new();
    let mut i: usize = 0;
    while i < ns.len()
        invariant
            lk == lowered_keys(ns@),
            i <= ns@.len(),
            keys@.len() == i,
            forall|m: int| 0 <= m < i ==> (#[trigger] keys@[m])@ == lk[m],
        decreases ns@.len() - i,
    {
        keys.push(chars_of(to_lower(ns[i].key().as_str()).as_str()));
        i += 1;
    }
    proof { lemma_first_index(lk, kw@); }
    let mut j: usize = 0;
    while j < keys.len()
        invariant
            lk == lowered_keys(ns@),
            kw@ == lower_of(keyword@),
            keys@.len() == ns@.len(),
            forall|m: int| 0 <= m < keys@.len() ==> (#[trigger] keys@[m])@ == lk[m],
            j <= keys@.len(),
            forall|m: int| 0 <= m < j ==> lk[m] != kw@,
        decreases keys@.len() - j,
    {
        if same_chars(&keys[j], &kw) {
            proof { lemma_first_index_of(lk, kw@, j as int); }
            return Some(j);
        }
        j += 1;
    }
    let mut k: usize = 0;
    while k < keys.len()
        invariant
            lk == lowered_keys(ns@),
            kw@ == lower_of(keyword@),
            first_index(lk, kw@) is None,
            keys@.len() == ns@.len(),
            forall|m: int| 0 <= m < keys@.len() ==> (#[trigger] keys@[m])@ == lk[m],
            k <= keys@.len(),
            forall|m: int| 0 <= m < k ==> !contains_seq(#[trigger] lk[m], kw@),
        decreases keys@.len() - k,
    {
        if contains(&keys[k], &kw) {
            proof { lemma_first_containing(lk, kw@, k as int); }
            return Some(k);
        }
        k += 1;
    }
    proof { lemma_none_containing(lk, kw@); }
    None
}

proof fn lemma_unique_commands_unique(cmds: Seq<ProjectCommand>)
    ensures
        keys_unique(command_keys(unique_commands(cmds))),
    decreases cmds.len(),
{
    if cmds.len() > 0 {
        let prev = unique_commands(cmds.drop_last());
        lemma_unique_commands_unique(cmds.drop_last());
        let u = unique_commands(cmds);
        if u != prev {
            let e = cmds.last();
            lemma_first_index(command_keys(prev), e.key@);
            assert forall|a: int, b: int| 0 <= a < u.len() && 0 <= b < u.len()
                && command_keys(u)[a] == command_keys(u)[b] implies a == b by {
                if a < prev.len() && b == prev.len() {
                    assert(command_keys(prev)[a] == e.key@);
                } else if b < prev.len() && a == prev.len() {
                    assert(command_keys(prev)[b] == e.key@);
                } else if a < prev.len() && b < prev.len() {
                    assert(command_keys(prev)[a] == command_keys(prev)[b]);
                }
            }
        }
    }
}

proof fn lemma_unique_commands_from(cmds: Seq<ProjectCommand>)
    ensures
        forall|m: int| 0 <= m < unique_commands(cmds).len() ==> cmds.contains(#[trigger] unique_commands(cmds)[m]),
    decreases cmds.len(),
{
    if cmds.len() > 0 {
        let prefix = cmds.drop_last();
        lemma_unique_commands_from(prefix);
        let prev = unique_commands(prefix);
        let u = unique_commands(cmds);
        assert forall|m: int| 0 <= m < u.len() implies cmds.contains(#[trigger] u[m]) by {
            if m < prev.len() {
                assert(prefix.contains(prev[m]));
                let k = choose|k: int| 0 <= k < prefix.len() && prefix[k] == prev[m];
                assert(cmds[k] == prev[m]);
            } else {
                assert(cmds[cmds.len() - 1] == u[m]);
            }
        }
    }
}

proof fn lemma_first_of_key_unique(cmds: Seq<ProjectCommand>, i: int)
    requires
        0 <= i < cmds.len(),
        forall|k: int| 0 <= k < i ==> (#[trigger] cmds[k]).key@ != cmds[i].key@,
    ensures
        unique_commands(cmds).contains(cmds[i]),
    decreases cmds.len(),
{
    let prefix = cmds.drop_last();
    let prev = unique_commands(prefix);
    if i < cmds.len() - 1 {
        assert(prefix[i] == cmds[i]);
        assert forall|k: int| 0 <= k < i implies (#[trigger] prefix[k]).key@ != prefix[i].key@ by {
            assert(prefix[k] == cmds[k]);
        }
        lemma_first_of_key_unique(prefix, i);
        let p = choose|p: int| 0 <= p < prev.len() && prev[p] == cmds[i];
        assert(unique_commands(cmds)[p] == cmds[i]);
    } else {
        lemma_unique_commands_from(prefix);
        assert forall|j: int| 0 <= j < prev.len() implies command_keys(prev)[j] != cmds[i].key@ by {
            assert(prefix.contains(prev[j]));
            let k = choose|k: int| 0 <= k < prefix.len() && prefix[k] == prev[j];
            assert(cmds[k] == prefix[k]);
        }
        lemma_first_index(command_keys(prev), cmds[i].key@);
        assert(cmds.last() == cmds[i]);
        assert(unique_commands(cmds)[prev.len() as int] == cmds[i]);
    }
}

/// Where a project command and a global command share a key, resolving that key
/// selects the project command. (No other command's key may equal it ignoring case:
/// such a key would be an equally exact match.)
pub proof fn law_project_command_wins(
    project_cmds: Seq<ProjectCommand>,
    global: Seq<ProjectCommand>,
    shortcuts: Seq<ShortcutEntry>,
    enabled: bool,
    ns: Seq<ListItem>,
    i: int,
    j: int,
)
    requires
        keys_unique(command_keys(project_cmds)),
        0 <= i < project_cmds.len(),
        0 <= j < global.len(),
        global[j].key@ == project_cmds[i].key@,
        forall|c: ProjectCommand| (project_cmds + global).contains(c) && lower_of(c.key@) == lower_of(project_cmds[i].key@)
            ==> c.key@ == project_cmds[i].key@,
        is_namespace(ns, project_cmds + global, shortcuts, enabled),
    ensures
        resolve_spec(ns, project_cmds[i].key@) matches Some(p) && ns[p] == ListItem::Command(project_cmds[i]),
{
    let all = project_cmds + global;
    let key = project_cmds[i].key@;
    let u = unique_commands(all);
    assert forall|k: int| 0 <= k < i implies (#[trigger] all[k]).key@ != all[i].key@ by {
        assert(command_keys(project_cmds)[k] != command_keys(project_cmds)[i]);
    }
    assert(all[i] == project_cmds[i]);
    lemma_first_of_key_unique(all, i);
    lemma_unique_commands_unique(all);
    lemma_unique_commands_from(all);
    let order = choose|order: Seq<usize>|
        #![trigger is_permutation(order, u.len())]
        is_permutation(order, u.len()) && sorts_stably(command_keys(u), order)
            && forall|p: int| 0 <= p < u.len() ==> ns[p] == ListItem::Command(u[order[p] as int]);
    let t = choose|t: int| 0 <= t < u.len() && u[t] == project_cmds[i];
    assert(covers(order, t));
    let p = choose|p: int| 0 <= p < order.len() && order[p] as int == t;
    assert(ns[p] == ListItem::Command(u[order[p] as int]));
    let lk = lowered_keys(ns);
    assert forall|q: int| 0 <= q < p implies lk[q] != lower_of(key) by {
        assert(ns[q] == ListItem::Command(u[order[q] as int]));
        let c = u[order[q] as int];
        assert(all.contains(c));
        if lk[q] == lower_of(key) {
            assert(c.key@ == key);
            assert(command_keys(u)[order[q] as int] == command_keys(u)[t]);
            assert(order[q] != order[p]);
        }
    }
    lemma_first_index_of(lk, lower_of(key), p);
}

} // verus!
