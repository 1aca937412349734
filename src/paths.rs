//! Path browsing: splitting a typed path into the directory to list and a name
//! filter, ordering what the directory holds, and when to descend on its own.
use vstd::prelude::*;
use crate::order::{is_permutation, sorted_arrangement, stable_order};
use crate::text::{chars_of, concat, is_prefix_of, lower_of, starts_with, string_of_range, to_lower};

verus! {

/// How many times the listing descends on its own into a sole matching directory.
pub const MAX_DESCEND: usize = 8;

/// One entry of a directory listing.
#[derive(Clone, Debug, PartialEq, Eq)]
pub struct PathEntry {
    pub name: String,
    pub is_dir: bool,
}

pub open spec fn is_separator(c: char) -> bool {
    c == '\\' || c == '/'
}

/// The position of the last separator in `s`.
pub open spec fn last_separator(s: Seq<char>) -> Option<int>
    decreases s.len(),
{
    if s.len() == 0 {
        None
    } else if is_separator(s[s.len() - 1]) {
        Some(s.len() - 1)
    } else {
        last_separator(s.drop_last())
    }
}

/// A typed path split into the directory to list (up to and with its last separator)
/// and the name filter after it; without a separator the whole is the directory.
pub open spec fn split_path_spec(s: Seq<char>) -> (Seq<char>, Seq<char>) {
    match last_separator(s) {
        Some(i) => (s.subrange(0, i + 1), s.subrange(i + 1, s.len() as int)),
        None => (s, Seq::empty()),
    }
}

/// Splits a typed path into the directory to list and the name filter.
pub fn split_path(path: &str) -> (r: (String, String))
    ensures
        r.0@ == split_path_spec(path@).0,
        r.1@ == split_path_spec(path@).1,
{
    let cs = chars_of(path);
    let mut i: usize = cs.len();
    assert(cs@.subrange(0, cs@.len() as int) == cs@);
    while i > 0 && !(cs[i - 1] == '\\' || cs[i - 1] == '/')
        invariant
            cs@ == path@,
            i <= cs@.len(),
            last_separator(cs@) == last_separator(cs@.subrange(0, i as int)),
        decreases i,
    {
        proof {
            assert(cs@.subrange(0, i as int).drop_last() == cs@.subrange(0, i - 1));
        }
        i -= 1;
    }
    proof {
        assert(cs@.subrange(0, cs@.len() as int) == cs@);
    }
    if i == 0 {
        (string_of_range(&cs, 0, cs.len()), String::new())
    } else {
        (string_of_range(&cs, 0, i), string_of_range(&cs, i, cs.len()))
    }
}

/// The entries whose lower-cased name starts with `p`, and are directories or files
/// as `dirs` says, in order.
pub open spec fn entries_matching(es: Seq<PathEntry>, p: Seq<char>, dirs: bool) -> Seq<PathEntry>
    decreases es.len(),
{
    if es.len() == 0 {
        Seq::empty()
    } else {
        let prev = entries_matching(es.drop_last(), p, dirs);
        let e = es.last();
        if e.is_dir == dirs && is_prefix_of(p, lower_of(e.name@)) {
            prev.push(e)
        } else {
            prev
        }
    }
}

pub open spec fn entry_names(es: Seq<PathEntry>) -> Seq<Seq<char>> {
    es.map_values(|e: PathEntry| lower_of(e.name@))
}

/// `r` is the listing offered for `filter`: the matching directories, then the
/// matching files, each group sorted by name ignoring case.
pub open spec fn is_listing(r: Seq<PathEntry>, es: Seq<PathEntry>, filter: Seq<char>) -> bool {
    let ds = entries_matching(es, lower_of(filter), true);
    let fs = entries_matching(es, lower_of(filter), false);
    &&& r.len() == ds.len() + fs.len()
    &&& sorted_arrangement(r.subrange(0, ds.len() as int), ds, entry_names(ds))
    &&& sorted_arrangement(r.subrange(ds.len() as int, r.len() as int), fs, entry_names(fs))
}

fn matching_sorted(es: &Vec<PathEntry>, filter: &Vec<char>, dirs: bool) -> (r: Vec<PathEntry>)
    ensures
        sorted_arrangement(
            r@,
            entries_matching(es@, filter@, dirs),
            entry_names(entries_matching(es@, filter@, dirs)),
        ),
{
    let mut sel: Vec<PathEntry> = Vec::new();
    let mut keys: Vec<Vec<char>> = Vec::new();
    let mut i: usize = 0;
    while i < es.len()
        invariant
            i <= es@.len(),
            sel@ == entries_matching(es@.subrange(0, i as int), filter@, dirs),
            keys@.len() == sel@.len(),
            forall|m: int| 0 <= m < keys@.len() ==> (#[trigger] keys@[m])@ == lower_of(sel@[m].name@),
        decreases es@.len() - i,
    {
        proof {
            assert(es@.subrange(0, i + 1).drop_last() == es@.subrange(0, i as int));
            assert(es@.subrange(0, i + 1).last() == es@[i as int]);
        }
        let name = chars_of(to_lower(es[i].name.as_str()).as_str());
        if es[i].is_dir == dirs && starts_with(&name, filter) {
            sel.push(PathEntry { name: es[i].name.clone(), is_dir: es[i].is_dir });
            keys.push(name);
        }
        i += 1;
    }
    assert(es@.subrange(0, es@.len() as int) == es@);
    assert(keys@.map_values(|k: Vec<char>| k@) =~= entry_names(sel@));
    let order = stable_order(&keys);
    let mut r: Vec<PathEntry> = Vec::new();
    let mut m: usize = 0;
    while m < order.len()
        invariant
            m <= order@.len(),
            is_permutation(order@, sel@.len()),
            r@ == order@.subrange(0, m as int).map_values(|j: usize| sel@[j as int]),
        decreases order@.len() - m,
    {
        let e = &sel[order[m]];
        r.push(PathEntry { name: e.name.clone(), is_dir: e.is_dir });
        m += 1;
        assert(r@ =~= order@.subrange(0, m as int).map_values(|j: usize| sel@[j as int]));
    }
    assert(order@.subrange(0, order@.len() as int) == order@);
    r
}

/// The entries of a directory listing offered for `filter`: directories first, then
/// files, each sorted by name ignoring case, keeping those whose name starts with the
/// filter ignoring case.
pub fn list_matching(entries: &Vec<PathEntry>, filter: &str) -> (r: Vec<PathEntry>)
    ensures
        is_listing(r@, entries@, filter@),
{
    let f = chars_of(to_lower(filter).as_str());
    let mut r = matching_sorted(entries, &f, true);
    let ghost ds = r@;
    let mut files = matching_sorted(entries, &f, false);
    let ghost fs = files@;
    r.append(&mut files);
    proof {
        assert(r@.subrange(0, ds.len() as int) =~= ds);
        assert(r@.subrange(ds.len() as int, r@.len() as int) =~= fs);
        let order = choose|order: Seq<usize>|
            is_permutation(order, entries_matching(entries@, f@, true).len())
                && crate::order::sorts_stably(entry_names(entries_matching(entries@, f@, true)), order)
                && ds == order.map_values(|i: usize| entries_matching(entries@, f@, true)[i as int]);
        let order2 = choose|order: Seq<usize>|
            is_permutation(order, entries_matching(entries@, f@, false).len())
                && crate::order::sorts_stably(entry_names(entries_matching(entries@, f@, false)), order)
                && fs == order.map_values(|i: usize| entries_matching(entries@, f@, false)[i as int]);
        assert(ds.len() == order.len());
        assert(fs.len() == order2.len());
    }
    r
}

/// Where the listing holds a single directory and no file, the listing descends into it.
pub fn sole_directory(listing: &Vec<PathEntry>) -> (r: Option<String>)
    ensures
        match r {
            Some(n) => listing@.len() == 1 && listing@[0].is_dir && n@ == listing@[0].name@,
            None => !(listing@.len() == 1 && listing@[0].is_dir),
        },
{
    if listing.len() == 1 && listing[0].is_dir {
        Some(listing[0].name.clone())
    } else {
        None
    }
}

pub open spec fn dir_tag() -> Seq<char> {
    seq!['[', 'd', 'i', 'r', ']']
}

pub open spec fn file_tag() -> Seq<char> {
    seq!['[', 'f', 'i', 'l', 'e', ']']
}

/// How a listed entry is shown: its full path, the arrow, and its kind.
pub open spec fn entry_text(dir: Seq<char>, e: PathEntry) -> Seq<char> {
    dir + e.name@ + seq![' ', '\u{2192}', ' '] + if e.is_dir { dir_tag() } else { file_tag() }
}

/// The suggestions for a listing of `dir`: the directory itself first where the
/// filter is empty, then each listed entry.
pub open spec fn path_suggestion_texts(dir: Seq<char>, filter: Seq<char>, listing: Seq<PathEntry>) -> Seq<Seq<char>> {
    let entries = listing.map_values(|e: PathEntry| entry_text(dir, e));
    if filter.len() == 0 {
        seq![dir + seq![' ', '\u{2192}', ' '] + dir_tag()] + entries
    } else {
        entries
    }
}

/// The suggestions shown while browsing `dir` with `filter`.
pub fn path_suggestions(dir: &str, filter: &str, listing: &Vec<PathEntry>) -> (r: Vec<String>)
    ensures
        r@.len() == path_suggestion_texts(dir@, filter@, listing@).len(),
        forall|i: int| 0 <= i < r@.len() ==> (#[trigger] r@[i])@ == path_suggestion_texts(dir@, filter@, listing@)[i],
{
    proof {
        reveal_strlit(" \u{2192} [dir]");
        reveal_strlit(" \u{2192} [file]");
        assert(" \u{2192} [dir]"@ =~= seq![' ', '\u{2192}', ' '] + dir_tag());
        assert(" \u{2192} [file]"@ =~= seq![' ', '\u{2192}', ' '] + file_tag());
    }
    let ghost texts = path_suggestion_texts(dir@, filter@, listing@);
    let mut r: Vec<String> = Vec::new();
    let offset: usize = if filter.unicode_len() == 0 {
        r.push(concat(dir, " \u{2192} [dir]"));
        assert((dir@ + (seq![' ', '\u{2192}', ' '] + dir_tag())) =~= dir@ + seq![' ', '\u{2192}', ' '] + dir_tag());
        1
    } else {
        0
    };
    let mut i: usize = 0;
    while i < listing.len()
        invariant
            texts == path_suggestion_texts(dir@, filter@, listing@),
            offset == (if filter@.len() == 0 { 1usize } else { 0usize }),
            i <= listing@.len(),
            r@.len() == offset + i,
            forall|k: int| 0 <= k < r@.len() ==> (#[trigger] r@[k])@ == texts[k],
        decreases listing@.len() - i,
    {
        let e = &listing[i];
        let path = concat(dir, e.name.as_str());
        let text = if e.is_dir {
            concat(path.as_str(), " \u{2192} [dir]")
        } else {
            concat(path.as_str(), " \u{2192} [file]")
        };
        proof {
            reveal_strlit(" \u{2192} [dir]");
            reveal_strlit(" \u{2192} [file]");
            assert(" \u{2192} [dir]"@ =~= seq![' ', '\u{2192}', ' '] + dir_tag());
            assert(" \u{2192} [file]"@ =~= seq![' ', '\u{2192}', ' '] + file_tag());
        }
        assert(text@ =~= entry_text(dir@, *e));
        r.push(text);
        i += 1;
    }
    r
}

/// Where browsing descends next: into the sole directory of the listing, below `dir`
/// and followed by `sep`, while fewer than the bounded number of steps were taken.
pub fn next_descent(dir: &str, listing: &Vec<PathEntry>, steps: usize, sep: char) -> (r: Option<String>)
    ensures
        steps < MAX_DESCEND && listing@.len() == 1 && listing@[0].is_dir
            ==> (r matches Some(d) && d@ == dir@ + listing@[0].name@ + seq![sep]),
        !(steps < MAX_DESCEND && listing@.len() == 1 && listing@[0].is_dir) ==> r is None,
{
    if steps >= MAX_DESCEND {
        return None;
    }
    match sole_directory(listing) {
        Some(name) => {
            let mut v: Vec<char> = Vec::new();
            v.push(sep);
            let tail = crate::text::string_of(&v);
            assert(tail@ =~= seq![sep]);
            Some(concat(concat(dir, name.as_str()).as_str(), tail.as_str()))
        },
        None => None,
    }
}

} // verus!
