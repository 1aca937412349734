//! The interactive match engine: suggestions for partial input, their decoration, and
//! getting a plain key back from a decorated suggestion.
use vstd::prelude::*;
use crate::config::{first_index, lemma_first_index, lemma_first_index_of, Project};
use crate::dispatch::{input_outcome, resolve_input, Action, ResolveError};
use crate::resolver::{item_key, lowered_keys, ListItem};
use crate::text::{
    chars_of, concat, contains, contains_seq, find_char, find_seq, has_char, lower_of,
    occurs_at, same_chars, split_at_space, string_of, string_of_range, to_lower,
};

verus! {

/// The separator between a suggestion's key and its description.
pub open spec fn arrow() -> Seq<char> {
    seq![' ', '\u{2192}', ' ']
}

/// The escape character that starts a terminal colour sequence.
pub open spec fn esc() -> char {
    '\u{1b}'
}

pub open spec fn is_ascii_letter(c: char) -> bool {
    ('a' <= c <= 'z') || ('A' <= c <= 'Z')
}

/// `s` without terminal escape sequences, read in one of three modes: plain text (0),
/// just after an escape character (1), or inside a `[`-sequence up to its final letter (2).
/// The character right after an escape is always dropped.
pub open spec fn strip_ansi_from(s: Seq<char>, mode: int) -> Seq<char>
    decreases s.len(),
{
    if s.len() == 0 {
        Seq::empty()
    } else {
        let c = s[0];
        let rest = s.drop_first();
        if mode == 0 {
            if c == esc() {
                strip_ansi_from(rest, 1)
            } else {
                seq![c] + strip_ansi_from(rest, 0)
            }
        } else if mode == 1 {
            if c == '[' {
                strip_ansi_from(rest, 2)
            } else {
                strip_ansi_from(rest, 0)
            }
        } else {
            if is_ascii_letter(c) {
                strip_ansi_from(rest, 0)
            } else {
                strip_ansi_from(rest, 2)
            }
        }
    }
}

/// `s` without terminal escape sequences.
pub open spec fn strip_ansi(s: Seq<char>) -> Seq<char> {
    strip_ansi_from(s, 0)
}

/// Removes terminal escape sequences.
pub fn strip_ansi_codes(s: &str) -> (r: String)
    ensures
        r@ == strip_ansi(s@),
{
    let cs = chars_of(s);
    let mut out: Vec<char> = Vec::new();
    let mut mode: u8 = 0;
    let mut i: usize = 0;
    assert(cs@.subrange(0, cs@.len() as int) == cs@);
    assert(out@ + strip_ansi(s@) =~= strip_ansi(s@));
    while i < cs.len()
        invariant
            cs@ == s@,
            i <= cs@.len(),
            mode <= 2,
            out@ + strip_ansi_from(cs@.subrange(i as int, cs@.len() as int), mode as int) == strip_ansi(s@),
        decreases cs@.len() - i,
    {
        let c = cs[i];
        proof {
            let t = cs@.subrange(i as int, cs@.len() as int);
            assert(t[0] == c);
            assert(t.drop_first() == cs@.subrange(i + 1, cs@.len() as int));
        }
        if mode == 0 {
            if c == '\u{1b}' {
                mode = 1;
            } else {
                proof {
                    let t = cs@.subrange(i + 1, cs@.len() as int);
                    assert(out@.push(c) + strip_ansi_from(t, 0) =~= out@ + (seq![c] + strip_ansi_from(t, 0)));
                }
                out.push(c);
            }
        } else if mode == 1 {
            if c == '[' {
                mode = 2;
            } else {
                mode = 0;
            }
        } else if ('a' <= c && c <= 'z') || ('A' <= c && c <= 'Z') {
            mode = 0;
        }
        i += 1;
    }
    assert(out@ + Seq::<char>::empty() =~= out@);
    string_of(&out)
}

/// Without an escape character, nothing is removed.
pub proof fn lemma_strip_ansi_plain(s: Seq<char>)
    requires
        !has_char(s, esc()),
    ensures
        strip_ansi(s) == s,
    decreases s.len(),
{
    if s.len() > 0 {
        let rest = s.drop_first();
        assert forall|i: int| 0 <= i < rest.len() implies rest[i] != esc() by {
            assert(rest[i] == s[i + 1]);
        }
        assert(s[0] != esc());
        lemma_strip_ansi_plain(rest);
        assert(seq![s[0]] + rest =~= s);
    }
}

/// The description shown after a command's key: its URL, cut to 57 characters and
/// `...` where it is longer than 60.
pub open spec fn shown_url(url: Seq<char>) -> Seq<char> {
    if url.len() > 60 {
        url.subrange(0, 57) + seq!['.', '.', '.']
    } else {
        url
    }
}

/// The tag shown after a shortcut's name.
pub open spec fn shortcut_tag() -> Seq<char> {
    seq!['[', 's', 'h', 'o', 'r', 't', 'c', 'u', 't', ']']
}

/// How an item is shown among the suggestions: its key, the arrow, then its URL or the
/// shortcut tag.
pub open spec fn suggestion_text(item: ListItem) -> Seq<char> {
    match item {
        ListItem::Command(c) => c.key@ + arrow() + shown_url(
            match c.url {
                Some(u) => u@,
                None => Seq::empty(),
            },
        ),
        ListItem::Shortcut(s) => s.name@ + arrow() + shortcut_tag(),
    }
}

/// The plain text a selected suggestion stands for: the part before the first arrow,
/// without escape sequences; text without an arrow is kept as it is.
pub open spec fn plain_selection(s: Seq<char>) -> Seq<char> {
    if contains_seq(s, arrow()) {
        let i = choose|i: int| occurs_at(s, arrow(), i) && forall|j: int| 0 <= j < i ==> !occurs_at(s, arrow(), j);
        strip_ansi(s.subrange(0, i))
    } else {
        s
    }
}

fn arrow_chars() -> (r: Vec<char>)
    ensures
        r@ == arrow(),
{
    proof {
        reveal_strlit(" \u{2192} ");
        assert(" \u{2192} "@ =~= arrow());
    }
    chars_of(" \u{2192} ")
}

/// Shows `item` as a suggestion.
pub fn format_suggestion(item: &ListItem) -> (r: String)
    ensures
        r@ == suggestion_text(*item),
{
    proof {
        reveal_strlit(" \u{2192} ");
        assert(" \u{2192} "@ =~= arrow());
        reveal_strlit("[shortcut]");
        assert("[shortcut]"@ =~= shortcut_tag());
        reveal_strlit("...");
        assert("..."@ =~= seq!['.', '.', '.']);
    }
    match item {
        ListItem::Command(c) => {
            let head = concat(c.key.as_str(), " \u{2192} ");
            let url = match &c.url {
                Some(u) => chars_of(u.as_str()),
                None => Vec::new(),
            };
            let shown = if url.len() > 60 {
                concat(string_of_range(&url, 0, 57).as_str(), "...")
            } else {
                string_of(&url)
            };
            assert(url@ == match c.url { Some(u) => u@, None => Seq::<char>::empty() });
            concat(head.as_str(), shown.as_str())
        },
        ListItem::Shortcut(s) => concat(concat(s.name.as_str(), " \u{2192} ").as_str(), "[shortcut]"),
    }
}

/// The plain text that a selected suggestion stands for.
pub fn strip_decoration(s: &str) -> (r: String)
    ensures
        r@ == plain_selection(s@),
{
    let cs = chars_of(s);
    match find_seq(&cs, &arrow_chars()) {
        Some(i) => {
            let head = string_of_range(&cs, 0, i);
            strip_ansi_codes(head.as_str())
        },
        None => String::from_str(s),
    }
}

/// What the prompt puts in the input once a suggestion is highlighted: the plain key
/// of that suggestion; with nothing highlighted, the input as typed.
pub fn get_completion(input: &str, highlighted: Option<&str>) -> (r: String)
    ensures
        match highlighted {
            Some(h) => contains_seq(h@, arrow()) ==> r@ == plain_selection(h@),
            None => r@ == input@,
        },
        (highlighted is None || !contains_seq(highlighted->0@, arrow())) ==> r@ == input@,
{
    if let Some(h) = highlighted {
        let hs = chars_of(h);
        if find_seq(&hs, &arrow_chars()).is_some() {
            return strip_decoration(h);
        }
    }
    String::from_str(input)
}

/// Showing an item as a suggestion and taking the plain text back gives the item's key
/// (a shortcut's name), for keys without an escape character in which the separator
/// ` → ` does not start (not even running on into the separator that follows the key).
pub proof fn law_suggestion_round_trip(item: ListItem)
    requires
        !contains_seq(item_key(item) + seq![' ', '\u{2192}'], arrow()),
        !has_char(item_key(item), esc()),
    ensures
        plain_selection(suggestion_text(item)) == item_key(item),
{
    let k = item_key(item);
    let s = suggestion_text(item);
    let tail = match item {
        ListItem::Command(c) => shown_url(
            match c.url {
                Some(u) => u@,
                None => Seq::empty(),
            },
        ),
        ListItem::Shortcut(_) => shortcut_tag(),
    };
    assert(s == k + arrow() + tail);
    let n = k.len() as int;
    assert(s.subrange(n, n + 3) =~= arrow());
    assert(occurs_at(s, arrow(), n));
    let kx = k + seq![' ', '\u{2192}'];
    assert(s.subrange(0, n + 2) =~= kx);
    assert forall|j: int| 0 <= j < n implies !occurs_at(s, arrow(), j) by {
        if occurs_at(s, arrow(), j) {
            assert(kx.subrange(j, j + 3) =~= s.subrange(j, j + 3));
            assert(occurs_at(kx, arrow(), j));
        }
    }
    let i = choose|i: int| occurs_at(s, arrow(), i) && forall|j: int| 0 <= j < i ==> !occurs_at(s, arrow(), j);
    if i < n {
    } else if i > n {
        assert(!occurs_at(s, arrow(), n));
    }
    assert(i == n);
    assert(s.subrange(0, n) =~= k);
    lemma_strip_ansi_plain(k);
}

/// The items whose lower-cased key contains `p`, in order.
pub open spec fn matching_items(ns: Seq<ListItem>, p: Seq<char>) -> Seq<ListItem>
    decreases ns.len(),
{
    if ns.len() == 0 {
        Seq::empty()
    } else {
        let prev = matching_items(ns.drop_last(), p);
        if contains_seq(lower_of(item_key(ns.last())), p) {
            prev.push(ns.last())
        } else {
            prev
        }
    }
}

/// The items offered for a partial input. Before a space, every item whose key contains
/// the typed text, ignoring case; after one, only the item whose key is the text
/// before the space, ignoring case, where there is one, else the same as before.
pub open spec fn suggested_items(ns: Seq<ListItem>, input: Seq<char>) -> Seq<ListItem> {
    let kw = lower_of(split_at_space(input).0);
    if has_char(input, ' ') {
        match first_index(lowered_keys(ns), kw) {
            Some(i) => seq![ns[i]],
            None => matching_items(ns, kw),
        }
    } else {
        matching_items(ns, kw)
    }
}

/// The suggestions shown for a partial input.
pub fn get_suggestions(options: &Vec<ListItem>, input: &str) -> (r: Vec<String>)
    ensures
        r@.len() == suggested_items(options@, input@).len(),
        forall|i: int| 0 <= i < r@.len() ==> (#[trigger] r@[i])@ == suggestion_text(suggested_items(options@, input@)[i]),
{
    let ghost lk = lowered_keys(options@);
    let (keyword, _) = crate::dispatch::split_input(input);
    let kw = chars_of(to_lower(keyword.as_str()).as_str());
    let mut keys: Vec<Vec<char>> = Vec::new();
    let mut i: usize = 0;
    while i < options.len()
        invariant
            lk == lowered_keys(options@),
            i <= options@.len(),
            keys@.len() == i,
            forall|m: int| 0 <= m < i ==> (#[trigger] keys@[m])@ == lk[m],
        decreases options@.len() - i,
    {
        keys.push(chars_of(to_lower(options[i].key().as_str()).as_str()));
        i += 1;
    }
    let has_space = find_char(&chars_of(input), ' ').is_some();
    proof { lemma_first_index(lk, kw@); }
    if has_space {
        proof { lemma_first_index(lk, kw@); }
        let mut j: usize = 0;
        while j < keys.len()
            invariant
                lk == lowered_keys(options@),
                keys@.len() == options@.len(),
                forall|m: int| 0 <= m < keys@.len() ==> (#[trigger] keys@[m])@ == lk[m],
                j <= keys@.len(),
                kw@ == lower_of(split_at_space(input@).0),
                has_char(input@, ' '),
                forall|m: int| 0 <= m < j ==> lk[m] != kw@,
            decreases keys@.len() - j,
        {
            if same_chars(&keys[j], &kw) {
                proof { lemma_first_index_of(lk, kw@, j as int); }
                let mut r: Vec<String> = Vec::new();
                r.push(format_suggestion(&options[j]));
                return r;
            }
            j += 1;
        }
    }
    let mut r: Vec<String> = Vec::new();
    let mut k: usize = 0;
    let ghost mut picked: Seq<ListItem> = Seq::empty();
    while k < options.len()
        invariant
            lk == lowered_keys(options@),
            keys@.len() == options@.len(),
            forall|m: int| 0 <= m < keys@.len() ==> (#[trigger] keys@[m])@ == lk[m],
            k <= options@.len(),
            kw@ == lower_of(split_at_space(input@).0),
            !has_space ==> !has_char(input@, ' '),
            has_space ==> has_char(input@, ' ') && first_index(lk, kw@) is None,
            picked == matching_items(options@.subrange(0, k as int), kw@),
            r@.len() == picked.len(),
            forall|m: int| 0 <= m < r@.len() ==> (#[trigger] r@[m])@ == suggestion_text(picked[m]),
        decreases options@.len() - k,
    {
        proof {
            assert(options@.subrange(0, k + 1).drop_last() == options@.subrange(0, k as int));
            assert(options@.subrange(0, k + 1).last() == options@[k as int]);
        }
        if contains(&keys[k], &kw) {
            r.push(format_suggestion(&options[k]));
            proof { picked = picked.push(options@[k as int]); }
        }
        k += 1;
    }
    assert(options@.subrange(0, options@.len() as int) == options@);
    r
}

/// The shapes an input goes through while it is typed.
#[derive(Clone, Copy, Debug, PartialEq, Eq)]
pub enum InputState {
    Empty,
    /// A keyword, no space yet.
    PrefixTyping,
    /// A space was typed: arguments follow the keyword.
    ArgsTyping,
    /// A file system path: a drive letter, or two separators at the start.
    PathBrowsing,
}

/// A path fragment: a drive letter and a colon, or a double separator at the start.
pub open spec fn looks_like_path(s: Seq<char>) -> bool {
    &&& s.len() >= 2
    &&& (is_ascii_letter(s[0]) && s[1] == ':') || (s[0] == '\\' && s[1] == '\\') || (s[0] == '/' && s[1] == '/')
}

pub open spec fn input_state(s: Seq<char>) -> InputState {
    if s.len() == 0 {
        InputState::Empty
    } else if looks_like_path(s) {
        InputState::PathBrowsing
    } else if has_char(s, ' ') {
        InputState::ArgsTyping
    } else {
        InputState::PrefixTyping
    }
}

/// Whether `s` is a path fragment.
pub fn is_path_input(s: &str) -> (r: bool)
    ensures
        r == looks_like_path(s@),
{
    let cs = chars_of(s);
    if cs.len() < 2 {
        return false;
    }
    let a = cs[0];
    let b = cs[1];
    (((a >= 'a' && a <= 'z') || (a >= 'A' && a <= 'Z')) && b == ':') || (a == '\\' && b == '\\') || (a == '/' && b == '/')
}

/// The shape of the input typed so far.
pub fn classify_input(s: &str) -> (r: InputState)
    ensures
        r == input_state(s@),
{
    if s.unicode_len() == 0 {
        InputState::Empty
    } else if is_path_input(s) {
        InputState::PathBrowsing
    } else if find_char(&chars_of(s), ' ').is_some() {
        InputState::ArgsTyping
    } else {
        InputState::PrefixTyping
    }
}

/// Acts on a submitted input: an existing path is launched directly, anything else
/// is resolved against the namespace. Whether the path exists is looked up by the caller.
pub fn submit_input(
    ns: &Vec<ListItem>,
    project: &Project,
    default_browser: &str,
    input: &str,
    path_exists: bool,
) -> (r: Result<Action, ResolveError>)
    ensures
        looks_like_path(input@) && path_exists ==> (r matches Ok(Action::LaunchPath { path }) && path@ == input@),
        !(looks_like_path(input@) && path_exists) ==> input_outcome(r, ns@, *project, default_browser@, input@),
{
    if path_exists && is_path_input(input) {
        Ok(Action::LaunchPath { path: String::from_str(input) })
    } else {
        resolve_input(ns, project, default_browser, input)
    }
}

} // verus!
