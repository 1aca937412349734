//! The command lines that carry out an action on each platform: opening a browser,
//! running a shell command, opening a path.
use vstd::prelude::*;
use crate::dispatch::Action;
use crate::shortcuts::Platform;
use crate::text::{concat, is_white_space, lower_of, to_lower};

verus! {

/// A program and its arguments.
#[derive(Clone, Debug, PartialEq, Eq)]
pub struct Invocation {
    pub program: String,
    pub args: Vec<String>,
}

/// The words of `s` after the word `cur` begun so far: maximal runs of characters
/// that are not white space.
pub open spec fn words_from(s: Seq<char>, cur: Seq<char>) -> Seq<Seq<char>>
    decreases s.len(),
{
    if s.len() == 0 {
        if cur.len() > 0 { seq![cur] } else { Seq::empty() }
    } else if is_white_space(s[0]) {
        (if cur.len() > 0 { seq![cur] } else { Seq::empty() }) + words_from(s.drop_first(), Seq::empty())
    } else {
        words_from(s.drop_first(), cur.push(s[0]))
    }
}

/// The words of `s`: its maximal runs of characters that are not white space.
pub open spec fn words_of(s: Seq<char>) -> Seq<Seq<char>> {
    words_from(s, Seq::empty())
}

/// Relies on `str::split_whitespace`: yields the maximal runs of characters that are
/// not white space (Unicode White_Space), in order.
#[verifier::external_body]
fn split_words(s: &str) -> (r: Vec<String>)
    ensures
        r@.map_values(|w: String| w@) == words_of(s@),
{
    s.split_whitespace().map(|w| w.to_string()).collect()
}

/// Words joined by single spaces.
pub open spec fn join_words(ws: Seq<Seq<char>>) -> Seq<char>
    decreases ws.len(),
{
    if ws.len() == 0 {
        Seq::empty()
    } else if ws.len() == 1 {
        ws[0]
    } else {
        join_words(ws.drop_last()) + seq![' '] + ws.last()
    }
}

/// The views of a list of arguments.
pub open spec fn arg_views(args: Seq<String>) -> Seq<Seq<char>> {
    args.map_values(|a: String| a@)
}

/// Whether the browser setting asks for the system's own browser.
pub open spec fn is_system_browser(browser: Seq<char>) -> bool {
    lower_of(browser) == "default"@
}

/// The PowerShell script that opens `url` in `browser` on Windows. A browser setting
/// of several words is a program and its arguments.
pub open spec fn windows_open_script(browser: Seq<char>, url: Seq<char>) -> Seq<char> {
    let words = words_of(browser);
    if is_system_browser(browser) {
        "Set-Location C:\\; Start-Process '"@ + url + "'"@
    } else if words.len() > 1 {
        "Set-Location C:\\; Start-Process '"@ + words[0] + "' '"@ + join_words(words.subrange(1, words.len() as int))
            + seq![' '] + url + "'"@
    } else {
        "Set-Location C:\\; Start-Process '"@ + browser + "' '"@ + url + "'"@
    }
}

/// The program and arguments that open `url` in `browser` on `platform`.
pub open spec fn browser_invocation(platform: Platform, browser: Seq<char>, url: Seq<char>) -> (Seq<char>, Seq<Seq<char>>) {
    let words = words_of(browser);
    match platform {
        Platform::Windows => ("powershell"@, seq!["-Command"@, windows_open_script(browser, url)]),
        Platform::MacOs => if is_system_browser(browser) {
            ("open"@, seq![url])
        } else if words.len() > 1 {
            ("open"@, seq!["-a"@, words[0], "--args"@] + words.subrange(1, words.len() as int) + seq![url])
        } else {
            ("open"@, seq!["-a"@, browser, url])
        },
        Platform::Other => if is_system_browser(browser) {
            ("xdg-open"@, seq![url])
        } else if words.len() > 1 {
            (words[0], words.subrange(1, words.len() as int) + seq![url])
        } else {
            (browser, seq![url])
        },
    }
}

/// The program and arguments that run a shell command on `platform`: PowerShell takes
/// the arguments separately, `sh` takes one command line.
pub open spec fn shell_invocation(platform: Platform, command: Seq<char>, args: Option<Seq<char>>) -> (Seq<char>, Seq<Seq<char>>) {
    let extra = match args {
        Some(a) => a.len() > 0,
        None => false,
    };
    match platform {
        Platform::Windows => ("powershell"@, if extra {
            seq!["-Command"@, command, args->0]
        } else {
            seq!["-Command"@, command]
        }),
        _ => ("sh"@, seq!["-c"@, if extra { command + seq![' '] + args->0 } else { command }]),
    }
}

/// The program and arguments that open a file or application on `platform`.
pub open spec fn path_invocation(platform: Platform, path: Seq<char>) -> (Seq<char>, Seq<Seq<char>>) {
    match platform {
        Platform::Windows => ("powershell"@, seq!["-Command"@, "Start-Process '"@ + path + "'"@]),
        Platform::MacOs => ("open"@, seq![path]),
        Platform::Other => ("xdg-open"@, seq![path]),
    }
}

/// What carrying out `action` runs on `platform`.
pub open spec fn action_invocation(platform: Platform, action: Action) -> (Seq<char>, Seq<Seq<char>>) {
    match action {
        Action::OpenUrl { url, browser } => browser_invocation(platform, browser@, url@),
        Action::RunCommand { command, args } => shell_invocation(
            platform,
            command@,
            match args {
                Some(a) => Some(a@),
                None => None,
            },
        ),
        Action::LaunchPath { path } => path_invocation(platform, path@),
    }
}

fn text(s: &str) -> (r: String)
    ensures
        r@ == s@,
{
    String::from_str(s)
}

/// `words[from..]` joined by single spaces.
fn join_from(words: &Vec<String>, from: usize) -> (r: String)
    requires
        from < words@.len(),
    ensures
        r@ == join_words(arg_views(words@).subrange(from as int, words@.len() as int)),
{
    let ghost ws = arg_views(words@);
    let n = words.len();
    assert(from < n);
    let mut r = words[from].clone();
    let mut i: usize = from + 1;
    proof {
        assert(ws.subrange(from as int, i as int) =~= seq![ws[from as int]]);
    }
    while i < words.len()
        invariant
            ws == arg_views(words@),
            from < i <= words@.len(),
            r@ == join_words(ws.subrange(from as int, i as int)),
        decreases words@.len() - i,
    {
        let spaced = concat(r.as_str(), " ");
        r = concat(spaced.as_str(), words[i].as_str());
        proof {
            reveal_strlit(" ");
            let next = ws.subrange(from as int, i + 1);
            assert(next.drop_last() =~= ws.subrange(from as int, i as int));
            assert(next.last() == words@[i as int]@);
        }
        i += 1;
    }
    r
}

/// The arguments `words[from..]` followed by `last`.
fn words_then(words: &Vec<String>, from: usize, last: String) -> (r: Vec<String>)
    requires
        from <= words@.len(),
    ensures
        arg_views(r@) == arg_views(words@).subrange(from as int, words@.len() as int) + seq![last@],
{
    let mut r: Vec<String> = Vec::new();
    let mut i: usize = from;
    while i < words.len()
        invariant
            from <= i <= words@.len(),
            arg_views(r@) == arg_views(words@).subrange(from as int, i as int),
        decreases words@.len() - i,
    {
        let ghost before = r@;
        r.push(words[i].clone());
        assert(arg_views(r@) =~= arg_views(before).push(words@[i as int]@));
        i += 1;
        assert(arg_views(r@) =~= arg_views(words@).subrange(from as int, i as int));
    }
    let ghost before = r@;
    r.push(last);
    assert(arg_views(r@) =~= arg_views(before) + seq![last@]);
    r
}

/// The command line that opens `url` in `browser`.
pub fn browser_command(platform: Platform, browser: &str, url: &str) -> (r: Invocation)
    ensures
        (r.program@, arg_views(r.args@)) == browser_invocation(platform, browser@, url@),
{
    let words = split_words(browser);
    let ghost ws = words_of(browser@);
    assert(arg_views(words@) == ws);
    let lowered = to_lower(browser);
    let system = lowered == text("default");
    match platform {
        Platform::Windows => {
            let start = "Set-Location C:\\; Start-Process '";
            let script = if system {
                concat(concat(start, url).as_str(), "'")
            } else if words.len() > 1 {
                let head = concat(concat(start, words[0].as_str()).as_str(), "' '");
                let rest = join_from(&words, 1);
                let with_rest = concat(concat(head.as_str(), rest.as_str()).as_str(), " ");
                proof { reveal_strlit(" "); }
                concat(concat(with_rest.as_str(), url).as_str(), "'")
            } else {
                let head = concat(concat(start, browser).as_str(), "' '");
                concat(concat(head.as_str(), url).as_str(), "'")
            };
            assert(script@ == windows_open_script(browser@, url@));
            let r = Invocation { program: text("powershell"), args: vec![text("-Command"), script] };
            assert(arg_views(r.args@) =~= seq!["-Command"@, windows_open_script(browser@, url@)]);
            r
        },
        Platform::MacOs => {
            if system {
                let r = Invocation { program: text("open"), args: vec![text(url)] };
                assert(arg_views(r.args@) =~= seq![url@]);
                r
            } else if words.len() > 1 {
                let mut args = vec![text("-a"), words[0].clone(), text("--args")];
                let ghost head = arg_views(args@);
                assert(head =~= seq!["-a"@, ws[0], "--args"@]);
                let mut tail = words_then(&words, 1, text(url));
                args.append(&mut tail);
                assert(arg_views(args@) =~= head + (ws.subrange(1, ws.len() as int) + seq![url@]));
                Invocation { program: text("open"), args }
            } else {
                let r = Invocation { program: text("open"), args: vec![text("-a"), text(browser), text(url)] };
                assert(arg_views(r.args@) =~= seq!["-a"@, browser@, url@]);
                r
            }
        },
        Platform::Other => {
            if system {
                let r = Invocation { program: text("xdg-open"), args: vec![text(url)] };
                assert(arg_views(r.args@) =~= seq![url@]);
                r
            } else if words.len() > 1 {
                Invocation { program: words[0].clone(), args: words_then(&words, 1, text(url)) }
            } else {
                let r = Invocation { program: text(browser), args: vec![text(url)] };
                assert(arg_views(r.args@) =~= seq![url@]);
                r
            }
        },
    }
}

/// The command line that runs `command` with `args` in a shell.
pub fn shell_command(platform: Platform, command: &str, args: Option<&str>) -> (r: Invocation)
    ensures
        (r.program@, arg_views(r.args@)) == shell_invocation(platform, command@, match args {
            Some(a) => Some(a@),
            None => None,
        }),
{
    let extra: Option<&str> = match args {
        Some(a) => if a.unicode_len() > 0 { Some(a) } else { None },
        None => None,
    };
    match platform {
        Platform::Windows => {
            match extra {
                Some(a) => {
                    let r = Invocation { program: text("powershell"), args: vec![text("-Command"), text(command), text(a)] };
                    assert(arg_views(r.args@) =~= seq!["-Command"@, command@, a@]);
                    r
                },
                None => {
                    let r = Invocation { program: text("powershell"), args: vec![text("-Command"), text(command)] };
                    assert(arg_views(r.args@) =~= seq!["-Command"@, command@]);
                    r
                },
            }
        },
        _ => {
            match extra {
                Some(a) => {
                    proof {
                        reveal_strlit(" ");
                        assert(" "@ =~= seq![' ']);
                    }
                    let line = concat(concat(command, " ").as_str(), a);
                    let r = Invocation { program: text("sh"), args: vec![text("-c"), line] };
                    assert(arg_views(r.args@) =~= seq!["-c"@, command@ + seq![' '] + a@]);
                    r
                },
                None => {
                    let r = Invocation { program: text("sh"), args: vec![text("-c"), text(command)] };
                    assert(arg_views(r.args@) =~= seq!["-c"@, command@]);
                    r
                },
            }
        },
    }
}

/// The command line that opens a file or application.
pub fn path_command(platform: Platform, path: &str) -> (r: Invocation)
    ensures
        (r.program@, arg_views(r.args@)) == path_invocation(platform, path@),
{
    let r = match platform {
        Platform::Windows => Invocation {
            program: text("powershell"),
            args: vec![text("-Command"), concat(concat("Start-Process '", path).as_str(), "'")],
        },
        Platform::MacOs => Invocation { program: text("open"), args: vec![text(path)] },
        Platform::Other => Invocation { program: text("xdg-open"), args: vec![text(path)] },
    };
    assert(arg_views(r.args@) =~= path_invocation(platform, path@).1);
    r
}

/// The command line that carries out `action`.
pub fn invocation_for(platform: Platform, action: &Action) -> (r: Invocation)
    ensures
        (r.program@, arg_views(r.args@)) == action_invocation(platform, *action),
{
    match action {
        Action::OpenUrl { url, browser } => browser_command(platform, browser.as_str(), url.as_str()),
        Action::RunCommand { command, args } => {
            let a = match args {
                Some(a) => Some(a.as_str()),
                None => None,
            };
            shell_command(platform, command.as_str(), a)
        },
        Action::LaunchPath { path } => path_command(platform, path.as_str()),
    }
}

} // verus!
