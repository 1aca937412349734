//! Web addresses: recognising one in a typed keyword, completing its scheme, and
//! appending arguments to a command's URL.
use vstd::prelude::*;
use crate::text::{chars_of, concat, has_char, find_char, is_prefix_of, starts_with};

verus! {

pub open spec fn http_scheme() -> Seq<char> {
    seq!['h', 't', 't', 'p', ':', '/', '/']
}

pub open spec fn https_scheme() -> Seq<char> {
    seq!['h', 't', 't', 'p', 's', ':', '/', '/']
}

pub open spec fn www_prefix() -> Seq<char> {
    seq!['w', 'w', 'w', '.']
}

pub open spec fn http_word() -> Seq<char> {
    seq!['h', 't', 't', 'p']
}

/// A keyword that looks like a web address: it starts with a scheme or `www.`, or it
/// has a dot, no space, and does not end in a dot.
pub open spec fn looks_like_url(s: Seq<char>) -> bool {
    ||| is_prefix_of(http_scheme(), s)
    ||| is_prefix_of(https_scheme(), s)
    ||| is_prefix_of(www_prefix(), s)
    ||| (has_char(s, '.') && !has_char(s, ' ') && s[s.len() - 1] != '.')
}

/// A keyword made into an address: kept where it has a scheme, else `https://` is put
/// before it.
pub open spec fn url_for_keyword(s: Seq<char>) -> Seq<char> {
    if is_prefix_of(http_scheme(), s) || is_prefix_of(https_scheme(), s) {
        s
    } else {
        https_scheme() + s
    }
}

/// What `urlencoding::encode` returns for a string.
pub uninterp spec fn url_encoded(s: Seq<char>) -> Seq<char>;

/// Characters that percent-encoding leaves as they are.
pub open spec fn is_unreserved(c: char) -> bool {
    ('a' <= c <= 'z') || ('A' <= c <= 'Z') || ('0' <= c <= '9') || c == '-' || c == '_' || c == '.' || c == '~'
}

/// An upper-case hexadecimal digit.
pub open spec fn hex_digit(d: int) -> char {
    seq!['0', '1', '2', '3', '4', '5', '6', '7', '8', '9', 'A', 'B', 'C', 'D', 'E', 'F'][d]
}

/// One ASCII character percent-encoded: kept where unreserved, else `%` and two digits.
pub open spec fn percent_char(c: char) -> Seq<char> {
    if is_unreserved(c) {
        seq![c]
    } else {
        seq!['%', hex_digit((c as u32 as int) / 16), hex_digit((c as u32 as int) % 16)]
    }
}

/// An ASCII string percent-encoded character by character.
pub open spec fn percent_ascii(s: Seq<char>) -> Seq<char>
    decreases s.len(),
{
    if s.len() == 0 {
        Seq::empty()
    } else {
        percent_char(s[0]) + percent_ascii(s.drop_first())
    }
}

/// Relies on `urlencoding::encode`: percent-encodes every byte but ASCII alphanumerics
/// and `-`, `_`, `.`, `~`, with upper-case hexadecimal digits; on ASCII text each
/// character is one byte.
#[verifier::external_body]
fn encode_component(s: &str) -> (r: String)
    ensures
        r@ == url_encoded(s@),
        (forall|i: int| 0 <= i < s@.len() ==> (#[trigger] s@[i] as u32) < 128) ==> r@ == percent_ascii(s@),
{
    urlencoding::encode(s).into_owned()
}

/// Every character of `s` is ASCII.
pub open spec fn is_ascii_text(s: Seq<char>) -> bool {
    forall|i: int| 0 <= i < s.len() ==> (#[trigger] s[i] as u32) < 128
}

/// `s` percent-encoded: spelled out on ASCII text, named otherwise.
pub open spec fn percent_encoded(s: Seq<char>) -> Seq<char> {
    if is_ascii_text(s) {
        percent_ascii(s)
    } else {
        url_encoded(s)
    }
}

/// A command's URL with the user's arguments after it: encoded where the command asks
/// for it, as typed otherwise; empty or missing arguments add nothing.
pub open spec fn url_with_args_spec(url: Seq<char>, args: Option<Seq<char>>, encode: bool) -> Seq<char> {
    match args {
        Some(a) => if a.len() == 0 {
            url
        } else if encode {
            url + percent_encoded(a)
        } else {
            url + a
        },
        None => url,
    }
}

fn literal_chars(s: &str) -> (r: Vec<char>)
    ensures
        r@ == s@,
{
    chars_of(s)
}

/// Whether `s` looks like a web address.
pub fn is_url(s: &str) -> (r: bool)
    ensures
        r == looks_like_url(s@),
{
    proof {
        reveal_strlit("http://");
        reveal_strlit("https://");
        reveal_strlit("www.");
        assert("http://"@ =~= http_scheme());
        assert("https://"@ =~= https_scheme());
        assert("www."@ =~= www_prefix());
    }
    let cs = chars_of(s);
    if starts_with(&cs, &literal_chars("http://")) || starts_with(&cs, &literal_chars("https://"))
        || starts_with(&cs, &literal_chars("www.")) {
        return true;
    }
    find_char(&cs, '.').is_some() && find_char(&cs, ' ').is_none() && cs[cs.len() - 1] != '.'
}

/// Whether `s` starts with `http`: such a command is opened in a browser, any other
/// is run as a shell command.
pub fn is_web_command(s: &str) -> (r: bool)
    ensures
        r == is_prefix_of(http_word(), s@),
{
    proof {
        reveal_strlit("http");
        assert("http"@ =~= http_word());
    }
    starts_with(&chars_of(s), &literal_chars("http"))
}

/// The address that a keyword stands for.
pub fn url_for(s: &str) -> (r: String)
    ensures
        r@ == url_for_keyword(s@),
{
    proof {
        reveal_strlit("http://");
        reveal_strlit("https://");
        assert("http://"@ =~= http_scheme());
        assert("https://"@ =~= https_scheme());
    }
    let cs = chars_of(s);
    if starts_with(&cs, &literal_chars("http://")) || starts_with(&cs, &literal_chars("https://")) {
        String::from_str(s)
    } else {
        concat("https://", s)
    }
}

/// A command's URL with the user's arguments after it.
pub fn url_with_args(url: &str, args: Option<&str>, encode: bool) -> (r: String)
    ensures
        r@ == url_with_args_spec(url@, match args { Some(a) => Some(a@), None => None }, encode),
{
    match args {
        Some(a) => {
            if a.unicode_len() == 0 {
                String::from_str(url)
            } else if encode {
                concat(url, encode_component(a).as_str())
            } else {
                concat(url, a)
            }
        },
        None => String::from_str(url),
    }
}

} // verus!
