//! The operating systems that the helper runs on, and how paths are put
//! together on each.

use vstd::prelude::*;
use vstd::string::StringExecFns;

verus! {

/// A supported operating system. What differs between them is data: tables of
/// directories and process names that take a `Platform`.
#[derive(Clone, Copy, Debug, PartialEq, Eq, Structural)]
pub enum Platform {
    MacOs,
    Windows,
    Linux,
}

/// The sequences of characters of a list of strings.
pub open spec fn texts(strings: Seq<String>) -> Seq<Seq<char>> {
    strings.map_values(|s: String| s@)
}

/// The text that separates a directory from what lies in it.
pub open spec fn separator_text(platform: Platform) -> Seq<char> {
    match platform {
        Platform::Windows => "\\"@,
        _ => "/"@,
    }
}

/// Whether a path ends in a separator: a slash, or on Windows a backslash as
/// well.
pub open spec fn ends_in_separator(platform: Platform, path: Seq<char>) -> bool {
    path.len() > 0 && (path.last() == '/' || (platform == Platform::Windows && path.last()
        == '\\'))
}

/// `child` inside the directory `base`, as `std::path::Path::join` puts a
/// relative `child` behind `base`: with a separator between the two, unless
/// `base` is empty or ends in one already. `child` is always taken as relative,
/// and a `base` that is a bare drive letter is treated like any other.
pub open spec fn joined(platform: Platform, base: Seq<char>, child: Seq<char>) -> Seq<char> {
    if base.len() == 0 || ends_in_separator(platform, base) {
        base + child
    } else {
        base + separator_text(platform) + child
    }
}

/// The text that separates a directory from what lies in it.
pub fn separator(platform: Platform) -> (sep: &'static str)
    ensures
        sep@ == separator_text(platform),
{
    match platform {
        Platform::Windows => "\\",
        _ => "/",
    }
}

/// Whether a path ends in a separator.
pub fn has_trailing_separator(platform: Platform, path: &str) -> (yes: bool)
    ensures
        yes == ends_in_separator(platform, path@),
{
    let len: usize = path.unicode_len();
    if len == 0 {
        return false;
    }
    let last = path.get_char(len - 1);
    match platform {
        Platform::Windows => last == '/' || last == '\\',
        _ => last == '/',
    }
}

/// The path of `child` inside the directory `base`.
pub fn join_path(platform: Platform, base: &str, child: &str) -> (path: String)
    ensures
        path@ == joined(platform, base@, child@),
{
    let mut path = base.to_owned();
    if base.unicode_len() > 0 && !has_trailing_separator(platform, base) {
        path.append(separator(platform));
    }
    path.append(child);
    path
}

/// Two texts put one after the other.
pub fn concat_text(head: &str, tail: &str) -> (text: String)
    ensures
        text@ == head@ + tail@,
{
    let mut text = head.to_owned();
    text.append(tail);
    text
}

/// Whether `text` begins with `prefix`.
pub fn starts_with(text: &str, prefix: &str) -> (yes: bool)
    ensures
        yes == prefix@.is_prefix_of(text@),
{
    let n: usize = prefix.unicode_len();
    if text.unicode_len() < n {
        return false;
    }
    let mut i: usize = 0;
    while i < n
        invariant
            i <= n,
            n == prefix@.len(),
            n <= text@.len(),
            forall|j: int| 0 <= j < i ==> text@[j] == prefix@[j],
        decreases n - i,
    {
        if text.get_char(i) != prefix.get_char(i) {
            assert(text@.subrange(0, n as int)[i as int] != prefix@[i as int]);
            return false;
        }
        i += 1;
    }
    assert(prefix@ =~= text@.subrange(0, n as int));
    true
}

/// Whether `text` ends with `suffix`.
pub fn ends_with(text: &str, suffix: &str) -> (yes: bool)
    ensures
        yes == suffix@.is_suffix_of(text@),
{
    let n: usize = suffix.unicode_len();
    let len: usize = text.unicode_len();
    if len < n {
        return false;
    }
    let start: usize = len - n;
    let mut i: usize = 0;
    while i < n
        invariant
            i <= n,
            n == suffix@.len(),
            len == text@.len(),
            start + n == len,
            forall|j: int| 0 <= j < i ==> text@[start + j] == suffix@[j],
        decreases n - i,
    {
        if text.get_char(start + i) != suffix.get_char(i) {
            assert(text@.subrange(start as int, len as int)[i as int] != suffix@[i as int]);
            return false;
        }
        i += 1;
    }
    assert(suffix@ =~= text@.subrange(start as int, len as int));
    true
}

/// The lower-case form of an ASCII capital letter; any other character as it
/// is.
pub open spec fn ascii_lower_of(c: char) -> char {
    if 'A' <= c <= 'Z' {
        ((c as u8) + 32) as char
    } else {
        c
    }
}

/// Whether two texts are the same but for the case of their ASCII letters.
pub open spec fn same_but_for_ascii_case(a: Seq<char>, b: Seq<char>) -> bool {
    a.len() == b.len() && forall|i: int|
        0 <= i < a.len() ==> ascii_lower_of(#[trigger] a[i]) == ascii_lower_of(b[i])
}

/// The lower-case form of an ASCII capital letter; any other character as it
/// is.
pub fn ascii_lower(c: char) -> (lower: char)
    ensures
        lower == ascii_lower_of(c),
{
    if 'A' <= c && c <= 'Z' {
        ((c as u8) + 32) as char
    } else {
        c
    }
}

/// Whether two texts are the same but for the case of their ASCII letters.
pub fn same_text_ignoring_ascii_case(a: &str, b: &str) -> (yes: bool)
    ensures
        yes == same_but_for_ascii_case(a@, b@),
{
    let n: usize = a.unicode_len();
    if b.unicode_len() != n {
        return false;
    }
    let mut i: usize = 0;
    while i < n
        invariant
            i <= n,
            n == a@.len(),
            n == b@.len(),
            forall|j: int| 0 <= j < i ==> ascii_lower_of(#[trigger] a@[j]) == ascii_lower_of(b@[j]),
        decreases n - i,
    {
        if ascii_lower(a.get_char(i)) != ascii_lower(b.get_char(i)) {
            return false;
        }
        i += 1;
    }
    true
}

/// Whether two texts are the same.
pub fn same_text(a: &str, b: &str) -> (yes: bool)
    ensures
        yes == (a@ == b@),
{
    a.to_owned() == b.to_owned()
}

} // verus!
