use vstd::prelude::*;
use vstd::string::*;

verus! {

/// ASCII letters.
pub open spec fn alphabetical(c: char) -> bool {
    ('a' <= c && c <= 'z') || ('A' <= c && c <= 'Z')
}

/// ASCII digits and the digit-group separator `_`.
pub open spec fn integral(c: char) -> bool {
    ('0' <= c && c <= '9') || c == '_'
}

pub open spec fn numeric(c: char) -> bool {
    integral(c) || c == '.'
}

pub open spec fn alphanumeric(c: char) -> bool {
    alphabetical(c) || integral(c)
}

/// The escape table: the character that `\` followed by `c` stands for.
pub open spec fn escape_target(c: char) -> Option<char> {
    if c == 'n' {
        Some('\n')
    } else {
        None
    }
}

/// What a two-character escape sequence `t` stands for, if it is one.
pub open spec fn escape_of(t: Seq<char>) -> Option<char> {
    if t.len() == 2 && t[0] == '\\' {
        escape_target(t[1])
    } else {
        None
    }
}

pub fn is_alphabetical(ch: char) -> (r: bool)
    ensures
        r == alphabetical(ch),
{
    ('a' <= ch && ch <= 'z') || ('A' <= ch && ch <= 'Z')
}

pub fn is_integral(ch: char) -> (r: bool)
    ensures
        r == integral(ch),
{
    ('0' <= ch && ch <= '9') || ch == '_'
}

pub fn is_numeric(ch: char) -> (r: bool)
    ensures
        r == numeric(ch),
{
    is_integral(ch) || ch == '.'
}

pub fn is_alphanumeric(ch: char) -> (r: bool)
    ensures
        r == alphanumeric(ch),
{
    is_alphabetical(ch) || is_integral(ch)
}

/// Looks `c` up in the escape table.
pub fn escape_for(c: char) -> (r: Option<char>)
    ensures
        r == escape_target(c),
{
    if c == 'n' {
        Some('\n')
    } else {
        None
    }
}

fn escape_of_str(s: &str) -> (r: Option<char>)
    ensures
        r == escape_of(s@),
{
    if s.unicode_len() == 2 && s.get_char(0) == '\\' {
        escape_for(s.get_char(1))
    } else {
        None
    }
}

/// Whether `str` is a two-character escape sequence of the table.
pub fn is_escape_char(str: &str) -> (r: bool)
    ensures
        r == escape_of(str@).is_some(),
{
    escape_of_str(str).is_some()
}

/// The character that the escape sequence `str` stands for; `None` when
/// `str` is absent or no sequence of the table.
pub fn try_escape_char(str: Option<&str>) -> (r: Option<char>)
    ensures
        r == (match str {
            Some(s) => escape_of(s@),
            None => None,
        }),
{
    match str {
        Some(s) => escape_of_str(s),
        None => None,
    }
}

} // verus!
