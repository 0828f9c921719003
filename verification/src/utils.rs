//! Bracket/quote auto-pairing policy: pure lookup functions consulted by
//! character insertion, character deletion, and line splitting.

use vstd::prelude::*;

verus! {

/// The closing delimiter that should be auto-inserted after typing `c`,
/// if `c` opens a pair. Quote characters pair with themselves.
pub open spec fn spec_closeable(c: char) -> Option<char> {
    match c {
        '{' => Some('}'),
        '(' => Some(')'),
        '[' => Some(']'),
        '\'' => Some('\''),
        '"' => Some('"'),
        '`' => Some('`'),
        _ => None,
    }
}

/// The opening delimiter matching a typed closer `c`, if `c` closes a pair.
pub open spec fn spec_openeable(c: char) -> Option<char> {
    match c {
        '}' => Some('{'),
        ')' => Some('('),
        ']' => Some('['),
        '\'' => Some('\''),
        '"' => Some('"'),
        '`' => Some('`'),
        _ => None,
    }
}

/// True only for the three bracket pairs; used to decide whether Enter
/// between the two characters opens an indented block.
pub open spec fn spec_braces(opening: char, closing: char) -> bool {
    (opening == '{' && closing == '}') || (opening == '[' && closing == ']') || (opening == '('
        && closing == ')')
}

/// True for bracket pairs and matched identical quote characters; used to
/// decide whether Backspace removes both sides of a pair at once.
pub open spec fn spec_pair(c1: char, c2: char) -> bool {
    spec_braces(c1, c2) || ((c1 == '\'' && c2 == '\'') || (c1 == '"' && c2 == '"') || (c1 == '`'
        && c2 == '`'))
}

pub fn closeable(c1: char) -> (r: Option<char>)
    ensures
        r == spec_closeable(c1),
{
    match c1 {
        '{' => Some('}'),
        '(' => Some(')'),
        '[' => Some(']'),
        '\'' => Some('\''),
        '"' => Some('"'),
        '`' => Some('`'),
        _ => None,
    }
}

pub fn openeable(c1: char) -> (r: Option<char>)
    ensures
        r == spec_openeable(c1),
{
    match c1 {
        '}' => Some('{'),
        ')' => Some('('),
        ']' => Some('['),
        '\'' => Some('\''),
        '"' => Some('"'),
        '`' => Some('`'),
        _ => None,
    }
}

pub fn braces(opening: char, closing: char) -> (r: bool)
    ensures
        r == spec_braces(opening, closing),
{
    match (opening, closing) {
        ('{', '}') => true,
        ('[', ']') => true,
        ('(', ')') => true,
        _ => false,
    }
}

pub fn pair(c1: char, c2: char) -> (r: bool)
    ensures
        r == spec_pair(c1, c2),
{
    if braces(c1, c2) {
        true
    } else {
        match (c1, c2) {
            ('\'', '\'') => true,
            ('"', '"') => true,
            ('`', '`') => true,
            _ => false,
        }
    }
}

} // verus!
