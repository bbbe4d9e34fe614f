//! Helpers shared by the commands: path-template parameters, duplicate
//! detection and `key=value` parsing.

use vstd::prelude::*;
use crate::text::{from_char_range, to_chars, views};

verus! {

/// The pattern that a path-template parameter such as `{id}` matches.
pub const TEMPLATE_PARAMETER_PATTERN: &'static str = "\\{([A-Za-z0-9]|_|-)+}";

/// A character of the pattern's class `[A-Za-z0-9]|_|-`: an ASCII letter,
/// an ASCII digit, `_` or `-`.
pub open spec fn is_parameter_char(c: char) -> bool {
    ('A' <= c && c <= 'Z') || ('a' <= c && c <= 'z') || ('0' <= c && c <= '9') || c == '_' || c == '-'
}

/// The number of characters of the pattern's class in a row from position `j`.
pub open spec fn parameter_run(h: Seq<char>, j: int) -> nat
    decreases h.len() - j,
{
    if 0 <= j < h.len() && is_parameter_char(h[j]) {
        1 + parameter_run(h, j + 1)
    } else {
        0
    }
}

/// The length of the match of the template pattern that starts at position
/// `i`, if one does: a `{`, one or more characters of the class, and a `}`.
/// (The class holds neither brace, so the run of class characters after the
/// `{` must be followed by the `}` directly.)
pub open spec fn template_match_len(h: Seq<char>, i: int) -> Option<nat> {
    let n = parameter_run(h, i + 1);
    if 0 <= i && i + n + 1 < h.len() && h[i] == '{' && n > 0 && h[i + n + 1] == '}' {
        Some(n + 2)
    } else {
        None
    }
}

/// The successive non-overlapping matches of the template pattern from
/// position `i` on, each the leftmost one after the previous.
pub open spec fn template_matches_from(h: Seq<char>, i: int) -> Seq<Seq<char>>
    decreases h.len() - i,
{
    if i < 0 || i >= h.len() {
        Seq::empty()
    } else {
        match template_match_len(h, i) {
            Some(l) => seq![h.subrange(i, i + l)] + template_matches_from(h, i + l),
            None => template_matches_from(h, i + 1),
        }
    }
}

/// The matches of the template pattern in `h`, in order.
pub open spec fn template_matches(h: Seq<char>) -> Seq<Seq<char>> {
    template_matches_from(h, 0)
}

/// Calls `regex::Regex::new` on the template pattern and `Regex::find_iter` on
/// the haystack, handing back each match's text. The contract claims what the
/// regex crate documents for this pattern (which always compiles): the
/// leftmost-first, non-overlapping matches, scanning from the start, of a `{`,
/// one or more characters of the class, and a `}`.
#[verifier::external_body]
fn find_template_matches(pattern: &str, haystack: &str) -> (r: Vec<String>)
    requires
        pattern@ == TEMPLATE_PARAMETER_PATTERN@,
    ensures
        views(r@) == template_matches(haystack@),
{
    match regex::Regex::new(pattern) {
        Ok(re) => re.find_iter(haystack).map(|m| m.as_str().to_string()).collect(),
        Err(_) => Vec::new(),
    }
}

/// A match of a template parameter without its first and last character
/// (the braces).
pub open spec fn strip_braces(m: Seq<char>) -> Seq<char> {
    if m.len() >= 2 { m.subrange(1, m.len() - 1) } else { Seq::empty() }
}

/// The parameter names that the matches of the template pattern in a path
/// give, in order.
pub open spec fn params_of_matches(matches: Seq<Seq<char>>) -> Seq<Seq<char>> {
    matches.map_values(|m: Seq<char>| strip_braces(m))
}

/// The parameter names of a path template, in the order they occur.
pub open spec fn path_params(path: Seq<char>) -> Seq<Seq<char>> {
    params_of_matches(template_matches(path))
}

/// The parameter names that the given matches of `{name}` stand for: each
/// match without its braces.
pub fn params_from_matches(matches: &Vec<String>) -> (r: Vec<String>)
    ensures
        views(r@) == params_of_matches(views(matches@)),
{
    let mut r: Vec<String> = Vec::new();
    let mut i: usize = 0;
    while i < matches.len()
        invariant
            i <= matches@.len(),
            views(r@) == params_of_matches(views(matches@)).take(i as int),
        decreases matches@.len() - i,
    {
        let v = to_chars(matches[i].as_str());
        let name = if v.len() >= 2 {
            from_char_range(&v, 1, v.len() - 1)
        } else {
            String::new()
        };
        let ghost prev = r@;
        r.push(name);
        assert(views(r@) =~= views(prev).push(name@));
        assert(params_of_matches(views(matches@)).take(i + 1) =~= params_of_matches(
            views(matches@),
        ).take(i as int).push(strip_braces(matches@[i as int]@)));
        i = i + 1;
    }
    assert(params_of_matches(views(matches@)).take(matches@.len() as int) =~= params_of_matches(
        views(matches@),
    ));
    r
}

/// The names of the `{name}` parameters in a path template, in order.
pub fn get_params_from_path(path: &str) -> (r: Vec<String>)
    ensures
        views(r@) == path_params(path@),
{
    let matches = find_template_matches(TEMPLATE_PARAMETER_PATTERN, path);
    params_from_matches(&matches)
}

/// The values that occur more than once in `s`, each once, in the order in
/// which they are seen again.
pub open spec fn duplicates_of(s: Seq<Seq<char>>) -> Seq<Seq<char>>
    decreases s.len(),
{
    if s.len() == 0 {
        Seq::empty()
    } else {
        let d = duplicates_of(s.drop_last());
        if s.drop_last().contains(s.last()) && !d.contains(s.last()) {
            d.push(s.last())
        } else {
            d
        }
    }
}

fn contains_string(v: &Vec<String>, upto: usize, x: &String) -> (r: bool)
    requires
        upto <= v@.len(),
    ensures
        r == views(v@).take(upto as int).contains(x@),
{
    let mut i: usize = 0;
    while i < upto
        invariant
            upto <= v@.len(),
            i <= upto,
            forall|j: int| 0 <= j < i ==> v@[j]@ != x@,
        decreases upto - i,
    {
        if v[i] == *x {
            assert(views(v@).take(upto as int)[i as int] == x@);
            return true;
        }
        i = i + 1;
    }
    assert forall|j: int| 0 <= j < upto implies views(v@).take(upto as int)[j] != x@ by {
        assert(v@[j]@ != x@);
    }
    false
}

/// The values that occur more than once in `vec`, each listed once.
pub fn get_duplicates_from_vec(vec: Vec<String>) -> (r: Vec<String>)
    ensures
        views(r@) == duplicates_of(views(vec@)),
{
    let ghost s = views(vec@);
    let mut dups: Vec<String> = Vec::new();
    let mut i: usize = 0;
    while i < vec.len()
        invariant
            s == views(vec@),
            i <= vec@.len(),
            views(dups@) == duplicates_of(s.take(i as int)),
        decreases vec@.len() - i,
    {
        assert(s.take(i + 1).drop_last() =~= s.take(i as int));
        assert(s.take(i + 1).last() == vec@[i as int]@);
        let seen = contains_string(&vec, i, &vec[i]);
        let listed = contains_string(&dups, dups.len(), &vec[i]);
        assert(views(dups@).take(dups@.len() as int) =~= views(dups@));
        if seen && !listed {
            let ghost prev = dups@;
            dups.push(vec[i].clone());
            assert(views(dups@) =~= views(prev).push(vec@[i as int]@));
        }
        i = i + 1;
    }
    assert(s.take(vec@.len() as int) =~= s);
    dups
}

/// How `s.split_once("=")` divides a string, if it holds a `=`: the text
/// before the first `=` and the text after it.
pub open spec fn split_at_first_eq(s: Seq<char>) -> Option<(Seq<char>, Seq<char>)> {
    if exists|i: int| 0 <= i < s.len() && s[i] == '=' {
        let i = choose|i: int| 0 <= i < s.len() && s[i] == '=' && forall|j: int| 0 <= j < i ==> s[j] != '=';
        Some((s.take(i), s.skip(i + 1)))
    } else {
        None
    }
}

/// What `parse_key_value_string` gives: both sides of the first `=`, where
/// there is one and neither side is empty.
pub open spec fn key_value_of(s: Seq<char>) -> Option<(Seq<char>, Seq<char>)> {
    match split_at_first_eq(s) {
        Some((l, r)) => if l.len() > 0 && r.len() > 0 { Some((l, r)) } else { None },
        None => None,
    }
}

fn first_eq_position(v: &Vec<char>) -> (r: Option<usize>)
    ensures
        match r {
            Some(i) => i < v@.len() && v@[i as int] == '=' && forall|j: int| 0 <= j < i ==> v@[j] != '=',
            None => forall|j: int| 0 <= j < v@.len() ==> v@[j] != '=',
        },
{
    let mut i: usize = 0;
    while i < v.len()
        invariant
            i <= v@.len(),
            forall|j: int| 0 <= j < i ==> v@[j] != '=',
        decreases v@.len() - i,
    {
        if v[i] == '=' {
            return Some(i);
        }
        i = i + 1;
    }
    None
}

/// Parses a string in the format `key=value` into its two parts.
pub fn parse_key_value_string(s: &str) -> (r: Result<(String, String), ()>)
    ensures
        match r {
            Ok((k, v)) => key_value_of(s@) == Some((k@, v@)),
            Err(_) => key_value_of(s@) is None,
        },
{
    let v = to_chars(s);
    match first_eq_position(&v) {
        None => Err(()),
        Some(i) => {
            let ghost c = choose|c: int| 0 <= c < s@.len() && s@[c] == '=' && forall|j: int| 0 <= j < c ==> s@[j] != '=';
            assert(0 <= i < s@.len() && s@[i as int] == '=');
            assert(c == i) by {
                if c < i {
                    assert(s@[c] != '=');
                } else if c > i {
                    assert(s@[i as int] != '=');
                }
            }
            assert(i < v.len());
            let left = from_char_range(&v, 0, i);
            let right = from_char_range(&v, i + 1, v.len());
            assert(left@ =~= s@.take(i as int));
            assert(right@ =~= s@.skip(i + 1));
            if i == 0 || i + 1 == v.len() {
                Err(())
            } else {
                Ok((left, right))
            }
        },
    }
}

} // verus!
