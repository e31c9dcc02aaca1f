//! The accessibility (visibility) marker: exactly one of the characters
//! `+`, `-`, `#` at the current position. No leading whitespace is skipped
//! here; callers trim first.

use vstd::prelude::*;

use crate::ParseError;

verus! {

/// Visibility of a field or a method.
#[derive(Debug, PartialEq, Eq)]
pub enum Accessibility {
    Private,
    Protected,
    Public,
}

/// What accessibility parsing returns on `s`: the marker's variant and the
/// rest of the input after the single consumed character, or nothing when
/// the first character is not a marker.
pub open spec fn sp_accessibility(s: Seq<char>) -> Option<(Seq<char>, Accessibility)> {
    if s.len() > 0 && s[0] == '+' {
        Some((s.drop_first(), Accessibility::Public))
    } else if s.len() > 0 && s[0] == '-' {
        Some((s.drop_first(), Accessibility::Private))
    } else if s.len() > 0 && s[0] == '#' {
        Some((s.drop_first(), Accessibility::Protected))
    } else {
        None
    }
}

/// Consumes exactly one leading `+`, `-` or `#` and maps it to
/// [`Accessibility::Public`], [`Accessibility::Private`] or
/// [`Accessibility::Protected`]; any other (or absent) first character is a
/// failure that consumes nothing.
pub fn parse_accessibility<'a>(element: &'a str) -> (r: Result<
    (&'a str, Accessibility),
    ParseError,
>)
    ensures
        element@.len() > 0 && element@[0] == '+' ==> (r matches Ok(p) && p.1
            == Accessibility::Public && p.0@ == element@.drop_first()),
        element@.len() > 0 && element@[0] == '-' ==> (r matches Ok(p) && p.1
            == Accessibility::Private && p.0@ == element@.drop_first()),
        element@.len() > 0 && element@[0] == '#' ==> (r matches Ok(p) && p.1
            == Accessibility::Protected && p.0@ == element@.drop_first()),
        element@.len() == 0 || (element@[0] != '+' && element@[0] != '-' && element@[0] != '#')
            ==> r is Err,
        (match sp_accessibility(element@) {
            Some(q) => r matches Ok(p) && p.0@ == q.0 && p.1 == q.1,
            None => r is Err,
        }),
{
    let len: usize = element.unicode_len();
    if len == 0 {
        return Err(ParseError);
    }
    let c = element.get_char(0);
    let rest = element.substring_char(1, len);
    if c == '+' {
        Ok((rest, Accessibility::Public))
    } else if c == '-' {
        Ok((rest, Accessibility::Private))
    } else if c == '#' {
        Ok((rest, Accessibility::Protected))
    } else {
        Err(ParseError)
    }
}

} // verus!
