//! The optional bracketed modifier marker: one of the literal tokens
//! `{static}`, `{abstract}`, `{virtual}`, `{ctor}`. Matching is exact and
//! case-sensitive; when no token matches, parsing succeeds with
//! [`Modifier::Absent`] and consumes nothing, so this parser never fails.

use vstd::prelude::*;

use crate::ParseError;
use crate::text::starts_with;
use crate::text::starts_with_lit;

verus! {

/// Qualifier of a field or a method; `Absent` stands for a line that
/// carries no bracketed token.
#[derive(Debug, PartialEq, Eq)]
pub enum Modifier {
    Abstract,
    Static,
    Virtual,
    Constructor,
    Absent,
}

/// What modifier parsing returns on `s`: the recognized token's variant and
/// the rest after it, or [`Modifier::Absent`] with `s` unchanged.
pub open spec fn sp_modifier(s: Seq<char>) -> (Seq<char>, Modifier) {
    if starts_with(s, "{static}"@) {
        (s.skip("{static}"@.len() as int), Modifier::Static)
    } else if starts_with(s, "{abstract}"@) {
        (s.skip("{abstract}"@.len() as int), Modifier::Abstract)
    } else if starts_with(s, "{virtual}"@) {
        (s.skip("{virtual}"@.len() as int), Modifier::Virtual)
    } else if starts_with(s, "{ctor}"@) {
        (s.skip("{ctor}"@.len() as int), Modifier::Constructor)
    } else {
        (s, Modifier::Absent)
    }
}

/// Modifier parsing never lengthens the input.
pub proof fn lemma_modifier_le(s: Seq<char>)
    ensures
        sp_modifier(s).0.len() <= s.len(),
{
}

/// Optionally consumes one supported modifier token. For each supported
/// token the parse consumes exactly that token; for any other (or absent)
/// prefix it succeeds with [`Modifier::Absent`] and consumes zero
/// characters. It never fails.
pub fn parse_modifier<'a>(element: &'a str) -> (r: Result<(&'a str, Modifier), ParseError>)
    ensures
        r matches Ok(p) && p.0@ == sp_modifier(element@).0 && p.1 == sp_modifier(element@).1,
        starts_with(element@, "{static}"@) ==> (r matches Ok(p) && p.1 == Modifier::Static && p.0@
            == element@.skip("{static}"@.len() as int)),
        !starts_with(element@, "{static}"@) && starts_with(element@, "{abstract}"@) ==> (r matches
            Ok(p) && p.1 == Modifier::Abstract && p.0@ == element@.skip(
            "{abstract}"@.len() as int,
        )),
        !starts_with(element@, "{static}"@) && !starts_with(element@, "{abstract}"@) && starts_with(
            element@,
            "{virtual}"@,
        ) ==> (r matches Ok(p) && p.1 == Modifier::Virtual && p.0@ == element@.skip(
            "{virtual}"@.len() as int,
        )),
        !starts_with(element@, "{static}"@) && !starts_with(element@, "{abstract}"@)
            && !starts_with(element@, "{virtual}"@) && starts_with(element@, "{ctor}"@)
            ==> (r matches Ok(p) && p.1 == Modifier::Constructor && p.0@ == element@.skip(
            "{ctor}"@.len() as int,
        )),
        !starts_with(element@, "{static}"@) && !starts_with(element@, "{abstract}"@)
            && !starts_with(element@, "{virtual}"@) && !starts_with(element@, "{ctor}"@)
            ==> (r matches Ok(p) && p.1 == Modifier::Absent && p.0@ == element@),
{
    let len: usize = element.unicode_len();
    if starts_with_lit(element, "{static}") {
        let l: usize = "{static}".unicode_len();
        Ok((element.substring_char(l, len), Modifier::Static))
    } else if starts_with_lit(element, "{abstract}") {
        let l: usize = "{abstract}".unicode_len();
        Ok((element.substring_char(l, len), Modifier::Abstract))
    } else if starts_with_lit(element, "{virtual}") {
        let l: usize = "{virtual}".unicode_len();
        Ok((element.substring_char(l, len), Modifier::Virtual))
    } else if starts_with_lit(element, "{ctor}") {
        let l: usize = "{ctor}".unicode_len();
        Ok((element.substring_char(l, len), Modifier::Constructor))
    } else {
        Ok((element, Modifier::Absent))
    }
}

} // verus!
