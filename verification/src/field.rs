//! The field (class attribute) parser. A field line has the shape
//! `<+|-|#> [modifier] name: Type`: accessibility, optional modifier, a
//! whitespace-free name up to the first `:`, and a non-empty type running
//! to the end of the line. The whole field is atomic: any failing stage
//! rejects the line with no partial output.

use vstd::prelude::*;

use crate::ParseError;
use crate::accessibilities::Accessibility;
use crate::accessibilities::parse_accessibility;
use crate::accessibilities::sp_accessibility;
use crate::modifiers::Modifier;
use crate::modifiers::parse_modifier;
use crate::modifiers::sp_modifier;
use crate::text::check_no_ws;
use crate::text::find_char;
use crate::text::lemma_space_len;
use crate::text::lemma_trim0;
use crate::text::lemma_until_char;
use crate::text::skip_spaces;
use crate::text::skip_ws;
use crate::text::space_len;
use crate::text::sp_token_ok;
use crate::text::te_len;
use crate::text::trim0;
use crate::text::trim_end;
use crate::text::until_char;

verus! {

/// Mathematical content of a parsed field.
#[verifier::ext_equal]
pub ghost struct FieldView {
    pub name: Seq<char>,
    pub field_type: Seq<char>,
    pub accessibility: Accessibility,
    pub modifier: Modifier,
}

/// A class attribute: its name, its type, its visibility and its modifier.
/// The name and type borrow from the input text.
#[derive(Debug, PartialEq, Eq)]
pub struct PlantUMLField<'a> {
    pub name: &'a str,
    pub field_type: &'a str,
    pub accessibility: Accessibility,
    pub modifier: Modifier,
}

impl<'a> View for PlantUMLField<'a> {
    type V = FieldView;

    open spec fn view(&self) -> FieldView {
        FieldView {
            name: self.name@,
            field_type: self.field_type@,
            accessibility: self.accessibility,
            modifier: self.modifier,
        }
    }
}

/// What field-name parsing returns on `s`: the prefix before the first `:`
/// (required non-empty and whitespace-free) and the rest beginning at the
/// `:`, or nothing when there is no `:` or the prefix is invalid.
pub open spec fn sp_field_name(s: Seq<char>) -> Option<(Seq<char>, Seq<char>)> {
    let n = until_char(s, ':') as int;
    if n < s.len() && sp_token_ok(s.take(n)) {
        Some((s.skip(n), s.take(n)))
    } else {
        None
    }
}

/// What field-type parsing returns on `s`: after a leading `:` and any
/// blanks, everything up to the end of the line, trimmed of surrounding
/// whitespace and required non-empty; the rest begins at the newline.
pub open spec fn sp_field_type(s: Seq<char>) -> Option<(Seq<char>, Seq<char>)> {
    if s.len() > 0 && s[0] == ':' {
        let a = s.drop_first();
        let b = a.skip(space_len(a) as int);
        let e = until_char(b, '\n') as int;
        let raw = b.take(e);
        let ty = trim0(raw).take(te_len(trim0(raw)) as int);
        if ty.len() > 0 {
            Some((b.skip(e), ty))
        } else {
            None
        }
    } else {
        None
    }
}

/// What field parsing returns on `s`: trim, accessibility, trim, modifier,
/// trim, field name, trim, field type; or nothing as soon as one stage
/// fails.
pub open spec fn sp_field(s: Seq<char>) -> Option<(Seq<char>, FieldView)> {
    match sp_accessibility(trim0(s)) {
        None => None,
        Some((s2, acc)) => {
            let (s4, m) = sp_modifier(trim0(s2));
            match sp_field_name(trim0(s4)) {
                None => None,
                Some((s6, name)) => match sp_field_type(trim0(s6)) {
                    None => None,
                    Some((s8, ty)) => Some(
                        (
                            s8,
                            FieldView {
                                name,
                                field_type: ty,
                                accessibility: acc,
                                modifier: m,
                            },
                        ),
                    ),
                },
            }
        },
    }
}

/// Passes a `(rest, token)` pair through unchanged when the token is
/// non-empty and free of whitespace, and fails otherwise.
pub fn doesnt_have_spaces<'a>(element: (&'a str, &'a str)) -> (r: Result<
    (&'a str, &'a str),
    ParseError,
>)
    ensures
        sp_token_ok(element.1@) ==> (r matches Ok(p) && p.0@ == element.0@ && p.1@ == element.1@),
        !sp_token_ok(element.1@) ==> r is Err,
{
    let ok: bool = check_no_ws(element.1);
    if !element.1.is_empty() && ok {
        Ok(element)
    } else {
        Err(ParseError)
    }
}

/// Reads the field name: everything before the first `:`, which must be
/// non-empty and free of whitespace; the returned rest begins at the `:`.
pub fn parse_field_name<'a>(element: &'a str) -> (r: Result<(&'a str, &'a str), ParseError>)
    ensures
        (match sp_field_name(element@) {
            Some(q) => r matches Ok(p) && p.0@ == q.0 && p.1@ == q.1,
            None => r is Err,
        }),
{
    let len: usize = element.unicode_len();
    let n: usize = find_char(element, ':');
    if n < len {
        let name = element.substring_char(0, n);
        let rest = element.substring_char(n, len);
        doesnt_have_spaces((rest, name))
    } else {
        Err(ParseError)
    }
}

/// Reads the field type: a literal `:`, any blanks, then the remainder of
/// the line trimmed of surrounding whitespace; the result must be
/// non-empty. The returned rest begins at the newline (or is empty).
pub fn parse_field_type<'a>(element: &'a str) -> (r: Result<(&'a str, &'a str), ParseError>)
    ensures
        (match sp_field_type(element@) {
            Some(q) => r matches Ok(p) && p.0@ == q.0 && p.1@ == q.1,
            None => r is Err,
        }),
{
    let len: usize = element.unicode_len();
    if len == 0 {
        return Err(ParseError);
    }
    if element.get_char(0) != ':' {
        return Err(ParseError);
    }
    let a = element.substring_char(1, len);
    let b = skip_spaces(a);
    let blen: usize = b.unicode_len();
    let e: usize = find_char(b, '\n');
    let raw = b.substring_char(0, e);
    let ty = trim_end(skip_ws(raw));
    let rest = b.substring_char(e, blen);
    if !ty.is_empty() {
        Ok((rest, ty))
    } else {
        Err(ParseError)
    }
}

/// Parses one whole field line: accessibility, optional modifier, name and
/// type, each stage preceded by trimming. Atomic: any failure rejects the
/// whole field.
pub fn parse_field<'a>(element: &'a str) -> (r: Result<(&'a str, PlantUMLField<'a>), ParseError>)
    ensures
        (match sp_field(element@) {
            Some(q) => r matches Ok(p) && p.0@ == q.0 && p.1@ == q.1,
            None => r is Err,
        }),
{
    let (rest, accessibility) = match parse_accessibility(skip_ws(element)) {
        Ok(p) => p,
        Err(e) => {
            return Err(e);
        },
    };
    let (rest, modifier) = match parse_modifier(skip_ws(rest)) {
        Ok(p) => p,
        Err(e) => {
            return Err(e);
        },
    };
    let (rest, name) = match parse_field_name(skip_ws(rest)) {
        Ok(p) => p,
        Err(e) => {
            return Err(e);
        },
    };
    let (rest, field_type) = match parse_field_type(skip_ws(rest)) {
        Ok(p) => p,
        Err(e) => {
            return Err(e);
        },
    };
    Ok((rest, PlantUMLField { name, field_type, accessibility, modifier }))
}

/// A successful field parse consumes at least one character.
pub proof fn lemma_field_rest_shrinks(s: Seq<char>)
    ensures
        sp_field(s) matches Some(q) ==> q.0.len() < s.len(),
{
    lemma_trim0(s);
    if let Some(p) = sp_accessibility(trim0(s)) {
        let s2 = p.0;
        lemma_trim0(s2);
        crate::modifiers::lemma_modifier_le(trim0(s2));
        let (s4, m) = sp_modifier(trim0(s2));
        lemma_trim0(s4);
        let s5 = trim0(s4);
        lemma_until_char(s5, ':');
        let n = until_char(s5, ':') as int;
        if n < s5.len() {
            let s6 = s5.skip(n);
            lemma_trim0(s6);
            let s7 = trim0(s6);
            if s7.len() > 0 && s7[0] == ':' {
                let a = s7.drop_first();
                lemma_space_len(a);
                let b = a.skip(space_len(a) as int);
                lemma_until_char(b, '\n');
            }
        }
    }
}

/// A well-formed field: a non-empty, whitespace-free name and a non-empty
/// type.
pub open spec fn field_wellformed(f: FieldView) -> bool {
    sp_token_ok(f.name) && f.field_type.len() > 0
}

/// Law: a parsed field always carries a non-empty, whitespace-free name
/// and a non-empty type; a field line whose name holds an embedded space
/// never parses.
pub proof fn lemma_field_wellformed(s: Seq<char>)
    ensures
        sp_field(s) matches Some(q) ==> field_wellformed(q.1),
{
}

} // verus!
