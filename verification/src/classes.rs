//! The class parser. A class is `class Name {`, then field lines, then
//! method lines, then `}`. Fields must all precede methods textually: the
//! body first repeats the field parser, and as soon as a line no longer
//! matches a field it switches irrevocably to method lines until the
//! closing brace. Zero fields and zero methods are both valid.

use vstd::prelude::*;

use crate::ParseError;
use crate::field::FieldView;
use crate::field::PlantUMLField;
use crate::field::field_wellformed;
use crate::field::lemma_field_rest_shrinks;
use crate::field::lemma_field_wellformed;
use crate::field::parse_field;
use crate::field::sp_field;
use crate::methods::MethodView;
use crate::methods::PlantUMLMethod;
use crate::methods::lemma_method_block_rest_le;
use crate::methods::lemma_method_block_wellformed;
use crate::methods::method_wellformed;
use crate::methods::method_views;
use crate::methods::parse_method_block;
use crate::methods::sp_method_block;
use crate::text::find_ws;
use crate::text::lemma_trim0;
use crate::text::skip_ws;
use crate::text::starts_with;
use crate::text::starts_with_lit;
use crate::text::trim0;
use crate::text::until_ws;

verus! {

/// Mathematical content of a parsed class: its name, its fields and its
/// methods, each list in declaration order.
#[verifier::ext_equal]
pub ghost struct ClassView {
    pub name: Seq<char>,
    pub fields: Seq<FieldView>,
    pub methods: Seq<MethodView>,
}

/// A class: its name, its ordered fields and its ordered methods. Fields
/// always precede methods in the source text.
#[derive(Debug, PartialEq, Eq)]
pub struct PlantUMLClass<'a> {
    pub name: &'a str,
    pub fields: Vec<PlantUMLField<'a>>,
    pub methods: Vec<PlantUMLMethod<'a>>,
}

/// The views of a sequence of classes.
pub open spec fn class_views<'a>(s: Seq<PlantUMLClass<'a>>) -> Seq<ClassView> {
    s.map_values(|c: PlantUMLClass<'a>| c@)
}

/// The views of a sequence of fields.
pub open spec fn field_views<'a>(s: Seq<PlantUMLField<'a>>) -> Seq<FieldView> {
    s.map_values(|f: PlantUMLField<'a>| f@)
}

impl<'a> View for PlantUMLClass<'a> {
    type V = ClassView;

    open spec fn view(&self) -> ClassView {
        ClassView {
            name: self.name@,
            fields: field_views(self.fields@),
            methods: method_views(self.methods@),
        }
    }
}

/// What a class body returns on `s`: after trimming, a closing `}` ends the
/// body; while lines still parse as newline-terminated fields they are
/// collected; at the first line that does not, the body switches to the
/// brace-terminated run of method lines.
pub open spec fn sp_class_body(s: Seq<char>) -> Option<(Seq<char>, Seq<FieldView>, Seq<MethodView>)>
    decreases s.len(),
    via sp_class_body_dec
{
    let s1 = trim0(s);
    if s1.len() > 0 && s1[0] == '}' {
        Some((s1.drop_first(), Seq::empty(), Seq::empty()))
    } else {
        match sp_field(s) {
            Some((r, f)) => {
                if r.len() > 0 && r[0] == '\n' {
                    match sp_class_body(r.drop_first()) {
                        None => None,
                        Some((rr, fs, ms)) => Some((rr, seq![f] + fs, ms)),
                    }
                } else {
                    sp_method_tail(s)
                }
            },
            None => sp_method_tail(s),
        }
    }
}

/// The method phase of a class body: only method lines up to the closing
/// brace, with no fields.
pub open spec fn sp_method_tail(s: Seq<char>) -> Option<
    (Seq<char>, Seq<FieldView>, Seq<MethodView>),
> {
    match sp_method_block(s) {
        None => None,
        Some((r, ms)) => Some((r, Seq::empty(), ms)),
    }
}

#[via_fn]
proof fn sp_class_body_dec(s: Seq<char>) {
    lemma_trim0(s);
    lemma_field_rest_shrinks(s);
}

/// A successful class-body parse consumes at least the closing brace.
pub proof fn lemma_class_body_rest_le(s: Seq<char>)
    ensures
        sp_class_body(s) matches Some(q) ==> q.0.len() < s.len(),
    decreases s.len(),
{
    lemma_trim0(s);
    let s1 = trim0(s);
    lemma_method_block_rest_le(s);
    if s1.len() > 0 && s1[0] == '}' {
    } else {
        if let Some(p) = sp_field(s) {
            lemma_field_rest_shrinks(s);
            if p.0.len() > 0 && p.0[0] == '\n' {
                lemma_class_body_rest_le(p.0.drop_first());
            }
        }
    }
}

/// A well-formed class: a whitespace-free name, well-formed fields and
/// well-formed methods.
pub open spec fn class_wellformed(c: ClassView) -> bool {
    &&& crate::text::no_ws(c.name)
    &&& forall|i: int| 0 <= i < c.fields.len() ==> #[trigger] field_wellformed(c.fields[i])
    &&& forall|i: int| 0 <= i < c.methods.len() ==> #[trigger] method_wellformed(c.methods[i])
}

/// Law: every field and every method of a parsed class body is
/// well-formed.
pub proof fn lemma_class_body_wellformed(s: Seq<char>)
    ensures
        sp_class_body(s) matches Some(q) ==> (forall|i: int|
            0 <= i < q.1.len() ==> #[trigger] field_wellformed(q.1[i])) && (forall|i: int|
            0 <= i < q.2.len() ==> #[trigger] method_wellformed(q.2[i])),
    decreases s.len(),
{
    lemma_trim0(s);
    let s1 = trim0(s);
    lemma_method_block_wellformed(s);
    if s1.len() > 0 && s1[0] == '}' {
    } else {
        if let Some(p) = sp_field(s) {
            lemma_field_wellformed(s);
            lemma_field_rest_shrinks(s);
            if p.0.len() > 0 && p.0[0] == '\n' {
                lemma_class_body_wellformed(p.0.drop_first());
                if let Some(q) = sp_class_body(s) {
                    assert forall|i: int| 0 <= i < q.1.len() implies #[trigger] field_wellformed(
                        q.1[i],
                    ) by {
                        if i > 0 {
                            assert(q.1[i] == sp_class_body(p.0.drop_first()).unwrap().1[i - 1]);
                        }
                    }
                }
            }
        }
    }
}

/// What class-header parsing returns on `s`: the literal `class `, a name
/// running to the first whitespace, and the literal ` {`; the rest begins
/// after the brace.
pub open spec fn sp_class_name(s: Seq<char>) -> Option<(Seq<char>, Seq<char>)> {
    if starts_with(s, "class "@) {
        let s1 = s.skip("class "@.len() as int);
        let n = until_ws(s1) as int;
        let name = s1.take(n);
        let s2 = s1.skip(n);
        if starts_with(s2, " {"@) {
            Some((s2.skip(" {"@.len() as int), name))
        } else {
            None
        }
    } else {
        None
    }
}

/// What class parsing returns on `s`: the header, then the class body of
/// fields followed by methods up to the closing `}`.
pub open spec fn sp_class(s: Seq<char>) -> Option<(Seq<char>, ClassView)> {
    match sp_class_name(s) {
        None => None,
        Some((body, name)) => match sp_class_body(body) {
            None => None,
            Some((r, fs, ms)) => Some((r, ClassView { name, fields: fs, methods: ms })),
        },
    }
}

/// Law: a parsed class is well-formed: its name holds no whitespace and
/// each of its fields and methods is well-formed.
pub proof fn lemma_class_wellformed(s: Seq<char>)
    ensures
        sp_class(s) matches Some(q) ==> class_wellformed(q.1),
{
    if let Some(p) = sp_class_name(s) {
        let s1 = s.skip("class "@.len() as int);
        crate::text::lemma_until_ws(s1);
        let n = until_ws(s1) as int;
        assert forall|j: int| 0 <= j < s1.take(n).len() implies !crate::text::is_wsp(
            s1.take(n)[j],
        ) by {
            assert(s1.take(n)[j] == s1[j]);
        }
        lemma_class_body_wellformed(p.0);
    }
}

/// A successful class parse consumes at least one character.
pub proof fn lemma_class_rest_shrinks(s: Seq<char>)
    ensures
        sp_class(s) matches Some(q) ==> q.0.len() < s.len(),
{
    if let Some(p) = sp_class_name(s) {
        let s1 = s.skip("class "@.len() as int);
        crate::text::lemma_until_ws(s1);
        lemma_class_body_rest_le(p.0);
    }
}

/// Parses the class body into `fields` and `methods`, appending in order,
/// and returns the rest after the closing `}`.
fn parse_class_body<'a>(
    s: &'a str,
    fields: &mut Vec<PlantUMLField<'a>>,
    methods: &mut Vec<PlantUMLMethod<'a>>,
) -> (r: Result<&'a str, ParseError>)
    ensures
        (match sp_class_body(s@) {
            Some(q) => r matches Ok(rr) && rr@ == q.0 && field_views(final(fields)@) == field_views(
                old(fields)@,
            ) + q.1 && method_views(final(methods)@) == method_views(old(methods)@) + q.2,
            None => r is Err,
        }),
    decreases s@.len(),
{
    let t = skip_ws(s);
    let tlen: usize = t.unicode_len();
    if tlen > 0 && t.get_char(0) == '}' {
        proof {
            assert(field_views(fields@) =~= field_views(fields@) + Seq::<FieldView>::empty());
            assert(method_views(methods@) =~= method_views(methods@) + Seq::<MethodView>::empty());
        }
        return Ok(t.substring_char(1, tlen));
    }
    let field_attempt = parse_field(s);
    match field_attempt {
        Ok((rest, f)) => {
            let rlen: usize = rest.unicode_len();
            if rlen > 0 && rest.get_char(0) == '\n' {
                let ghost before = fields@;
                fields.push(f);
                proof {
                    lemma_field_rest_shrinks(s@);
                    assert(field_views(fields@) =~= field_views(before).push(f@));
                }
                let rest2 = rest.substring_char(1, rlen);
                let res = parse_class_body(rest2, fields, methods);
                proof {
                    if let Some(q2) = sp_class_body(rest2@) {
                        assert(field_views(fields@) =~= field_views(before) + (seq![f@] + q2.1));
                    }
                }
                res
            } else {
                parse_method_phase(s, methods)
            }
        },
        Err(_) => parse_method_phase(s, methods),
    }
}

/// The method phase of the class body: appends the remaining method lines
/// to `methods` and returns the rest after the closing `}`.
fn parse_method_phase<'a>(s: &'a str, methods: &mut Vec<PlantUMLMethod<'a>>) -> (r: Result<
    &'a str,
    ParseError,
>)
    ensures
        (match sp_method_tail(s@) {
            Some(q) => r matches Ok(rr) && rr@ == q.0 && method_views(final(methods)@)
                == method_views(old(methods)@) + q.2,
            None => r is Err,
        }),
{
    parse_method_block(s, methods)
}

/// Parses one whole class: `class Name {`, the field lines, the method
/// lines, `}`.
pub fn parse_class<'a>(element: &'a str) -> (r: Result<(&'a str, PlantUMLClass<'a>), ParseError>)
    ensures
        (match sp_class(element@) {
            Some(q) => r matches Ok(p) && p.0@ == q.0 && p.1@ == q.1,
            None => r is Err,
        }),
{
    let len: usize = element.unicode_len();
    if !starts_with_lit(element, "class ") {
        return Err(ParseError);
    }
    let kl: usize = "class ".unicode_len();
    let s1 = element.substring_char(kl, len);
    let l1: usize = s1.unicode_len();
    let n: usize = find_ws(s1);
    let name = s1.substring_char(0, n);
    let s2 = s1.substring_char(n, l1);
    if !starts_with_lit(s2, " {") {
        return Err(ParseError);
    }
    let bl: usize = " {".unicode_len();
    let l2: usize = s2.unicode_len();
    let body = s2.substring_char(bl, l2);
    let mut fields: Vec<PlantUMLField<'a>> = Vec::new();
    let mut methods: Vec<PlantUMLMethod<'a>> = Vec::new();
    match parse_class_body(body, &mut fields, &mut methods) {
        Err(e) => Err(e),
        Ok(rest) => {
            proof {
                let q = sp_class_body(body@).unwrap();
                assert(field_views(Seq::<PlantUMLField<'a>>::empty()) + q.1 =~= q.1);
                assert(method_views(Seq::<PlantUMLMethod<'a>>::empty()) + q.2 =~= q.2);
            }
            Ok((rest, PlantUMLClass { name, fields, methods }))
        },
    }
}

} // verus!
