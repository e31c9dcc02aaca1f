//! The method parser and its argument parsers. A method line has the shape
//! `<+|-|#> [modifier] ReturnType name(Type name, Type name, ...)`; on a
//! constructor line such as `+ {ctor} Builder()`, where the `{ctor}`
//! modifier stands and the opening parenthesis comes before any space, the
//! return type is empty — only constructors may omit it. Arguments are
//! `type name` pairs separated by commas; an argument name must be
//! non-empty and free of whitespace. The whole method is atomic.

use vstd::prelude::*;

use crate::ParseError;
use crate::accessibilities::Accessibility;
use crate::accessibilities::parse_accessibility;
use crate::accessibilities::sp_accessibility;
use crate::modifiers::Modifier;
use crate::modifiers::lemma_modifier_le;
use crate::modifiers::parse_modifier;
use crate::modifiers::sp_modifier;
use crate::text::check_no_ws;
use crate::text::find_char;
use crate::text::lemma_space_len;
use crate::text::lemma_trim0;
use crate::text::lemma_until_char;
use crate::text::skip_spaces;
use crate::text::skip_ws;
use crate::text::space_len;
use crate::text::sp_token_ok;
use crate::text::trim0;
use crate::text::until_char;

verus! {

/// Mathematical content of a parsed method argument.
#[verifier::ext_equal]
pub ghost struct ArgumentView {
    pub name: Seq<char>,
    pub argument_type: Seq<char>,
}

/// One typed parameter inside a method's parentheses. Name and type borrow
/// from the input text.
#[derive(Debug, PartialEq, Eq)]
pub struct MethodArgument<'a> {
    pub name: &'a str,
    pub argument_type: &'a str,
}

impl<'a> View for MethodArgument<'a> {
    type V = ArgumentView;

    open spec fn view(&self) -> ArgumentView {
        ArgumentView { name: self.name@, argument_type: self.argument_type@ }
    }
}

/// The views of a sequence of arguments.
pub open spec fn arg_views<'a>(s: Seq<MethodArgument<'a>>) -> Seq<ArgumentView> {
    s.map_values(|a: MethodArgument<'a>| a@)
}

/// What argument parsing returns on `s`: the type is everything before the
/// first space, the name everything before the next `,` or `)` (whichever
/// occurs first), required non-empty and whitespace-free; the rest begins
/// at that delimiter.
pub open spec fn sp_method_argument(s: Seq<char>) -> Option<(Seq<char>, ArgumentView)> {
    let s1 = trim0(s);
    let t = until_char(s1, ' ') as int;
    if 0 < t < s1.len() {
        let ty = s1.take(t);
        let s2 = trim0(s1.skip(t));
        let nc = until_char(s2, ',') as int;
        let np = until_char(s2, ')') as int;
        let n = if nc < np {
            nc
        } else {
            np
        };
        if n < s2.len() && sp_token_ok(s2.take(n)) {
            Some((s2.skip(n), ArgumentView { name: s2.take(n), argument_type: ty }))
        } else {
            None
        }
    } else {
        None
    }
}

/// A successful argument parse consumes at least one character.
pub proof fn lemma_argument_rest_shrinks(s: Seq<char>)
    ensures
        sp_method_argument(s) matches Some(q) ==> q.0.len() < s.len(),
{
    lemma_trim0(s);
    let s1 = trim0(s);
    let t = until_char(s1, ' ') as int;
    lemma_until_char(s1, ' ');
    if 0 < t < s1.len() {
        lemma_trim0(s1.skip(t));
    }
}

/// Parses one `type name` argument. The type is everything up to the first
/// space; the name runs to the next `,` or `)` (whichever occurs first) and
/// must be non-empty and free of whitespace; the rest begins at that
/// delimiter.
pub fn parse_method_argument<'a>(element: &'a str) -> (r: Result<
    (&'a str, MethodArgument<'a>),
    ParseError,
>)
    ensures
        (match sp_method_argument(element@) {
            Some(q) => r matches Ok(p) && p.0@ == q.0 && p.1@ == q.1,
            None => r is Err,
        }),
{
    let s1 = skip_ws(element);
    let l1: usize = s1.unicode_len();
    let t: usize = find_char(s1, ' ');
    if t == 0 || t >= l1 {
        return Err(ParseError);
    }
    let argument_type = s1.substring_char(0, t);
    let s2 = skip_ws(s1.substring_char(t, l1));
    let l2: usize = s2.unicode_len();
    let nc: usize = find_char(s2, ',');
    let np: usize = find_char(s2, ')');
    let n: usize = if nc < np {
        nc
    } else {
        np
    };
    if n >= l2 {
        return Err(ParseError);
    }
    let name = s2.substring_char(0, n);
    if name.is_empty() {
        return Err(ParseError);
    }
    if !check_no_ws(name) {
        return Err(ParseError);
    }
    Ok((s2.substring_char(n, l2), MethodArgument { name, argument_type }))
}

/// What argument-list parsing returns on `s`: arguments in declaration
/// order, each optionally preceded by a comma and blanks; the repetition
/// stops (it never fails) at the first position where no argument matches,
/// and the rest is the input as it stood before that attempt.
pub open spec fn sp_method_arguments(s: Seq<char>) -> (Seq<char>, Seq<ArgumentView>)
    decreases s.len(),
    via sp_method_arguments_dec
{
    let s1 = if s.len() > 0 && s[0] == ',' {
        s.drop_first()
    } else {
        s
    };
    let s2 = s1.skip(space_len(s1) as int);
    match sp_method_argument(s2) {
        None => (s, Seq::empty()),
        Some((r, a)) => {
            let (rr, rest_args) = sp_method_arguments(r);
            (rr, seq![a] + rest_args)
        },
    }
}

#[via_fn]
proof fn sp_method_arguments_dec(s: Seq<char>) {
    let s1 = if s.len() > 0 && s[0] == ',' {
        s.drop_first()
    } else {
        s
    };
    lemma_space_len(s1);
    lemma_argument_rest_shrinks(s1.skip(space_len(s1) as int));
}

/// Argument-list parsing never lengthens the input.
pub proof fn lemma_arguments_rest_le(s: Seq<char>)
    ensures
        sp_method_arguments(s).0.len() <= s.len(),
    decreases s.len(),
{
    let s1 = if s.len() > 0 && s[0] == ',' {
        s.drop_first()
    } else {
        s
    };
    lemma_space_len(s1);
    let s2 = s1.skip(space_len(s1) as int);
    if let Some(q) = sp_method_argument(s2) {
        lemma_argument_rest_shrinks(s2);
        lemma_arguments_rest_le(q.0);
    }
}

/// Law: every argument that argument-list parsing yields has a non-empty,
/// whitespace-free name; a parameter name with an embedded space always
/// fails its argument.
pub proof fn lemma_arguments_wellformed(s: Seq<char>)
    ensures
        (forall|i: int|
            0 <= i < sp_method_arguments(s).1.len() ==> #[trigger] sp_token_ok(
                sp_method_arguments(s).1[i].name,
            )),
    decreases s.len(),
{
    let s1 = if s.len() > 0 && s[0] == ',' {
        s.drop_first()
    } else {
        s
    };
    lemma_space_len(s1);
    let s2 = s1.skip(space_len(s1) as int);
    if let Some(q) = sp_method_argument(s2) {
        lemma_argument_rest_shrinks(s2);
        lemma_arguments_wellformed(q.0);
        assert forall|i: int| 0 <= i < sp_method_arguments(s).1.len() implies #[trigger] sp_token_ok(
            sp_method_arguments(s).1[i].name,
        ) by {
            if i > 0 {
                assert(sp_method_arguments(s).1[i] == sp_method_arguments(q.0).1[i - 1]);
            }
        }
    }
}

/// Repeats the argument parser; never fails, returning the rest as it stood
/// before the first failed attempt.
fn parse_arguments_rec<'a>(element: &'a str) -> (r: (&'a str, Vec<MethodArgument<'a>>))
    ensures
        r.0@ == sp_method_arguments(element@).0,
        arg_views(r.1@) == sp_method_arguments(element@).1,
    decreases element@.len(),
{
    let len: usize = element.unicode_len();
    let s1: &'a str = if len > 0 && element.get_char(0) == ',' {
        element.substring_char(1, len)
    } else {
        element
    };
    let s2: &'a str = skip_spaces(s1);
    proof {
        lemma_space_len(s1@);
    }
    match parse_method_argument(s2) {
        Err(_) => {
            let v: Vec<MethodArgument<'a>> = Vec::new();
            proof {
                assert(arg_views(v@) =~= sp_method_arguments(element@).1);
            }
            (element, v)
        },
        Ok((rest, a)) => {
            proof {
                lemma_argument_rest_shrinks(s2@);
            }
            let (rr, mut rest_args) = parse_arguments_rec(rest);
            let ghost tail = rest_args@;
            rest_args.insert(0, a);
            proof {
                assert(arg_views(rest_args@) =~= seq![a@] + arg_views(tail));
            }
            (rr, rest_args)
        },
    }
}

/// Parses zero or more `type name` arguments, each occurrence optionally
/// preceded by a comma and blanks; an empty list is valid and this parser
/// never fails.
pub fn parse_method_arguments<'a>(element: &'a str) -> (r: Result<
    (&'a str, Vec<MethodArgument<'a>>),
    ParseError,
>)
    ensures
        (r matches Ok(p) && p.0@ == sp_method_arguments(element@).0 && arg_views(p.1@)
            == sp_method_arguments(element@).1),
{
    let (rest, v) = parse_arguments_rec(element);
    Ok((rest, v))
}

/// Mathematical content of a parsed method.
#[verifier::ext_equal]
pub ghost struct MethodView {
    pub name: Seq<char>,
    pub return_type: Seq<char>,
    pub accessibility: Accessibility,
    pub arguments: Seq<ArgumentView>,
    pub modifier: Modifier,
}

/// A method declaration: name, return type, visibility, ordered argument
/// list and modifier. The return type is empty for constructor-style lines.
#[derive(Debug, PartialEq, Eq)]
pub struct PlantUMLMethod<'a> {
    pub name: &'a str,
    pub return_type: &'a str,
    pub accessibility: Accessibility,
    pub arguments: Vec<MethodArgument<'a>>,
    pub modifier: Modifier,
}

impl<'a> View for PlantUMLMethod<'a> {
    type V = MethodView;

    open spec fn view(&self) -> MethodView {
        MethodView {
            name: self.name@,
            return_type: self.return_type@,
            accessibility: self.accessibility,
            arguments: arg_views(self.arguments@),
            modifier: self.modifier,
        }
    }
}

/// The views of a sequence of methods.
pub open spec fn method_views<'a>(s: Seq<PlantUMLMethod<'a>>) -> Seq<MethodView> {
    s.map_values(|m: PlantUMLMethod<'a>| m@)
}

/// What method parsing returns on `s`: trim, accessibility, trim, modifier,
/// trim, then the return type up to the first space — empty only on a
/// `{ctor}` line whose first `(` comes before any space — then the name up
/// to the `(`, the argument list, and the closing `)`.
pub open spec fn sp_method(s: Seq<char>) -> Option<(Seq<char>, MethodView)> {
    match sp_accessibility(trim0(s)) {
        None => None,
        Some((s2, acc)) => {
            let (s4, m) = sp_modifier(trim0(s2));
            let s5 = trim0(s4);
            let t = until_char(s5, ' ') as int;
            let u = until_char(s5, '(') as int;
            let ctor_like = u < t && m == Modifier::Constructor;
            if ctor_like || t < s5.len() {
                let rty = if ctor_like {
                    Seq::<char>::empty()
                } else {
                    s5.take(t)
                };
                let nm_src = if ctor_like {
                    s5
                } else {
                    trim0(s5.skip(t))
                };
                let n2 = until_char(nm_src, '(') as int;
                if n2 < nm_src.len() && sp_token_ok(nm_src.take(n2)) {
                    let (s8, args) = sp_method_arguments(trim0(nm_src.skip(n2 + 1)));
                    if s8.len() > 0 && s8[0] == ')' {
                        Some(
                            (
                                s8.drop_first(),
                                MethodView {
                                    name: nm_src.take(n2),
                                    return_type: rty,
                                    accessibility: acc,
                                    arguments: args,
                                    modifier: m,
                                },
                            ),
                        )
                    } else {
                        None
                    }
                } else {
                    None
                }
            } else {
                None
            }
        },
    }
}

/// A successful method parse consumes at least one character.
pub proof fn lemma_method_rest_shrinks(s: Seq<char>)
    ensures
        sp_method(s) matches Some(q) ==> q.0.len() < s.len(),
{
    lemma_trim0(s);
    if let Some(p) = sp_accessibility(trim0(s)) {
        let s2 = p.0;
        lemma_trim0(s2);
        lemma_modifier_le(trim0(s2));
        let (s4, m) = sp_modifier(trim0(s2));
        lemma_trim0(s4);
        let s5 = trim0(s4);
        let t = until_char(s5, ' ') as int;
        let u = until_char(s5, '(') as int;
        lemma_until_char(s5, ' ');
        lemma_until_char(s5, '(');
        let ctor_like = u < t && m == Modifier::Constructor;
        let nm_src = if ctor_like {
            s5
        } else {
            trim0(s5.skip(t))
        };
        if !ctor_like && t < s5.len() {
            lemma_trim0(s5.skip(t));
        }
        let n2 = until_char(nm_src, '(') as int;
        lemma_until_char(nm_src, '(');
        if n2 < nm_src.len() {
            lemma_trim0(nm_src.skip(n2 + 1));
            lemma_arguments_rest_le(trim0(nm_src.skip(n2 + 1)));
        }
    }
}

/// A well-formed method: a non-empty, whitespace-free name, the same for
/// every argument, and an empty return type only on a constructor.
pub open spec fn method_wellformed(m: MethodView) -> bool {
    &&& sp_token_ok(m.name)
    &&& m.return_type.len() == 0 ==> m.modifier == Modifier::Constructor
    &&& forall|i: int| 0 <= i < m.arguments.len() ==> #[trigger] sp_token_ok(m.arguments[i].name)
}

/// Law: a parsed method always carries a non-empty, whitespace-free name,
/// and every one of its arguments a non-empty, whitespace-free name — a
/// method or argument name with an embedded space invalidates the whole
/// line — and its return type is empty only when its modifier is the
/// constructor.
pub proof fn lemma_method_wellformed(s: Seq<char>)
    ensures
        sp_method(s) matches Some(q) ==> method_wellformed(q.1),
{
    if let Some(p) = sp_accessibility(trim0(s)) {
        let s2 = p.0;
        let (s4, m) = sp_modifier(trim0(s2));
        lemma_trim0(s4);
        let s5 = trim0(s4);
        lemma_until_char(s5, ' ');
        let t = until_char(s5, ' ') as int;
        let u = until_char(s5, '(') as int;
        let ctor_like = u < t && m == Modifier::Constructor;
        let nm_src = if ctor_like {
            s5
        } else {
            trim0(s5.skip(t))
        };
        if !ctor_like && 0 < s5.len() && t == 0 {
            assert(s5[0] == ' ');
            assert(crate::text::is_wsp(' '));
        }
        let n2 = until_char(nm_src, '(') as int;
        if n2 < nm_src.len() {
            lemma_arguments_wellformed(trim0(nm_src.skip(n2 + 1)));
        }
    }
}

/// Parses one whole method line. Atomic: a missing accessibility marker, a
/// name containing whitespace, a malformed argument or a missing closing
/// parenthesis each invalidate the whole method.
pub fn parse_method<'a>(element: &'a str) -> (r: Result<(&'a str, PlantUMLMethod<'a>), ParseError>)
    ensures
        (match sp_method(element@) {
            Some(q) => r matches Ok(p) && p.0@ == q.0 && p.1@ == q.1,
            None => r is Err,
        }),
{
    let (rest, accessibility) = match parse_accessibility(skip_ws(element)) {
        Ok(p) => p,
        Err(e) => {
            return Err(e);
        },
    };
    let (rest, modifier) = match parse_modifier(skip_ws(rest)) {
        Ok(p) => p,
        Err(e) => {
            return Err(e);
        },
    };
    let s5 = skip_ws(rest);
    let l5: usize = s5.unicode_len();
    let t: usize = find_char(s5, ' ');
    let u: usize = find_char(s5, '(');
    let ctor_like = u < t && matches!(modifier, Modifier::Constructor);
    if !(ctor_like || t < l5) {
        return Err(ParseError);
    }
    let return_type: &'a str = if ctor_like {
        s5.substring_char(0, 0)
    } else {
        s5.substring_char(0, t)
    };
    proof {
        assert(s5@.subrange(0, 0) =~= Seq::<char>::empty());
    }
    let nm_src: &'a str = if ctor_like {
        s5
    } else {
        skip_ws(s5.substring_char(t, l5))
    };
    let nlen: usize = nm_src.unicode_len();
    let n2: usize = find_char(nm_src, '(');
    if n2 >= nlen {
        return Err(ParseError);
    }
    let name = nm_src.substring_char(0, n2);
    if name.is_empty() {
        return Err(ParseError);
    }
    if !check_no_ws(name) {
        return Err(ParseError);
    }
    let after = skip_ws(nm_src.substring_char(n2 + 1, nlen));
    let (s8, arguments) = parse_arguments_rec(after);
    let l8: usize = s8.unicode_len();
    if l8 > 0 && s8.get_char(0) == ')' {
        Ok((s8.substring_char(1, l8), PlantUMLMethod {
            name,
            return_type,
            accessibility,
            arguments,
            modifier,
        }))
    } else {
        Err(ParseError)
    }
}

/// What a brace-terminated run of method lines returns on `s`: after
/// trimming, a closing `}` ends the run (zero methods is valid); otherwise
/// one method terminated by a newline must parse, and the run continues
/// after it; anything else fails the whole run.
pub open spec fn sp_method_block(s: Seq<char>) -> Option<(Seq<char>, Seq<MethodView>)>
    decreases s.len(),
    via sp_method_block_dec
{
    let s1 = trim0(s);
    if s1.len() > 0 && s1[0] == '}' {
        Some((s1.drop_first(), Seq::empty()))
    } else {
        match sp_method(s) {
            None => None,
            Some((r, m)) => {
                if r.len() > 0 && r[0] == '\n' {
                    match sp_method_block(r.drop_first()) {
                        None => None,
                        Some((rr, ms)) => Some((rr, seq![m] + ms)),
                    }
                } else {
                    None
                }
            },
        }
    }
}

#[via_fn]
proof fn sp_method_block_dec(s: Seq<char>) {
    lemma_trim0(s);
    lemma_method_rest_shrinks(s);
}

/// A successful method-run parse consumes at least the closing brace.
pub proof fn lemma_method_block_rest_le(s: Seq<char>)
    ensures
        sp_method_block(s) matches Some(q) ==> q.0.len() < s.len(),
    decreases s.len(),
{
    lemma_trim0(s);
    let s1 = trim0(s);
    if s1.len() > 0 && s1[0] == '}' {
    } else {
        if let Some(p) = sp_method(s) {
            lemma_method_rest_shrinks(s);
            if p.0.len() > 0 && p.0[0] == '\n' {
                lemma_method_block_rest_le(p.0.drop_first());
            }
        }
    }
}

/// Law: every method of a parsed brace-terminated run is well-formed.
pub proof fn lemma_method_block_wellformed(s: Seq<char>)
    ensures
        sp_method_block(s) matches Some(q) ==> (forall|i: int|
            0 <= i < q.1.len() ==> #[trigger] method_wellformed(q.1[i])),
    decreases s.len(),
{
    lemma_trim0(s);
    let s1 = trim0(s);
    if s1.len() > 0 && s1[0] == '}' {
    } else {
        if let Some(p) = sp_method(s) {
            lemma_method_wellformed(s);
            lemma_method_rest_shrinks(s);
            if p.0.len() > 0 && p.0[0] == '\n' {
                lemma_method_block_wellformed(p.0.drop_first());
                if let Some(q) = sp_method_block(s) {
                    assert forall|i: int| 0 <= i < q.1.len() implies #[trigger] method_wellformed(
                        q.1[i],
                    ) by {
                        if i > 0 {
                            assert(q.1[i] == sp_method_block(p.0.drop_first()).unwrap().1[i - 1]);
                        }
                    }
                }
            }
        }
    }
}

/// Repeats the method parser, each method terminated by a newline, until
/// the closing `}`; appends the parsed methods to `acc` in order and
/// returns the rest after the `}`.
pub(crate) fn parse_method_block<'a>(s: &'a str, acc: &mut Vec<PlantUMLMethod<'a>>) -> (r: Result<
    &'a str,
    ParseError,
>)
    ensures
        (match sp_method_block(s@) {
            Some(q) => r matches Ok(rr) && rr@ == q.0 && method_views(final(acc)@) == method_views(
                old(acc)@,
            ) + q.1,
            None => r is Err,
        }),
    decreases s@.len(),
{
    let t = skip_ws(s);
    let tlen: usize = t.unicode_len();
    if tlen > 0 && t.get_char(0) == '}' {
        proof {
            assert(method_views(acc@) =~= method_views(acc@) + Seq::<MethodView>::empty());
        }
        return Ok(t.substring_char(1, tlen));
    }
    match parse_method(s) {
        Err(_) => Err(ParseError),
        Ok((rest, m)) => {
            let rlen: usize = rest.unicode_len();
            if rlen > 0 && rest.get_char(0) == '\n' {
                let ghost before = acc@;
                acc.push(m);
                proof {
                    lemma_method_rest_shrinks(s@);
                    assert(method_views(acc@) =~= method_views(before).push(m@));
                }
                let ghost mid = acc@;
                let rest2 = rest.substring_char(1, rlen);
                let res = parse_method_block(rest2, acc);
                proof {
                    if let Some(q2) = sp_method_block(rest2@) {
                        assert(method_views(acc@) =~= method_views(before) + (seq![m@] + q2.1));
                    }
                }
                res
            } else {
                Err(ParseError)
            }
        },
    }
}

} // verus!
