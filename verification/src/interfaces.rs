//! The interface parser. An interface is `interface Name {`, then one
//! method declaration per line, then `}`. Zero methods is valid.

use vstd::prelude::*;

use crate::ParseError;
use crate::methods::MethodView;
use crate::methods::PlantUMLMethod;
use crate::methods::lemma_method_block_rest_le;
use crate::methods::lemma_method_block_wellformed;
use crate::methods::method_wellformed;
use crate::methods::method_views;
use crate::methods::parse_method_block;
use crate::methods::sp_method_block;
use crate::text::find_ws;
use crate::text::starts_with;
use crate::text::starts_with_lit;
use crate::text::until_ws;

verus! {

/// Mathematical content of a parsed interface: its name and its methods in
/// declaration order.
#[verifier::ext_equal]
pub ghost struct InterfaceView {
    pub name: Seq<char>,
    pub methods: Seq<MethodView>,
}

/// An interface: its name and its ordered method declarations.
#[derive(Debug, PartialEq, Eq)]
pub struct PlantUMLInterface<'a> {
    pub name: &'a str,
    pub methods: Vec<PlantUMLMethod<'a>>,
}

/// The views of a sequence of interfaces.
pub open spec fn interface_views<'a>(s: Seq<PlantUMLInterface<'a>>) -> Seq<InterfaceView> {
    s.map_values(|i: PlantUMLInterface<'a>| i@)
}

impl<'a> View for PlantUMLInterface<'a> {
    type V = InterfaceView;

    open spec fn view(&self) -> InterfaceView {
        InterfaceView { name: self.name@, methods: method_views(self.methods@) }
    }
}

/// What interface-header parsing returns on `s`: the literal `interface `,
/// a name running to the first whitespace, and the literal ` {`; the rest
/// begins after the brace.
pub open spec fn sp_interface_name(s: Seq<char>) -> Option<(Seq<char>, Seq<char>)> {
    if starts_with(s, "interface "@) {
        let s1 = s.skip("interface "@.len() as int);
        let n = until_ws(s1) as int;
        let name = s1.take(n);
        let s2 = s1.skip(n);
        if starts_with(s2, " {"@) {
            Some((s2.skip(" {"@.len() as int), name))
        } else {
            None
        }
    } else {
        None
    }
}

/// What interface parsing returns on `s`: the header, then the
/// brace-terminated run of method lines.
pub open spec fn sp_interface(s: Seq<char>) -> Option<(Seq<char>, InterfaceView)> {
    match sp_interface_name(s) {
        None => None,
        Some((body, name)) => match sp_method_block(body) {
            None => None,
            Some((r, ms)) => Some((r, InterfaceView { name, methods: ms })),
        },
    }
}

/// A well-formed interface: a whitespace-free name and well-formed
/// methods.
pub open spec fn interface_wellformed(v: InterfaceView) -> bool {
    &&& crate::text::no_ws(v.name)
    &&& forall|i: int| 0 <= i < v.methods.len() ==> #[trigger] method_wellformed(v.methods[i])
}

/// Law: a parsed interface is well-formed: its name holds no whitespace
/// and each of its methods is well-formed.
pub proof fn lemma_interface_wellformed(s: Seq<char>)
    ensures
        sp_interface(s) matches Some(q) ==> interface_wellformed(q.1),
{
    if let Some(p) = sp_interface_name(s) {
        let s1 = s.skip("interface "@.len() as int);
        crate::text::lemma_until_ws(s1);
        let n = until_ws(s1) as int;
        assert forall|j: int| 0 <= j < s1.take(n).len() implies !crate::text::is_wsp(
            s1.take(n)[j],
        ) by {
            assert(s1.take(n)[j] == s1[j]);
        }
        lemma_method_block_wellformed(p.0);
    }
}

/// A successful interface parse consumes at least one character.
pub proof fn lemma_interface_rest_shrinks(s: Seq<char>)
    ensures
        sp_interface(s) matches Some(q) ==> q.0.len() < s.len(),
{
    if let Some(p) = sp_interface_name(s) {
        let s1 = s.skip("interface "@.len() as int);
        crate::text::lemma_until_ws(s1);
        lemma_method_block_rest_le(p.0);
    }
}

/// Parses the interface header `interface Name {`; the name runs to the
/// first whitespace and the brace stands one space after it.
pub fn parse_interface_name<'a>(element: &'a str) -> (r: Result<(&'a str, &'a str), ParseError>)
    ensures
        (match sp_interface_name(element@) {
            Some(q) => r matches Ok(p) && p.0@ == q.0 && p.1@ == q.1,
            None => r is Err,
        }),
{
    let len: usize = element.unicode_len();
    if !starts_with_lit(element, "interface ") {
        return Err(ParseError);
    }
    let kl: usize = "interface ".unicode_len();
    let s1 = element.substring_char(kl, len);
    let l1: usize = s1.unicode_len();
    let n: usize = find_ws(s1);
    let name = s1.substring_char(0, n);
    let s2 = s1.substring_char(n, l1);
    if !starts_with_lit(s2, " {") {
        return Err(ParseError);
    }
    let bl: usize = " {".unicode_len();
    let l2: usize = s2.unicode_len();
    Ok((s2.substring_char(bl, l2), name))
}

/// Parses one whole interface: `interface Name {`, the method lines, `}`.
pub fn parse_interface<'a>(element: &'a str) -> (r: Result<
    (&'a str, PlantUMLInterface<'a>),
    ParseError,
>)
    ensures
        (match sp_interface(element@) {
            Some(q) => r matches Ok(p) && p.0@ == q.0 && p.1@ == q.1,
            None => r is Err,
        }),
{
    let (body, name) = match parse_interface_name(element) {
        Ok(p) => p,
        Err(e) => {
            return Err(e);
        },
    };
    let mut methods: Vec<PlantUMLMethod<'a>> = Vec::new();
    match parse_method_block(body, &mut methods) {
        Err(e) => Err(e),
        Ok(rest) => {
            proof {
                assert(method_views(Seq::<PlantUMLMethod<'a>>::empty()) + sp_method_block(
                    body@,
                ).unwrap().1 =~= sp_method_block(body@).unwrap().1);
            }
            Ok((rest, PlantUMLInterface { name, methods }))
        },
    }
}

} // verus!
