//! The enumeration parser. An enum is `enum Name {`, then one bare,
//! whitespace-free variant identifier per line, then `}`. Zero variants is
//! structurally valid. A variant with embedded whitespace fails atomically,
//! and the whole enum then fails unless the closing brace stands at that
//! very position.

use vstd::prelude::*;

use crate::ParseError;
use crate::text::find_char;
use crate::text::find_ws;
use crate::text::lemma_trim0;
use crate::text::skip_ws;
use crate::text::starts_with;
use crate::text::starts_with_lit;
use crate::text::trim0;
use crate::text::until_char;
use crate::text::until_ws;

verus! {

/// Mathematical content of a parsed enumeration: its name and its variant
/// names in declaration order.
#[verifier::ext_equal]
pub ghost struct EnumView {
    pub name: Seq<char>,
    pub variants: Seq<Seq<char>>,
}

/// One named value inside an enum body. The name borrows from the input
/// text.
#[derive(Debug, PartialEq, Eq)]
pub struct PlantUMLEnumVariant<'a> {
    pub name: &'a str,
}

impl<'a> View for PlantUMLEnumVariant<'a> {
    type V = Seq<char>;

    open spec fn view(&self) -> Seq<char> {
        self.name@
    }
}

/// An enumeration: its name and its ordered variants. Variant names need
/// not be unique; that is not checked.
#[derive(Debug, PartialEq, Eq)]
pub struct PlantUMLEnum<'a> {
    pub name: &'a str,
    pub variants: Vec<PlantUMLEnumVariant<'a>>,
}

/// The views (names) of a sequence of enum variants.
pub open spec fn variant_views<'a>(s: Seq<PlantUMLEnumVariant<'a>>) -> Seq<Seq<char>> {
    s.map_values(|v: PlantUMLEnumVariant<'a>| v@)
}

/// The views of a sequence of enumerations.
pub open spec fn enum_views<'a>(s: Seq<PlantUMLEnum<'a>>) -> Seq<EnumView> {
    s.map_values(|e: PlantUMLEnum<'a>| e@)
}

impl<'a> View for PlantUMLEnum<'a> {
    type V = EnumView;

    open spec fn view(&self) -> EnumView {
        EnumView { name: self.name@, variants: variant_views(self.variants@) }
    }
}

/// What variant parsing returns on `s`: after trimming, everything up to
/// the first whitespace or `}`, which must be followed directly by a
/// newline; the rest begins after that newline.
pub open spec fn sp_enum_variant(s: Seq<char>) -> Option<(Seq<char>, Seq<char>)> {
    let s1 = trim0(s);
    let nw = until_ws(s1) as int;
    let nb = until_char(s1, '}') as int;
    let n = if nw < nb {
        nw
    } else {
        nb
    };
    if n < s1.len() && s1[n] == '\n' {
        Some((s1.skip(n + 1), s1.take(n)))
    } else {
        None
    }
}

/// A successful variant parse consumes at least one character.
pub proof fn lemma_variant_rest_shrinks(s: Seq<char>)
    ensures
        sp_enum_variant(s) matches Some(q) ==> q.0.len() < s.len(),
{
    lemma_trim0(s);
}

/// Law: a parsed variant name is non-empty and free of whitespace; a
/// variant with an embedded space always fails.
pub proof fn lemma_variant_wellformed(s: Seq<char>)
    ensures
        sp_enum_variant(s) matches Some(q) ==> crate::text::sp_token_ok(q.1),
{
    lemma_trim0(s);
    let s1 = trim0(s);
    crate::text::lemma_until_ws(s1);
    crate::text::lemma_until_char(s1, '}');
    if let Some(q) = sp_enum_variant(s) {
        let nw = until_ws(s1) as int;
        let nb = until_char(s1, '}') as int;
        let n = if nw < nb {
            nw
        } else {
            nb
        };
        assert(n > 0) by {
            if n == 0 {
                if nw == 0 {
                    assert(crate::text::is_wsp(s1[0]));
                    assert(crate::text::ws_len(s1) == 0);
                } else {
                    assert(s1[0] == '}');
                    assert(s1[0] == '\n');
                }
            }
        }
        assert forall|i: int| 0 <= i < q.1.len() implies !crate::text::is_wsp(q.1[i]) by {
            assert(q.1[i] == s1[i]);
        }
    }
}

/// Parses one variant line: a whitespace-free identifier terminated by a
/// newline, with leading whitespace trimmed first.
pub fn parse_enum_variant<'a>(element: &'a str) -> (r: Result<
    (&'a str, PlantUMLEnumVariant<'a>),
    ParseError,
>)
    ensures
        (match sp_enum_variant(element@) {
            Some(q) => r matches Ok(p) && p.0@ == q.0 && p.1@ == q.1,
            None => r is Err,
        }),
{
    let s1 = skip_ws(element);
    let l1: usize = s1.unicode_len();
    let nw: usize = find_ws(s1);
    let nb: usize = find_char(s1, '}');
    let n: usize = if nw < nb {
        nw
    } else {
        nb
    };
    if n < l1 && s1.get_char(n) == '\n' {
        let name = s1.substring_char(0, n);
        let rest = s1.substring_char(n + 1, l1);
        Ok((rest, PlantUMLEnumVariant { name }))
    } else {
        Err(ParseError)
    }
}

/// What a brace-terminated run of variant lines returns on `s`: after
/// trimming, a closing `}` ends the run (zero variants is valid); otherwise
/// one variant must parse and the run continues after it; anything else
/// fails the whole run.
pub open spec fn sp_variant_block(s: Seq<char>) -> Option<(Seq<char>, Seq<Seq<char>>)>
    decreases s.len(),
    via sp_variant_block_dec
{
    let s1 = trim0(s);
    if s1.len() > 0 && s1[0] == '}' {
        Some((s1.drop_first(), Seq::empty()))
    } else {
        match sp_enum_variant(s) {
            None => None,
            Some((r, v)) => {
                match sp_variant_block(r) {
                    None => None,
                    Some((rr, vs)) => Some((rr, seq![v] + vs)),
                }
            },
        }
    }
}

#[via_fn]
proof fn sp_variant_block_dec(s: Seq<char>) {
    lemma_trim0(s);
    lemma_variant_rest_shrinks(s);
}

/// What enum parsing returns on `s`: the literal `enum `, a name running to
/// the first whitespace, the literal ` {`, the variant lines, and the
/// closing `}`.
pub open spec fn sp_enum(s: Seq<char>) -> Option<(Seq<char>, EnumView)> {
    if starts_with(s, "enum "@) {
        let s1 = s.skip("enum "@.len() as int);
        let n = until_ws(s1) as int;
        let name = s1.take(n);
        let s2 = s1.skip(n);
        if starts_with(s2, " {"@) {
            match sp_variant_block(s2.skip(" {"@.len() as int)) {
                None => None,
                Some((r, vs)) => Some((r, EnumView { name, variants: vs })),
            }
        } else {
            None
        }
    } else {
        None
    }
}

/// A well-formed enumeration: a whitespace-free name and non-empty,
/// whitespace-free variant names.
pub open spec fn enum_wellformed(e: EnumView) -> bool {
    &&& crate::text::no_ws(e.name)
    &&& forall|i: int|
        0 <= i < e.variants.len() ==> #[trigger] crate::text::sp_token_ok(e.variants[i])
}

/// Law: every variant of a parsed brace-terminated run is a non-empty,
/// whitespace-free token.
pub proof fn lemma_variant_block_wellformed(s: Seq<char>)
    ensures
        sp_variant_block(s) matches Some(q) ==> (forall|i: int|
            0 <= i < q.1.len() ==> #[trigger] crate::text::sp_token_ok(q.1[i])),
    decreases s.len(),
{
    lemma_trim0(s);
    let s1 = trim0(s);
    if s1.len() > 0 && s1[0] == '}' {
    } else {
        if let Some(p) = sp_enum_variant(s) {
            lemma_variant_wellformed(s);
            lemma_variant_rest_shrinks(s);
            lemma_variant_block_wellformed(p.0);
            if let Some(q) = sp_variant_block(s) {
                assert forall|i: int| 0 <= i < q.1.len() implies #[trigger] crate::text::sp_token_ok(
                    q.1[i],
                ) by {
                    if i > 0 {
                        assert(q.1[i] == sp_variant_block(p.0).unwrap().1[i - 1]);
                    }
                }
            }
        }
    }
}

/// Law: a parsed enumeration is well-formed: its name holds no whitespace
/// and every variant is a non-empty, whitespace-free token.
pub proof fn lemma_enum_wellformed(s: Seq<char>)
    ensures
        sp_enum(s) matches Some(q) ==> enum_wellformed(q.1),
{
    if starts_with(s, "enum "@) {
        let s1 = s.skip("enum "@.len() as int);
        crate::text::lemma_until_ws(s1);
        let n = until_ws(s1) as int;
        assert forall|j: int| 0 <= j < s1.take(n).len() implies !crate::text::is_wsp(
            s1.take(n)[j],
        ) by {
            assert(s1.take(n)[j] == s1[j]);
        }
        let s2 = s1.skip(n);
        if starts_with(s2, " {"@) {
            lemma_variant_block_wellformed(s2.skip(" {"@.len() as int));
        }
    }
}

/// A successful enum parse consumes at least one character.
pub proof fn lemma_enum_rest_shrinks(s: Seq<char>)
    ensures
        sp_enum(s) matches Some(q) ==> q.0.len() < s.len(),
{
    if starts_with(s, "enum "@) {
        let s1 = s.skip("enum "@.len() as int);
        crate::text::lemma_until_ws(s1);
        let n = until_ws(s1) as int;
        let s2 = s1.skip(n);
        if starts_with(s2, " {"@) {
            lemma_variant_block_rest_le(s2.skip(" {"@.len() as int));
        }
    }
}

/// Variant-run parsing never lengthens the input, and success consumes at
/// least the closing brace.
pub proof fn lemma_variant_block_rest_le(s: Seq<char>)
    ensures
        sp_variant_block(s) matches Some(q) ==> q.0.len() < s.len(),
    decreases s.len(),
{
    lemma_trim0(s);
    let s1 = trim0(s);
    if s1.len() > 0 && s1[0] == '}' {
    } else {
        if let Some(p) = sp_enum_variant(s) {
            lemma_variant_rest_shrinks(s);
            lemma_variant_block_rest_le(p.0);
        }
    }
}

/// Appends the parsed variants of a brace-terminated run to `acc` in order
/// and returns the rest after the `}`.
fn parse_variant_block<'a>(s: &'a str, acc: &mut Vec<PlantUMLEnumVariant<'a>>) -> (r: Result<
    &'a str,
    ParseError,
>)
    ensures
        (match sp_variant_block(s@) {
            Some(q) => r matches Ok(rr) && rr@ == q.0 && variant_views(final(acc)@)
                == variant_views(old(acc)@) + q.1,
            None => r is Err,
        }),
    decreases s@.len(),
{
    let t = skip_ws(s);
    let tlen: usize = t.unicode_len();
    if tlen > 0 && t.get_char(0) == '}' {
        proof {
            assert(variant_views(acc@) =~= variant_views(acc@) + Seq::<Seq<char>>::empty());
        }
        return Ok(t.substring_char(1, tlen));
    }
    match parse_enum_variant(s) {
        Err(_) => Err(ParseError),
        Ok((rest, v)) => {
            let ghost before = acc@;
            acc.push(v);
            proof {
                lemma_variant_rest_shrinks(s@);
                assert(variant_views(acc@) =~= variant_views(before).push(v@));
            }
            let res = parse_variant_block(rest, acc);
            proof {
                if let Some(q2) = sp_variant_block(rest@) {
                    assert(variant_views(acc@) =~= variant_views(before) + (seq![v@] + q2.1));
                }
            }
            res
        },
    }
}

/// Parses one whole enumeration: `enum Name {`, the variant lines, `}`.
pub fn parse_enum<'a>(element: &'a str) -> (r: Result<(&'a str, PlantUMLEnum<'a>), ParseError>)
    ensures
        (match sp_enum(element@) {
            Some(q) => r matches Ok(p) && p.0@ == q.0 && p.1@ == q.1,
            None => r is Err,
        }),
{
    let len: usize = element.unicode_len();
    if !starts_with_lit(element, "enum ") {
        return Err(ParseError);
    }
    let kl: usize = "enum ".unicode_len();
    let s1 = element.substring_char(kl, len);
    let l1: usize = s1.unicode_len();
    let n: usize = find_ws(s1);
    let name = s1.substring_char(0, n);
    let s2 = s1.substring_char(n, l1);
    if !starts_with_lit(s2, " {") {
        return Err(ParseError);
    }
    let bl: usize = " {".unicode_len();
    let l2: usize = s2.unicode_len();
    let body = s2.substring_char(bl, l2);
    let mut variants: Vec<PlantUMLEnumVariant<'a>> = Vec::new();
    match parse_variant_block(body, &mut variants) {
        Err(e) => Err(e),
        Ok(rest) => {
            proof {
                assert(variant_views(Seq::<PlantUMLEnumVariant<'a>>::empty()) + sp_variant_block(
                    body@,
                ).unwrap().1 =~= sp_variant_block(body@).unwrap().1);
            }
            Ok((rest, PlantUMLEnum { name, variants }))
        },
    }
}

} // verus!
