//! A parser for a line-oriented subset of the PlantUML class-diagram
//! notation.
//!
//! The recognized elements are classes (fields followed by methods),
//! interfaces (methods only) and enumerations (bare variant names). The
//! top-level entry point [`parse_uml_from_contents`] scans a whole
//! document, dispatches on the leading keyword of each element, recovers
//! from a malformed element by skipping to the next closing brace, and
//! either returns the assembled [`PlantUMLFile`] together with the trailing
//! unconsumed text, or the list of error descriptions when any element was
//! malformed (all-or-nothing: no partial document is surfaced).
//!
//! Generics, multi-line declarations, relationship arrows and comments are
//! not supported, and no semantic validation is performed: an `abstract`
//! method inside a plain class is accepted without complaint.

use vstd::prelude::*;

pub mod accessibilities;
pub mod classes;
pub mod enums;
pub mod field;
pub mod interfaces;
pub mod methods;
pub mod modifiers;
pub mod text;

use crate::classes::ClassView;
use crate::classes::PlantUMLClass;
use crate::classes::class_views;
use crate::classes::class_wellformed;
use crate::classes::lemma_class_wellformed;
use crate::classes::lemma_class_rest_shrinks;
use crate::classes::parse_class;
use crate::classes::sp_class;
use crate::enums::EnumView;
use crate::enums::PlantUMLEnum;
use crate::enums::enum_views;
use crate::enums::enum_wellformed;
use crate::enums::lemma_enum_wellformed;
use crate::enums::lemma_enum_rest_shrinks;
use crate::enums::parse_enum;
use crate::enums::sp_enum;
use crate::interfaces::InterfaceView;
use crate::interfaces::PlantUMLInterface;
use crate::interfaces::interface_views;
use crate::interfaces::interface_wellformed;
use crate::interfaces::lemma_interface_wellformed;
use crate::interfaces::lemma_interface_rest_shrinks;
use crate::interfaces::parse_interface;
use crate::interfaces::sp_interface;
use crate::text::find_char;
use crate::text::lemma_trim0;
use crate::text::lemma_until_char;
use crate::text::skip_ws;
use crate::text::starts_with;
use crate::text::starts_with_lit;
use crate::text::trim0;
use crate::text::until_char;
use crate::text::ws_len;

verus! {

/// Failure of a single grammar rule: the input at the current position does
/// not match, and the whole element is rejected (parsers are atomic).
#[derive(Debug, Clone, Copy, PartialEq, Eq)]
pub struct ParseError;

/// The kind of top-level element whose parse failed.
#[verifier::ext_equal]
pub ghost enum TopKind {
    ClassElem,
    InterfaceElem,
    EnumElem,
}

/// The diagnostic text reported for a failed element of kind `k`.
pub open spec fn sp_error_text(k: TopKind) -> Seq<char> {
    match k {
        TopKind::ClassElem => "could not parse class element"@,
        TopKind::InterfaceElem => "could not parse interface element"@,
        TopKind::EnumElem => "could not parse enum element"@,
    }
}

/// Mathematical content of a whole document scan: the parsed elements in
/// file order within each kind, the kinds of the failed elements in
/// encounter order, and the unconsumed trailing text.
#[verifier::ext_equal]
pub ghost struct DocView {
    pub classes: Seq<ClassView>,
    pub interfaces: Seq<InterfaceView>,
    pub enums: Seq<EnumView>,
    pub errors: Seq<TopKind>,
    pub rest: Seq<char>,
}

/// Where recovery resumes after a failed element: at the next `}` in the
/// remaining text, or at the end of the input when there is none.
pub open spec fn sp_recover(s: Seq<char>) -> Seq<char> {
    let b = until_char(s, '}') as int;
    if b < s.len() {
        s.skip(b)
    } else {
        Seq::empty()
    }
}

/// The document scan over already-trimmed text `s`: while a newline
/// remains, the next line's leading keyword (`class`, `interface`, `enum`)
/// selects an element parser; on success the element is collected, on
/// failure its kind is recorded and the scan resumes at the next `}`; a
/// line with no keyword is skipped; leading whitespace is trimmed between
/// steps. The scan ends when no newline remains.
pub open spec fn sp_scan(s: Seq<char>) -> DocView
    decreases s.len(),
    via sp_scan_dec
{
    let nl = until_char(s, '\n') as int;
    if nl >= s.len() {
        DocView {
            classes: Seq::empty(),
            interfaces: Seq::empty(),
            enums: Seq::empty(),
            errors: Seq::empty(),
            rest: s,
        }
    } else if starts_with(s, "class"@) {
        match sp_class(s) {
            Some((r, c)) => {
                let d = sp_scan(trim0(r));
                DocView {
                    classes: seq![c] + d.classes,
                    interfaces: d.interfaces,
                    enums: d.enums,
                    errors: d.errors,
                    rest: d.rest,
                }
            },
            None => {
                let d = sp_scan(trim0(sp_recover(s)));
                DocView {
                    classes: d.classes,
                    interfaces: d.interfaces,
                    enums: d.enums,
                    errors: seq![TopKind::ClassElem] + d.errors,
                    rest: d.rest,
                }
            },
        }
    } else if starts_with(s, "interface"@) {
        match sp_interface(s) {
            Some((r, i)) => {
                let d = sp_scan(trim0(r));
                DocView {
                    classes: d.classes,
                    interfaces: seq![i] + d.interfaces,
                    enums: d.enums,
                    errors: d.errors,
                    rest: d.rest,
                }
            },
            None => {
                let d = sp_scan(trim0(sp_recover(s)));
                DocView {
                    classes: d.classes,
                    interfaces: d.interfaces,
                    enums: d.enums,
                    errors: seq![TopKind::InterfaceElem] + d.errors,
                    rest: d.rest,
                }
            },
        }
    } else if starts_with(s, "enum"@) {
        match sp_enum(s) {
            Some((r, e)) => {
                let d = sp_scan(trim0(r));
                DocView {
                    classes: d.classes,
                    interfaces: d.interfaces,
                    enums: seq![e] + d.enums,
                    errors: d.errors,
                    rest: d.rest,
                }
            },
            None => {
                let d = sp_scan(trim0(sp_recover(s)));
                DocView {
                    classes: d.classes,
                    interfaces: d.interfaces,
                    enums: d.enums,
                    errors: seq![TopKind::EnumElem] + d.errors,
                    rest: d.rest,
                }
            },
        }
    } else {
        sp_scan(trim0(s.skip(nl)))
    }
}

#[via_fn]
proof fn sp_scan_dec(s: Seq<char>) {
    lemma_scan_step(s);
}

/// The length facts that every branch of one scan step needs: each element
/// parser and the recovery jump strictly consume input, and so does
/// skipping a line.
proof fn lemma_scan_step(s: Seq<char>)
    ensures
        until_char(s, '\n') < s.len() ==> trim0(s.skip(until_char(s, '\n') as int)).len() < s.len(),
        sp_class(s) matches Some(q) ==> trim0(q.0).len() < s.len(),
        sp_interface(s) matches Some(q) ==> trim0(q.0).len() < s.len(),
        sp_enum(s) matches Some(q) ==> trim0(q.0).len() < s.len(),
        until_char(s, '\n') < s.len() && (starts_with(s, "class"@) || starts_with(s, "interface"@)
            || starts_with(s, "enum"@)) ==> trim0(sp_recover(s)).len() < s.len(),
{
    lemma_until_char(s, '\n');
    lemma_until_char(s, '}');
    let nl = until_char(s, '\n') as int;
    if nl < s.len() {
        lemma_trim0(s.skip(nl));
        assert(s.skip(nl)[0] == s[nl]);
        assert(crate::text::is_wsp('\n'));
    }
    lemma_class_rest_shrinks(s);
    lemma_interface_rest_shrinks(s);
    lemma_enum_rest_shrinks(s);
    if let Some(q) = sp_class(s) {
        lemma_trim0(q.0);
    }
    if let Some(q) = sp_interface(s) {
        lemma_trim0(q.0);
    }
    if let Some(q) = sp_enum(s) {
        lemma_trim0(q.0);
    }
    lemma_trim0(sp_recover(s));
    if nl < s.len() && (starts_with(s, "class"@) || starts_with(s, "interface"@) || starts_with(
        s,
        "enum"@,
    )) {
        reveal_strlit("class");
        reveal_strlit("interface");
        reveal_strlit("enum");
        let b = until_char(s, '}') as int;
        if b < s.len() {
            assert(s[0] != '}');
            assert(b >= 1);
        }
    }
}

/// The whole-document parse: trim leading whitespace, then scan.
pub open spec fn sp_document(s: Seq<char>) -> DocView {
    sp_scan(trim0(s))
}

/// The structured result of a whole-document parse: all top-level elements
/// found, in file order within each kind.
#[derive(Debug, PartialEq, Eq)]
pub struct PlantUMLFile<'a> {
    pub classes: Vec<PlantUMLClass<'a>>,
    pub interfaces: Vec<PlantUMLInterface<'a>>,
    pub enums: Vec<PlantUMLEnum<'a>>,
}

/// Mathematical content of a parsed document.
#[verifier::ext_equal]
pub ghost struct FileView {
    pub classes: Seq<ClassView>,
    pub interfaces: Seq<InterfaceView>,
    pub enums: Seq<EnumView>,
}

impl<'a> View for PlantUMLFile<'a> {
    type V = FileView;

    open spec fn view(&self) -> FileView {
        FileView {
            classes: class_views(self.classes@),
            interfaces: interface_views(self.interfaces@),
            enums: enum_views(self.enums@),
        }
    }
}

/// One scan step and its continuation, appending parsed elements and error
/// texts to the accumulators in encounter order.
fn scan_elements<'a>(
    s: &'a str,
    classes: &mut Vec<PlantUMLClass<'a>>,
    interfaces: &mut Vec<PlantUMLInterface<'a>>,
    enums: &mut Vec<PlantUMLEnum<'a>>,
    errors: &mut Vec<String>,
) -> (r: &'a str)
    ensures
        ({
            let d = sp_scan(s@);
            &&& r@ == d.rest
            &&& class_views(final(classes)@) == class_views(old(classes)@) + d.classes
            &&& interface_views(final(interfaces)@) == interface_views(old(interfaces)@)
                + d.interfaces
            &&& enum_views(final(enums)@) == enum_views(old(enums)@) + d.enums
            &&& final(errors)@.len() == old(errors)@.len() + d.errors.len()
            &&& (forall|i: int|
                0 <= i < old(errors)@.len() ==> final(errors)@[i] == old(errors)@[i])
            &&& (forall|i: int|
                0 <= i < d.errors.len() ==> final(errors)@[old(errors)@.len() + i]@
                    == sp_error_text(d.errors[i]))
        }),
    decreases s@.len(),
{
    proof {
        lemma_scan_step(s@);
    }
    let len: usize = s.unicode_len();
    let nl: usize = find_char(s, '\n');
    if nl >= len {
        proof {
            assert(class_views(classes@) =~= class_views(classes@) + Seq::<ClassView>::empty());
            assert(interface_views(interfaces@) =~= interface_views(interfaces@) + Seq::<
                InterfaceView,
            >::empty());
            assert(enum_views(enums@) =~= enum_views(enums@) + Seq::<EnumView>::empty());
        }
        return s;
    }
    if starts_with_lit(s, "class") {
        match parse_class(s) {
            Ok((rest, c)) => {
                let ghost before = classes@;
                classes.push(c);
                proof {
                    assert(class_views(classes@) =~= class_views(before).push(c@));
                }
                let res = scan_elements(skip_ws(rest), classes, interfaces, enums, errors);
                proof {
                    let d = sp_scan(trim0(rest@));
                    assert(class_views(classes@) =~= class_views(before) + (seq![c@] + d.classes));
                }
                res
            },
            Err(_) => {
                errors.push("could not parse class element".to_owned());
                let rest = recover_to_brace(s);
                let res = scan_elements(skip_ws(rest), classes, interfaces, enums, errors);
                proof {
                    lemma_seq_head(TopKind::ClassElem, sp_scan(trim0(rest@)).errors);
                }
                res
            },
        }
    } else if starts_with_lit(s, "interface") {
        match parse_interface(s) {
            Ok((rest, i)) => {
                let ghost before = interfaces@;
                interfaces.push(i);
                proof {
                    assert(interface_views(interfaces@) =~= interface_views(before).push(i@));
                }
                let res = scan_elements(skip_ws(rest), classes, interfaces, enums, errors);
                proof {
                    let d = sp_scan(trim0(rest@));
                    assert(interface_views(interfaces@) =~= interface_views(before) + (seq![i@]
                        + d.interfaces));
                }
                res
            },
            Err(_) => {
                errors.push("could not parse interface element".to_owned());
                let rest = recover_to_brace(s);
                let res = scan_elements(skip_ws(rest), classes, interfaces, enums, errors);
                proof {
                    lemma_seq_head(TopKind::InterfaceElem, sp_scan(trim0(rest@)).errors);
                }
                res
            },
        }
    } else if starts_with_lit(s, "enum") {
        match parse_enum(s) {
            Ok((rest, e)) => {
                let ghost before = enums@;
                enums.push(e);
                proof {
                    assert(enum_views(enums@) =~= enum_views(before).push(e@));
                }
                let res = scan_elements(skip_ws(rest), classes, interfaces, enums, errors);
                proof {
                    let d = sp_scan(trim0(rest@));
                    assert(enum_views(enums@) =~= enum_views(before) + (seq![e@] + d.enums));
                }
                res
            },
            Err(_) => {
                errors.push("could not parse enum element".to_owned());
                let rest = recover_to_brace(s);
                let res = scan_elements(skip_ws(rest), classes, interfaces, enums, errors);
                proof {
                    lemma_seq_head(TopKind::EnumElem, sp_scan(trim0(rest@)).errors);
                }
                res
            },
        }
    } else {
        let rest = s.substring_char(nl, len);
        scan_elements(skip_ws(rest), classes, interfaces, enums, errors)
    }
}

/// Indexing facts about prepending one kind to a kind sequence, used by the
/// recovery branches of [`scan_elements`].
proof fn lemma_seq_head(k: TopKind, tail: Seq<TopKind>)
    ensures
        (seq![k] + tail).len() == tail.len() + 1,
        (seq![k] + tail)[0] == k,
        forall|i: int| 1 <= i < tail.len() + 1 ==> (seq![k] + tail)[i] == tail[i - 1],
{
}

/// Jumps to the next `}` in `s`, or to the end of the input when none
/// exists.
fn recover_to_brace<'a>(s: &'a str) -> (r: &'a str)
    ensures
        r@ == sp_recover(s@),
{
    let len: usize = s.unicode_len();
    let b: usize = find_char(s, '}');
    if b < len {
        s.substring_char(b, len)
    } else {
        let e = s.substring_char(len, len);
        proof {
            assert(e@ =~= Seq::<char>::empty());
        }
        e
    }
}

/// Parses a whole document. On success the result is the trailing
/// unconsumed text (normally empty) and the assembled [`PlantUMLFile`]; on
/// failure it is the list of diagnostics, one per malformed top-level
/// element, in encounter order — and no document at all, even though other
/// elements may have parsed.
pub fn parse_uml_from_contents<'a>(content: &'a str) -> (r: Result<
    (&'a str, PlantUMLFile<'a>),
    Vec<String>,
>)
    ensures
        ({
            let d = sp_document(content@);
            &&& d.errors.len() == 0 ==> (r matches Ok(p) && p.0@ == d.rest && p.1@.classes
                == d.classes && p.1@.interfaces == d.interfaces && p.1@.enums == d.enums)
            &&& d.errors.len() > 0 ==> (r matches Err(v) && v@.len() == d.errors.len() && (forall|
                i: int,
            |
                0 <= i < d.errors.len() ==> v@[i]@ == sp_error_text(d.errors[i])))
        }),
{
    let trimmed = skip_ws(content);
    let mut classes: Vec<PlantUMLClass<'a>> = Vec::new();
    let mut interfaces: Vec<PlantUMLInterface<'a>> = Vec::new();
    let mut enums: Vec<PlantUMLEnum<'a>> = Vec::new();
    let mut errors: Vec<String> = Vec::new();
    let rest = scan_elements(trimmed, &mut classes, &mut interfaces, &mut enums, &mut errors);
    proof {
        let d = sp_document(content@);
        assert(class_views(Seq::<PlantUMLClass<'a>>::empty()) + d.classes =~= d.classes);
        assert(interface_views(Seq::<PlantUMLInterface<'a>>::empty()) + d.interfaces
            =~= d.interfaces);
        assert(enum_views(Seq::<PlantUMLEnum<'a>>::empty()) + d.enums =~= d.enums);
    }
    if errors.len() != 0 {
        Err(errors)
    } else {
        Ok((rest, PlantUMLFile { classes, interfaces, enums }))
    }
}

/// The trailing text of a scan holds no newline and no leading whitespace.
proof fn lemma_scan_rest(s: Seq<char>)
    requires
        ws_len(s) == 0,
    ensures
        until_char(sp_scan(s).rest, '\n') == sp_scan(s).rest.len(),
        ws_len(sp_scan(s).rest) == 0,
    decreases s.len(),
{
    lemma_scan_step(s);
    lemma_until_char(s, '\n');
    let nl = until_char(s, '\n') as int;
    if nl >= s.len() {
    } else if starts_with(s, "class"@) {
        match sp_class(s) {
            Some((r, c)) => {
                lemma_trim0(r);
                lemma_scan_rest(trim0(r));
            },
            None => {
                lemma_trim0(sp_recover(s));
                lemma_scan_rest(trim0(sp_recover(s)));
            },
        }
    } else if starts_with(s, "interface"@) {
        match sp_interface(s) {
            Some((r, i)) => {
                lemma_trim0(r);
                lemma_scan_rest(trim0(r));
            },
            None => {
                lemma_trim0(sp_recover(s));
                lemma_scan_rest(trim0(sp_recover(s)));
            },
        }
    } else if starts_with(s, "enum"@) {
        match sp_enum(s) {
            Some((r, e)) => {
                lemma_trim0(r);
                lemma_scan_rest(trim0(r));
            },
            None => {
                lemma_trim0(sp_recover(s));
                lemma_scan_rest(trim0(sp_recover(s)));
            },
        }
    } else {
        lemma_trim0(s.skip(nl));
        lemma_scan_rest(trim0(s.skip(nl)));
    }
}

/// A well-formed document: every class, interface and enumeration in it
/// is well-formed — all name tokens free of whitespace, field, argument
/// and variant names non-empty, and a method's return type empty only when
/// its modifier is the constructor.
pub open spec fn document_wellformed(d: DocView) -> bool {
    &&& forall|i: int| 0 <= i < d.classes.len() ==> #[trigger] class_wellformed(d.classes[i])
    &&& forall|i: int|
        0 <= i < d.interfaces.len() ==> #[trigger] interface_wellformed(d.interfaces[i])
    &&& forall|i: int| 0 <= i < d.enums.len() ==> #[trigger] enum_wellformed(d.enums[i])
}

proof fn lemma_scan_wellformed(s: Seq<char>)
    ensures
        document_wellformed(sp_scan(s)),
    decreases s.len(),
{
    lemma_scan_step(s);
    lemma_until_char(s, '\n');
    let nl = until_char(s, '\n') as int;
    let d = sp_scan(s);
    if nl >= s.len() {
    } else if starts_with(s, "class"@) {
        match sp_class(s) {
            Some((r, c)) => {
                lemma_class_wellformed(s);
                lemma_trim0(r);
                lemma_scan_wellformed(trim0(r));
                let d2 = sp_scan(trim0(r));
                assert forall|i: int| 0 <= i < d.classes.len() implies #[trigger] class_wellformed(
                    d.classes[i],
                ) by {
                    if i > 0 {
                        assert(d.classes[i] == d2.classes[i - 1]);
                    }
                }
            },
            None => {
                lemma_trim0(sp_recover(s));
                lemma_scan_wellformed(trim0(sp_recover(s)));
            },
        }
    } else if starts_with(s, "interface"@) {
        match sp_interface(s) {
            Some((r, i)) => {
                lemma_interface_wellformed(s);
                lemma_trim0(r);
                lemma_scan_wellformed(trim0(r));
                let d2 = sp_scan(trim0(r));
                assert forall|j: int|
                    0 <= j < d.interfaces.len() implies #[trigger] interface_wellformed(
                    d.interfaces[j],
                ) by {
                    if j > 0 {
                        assert(d.interfaces[j] == d2.interfaces[j - 1]);
                    }
                }
            },
            None => {
                lemma_trim0(sp_recover(s));
                lemma_scan_wellformed(trim0(sp_recover(s)));
            },
        }
    } else if starts_with(s, "enum"@) {
        match sp_enum(s) {
            Some((r, e)) => {
                lemma_enum_wellformed(s);
                lemma_trim0(r);
                lemma_scan_wellformed(trim0(r));
                let d2 = sp_scan(trim0(r));
                assert forall|i: int| 0 <= i < d.enums.len() implies #[trigger] enum_wellformed(
                    d.enums[i],
                ) by {
                    if i > 0 {
                        assert(d.enums[i] == d2.enums[i - 1]);
                    }
                }
            },
            None => {
                lemma_trim0(sp_recover(s));
                lemma_scan_wellformed(trim0(sp_recover(s)));
            },
        }
    } else {
        lemma_trim0(s.skip(nl));
        lemma_scan_wellformed(trim0(s.skip(nl)));
    }
}

/// Law: whatever a document parse returns is well-formed — every name
/// token (class, interface, enum, field, method, argument, variant) is
/// free of whitespace, field, argument and variant names are non-empty,
/// and a method's return type is empty only when its modifier is the
/// constructor.
pub proof fn lemma_document_wellformed(s: Seq<char>)
    ensures
        document_wellformed(sp_document(s)),
{
    lemma_trim0(s);
    lemma_scan_wellformed(trim0(s));
}

/// Law: re-parsing the remaining text of a parse yields an empty document,
/// no errors, and the same remaining text — re-parsing never loops and the
/// leftover never grows.
pub proof fn lemma_reparse_remaining(s: Seq<char>)
    ensures
        ({
            let d = sp_document(s);
            let d2 = sp_document(d.rest);
            &&& d2.classes.len() == 0
            &&& d2.interfaces.len() == 0
            &&& d2.enums.len() == 0
            &&& d2.errors.len() == 0
            &&& d2.rest == d.rest
        }),
{
    lemma_trim0(s);
    lemma_scan_rest(trim0(s));
    let d = sp_document(s);
    lemma_trim0(d.rest);
    assert(trim0(d.rest) =~= d.rest);
    lemma_until_char(d.rest, '\n');
}

} // verus!
