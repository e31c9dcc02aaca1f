//! Shared text primitives: whitespace classification, leading-whitespace
//! trimming, scanning for the first occurrence of a character or of a
//! whitespace character, and literal-prefix matching.
//!
//! Every scanning function has a spec-level counterpart over `Seq<char>`;
//! the executable functions return exactly the value of the spec function.

use vstd::prelude::*;

verus! {

/// A Unicode whitespace character (the `White_Space` property), the set that
/// `char::is_whitespace` recognizes.
pub open spec fn is_wsp(c: char) -> bool {
    let u = c as u32;
    u == 0x09 || u == 0x0A || u == 0x0B || u == 0x0C || u == 0x0D || u == 0x20 || u == 0x85
        || u == 0xA0 || u == 0x1680 || (0x2000 <= u && u <= 0x200A) || u == 0x2028 || u == 0x2029
        || u == 0x202F || u == 0x205F || u == 0x3000
}

/// A plain horizontal space: the blank or the tab.
pub open spec fn is_space(c: char) -> bool {
    c == ' ' || c == '\t'
}

/// No character of `s` is whitespace.
pub open spec fn no_ws(s: Seq<char>) -> bool {
    forall|i: int| 0 <= i < s.len() ==> !is_wsp(s[i])
}

/// A valid identifier token: non-empty and free of whitespace.
pub open spec fn sp_token_ok(t: Seq<char>) -> bool {
    t.len() > 0 && no_ws(t)
}

/// Length of the longest whitespace prefix of `s`.
pub open spec fn ws_len(s: Seq<char>) -> nat
    decreases s.len(),
{
    if s.len() > 0 && is_wsp(s[0]) {
        (1 + ws_len(s.drop_first())) as nat
    } else {
        0
    }
}

/// Length of the longest prefix of `s` made of blanks and tabs.
pub open spec fn space_len(s: Seq<char>) -> nat
    decreases s.len(),
{
    if s.len() > 0 && is_space(s[0]) {
        (1 + space_len(s.drop_first())) as nat
    } else {
        0
    }
}

/// Index of the first occurrence of `c` in `s`, or `s.len()` if `c` does not
/// occur.
pub open spec fn until_char(s: Seq<char>, c: char) -> nat
    decreases s.len(),
{
    if s.len() == 0 {
        0
    } else if s[0] == c {
        0
    } else {
        (1 + until_char(s.drop_first(), c)) as nat
    }
}

/// Index of the first whitespace character in `s`, or `s.len()` if there is
/// none.
pub open spec fn until_ws(s: Seq<char>) -> nat
    decreases s.len(),
{
    if s.len() == 0 {
        0
    } else if is_wsp(s[0]) {
        0
    } else {
        (1 + until_ws(s.drop_first())) as nat
    }
}

/// `s` with its leading whitespace removed.
pub open spec fn trim0(s: Seq<char>) -> Seq<char> {
    s.skip(ws_len(s) as int)
}

/// Length of `s` once trailing whitespace is removed.
pub open spec fn te_len(s: Seq<char>) -> nat
    decreases s.len(),
{
    if s.len() > 0 && is_wsp(s.last()) {
        te_len(s.drop_last())
    } else {
        s.len()
    }
}

/// `s` with leading and trailing whitespace removed.
pub open spec fn trim_full(s: Seq<char>) -> Seq<char> {
    trim0(s).take(te_len(trim0(s)) as int)
}

/// `p` is a prefix of `s`.
pub open spec fn starts_with(s: Seq<char>, p: Seq<char>) -> bool {
    p.len() <= s.len() && (forall|i: int| 0 <= i < p.len() ==> s[i] == p[i])
}

pub proof fn lemma_ws_len(s: Seq<char>)
    ensures
        ws_len(s) <= s.len(),
        forall|j: int| 0 <= j < ws_len(s) ==> is_wsp(s[j]),
        ws_len(s) < s.len() ==> !is_wsp(s[ws_len(s) as int]),
    decreases s.len(),
{
    if s.len() > 0 && is_wsp(s[0]) {
        lemma_ws_len(s.drop_first());
        assert forall|j: int| 0 <= j < ws_len(s) implies is_wsp(s[j]) by {
            if j > 0 {
                assert(s.drop_first()[j - 1] == s[j]);
            }
        }
        if ws_len(s) < s.len() {
            assert(s.drop_first()[ws_len(s) - 1] == s[ws_len(s) as int]);
        }
    }
}

pub proof fn lemma_ws_len_is(s: Seq<char>, i: int)
    requires
        0 <= i <= s.len(),
        forall|j: int| 0 <= j < i ==> is_wsp(s[j]),
        i < s.len() ==> !is_wsp(s[i]),
    ensures
        ws_len(s) == i,
{
    lemma_ws_len(s);
    if ws_len(s) < i {
        assert(is_wsp(s[ws_len(s) as int]));
        assert(false);
    }
    if ws_len(s) > i {
        assert(is_wsp(s[i]));
        assert(false);
    }
}

pub proof fn lemma_space_len(s: Seq<char>)
    ensures
        space_len(s) <= s.len(),
        forall|j: int| 0 <= j < space_len(s) ==> is_space(s[j]),
        space_len(s) < s.len() ==> !is_space(s[space_len(s) as int]),
    decreases s.len(),
{
    if s.len() > 0 && is_space(s[0]) {
        lemma_space_len(s.drop_first());
        assert forall|j: int| 0 <= j < space_len(s) implies is_space(s[j]) by {
            if j > 0 {
                assert(s.drop_first()[j - 1] == s[j]);
            }
        }
        if space_len(s) < s.len() {
            assert(s.drop_first()[space_len(s) - 1] == s[space_len(s) as int]);
        }
    }
}

pub proof fn lemma_space_len_is(s: Seq<char>, i: int)
    requires
        0 <= i <= s.len(),
        forall|j: int| 0 <= j < i ==> is_space(s[j]),
        i < s.len() ==> !is_space(s[i]),
    ensures
        space_len(s) == i,
{
    lemma_space_len(s);
    if space_len(s) < i {
        assert(is_space(s[space_len(s) as int]));
        assert(false);
    }
    if space_len(s) > i {
        assert(is_space(s[i]));
        assert(false);
    }
}

pub proof fn lemma_until_char(s: Seq<char>, c: char)
    ensures
        until_char(s, c) <= s.len(),
        forall|j: int| 0 <= j < until_char(s, c) ==> s[j] != c,
        until_char(s, c) < s.len() ==> s[until_char(s, c) as int] == c,
    decreases s.len(),
{
    if s.len() > 0 && s[0] != c {
        lemma_until_char(s.drop_first(), c);
        assert forall|j: int| 0 <= j < until_char(s, c) implies s[j] != c by {
            if j > 0 {
                assert(s.drop_first()[j - 1] == s[j]);
            }
        }
        if until_char(s, c) < s.len() {
            assert(s.drop_first()[until_char(s, c) - 1] == s[until_char(s, c) as int]);
        }
    }
}

pub proof fn lemma_until_char_is(s: Seq<char>, c: char, i: int)
    requires
        0 <= i <= s.len(),
        forall|j: int| 0 <= j < i ==> s[j] != c,
        i < s.len() ==> s[i] == c,
    ensures
        until_char(s, c) == i,
{
    lemma_until_char(s, c);
    if until_char(s, c) < i {
        assert(s[until_char(s, c) as int] == c);
        assert(false);
    }
    if until_char(s, c) > i {
        assert(s[i] == c);
        assert(false);
    }
}

pub proof fn lemma_until_ws(s: Seq<char>)
    ensures
        until_ws(s) <= s.len(),
        forall|j: int| 0 <= j < until_ws(s) ==> !is_wsp(s[j]),
        until_ws(s) < s.len() ==> is_wsp(s[until_ws(s) as int]),
    decreases s.len(),
{
    if s.len() > 0 && !is_wsp(s[0]) {
        lemma_until_ws(s.drop_first());
        assert forall|j: int| 0 <= j < until_ws(s) implies !is_wsp(s[j]) by {
            if j > 0 {
                assert(s.drop_first()[j - 1] == s[j]);
            }
        }
        if until_ws(s) < s.len() {
            assert(s.drop_first()[until_ws(s) - 1] == s[until_ws(s) as int]);
        }
    }
}

pub proof fn lemma_until_ws_is(s: Seq<char>, i: int)
    requires
        0 <= i <= s.len(),
        forall|j: int| 0 <= j < i ==> !is_wsp(s[j]),
        i < s.len() ==> is_wsp(s[i]),
    ensures
        until_ws(s) == i,
{
    lemma_until_ws(s);
    if until_ws(s) < i {
        assert(is_wsp(s[until_ws(s) as int]));
        assert(false);
    }
    if until_ws(s) > i {
        assert(!is_wsp(s[i]));
        assert(false);
    }
}

/// `no_ws` holds exactly when the first whitespace index is the length.
pub proof fn lemma_no_ws_iff(s: Seq<char>)
    ensures
        no_ws(s) <==> until_ws(s) == s.len(),
{
    lemma_until_ws(s);
    if until_ws(s) == s.len() {
        assert forall|i: int| 0 <= i < s.len() implies !is_wsp(s[i]) by {}
    }
}

pub proof fn lemma_te_len(s: Seq<char>)
    ensures
        te_len(s) <= s.len(),
        forall|j: int| te_len(s) <= j < s.len() ==> is_wsp(s[j]),
        te_len(s) > 0 ==> !is_wsp(s[te_len(s) - 1]),
    decreases s.len(),
{
    if s.len() > 0 && is_wsp(s.last()) {
        lemma_te_len(s.drop_last());
        assert forall|j: int| te_len(s) <= j < s.len() implies is_wsp(s[j]) by {
            if j < s.len() - 1 {
                assert(s.drop_last()[j] == s[j]);
            }
        }
        if te_len(s) > 0 {
            assert(s.drop_last()[te_len(s) - 1] == s[te_len(s) - 1]);
        }
    }
}

pub proof fn lemma_te_len_is(s: Seq<char>, i: int)
    requires
        0 <= i <= s.len(),
        forall|j: int| i <= j < s.len() ==> is_wsp(s[j]),
        i > 0 ==> !is_wsp(s[i - 1]),
    ensures
        te_len(s) == i,
{
    lemma_te_len(s);
    if te_len(s) < i {
        assert(is_wsp(s[i - 1]));
        assert(false);
    }
    if te_len(s) > i {
        assert(!is_wsp(s[te_len(s) - 1]));
        assert(false);
    }
}

/// Basic facts about trimming the leading whitespace.
pub proof fn lemma_trim0(s: Seq<char>)
    ensures
        ws_len(s) <= s.len(),
        trim0(s).len() == s.len() - ws_len(s),
        s.len() > 0 && is_wsp(s[0]) ==> trim0(s).len() < s.len(),
        ws_len(trim0(s)) == 0,
        ws_len(s) == 0 ==> trim0(s) == s,
{
    lemma_ws_len(s);
    if trim0(s).len() > 0 {
        assert(trim0(s)[0] == s[ws_len(s) as int]);
    }
    if ws_len(s) == 0 {
        assert(trim0(s) =~= s);
    }
}

/// The executable whitespace test, equal to the spec predicate [`is_wsp`].
pub fn is_wsp_char(c: char) -> (b: bool)
    ensures
        b == is_wsp(c),
{
    let u = c as u32;
    u == 0x09 || u == 0x0A || u == 0x0B || u == 0x0C || u == 0x0D || u == 0x20 || u == 0x85
        || u == 0xA0 || u == 0x1680 || (0x2000 <= u && u <= 0x200A) || u == 0x2028 || u == 0x2029
        || u == 0x202F || u == 0x205F || u == 0x3000
}

/// The executable blank-or-tab test, equal to the spec predicate [`is_space`].
pub fn is_space_char(c: char) -> (b: bool)
    ensures
        b == is_space(c),
{
    c == ' ' || c == '\t'
}

/// Drops the leading whitespace of `s`.
pub fn skip_ws<'a>(s: &'a str) -> (r: &'a str)
    ensures
        r@ == trim0(s@),
{
    let len: usize = s.unicode_len();
    let mut i: usize = 0;
    while i < len && is_wsp_char(s.get_char(i))
        invariant
            0 <= i <= len,
            len == s@.len(),
            forall|j: int| 0 <= j < i ==> is_wsp(s@[j]),
        decreases len - i,
    {
        i = i + 1;
    }
    proof {
        lemma_ws_len_is(s@, i as int);
    }
    s.substring_char(i, len)
}

/// Drops the leading blanks and tabs of `s`.
pub fn skip_spaces<'a>(s: &'a str) -> (r: &'a str)
    ensures
        r@ == s@.skip(space_len(s@) as int),
{
    let len: usize = s.unicode_len();
    let mut i: usize = 0;
    while i < len && is_space_char(s.get_char(i))
        invariant
            0 <= i <= len,
            len == s@.len(),
            forall|j: int| 0 <= j < i ==> is_space(s@[j]),
        decreases len - i,
    {
        i = i + 1;
    }
    proof {
        lemma_space_len_is(s@, i as int);
    }
    s.substring_char(i, len)
}

/// Index of the first occurrence of `c` in `s`, or the length of `s`.
pub fn find_char(s: &str, c: char) -> (i: usize)
    ensures
        i == until_char(s@, c),
        i <= s@.len(),
{
    let len: usize = s.unicode_len();
    let mut i: usize = 0;
    while i < len && s.get_char(i) != c
        invariant
            0 <= i <= len,
            len == s@.len(),
            forall|j: int| 0 <= j < i ==> s@[j] != c,
        decreases len - i,
    {
        i = i + 1;
    }
    proof {
        lemma_until_char_is(s@, c, i as int);
    }
    i
}

/// Index of the first whitespace character of `s`, or the length of `s`.
pub fn find_ws(s: &str) -> (i: usize)
    ensures
        i == until_ws(s@),
        i <= s@.len(),
{
    let len: usize = s.unicode_len();
    let mut i: usize = 0;
    while i < len && !is_wsp_char(s.get_char(i))
        invariant
            0 <= i <= len,
            len == s@.len(),
            forall|j: int| 0 <= j < i ==> !is_wsp(s@[j]),
        decreases len - i,
    {
        i = i + 1;
    }
    proof {
        lemma_until_ws_is(s@, i as int);
    }
    i
}

/// Whether `s` is free of whitespace.
pub fn check_no_ws(s: &str) -> (b: bool)
    ensures
        b == no_ws(s@),
{
    let len: usize = s.unicode_len();
    let i: usize = find_ws(s);
    proof {
        lemma_no_ws_iff(s@);
    }
    i == len
}

/// Drops the trailing whitespace of `s`.
pub fn trim_end<'a>(s: &'a str) -> (r: &'a str)
    ensures
        r@ == s@.take(te_len(s@) as int),
{
    let len: usize = s.unicode_len();
    let mut e: usize = len;
    while e > 0 && is_wsp_char(s.get_char(e - 1))
        invariant
            0 <= e <= len,
            len == s@.len(),
            forall|j: int| e <= j < len ==> is_wsp(s@[j]),
        decreases e,
    {
        e = e - 1;
    }
    proof {
        lemma_te_len_is(s@, e as int);
    }
    s.substring_char(0, e)
}

/// Whether the literal `p` is a prefix of `s`.
pub fn starts_with_lit(s: &str, p: &str) -> (b: bool)
    ensures
        b == starts_with(s@, p@),
{
    let sl: usize = s.unicode_len();
    let pl: usize = p.unicode_len();
    if pl > sl {
        return false;
    }
    let mut i: usize = 0;
    while i < pl
        invariant
            0 <= i <= pl,
            pl == p@.len(),
            sl == s@.len(),
            pl <= sl,
            forall|j: int| 0 <= j < i ==> s@[j] == p@[j],
        decreases pl - i,
    {
        if s.get_char(i) != p.get_char(i) {
            return false;
        }
        i = i + 1;
    }
    true
}

} // verus!
