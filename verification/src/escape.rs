//! Escaping of string values that the `kdl` crate would write verbatim.

use crate::text::{push_char, push_hex, push_str, spec_hex, spec_digit};
use vstd::prelude::*;

verus! {

/// The characters that the `kdl` crate writes verbatim inside a quoted
/// string although the KDL v2 spec forbids them there unescaped: C0 controls
/// other than `\b`, `\t`, `\n`, `\f`, `\r`; DEL; the C1 controls; and the
/// Unicode line and paragraph separators.
pub open spec fn spec_is_unescaped_by_kdl(c: char) -> bool {
    let cp = c as u32;
    ||| cp <= 0x07
    ||| cp == 0x0B
    ||| 0x0E <= cp <= 0x1F
    ||| cp == 0x7F
    ||| 0x80 <= cp <= 0x9F
    ||| 0x2028 <= cp <= 0x2029
}

/// Returns true if `c` is a character that the `kdl` crate writes
/// verbatim but the KDL v2 spec forbids in unescaped form inside quoted
/// strings.
pub fn is_unescaped_by_kdl(c: char) -> (r: bool)
    ensures
        r == spec_is_unescaped_by_kdl(c),
{
    let cp = c as u32;
    cp <= 0x07 || cp == 0x0B || (0x0E <= cp && cp <= 0x1F) || cp == 0x7F || (0x80 <= cp && cp
        <= 0x9F) || (0x2028 <= cp && cp <= 0x2029)
}

/// Whether some character of `s` must be escaped by hand.
pub open spec fn spec_needs_escape(s: Seq<char>) -> bool {
    exists|i: int| 0 <= i < s.len() && spec_is_unescaped_by_kdl(#[trigger] s[i])
}

/// The text written in place of `c` inside a quoted KDL string.
pub open spec fn spec_escape_char(c: char) -> Seq<char> {
    if c == '\\' {
        seq!['\\', '\\']
    } else if c == '"' {
        seq!['\\', '"']
    } else if c == '\n' {
        seq!['\\', 'n']
    } else if c == '\r' {
        seq!['\\', 'r']
    } else if c == '\t' {
        seq!['\\', 't']
    } else if c == '\u{08}' {
        seq!['\\', 'b']
    } else if c == '\u{0C}' {
        seq!['\\', 'f']
    } else if spec_is_unescaped_by_kdl(c) {
        seq!['\\', 'u', '{'] + spec_hex(c as u32 as nat) + seq!['}']
    } else {
        seq![c]
    }
}

/// The characters of `s`, each escaped.
pub open spec fn spec_escape_chars(s: Seq<char>) -> Seq<char>
    decreases s.len(),
{
    if s.len() == 0 {
        seq![]
    } else {
        spec_escape_chars(s.drop_last()) + spec_escape_char(s.last())
    }
}

/// `s` as a quoted KDL string in which every character is escaped as
/// [`spec_escape_char`] says.
pub open spec fn spec_escape_repr(s: Seq<char>) -> Seq<char> {
    seq!['"'] + spec_escape_chars(s) + seq!['"']
}

/// Whether some character of `s` must be escaped by hand.
pub fn needs_escape(s: &str) -> (r: bool)
    ensures
        r == spec_needs_escape(s@),
{
    for c in it: s.chars()
        invariant
            it.seq() == s@,
            forall|j: int| 0 <= j < it.index() ==> !spec_is_unescaped_by_kdl(#[trigger] s@[j]),
    {
        if is_unescaped_by_kdl(c) {
            proof {
                assert(s@[it.index() as int] == c);
            }
            return true;
        }
    }
    false
}

fn push_escaped(repr: &mut String, c: char)
    ensures
        final(repr)@ == old(repr)@ + spec_escape_char(c),
{
    if c == '\\' {
        push_str(repr, "\\\\");
        proof { reveal_strlit("\\\\"); }
    } else if c == '"' {
        push_str(repr, "\\\"");
        proof { reveal_strlit("\\\""); }
    } else if c == '\n' {
        push_str(repr, "\\n");
        proof { reveal_strlit("\\n"); }
    } else if c == '\r' {
        push_str(repr, "\\r");
        proof { reveal_strlit("\\r"); }
    } else if c == '\t' {
        push_str(repr, "\\t");
        proof { reveal_strlit("\\t"); }
    } else if c == '\u{08}' {
        push_str(repr, "\\b");
        proof { reveal_strlit("\\b"); }
    } else if c == '\u{0C}' {
        push_str(repr, "\\f");
        proof { reveal_strlit("\\f"); }
    } else if is_unescaped_by_kdl(c) {
        push_str(repr, "\\u{");
        proof { reveal_strlit("\\u{"); }
        push_hex(repr, c as u32);
        push_char(repr, '}');
    } else {
        push_char(repr, c);
    }
}

/// `s` as a quoted KDL string with every character escaped that the KDL v2
/// spec does not allow unescaped.
pub fn escape_repr(s: &str) -> (repr: String)
    ensures
        repr@ == spec_escape_repr(s@),
{
    let mut repr = String::new();
    push_char(&mut repr, '"');
    for c in it: s.chars()
        invariant
            it.seq() == s@,
            repr@ == seq!['"'] + spec_escape_chars(s@.take(it.index() as int)),
    {
        proof {
            let t = s@.take(it.index() + 1);
            assert(t.drop_last() == s@.take(it.index() as int));
            assert(t.last() == c);
        }
        push_escaped(&mut repr, c);
    }
    proof {
        assert(s@.take(s@.len() as int) == s@);
    }
    push_char(&mut repr, '"');
    repr
}

proof fn lemma_digit_is_allowed(d: nat)
    requires
        d < 16,
    ensures
        !spec_is_unescaped_by_kdl(spec_digit(d)),
{
    if d < 10 {
        assert(((48 + d) as char) as u32 == 48 + d);
    } else {
        assert(((87 + d) as char) as u32 == 87 + d);
    }
}

proof fn lemma_hex_has_no_forbidden(n: nat)
    ensures
        forall|i: int|
            0 <= i < spec_hex(n).len() ==> !spec_is_unescaped_by_kdl(#[trigger] spec_hex(n)[i]),
    decreases n,
{
    if n >= 16 {
        lemma_hex_has_no_forbidden(n / 16);
        lemma_digit_is_allowed(n % 16);
        let h = spec_hex(n / 16);
        assert forall|i: int| 0 <= i < spec_hex(n).len() implies !spec_is_unescaped_by_kdl(
            #[trigger] spec_hex(n)[i],
        ) by {
            if i < h.len() {
                assert(spec_hex(n)[i] == h[i]);
            }
        }
    } else {
        lemma_digit_is_allowed(n);
    }
}

proof fn lemma_escape_char_has_no_forbidden(c: char)
    ensures
        forall|i: int|
            0 <= i < spec_escape_char(c).len() ==> !spec_is_unescaped_by_kdl(
                #[trigger] spec_escape_char(c)[i],
            ),
{
    if spec_is_unescaped_by_kdl(c) && c != '\\' && c != '"' && c != '\n' && c != '\r' && c
        != '\t' && c != '\u{08}' && c != '\u{0C}' {
        let h = spec_hex(c as u32 as nat);
        lemma_hex_has_no_forbidden(c as u32 as nat);
        let e = seq!['\\', 'u', '{'] + h + seq!['}'];
        assert forall|i: int| 0 <= i < e.len() implies !spec_is_unescaped_by_kdl(#[trigger] e[i]) by {
            if 3 <= i < 3 + h.len() {
                assert(e[i] == h[i - 3]);
            }
        }
    }
}

proof fn lemma_escape_chars_have_no_forbidden(s: Seq<char>)
    ensures
        forall|i: int|
            0 <= i < spec_escape_chars(s).len() ==> !spec_is_unescaped_by_kdl(
                #[trigger] spec_escape_chars(s)[i],
            ),
    decreases s.len(),
{
    if s.len() > 0 {
        lemma_escape_chars_have_no_forbidden(s.drop_last());
        lemma_escape_char_has_no_forbidden(s.last());
        let a = spec_escape_chars(s.drop_last());
        let b = spec_escape_char(s.last());
        assert forall|i: int| 0 <= i < (a + b).len() implies !spec_is_unescaped_by_kdl(
            #[trigger] (a + b)[i],
        ) by {
            if i >= a.len() {
                assert((a + b)[i] == b[i - a.len()]);
            }
        }
    }
}

/// The quoted text written for a string never holds a character that the
/// KDL v2 spec forbids unescaped inside a quoted string (those that `kdl`
/// would have written verbatim), whatever the string.
pub proof fn lemma_escape_repr_has_no_forbidden(s: Seq<char>)
    ensures
        forall|i: int|
            0 <= i < spec_escape_repr(s).len() ==> !spec_is_unescaped_by_kdl(
                #[trigger] spec_escape_repr(s)[i],
            ),
{
    lemma_escape_chars_have_no_forbidden(s);
    let m = spec_escape_chars(s);
    let r = spec_escape_repr(s);
    assert forall|i: int| 0 <= i < r.len() implies !spec_is_unescaped_by_kdl(#[trigger] r[i]) by {
        if 1 <= i < 1 + m.len() {
            assert(r[i] == m[i - 1]);
        }
    }
}

/// Whether `c` is a hexadecimal digit (either case).
pub open spec fn spec_is_hex_digit(c: char) -> bool {
    let v = c as u32;
    (48 <= v <= 57) || (97 <= v <= 102) || (65 <= v <= 70)
}

/// The value of a hexadecimal digit.
pub open spec fn spec_hex_digit_value(c: char) -> nat {
    let v = c as u32;
    if 48 <= v <= 57 {
        (v - 48) as nat
    } else if 97 <= v <= 102 {
        (v - 87) as nat
    } else {
        (v - 55) as nat
    }
}

/// The number that a run of hexadecimal digits writes.
pub open spec fn spec_hex_value(ds: Seq<char>) -> nat
    decreases ds.len(),
{
    if ds.len() == 0 {
        0
    } else {
        spec_hex_value(ds.drop_last()) * 16 + spec_hex_digit_value(ds.last())
    }
}

/// How many hexadecimal digits `t` starts with.
pub open spec fn spec_hex_run(t: Seq<char>) -> nat
    decreases t.len(),
{
    if t.len() > 0 && spec_is_hex_digit(t[0]) {
        1 + spec_hex_run(t.drop_first())
    } else {
        0
    }
}

/// Whether `n` is the code of a Unicode scalar value.
pub open spec fn spec_is_scalar_code(n: nat) -> bool {
    n <= 0x10FFFF && !(0xD800 <= n <= 0xDFFF)
}

/// The character that a one-letter escape (after a backslash) stands for.
pub open spec fn spec_simple_escape(e: char) -> Option<char> {
    if e == '\\' {
        Some('\\')
    } else if e == '"' {
        Some('"')
    } else if e == 'n' {
        Some('\n')
    } else if e == 'r' {
        Some('\r')
    } else if e == 't' {
        Some('\t')
    } else if e == 'b' {
        Some('\u{08}')
    } else if e == 'f' {
        Some('\u{0C}')
    } else {
        None
    }
}

pub open spec fn spec_prepend(c: char, rest: Option<Seq<char>>) -> Option<Seq<char>> {
    match rest {
        Some(r) => Some(seq![c] + r),
        None => None,
    }
}

/// The characters that the body of a quoted KDL string stands for, undoing
/// the escapes `\\`, `\"`, `\n`, `\r`, `\t`, `\b`, `\f` and `\u{hex}`;
/// `None` when the body holds a bare `"` or a malformed escape.
pub open spec fn spec_unescape(t: Seq<char>) -> Option<Seq<char>>
    decreases t.len(),
{
    if t.len() == 0 {
        Some(seq![])
    } else if t[0] == '"' {
        None
    } else if t[0] != '\\' {
        spec_prepend(t[0], spec_unescape(t.drop_first()))
    } else if t.len() >= 2 && spec_simple_escape(t[1]) is Some {
        spec_prepend(spec_simple_escape(t[1])->0, spec_unescape(t.skip(2)))
    } else if t.len() >= 3 && t[1] == 'u' && t[2] == '{' {
        let k = spec_hex_run(t.skip(3)) as int;
        let code = spec_hex_value(t.subrange(3, 3 + k));
        if 1 <= k && 3 + k < t.len() && t[3 + k] == '}' && spec_is_scalar_code(code) {
            spec_prepend(code as char, spec_unescape(t.skip(4 + k)))
        } else {
            None
        }
    } else {
        None
    }
}

proof fn lemma_digit_is_hex(d: nat)
    requires
        d < 16,
    ensures
        spec_is_hex_digit(spec_digit(d)),
        spec_hex_digit_value(spec_digit(d)) == d,
{
    if d < 10 {
        assert(((48 + d) as char) as u32 == 48 + d);
    } else {
        assert(((87 + d) as char) as u32 == 87 + d);
    }
}

proof fn lemma_hex_digits(n: nat)
    ensures
        spec_hex(n).len() >= 1,
        forall|i: int| 0 <= i < spec_hex(n).len() ==> spec_is_hex_digit(#[trigger] spec_hex(n)[i]),
        spec_hex_value(spec_hex(n)) == n,
    decreases n,
{
    if n < 16 {
        lemma_digit_is_hex(n);
        assert(spec_hex(n).drop_last() =~= Seq::<char>::empty());
        assert(spec_hex_value(Seq::<char>::empty()) == 0);
        assert(spec_hex(n).last() == spec_digit(n));
    } else {
        lemma_hex_digits(n / 16);
        lemma_digit_is_hex(n % 16);
        let h = spec_hex(n / 16);
        assert(spec_hex(n).drop_last() =~= h);
        assert(spec_hex(n).last() == spec_digit(n % 16));
        assert(n == (n / 16) * 16 + n % 16);
        assert forall|i: int| 0 <= i < spec_hex(n).len() implies spec_is_hex_digit(
            #[trigger] spec_hex(n)[i],
        ) by {
            if i < h.len() {
                assert(spec_hex(n)[i] == h[i]);
            }
        }
    }
}

proof fn lemma_hex_run_of_digits(h: Seq<char>, x: Seq<char>)
    requires
        forall|i: int| 0 <= i < h.len() ==> spec_is_hex_digit(#[trigger] h[i]),
    ensures
        spec_hex_run(h + x) == h.len() + spec_hex_run(x),
    decreases h.len(),
{
    if h.len() > 0 {
        assert((h + x)[0] == h[0]);
        assert((h + x).drop_first() =~= h.drop_first() + x);
        let t = h.drop_first();
        assert forall|i: int| 0 <= i < t.len() implies spec_is_hex_digit(#[trigger] t[i]) by {
            assert(t[i] == h[i + 1]);
        }
        lemma_hex_run_of_digits(h.drop_first(), x);
    } else {
        assert(h + x =~= x);
    }
}

proof fn lemma_unescape_escaped_char(c: char, rest: Seq<char>)
    ensures
        spec_unescape(spec_escape_char(c) + rest) == spec_prepend(c, spec_unescape(rest)),
{
    let t = spec_escape_char(c) + rest;
    if c == '\\' || c == '"' || c == '\n' || c == '\r' || c == '\t' || c == '\u{08}' || c
        == '\u{0C}' {
        assert(t.len() >= 2);
        assert(t[0] == '\\');
        assert(t.skip(2) =~= rest);
        assert(spec_simple_escape(t[1]) == Some(c));
    } else if spec_is_unescaped_by_kdl(c) {
        let n = c as u32 as nat;
        let h = spec_hex(n);
        lemma_hex_digits(n);
        let tail = seq!['}'] + rest;
        assert(t =~= seq!['\\', 'u', '{'] + (h + tail));
        assert(t.skip(3) =~= h + tail);
        lemma_hex_run_of_digits(h, tail);
        assert(!spec_is_hex_digit('}'));
        assert(spec_hex_run(tail) == 0);
        let k = h.len() as int;
        assert(t.subrange(3, 3 + k) =~= h);
        assert(t[3 + k] == '}');
        assert(t.skip(4 + k) =~= rest);
        assert(spec_simple_escape('u') is None);
        assert(spec_is_scalar_code(n));
        assert((n as char) == c);
    } else {
        assert(t[0] == c);
        assert(t.drop_first() =~= rest);
    }
}

proof fn lemma_escape_chars_concat(a: Seq<char>, b: Seq<char>)
    ensures
        spec_escape_chars(a + b) == spec_escape_chars(a) + spec_escape_chars(b),
    decreases b.len(),
{
    if b.len() == 0 {
        assert(a + b =~= a);
        assert(spec_escape_chars(a) + seq![] =~= spec_escape_chars(a));
    } else {
        lemma_escape_chars_concat(a, b.drop_last());
        assert((a + b).drop_last() =~= a + b.drop_last());
        assert((a + b).last() == b.last());
        assert(spec_escape_chars(a) + spec_escape_chars(b) =~= spec_escape_chars(a)
            + spec_escape_chars(b.drop_last()) + spec_escape_char(b.last()));
    }
}

proof fn lemma_unescape_escape_chars(s: Seq<char>)
    ensures
        spec_unescape(spec_escape_chars(s)) == Some(s),
    decreases s.len(),
{
    if s.len() > 0 {
        let c = s[0];
        let tail = s.drop_first();
        assert(s =~= seq![c] + tail);
        lemma_escape_chars_concat(seq![c], tail);
        assert(seq![c].drop_last() =~= Seq::<char>::empty());
        assert(spec_escape_chars(Seq::<char>::empty()) == Seq::<char>::empty());
        assert(seq![c].last() == c);
        assert(spec_escape_chars(seq![c]) == Seq::<char>::empty() + spec_escape_char(c));
        assert(spec_escape_chars(seq![c]) =~= spec_escape_char(c));
        lemma_unescape_escaped_char(c, spec_escape_chars(tail));
        lemma_unescape_escape_chars(tail);
    }
}

/// The quoted text written for a string is `"`, a body, and `"`, where the
/// body holds no `"` that is not escaped by a backslash, and undoing the
/// KDL escapes in the body gives back exactly the string.
pub proof fn lemma_escape_repr_decodes(s: Seq<char>)
    ensures
        spec_escape_repr(s).len() >= 2,
        spec_escape_repr(s)[0] == '"',
        spec_escape_repr(s).last() == '"',
        spec_unescape(spec_escape_repr(s).subrange(1, spec_escape_repr(s).len() - 1)) == Some(s),
{
    let r = spec_escape_repr(s);
    assert(r.subrange(1, r.len() - 1) =~= spec_escape_chars(s));
    lemma_unescape_escape_chars(s);
}

} // verus!
