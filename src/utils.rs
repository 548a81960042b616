use vstd::prelude::*;
use vstd::std_specs::iter::IteratorSpec;

verus! {

use crate::entities::{named_entity, lookup_named_entity};
use crate::parser::parse_model;
use crate::writer::document_text;

/// The four characters that the parser treats as whitespace.
pub open spec fn html_whitespace(ch: char) -> bool {
    ch == ' ' || ch == '\n' || ch == '\r' || ch == '\t'
}

/// Tests whether `ch` is whitespace in the sense of the markup grammar.
pub fn is_html_whitespace(ch: char) -> (r: bool)
    ensures
        r == html_whitespace(ch),
{
    ch == ' ' || ch == '\n' || ch == '\r' || ch == '\t'
}

/// Copies the characters of `s` into a vector.
pub fn chars_of(s: &str) -> (r: Vec<char>)
    ensures
        r@ == s@,
{
    let mut r: Vec<char> = Vec::new();
    let mut it = s.chars();
    loop
        invariant
            it.remaining() == s@.skip(r@.len() as int),
            r@ == s@.take(r@.len() as int),
            r@.len() <= s@.len(),
        ensures
            r@ == s@,
        decreases s@.len() - r@.len(),
    {
        match it.next() {
            Some(c) => {
                assert(s@.skip(r@.len() as int).drop_first() =~= s@.skip(r@.len() + 1 as int));
                r.push(c);
                assert(r@ =~= s@.take(r@.len() as int));
            },
            None => {
                assert(r@ =~= s@);
                break;
            },
        }
    }
    r
}

/// Compares two character slices.
pub fn chars_eq(a: &[char], b: &[char]) -> (r: bool)
    ensures
        r == (a@ == b@),
{
    if a.len() != b.len() {
        return false;
    }
    let mut i: usize = 0;
    while i < a.len()
        invariant
            a@.len() == b@.len(),
            i <= a@.len(),
            forall|j: int| 0 <= j < i ==> a@[j] == b@[j],
        decreases a@.len() - i,
    {
        if a[i] != b[i] {
            return false;
        }
        i = i + 1;
    }
    assert(a@ =~= b@);
    true
}

/// Element names whose elements have no content and no closing tag.
pub open spec fn void_element(name: Seq<char>) -> bool {
    name == seq!['m', 'e', 't', 'a'] || name == seq!['l', 'i', 'n', 'k']
        || name == seq!['b', 'a', 's', 'e'] || name == seq!['b', 'r']
        || name == seq!['w', 'b', 'r'] || name == seq!['h', 'r']
        || name == seq!['i', 'm', 'g'] || name == seq!['i', 'n', 'p', 'u', 't']
        || name == seq!['f', 'r', 'a', 'm', 'e'] || name == seq!['e', 'm', 'b', 'e', 'd']
        || name == seq!['c', 'o', 'l'] || name == seq!['c', 'o', 'm', 'm', 'a', 'n', 'd']
        || name == seq!['s', 'o', 'u', 'r', 'c', 'e'] || name == seq!['d', 'e', 'v', 'i', 'c', 'e']
        || name == seq!['k', 'e', 'y', 'g', 'e', 'n']
}

/// Element names whose content is kept verbatim.
pub open spec fn raw_element(name: Seq<char>) -> bool {
    name == seq!['s', 'c', 'r', 'i', 'p', 't'] || name == seq!['s', 't', 'y', 'l', 'e']
}

/// Void-element test on a name given as characters.
pub fn is_void_name(name: &[char]) -> (r: bool)
    ensures
        r == void_element(name@),
{
    chars_eq(name, &['m', 'e', 't', 'a']) || chars_eq(name, &['l', 'i', 'n', 'k'])
        || chars_eq(name, &['b', 'a', 's', 'e']) || chars_eq(name, &['b', 'r'])
        || chars_eq(name, &['w', 'b', 'r']) || chars_eq(name, &['h', 'r'])
        || chars_eq(name, &['i', 'm', 'g']) || chars_eq(name, &['i', 'n', 'p', 'u', 't'])
        || chars_eq(name, &['f', 'r', 'a', 'm', 'e']) || chars_eq(name, &['e', 'm', 'b', 'e', 'd'])
        || chars_eq(name, &['c', 'o', 'l']) || chars_eq(name, &['c', 'o', 'm', 'm', 'a', 'n', 'd'])
        || chars_eq(name, &['s', 'o', 'u', 'r', 'c', 'e'])
        || chars_eq(name, &['d', 'e', 'v', 'i', 'c', 'e'])
        || chars_eq(name, &['k', 'e', 'y', 'g', 'e', 'n'])
}

/// Raw-element test on a name given as characters.
pub fn is_raw_name(name: &[char]) -> (r: bool)
    ensures
        r == raw_element(name@),
{
    chars_eq(name, &['s', 'c', 'r', 'i', 'p', 't']) || chars_eq(name, &['s', 't', 'y', 'l', 'e'])
}

/// Tests whether `name` refers to an element that never has children, such as `br`.
pub fn is_autoclose_element(name: &str) -> (r: bool)
    ensures
        r == void_element(name@),
{
    let v = chars_of(name);
    is_void_name(v.as_slice())
}

/// Tests whether `name` refers to an element whose content is read verbatim.
pub fn is_raw_element(name: &str) -> (r: bool)
    ensures
        r == raw_element(name@),
{
    let v = chars_of(name);
    is_raw_name(v.as_slice())
}

/// The value of a digit character in the given radix (10 or 16).
pub open spec fn digit_value(c: char, radix: nat) -> Option<nat> {
    if '0' <= c <= '9' {
        Some((c as nat - '0' as nat) as nat)
    } else if radix == 16 && 'a' <= c <= 'f' {
        Some((c as nat - 'a' as nat + 10) as nat)
    } else if radix == 16 && 'A' <= c <= 'F' {
        Some((c as nat - 'A' as nat + 10) as nat)
    } else {
        None
    }
}

/// The number written by the digits `s`, most significant first; `None` if one is no digit.
pub open spec fn digits_value(s: Seq<char>, radix: nat) -> Option<nat>
    decreases s.len(),
{
    if s.len() == 0 {
        Some(0)
    } else {
        match (digits_value(s.drop_last(), radix), digit_value(s.last(), radix)) {
            (Some(v), Some(d)) => Some(v * radix + d),
            _ => None,
        }
    }
}

/// An unsigned 32-bit number written with one or more digits of the given radix.
pub open spec fn parse_u32(s: Seq<char>, radix: nat) -> Option<nat> {
    if s.len() == 0 {
        None
    } else {
        match digits_value(s, radix) {
            Some(v) => if v <= u32::MAX {
                Some(v)
            } else {
                None
            },
            None => None,
        }
    }
}

/// Whether `v` is a Unicode scalar value.
pub open spec fn scalar_value(v: nat) -> bool {
    v <= 0x10FFFF && !(0xD800 <= v <= 0xDFFF)
}

/// The character with code point `v`, if there is one.
pub open spec fn char_of_code(v: Option<nat>) -> Option<char> {
    match v {
        Some(n) => if scalar_value(n) {
            Some((n as u32) as char)
        } else {
            None
        },
        None => None,
    }
}

/// What an entity name (the text between `&` and `;`) stands for.
pub open spec fn entity_char(name: Seq<char>) -> Option<char> {
    if name.len() > 0 && name[0] == '#' {
        if name.len() > 1 && (name[1] == 'x' || name[1] == 'X') {
            char_of_code(parse_u32(name.skip(2), 16))
        } else {
            char_of_code(parse_u32(name.skip(1), 10))
        }
    } else {
        named_entity(name)
    }
}

/// Relies on char::from_u32: `Some` exactly for the Unicode scalar values.
#[verifier::external_body]
fn char_from_u32(v: u32) -> (r: Option<char>)
    ensures
        r is Some <==> scalar_value(v as nat),
        r matches Some(c) ==> c as u32 == v,
{
    char::from_u32(v)
}

/// Reads `s` as a number in `radix` (10 or 16) and returns the character with that code point.
fn code_point_char(s: &[char], radix: u32) -> (r: Option<char>)
    requires
        radix == 10 || radix == 16,
    ensures
        r == char_of_code(parse_u32(s@, radix as nat)),
{
    let mut i: usize = 0;
    if s.len() == 0 {
        return None;
    }
    let ghost body = s@;
    let ghost start: usize = 0;
    // once the value passes the largest scalar value it can only be rejected
    let mut v: u32 = 0;
    let mut big = false;
    while i < s.len()
        invariant
            start <= i <= s@.len(),
            body == s@,
            start == 0,
            radix == 10 || radix == 16,
            digits_value(s@.subrange(start as int, i as int), radix as nat) is Some,
            digits_value(s@.subrange(start as int, i as int), radix as nat) matches Some(w) ==> (
            if big {
                w > 0x10FFFF
            } else {
                w == v as nat && v <= 0x10FFFF
            }),
        decreases s@.len() - i,
    {
        let c = s[i];
        let d: u32 = if '0' <= c && c <= '9' {
            (c as u32) - ('0' as u32)
        } else if radix == 16 && 'a' <= c && c <= 'f' {
            (c as u32) - ('a' as u32) + 10
        } else if radix == 16 && 'A' <= c && c <= 'F' {
            (c as u32) - ('A' as u32) + 10
        } else {
            proof {
                assert(s@.subrange(start as int, i as int + 1).drop_last() =~= s@.subrange(
                    start as int,
                    i as int,
                ));
                assert(digits_value(s@.subrange(start as int, i as int + 1), radix as nat) is None);
                lemma_digits_none_extends(s@, start as int, i as int + 1, radix as nat);
                assert(s@.subrange(start as int, s@.len() as int) =~= body);
            }
            return None;
        };
        let ghost w_old = digits_value(s@.subrange(start as int, i as int), radix as nat)->0;
        proof {
            assert(s@.subrange(start as int, i as int + 1).drop_last() =~= s@.subrange(
                start as int,
                i as int,
            ));
            assert(digit_value(c, radix as nat) == Some(d as nat));
            assert(digits_value(s@.subrange(start as int, i as int + 1), radix as nat) == Some(
                w_old * radix as nat + d as nat,
            ));
            if big {
                assert(w_old * radix as nat + d as nat > 0x10FFFF) by (nonlinear_arith)
                    requires
                        w_old > 0x10FFFF,
                        radix >= 1,
                ;
            }
        }
        if !big {
            if v > 0x10FFFF / radix {
                assert(w_old * radix as nat + d as nat > 0x10FFFF) by (nonlinear_arith)
                    requires
                        w_old == v,
                        v > 0x10FFFFu32 / radix,
                        radix >= 1,
                ;
                big = true;
            } else {
                assert(v * radix <= 0x10FFFF) by (nonlinear_arith)
                    requires
                        v <= 0x10FFFFu32 / radix,
                        radix >= 1,
                ;
                v = v * radix + d;
                if v > 0x10FFFF {
                    big = true;
                }
            }
        }
        i = i + 1;
    }
    proof {
        assert(s@.subrange(start as int, s@.len() as int) =~= body);
    }
    if big {
        None
    } else {
        let r = char_from_u32(v);
        if let Some(c) = r {
            assert(c as u32 == v);
            proof {
                vstd::utf8::char_u32_cast(c, v);
            }
            assert(((v as nat) as u32) as char == c);
        }
        r
    }
}

proof fn lemma_digits_none_extends(s: Seq<char>, start: int, j: int, radix: nat)
    requires
        0 <= start <= j <= s.len(),
        digits_value(s.subrange(start, j), radix) is None,
    ensures
        digits_value(s.subrange(start, s.len() as int), radix) is None,
    decreases s.len() - j,
{
    if j < s.len() {
        assert(s.subrange(start, j + 1).drop_last() =~= s.subrange(start, j));
        lemma_digits_none_extends(s, start, j + 1, radix);
    }
}

/// Decodes an entity name given as characters (see `entity_char`).
pub fn decode_entity_chars(name: &[char]) -> (r: Option<char>)
    ensures
        r == entity_char(name@),
{
    if name.len() > 0 && name[0] == '#' {
        if name.len() > 1 && (name[1] == 'x' || name[1] == 'X') {
            code_point_char(slice_from(name, 2), 16)
        } else {
            code_point_char(slice_from(name, 1), 10)
        }
    } else {
        lookup_named_entity(name)
    }
}

/// The characters of `s` from index `start` on.
pub fn slice_from(s: &[char], start: usize) -> (r: &[char])
    requires
        start <= s@.len(),
    ensures
        r@ == s@.skip(start as int),
{
    let (_a, b) = s.split_at(start);
    b
}

/// The character an entity name stands for: `#x` or `#X` and hexadecimal digits, `#` and
/// decimal digits, or a name from the table of named character references.
pub fn decode_entity(entity: &str) -> (r: Option<char>)
    ensures
        r == entity_char(entity@),
{
    let v = chars_of(entity);
    decode_entity_chars(v.as_slice())
}

/// Characters with the Unicode White_Space property.
pub open spec fn unicode_whitespace(c: char) -> bool {
    ('\u{9}' <= c <= '\u{d}') || c == ' ' || c == '\u{85}' || c == '\u{a0}' || c == '\u{1680}'
        || ('\u{2000}' <= c <= '\u{200a}') || c == '\u{2028}' || c == '\u{2029}' || c
        == '\u{202f}' || c == '\u{205f}' || c == '\u{3000}'
}

/// Tests whether `c` has the Unicode White_Space property.
pub fn is_unicode_whitespace(c: char) -> (r: bool)
    ensures
        r == unicode_whitespace(c),
{
    ('\u{9}' <= c && c <= '\u{d}') || c == ' ' || c == '\u{85}' || c == '\u{a0}' || c
        == '\u{1680}' || ('\u{2000}' <= c && c <= '\u{200a}') || c == '\u{2028}' || c
        == '\u{2029}' || c == '\u{202f}' || c == '\u{205f}' || c == '\u{3000}'
}

/// Relies on String::push: appends one character.
#[verifier::external_body]
pub(crate) fn push_char(s: &mut String, c: char)
    ensures
        final(s)@ == old(s)@.push(c),
{
    s.push(c);
}

/// Appends the characters of `v` to `s`.
pub(crate) fn push_chars(s: &mut String, v: &[char])
    ensures
        final(s)@ == old(s)@ + v@,
{
    let mut i: usize = 0;
    while i < v.len()
        invariant
            i <= v@.len(),
            s@ == old(s)@ + v@.take(i as int),
        decreases v@.len() - i,
    {
        push_char(s, v[i]);
        i = i + 1;
        assert(s@ =~= old(s)@ + v@.take(i as int));
    }
    assert(v@.take(v@.len() as int) =~= v@);
}

/// A string holding the characters of `v`.
pub(crate) fn string_of(v: &[char]) -> (r: String)
    ensures
        r@ == v@,
{
    let mut r = String::new();
    push_chars(&mut r, v);
    assert(r@ =~= v@);
    r
}

/// Tests whether `ch` occurs in `set`.
pub(crate) fn contains_char(set: &[char], ch: char) -> (r: bool)
    ensures
        r == set@.contains(ch),
{
    let mut i: usize = 0;
    while i < set.len()
        invariant
            i <= set@.len(),
            forall|j: int| 0 <= j < i ==> set@[j] != ch,
        decreases set@.len() - i,
    {
        if set[i] == ch {
            assert(set@[i as int] == ch);
            return true;
        }
        i = i + 1;
    }
    false
}

/// Relies on `==` on `str`: equal exactly when the characters are.
#[verifier::external_body]
pub(crate) fn same_str(a: &str, b: &str) -> (r: bool)
    ensures
        r == (a@ == b@),
{
    a == b
}

/// Appends the characters of `b` to `a`.
pub(crate) fn append_chars(a: &mut Vec<char>, b: &[char])
    ensures
        final(a)@ == old(a)@ + b@,
{
    let mut i: usize = 0;
    while i < b.len()
        invariant
            i <= b@.len(),
            a@ == old(a)@ + b@.take(i as int),
        decreases b@.len() - i,
    {
        a.push(b[i]);
        i = i + 1;
        assert(a@ =~= old(a)@ + b@.take(i as int));
    }
    assert(b@.take(b@.len() as int) =~= b@);
}

///Returns a cleaned up version of the input HTML
///
/// This parses the html and writes the resulting document without modifications.
/// The result is not guaranteed to be a valid HTML but simple errors like missing close tags
/// are removed.
pub fn cleanup(html: &str) -> (r: String)
    ensures
        r@ == document_text(parse_model(html@)),
{
    crate::writer::write(&crate::parser::parse_to_dom(html))
}

} // verus!
