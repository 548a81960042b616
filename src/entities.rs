use vstd::prelude::*;

verus! {

use crate::utils::chars_eq;

/// The table of named character references: the character that `&name;` stands for.
pub open spec fn named_entity(name: Seq<char>) -> Option<char> {
    if name == seq!['a', 'm', 'p'] {
        Some('&')
    } else if name == seq!['l', 't'] {
        Some('<')
    } else if name == seq!['g', 't'] {
        Some('>')
    } else if name == seq!['q', 'u', 'o', 't'] {
        Some('"')
    } else if name == seq!['a', 'p', 'o', 's'] {
        Some('\'')
    } else if name == seq!['n', 'b', 's', 'p'] {
        Some('\u{a0}')
    } else if name == seq!['i', 'e', 'x', 'c', 'l'] {
        Some('\u{a1}')
    } else if name == seq!['c', 'e', 'n', 't'] {
        Some('\u{a2}')
    } else if name == seq!['p', 'o', 'u', 'n', 'd'] {
        Some('\u{a3}')
    } else if name == seq!['c', 'u', 'r', 'r', 'e', 'n'] {
        Some('\u{a4}')
    } else if name == seq!['y', 'e', 'n'] {
        Some('\u{a5}')
    } else if name == seq!['b', 'r', 'v', 'b', 'a', 'r'] {
        Some('\u{a6}')
    } else if name == seq!['s', 'e', 'c', 't'] {
        Some('\u{a7}')
    } else if name == seq!['u', 'm', 'l'] {
        Some('\u{a8}')
    } else if name == seq!['c', 'o', 'p', 'y'] {
        Some('\u{a9}')
    } else if name == seq!['o', 'r', 'd', 'f'] {
        Some('\u{aa}')
    } else if name == seq!['l', 'a', 'q', 'u', 'o'] {
        Some('\u{ab}')
    } else if name == seq!['n', 'o', 't'] {
        Some('\u{ac}')
    } else if name == seq!['s', 'h', 'y'] {
        Some('\u{ad}')
    } else if name == seq!['r', 'e', 'g'] {
        Some('\u{ae}')
    } else if name == seq!['m', 'a', 'c', 'r'] {
        Some('\u{af}')
    } else if name == seq!['d', 'e', 'g'] {
        Some('\u{b0}')
    } else if name == seq!['p', 'l', 'u', 's', 'm', 'n'] {
        Some('\u{b1}')
    } else if name == seq!['s', 'u', 'p', '2'] {
        Some('\u{b2}')
    } else if name == seq!['s', 'u', 'p', '3'] {
        Some('\u{b3}')
    } else if name == seq!['a', 'c', 'u', 't', 'e'] {
        Some('\u{b4}')
    } else if name == seq!['m', 'i', 'c', 'r', 'o'] {
        Some('\u{b5}')
    } else if name == seq!['p', 'a', 'r', 'a'] {
        Some('\u{b6}')
    } else if name == seq!['m', 'i', 'd', 'd', 'o', 't'] {
        Some('\u{b7}')
    } else if name == seq!['c', 'e', 'd', 'i', 'l'] {
        Some('\u{b8}')
    } else if name == seq!['s', 'u', 'p', '1'] {
        Some('\u{b9}')
    } else if name == seq!['o', 'r', 'd', 'm'] {
        Some('\u{ba}')
    } else if name == seq!['r', 'a', 'q', 'u', 'o'] {
        Some('\u{bb}')
    } else if name == seq!['f', 'r', 'a', 'c', '1', '4'] {
        Some('\u{bc}')
    } else if name == seq!['f', 'r', 'a', 'c', '1', '2'] {
        Some('\u{bd}')
    } else if name == seq!['f', 'r', 'a', 'c', '3', '4'] {
        Some('\u{be}')
    } else if name == seq!['i', 'q', 'u', 'e', 's', 't'] {
        Some('\u{bf}')
    } else if name == seq!['A', 'g', 'r', 'a', 'v', 'e'] {
        Some('\u{c0}')
    } else if name == seq!['A', 'a', 'c', 'u', 't', 'e'] {
        Some('\u{c1}')
    } else if name == seq!['A', 'c', 'i', 'r', 'c'] {
        Some('\u{c2}')
    } else if name == seq!['A', 't', 'i', 'l', 'd', 'e'] {
        Some('\u{c3}')
    } else if name == seq!['A', 'u', 'm', 'l'] {
        Some('\u{c4}')
    } else if name == seq!['A', 'r', 'i', 'n', 'g'] {
        Some('\u{c5}')
    } else if name == seq!['A', 'E', 'l', 'i', 'g'] {
        Some('\u{c6}')
    } else if name == seq!['C', 'c', 'e', 'd', 'i', 'l'] {
        Some('\u{c7}')
    } else if name == seq!['E', 'g', 'r', 'a', 'v', 'e'] {
        Some('\u{c8}')
    } else if name == seq!['E', 'a', 'c', 'u', 't', 'e'] {
        Some('\u{c9}')
    } else if name == seq!['E', 'c', 'i', 'r', 'c'] {
        Some('\u{ca}')
    } else if name == seq!['E', 'u', 'm', 'l'] {
        Some('\u{cb}')
    } else if name == seq!['I', 'g', 'r', 'a', 'v', 'e'] {
        Some('\u{cc}')
    } else if name == seq!['I', 'a', 'c', 'u', 't', 'e'] {
        Some('\u{cd}')
    } else if name == seq!['I', 'c', 'i', 'r', 'c'] {
        Some('\u{ce}')
    } else if name == seq!['I', 'u', 'm', 'l'] {
        Some('\u{cf}')
    } else if name == seq!['E', 'T', 'H'] {
        Some('\u{d0}')
    } else if name == seq!['N', 't', 'i', 'l', 'd', 'e'] {
        Some('\u{d1}')
    } else if name == seq!['O', 'g', 'r', 'a', 'v', 'e'] {
        Some('\u{d2}')
    } else if name == seq!['O', 'a', 'c', 'u', 't', 'e'] {
        Some('\u{d3}')
    } else if name == seq!['O', 'c', 'i', 'r', 'c'] {
        Some('\u{d4}')
    } else if name == seq!['O', 't', 'i', 'l', 'd', 'e'] {
        Some('\u{d5}')
    } else if name == seq!['O', 'u', 'm', 'l'] {
        Some('\u{d6}')
    } else if name == seq!['t', 'i', 'm', 'e', 's'] {
        Some('\u{d7}')
    } else if name == seq!['O', 's', 'l', 'a', 's', 'h'] {
        Some('\u{d8}')
    } else if name == seq!['U', 'g', 'r', 'a', 'v', 'e'] {
        Some('\u{d9}')
    } else if name == seq!['U', 'a', 'c', 'u', 't', 'e'] {
        Some('\u{da}')
    } else if name == seq!['U', 'c', 'i', 'r', 'c'] {
        Some('\u{db}')
    } else if name == seq!['U', 'u', 'm', 'l'] {
        Some('\u{dc}')
    } else if name == seq!['Y', 'a', 'c', 'u', 't', 'e'] {
        Some('\u{dd}')
    } else if name == seq!['T', 'H', 'O', 'R', 'N'] {
        Some('\u{de}')
    } else if name == seq!['s', 'z', 'l', 'i', 'g'] {
        Some('\u{df}')
    } else if name == seq!['a', 'g', 'r', 'a', 'v', 'e'] {
        Some('\u{e0}')
    } else if name == seq!['a', 'a', 'c', 'u', 't', 'e'] {
        Some('\u{e1}')
    } else if name == seq!['a', 'c', 'i', 'r', 'c'] {
        Some('\u{e2}')
    } else if name == seq!['a', 't', 'i', 'l', 'd', 'e'] {
        Some('\u{e3}')
    } else if name == seq!['a', 'u', 'm', 'l'] {
        Some('\u{e4}')
    } else if name == seq!['a', 'r', 'i', 'n', 'g'] {
        Some('\u{e5}')
    } else if name == seq!['a', 'e', 'l', 'i', 'g'] {
        Some('\u{e6}')
    } else if name == seq!['c', 'c', 'e', 'd', 'i', 'l'] {
        Some('\u{e7}')
    } else if name == seq!['e', 'g', 'r', 'a', 'v', 'e'] {
        Some('\u{e8}')
    } else if name == seq!['e', 'a', 'c', 'u', 't', 'e'] {
        Some('\u{e9}')
    } else if name == seq!['e', 'c', 'i', 'r', 'c'] {
        Some('\u{ea}')
    } else if name == seq!['e', 'u', 'm', 'l'] {
        Some('\u{eb}')
    } else if name == seq!['i', 'g', 'r', 'a', 'v', 'e'] {
        Some('\u{ec}')
    } else if name == seq!['i', 'a', 'c', 'u', 't', 'e'] {
        Some('\u{ed}')
    } else if name == seq!['i', 'c', 'i', 'r', 'c'] {
        Some('\u{ee}')
    } else if name == seq!['i', 'u', 'm', 'l'] {
        Some('\u{ef}')
    } else if name == seq!['e', 't', 'h'] {
        Some('\u{f0}')
    } else if name == seq!['n', 't', 'i', 'l', 'd', 'e'] {
        Some('\u{f1}')
    } else if name == seq!['o', 'g', 'r', 'a', 'v', 'e'] {
        Some('\u{f2}')
    } else if name == seq!['o', 'a', 'c', 'u', 't', 'e'] {
        Some('\u{f3}')
    } else if name == seq!['o', 'c', 'i', 'r', 'c'] {
        Some('\u{f4}')
    } else if name == seq!['o', 't', 'i', 'l', 'd', 'e'] {
        Some('\u{f5}')
    } else if name == seq!['o', 'u', 'm', 'l'] {
        Some('\u{f6}')
    } else if name == seq!['d', 'i', 'v', 'i', 'd', 'e'] {
        Some('\u{f7}')
    } else if name == seq!['o', 's', 'l', 'a', 's', 'h'] {
        Some('\u{f8}')
    } else if name == seq!['u', 'g', 'r', 'a', 'v', 'e'] {
        Some('\u{f9}')
    } else if name == seq!['u', 'a', 'c', 'u', 't', 'e'] {
        Some('\u{fa}')
    } else if name == seq!['u', 'c', 'i', 'r', 'c'] {
        Some('\u{fb}')
    } else if name == seq!['u', 'u', 'm', 'l'] {
        Some('\u{fc}')
    } else if name == seq!['y', 'a', 'c', 'u', 't', 'e'] {
        Some('\u{fd}')
    } else if name == seq!['t', 'h', 'o', 'r', 'n'] {
        Some('\u{fe}')
    } else if name == seq!['y', 'u', 'm', 'l'] {
        Some('\u{ff}')
    } else if name == seq!['O', 'E', 'l', 'i', 'g'] {
        Some('\u{152}')
    } else if name == seq!['o', 'e', 'l', 'i', 'g'] {
        Some('\u{153}')
    } else if name == seq!['S', 'c', 'a', 'r', 'o', 'n'] {
        Some('\u{160}')
    } else if name == seq!['s', 'c', 'a', 'r', 'o', 'n'] {
        Some('\u{161}')
    } else if name == seq!['Y', 'u', 'm', 'l'] {
        Some('\u{178}')
    } else if name == seq!['f', 'n', 'o', 'f'] {
        Some('\u{192}')
    } else if name == seq!['c', 'i', 'r', 'c'] {
        Some('\u{2c6}')
    } else if name == seq!['t', 'i', 'l', 'd', 'e'] {
        Some('\u{2dc}')
    } else if name == seq!['e', 'n', 's', 'p'] {
        Some('\u{2002}')
    } else if name == seq!['e', 'm', 's', 'p'] {
        Some('\u{2003}')
    } else if name == seq!['t', 'h', 'i', 'n', 's', 'p'] {
        Some('\u{2009}')
    } else if name == seq!['z', 'w', 'n', 'j'] {
        Some('\u{200c}')
    } else if name == seq!['z', 'w', 'j'] {
        Some('\u{200d}')
    } else if name == seq!['l', 'r', 'm'] {
        Some('\u{200e}')
    } else if name == seq!['r', 'l', 'm'] {
        Some('\u{200f}')
    } else if name == seq!['n', 'd', 'a', 's', 'h'] {
        Some('\u{2013}')
    } else if name == seq!['m', 'd', 'a', 's', 'h'] {
        Some('\u{2014}')
    } else if name == seq!['l', 's', 'q', 'u', 'o'] {
        Some('\u{2018}')
    } else if name == seq!['r', 's', 'q', 'u', 'o'] {
        Some('\u{2019}')
    } else if name == seq!['s', 'b', 'q', 'u', 'o'] {
        Some('\u{201a}')
    } else if name == seq!['l', 'd', 'q', 'u', 'o'] {
        Some('\u{201c}')
    } else if name == seq!['r', 'd', 'q', 'u', 'o'] {
        Some('\u{201d}')
    } else if name == seq!['b', 'd', 'q', 'u', 'o'] {
        Some('\u{201e}')
    } else if name == seq!['d', 'a', 'g', 'g', 'e', 'r'] {
        Some('\u{2020}')
    } else if name == seq!['D', 'a', 'g', 'g', 'e', 'r'] {
        Some('\u{2021}')
    } else if name == seq!['b', 'u', 'l', 'l'] {
        Some('\u{2022}')
    } else if name == seq!['h', 'e', 'l', 'l', 'i', 'p'] {
        Some('\u{2026}')
    } else if name == seq!['p', 'e', 'r', 'm', 'i', 'l'] {
        Some('\u{2030}')
    } else if name == seq!['p', 'r', 'i', 'm', 'e'] {
        Some('\u{2032}')
    } else if name == seq!['P', 'r', 'i', 'm', 'e'] {
        Some('\u{2033}')
    } else if name == seq!['l', 's', 'a', 'q', 'u', 'o'] {
        Some('\u{2039}')
    } else if name == seq!['r', 's', 'a', 'q', 'u', 'o'] {
        Some('\u{203a}')
    } else if name == seq!['o', 'l', 'i', 'n', 'e'] {
        Some('\u{203e}')
    } else if name == seq!['f', 'r', 'a', 's', 'l'] {
        Some('\u{2044}')
    } else if name == seq!['e', 'u', 'r', 'o'] {
        Some('\u{20ac}')
    } else if name == seq!['t', 'r', 'a', 'd', 'e'] {
        Some('\u{2122}')
    } else if name == seq!['l', 'a', 'r', 'r'] {
        Some('\u{2190}')
    } else if name == seq!['u', 'a', 'r', 'r'] {
        Some('\u{2191}')
    } else if name == seq!['r', 'a', 'r', 'r'] {
        Some('\u{2192}')
    } else if name == seq!['d', 'a', 'r', 'r'] {
        Some('\u{2193}')
    } else if name == seq!['h', 'a', 'r', 'r'] {
        Some('\u{2194}')
    } else if name == seq!['m', 'i', 'n', 'u', 's'] {
        Some('\u{2212}')
    } else if name == seq!['i', 'n', 'f', 'i', 'n'] {
        Some('\u{221e}')
    } else if name == seq!['n', 'e'] {
        Some('\u{2260}')
    } else if name == seq!['l', 'e'] {
        Some('\u{2264}')
    } else if name == seq!['g', 'e'] {
        Some('\u{2265}')
    } else if name == seq!['h', 'e', 'a', 'r', 't', 's'] {
        Some('\u{2665}')
    } else {
        None
    }
}

/// Looks `name` up in the table of named character references (case-sensitive).
pub fn lookup_named_entity(name: &[char]) -> (r: Option<char>)
    ensures
        r == named_entity(name@),
{
    if chars_eq(name, &['a', 'm', 'p']) {
        Some('&')
    } else if chars_eq(name, &['l', 't']) {
        Some('<')
    } else if chars_eq(name, &['g', 't']) {
        Some('>')
    } else if chars_eq(name, &['q', 'u', 'o', 't']) {
        Some('"')
    } else if chars_eq(name, &['a', 'p', 'o', 's']) {
        Some('\'')
    } else if chars_eq(name, &['n', 'b', 's', 'p']) {
        Some('\u{a0}')
    } else if chars_eq(name, &['i', 'e', 'x', 'c', 'l']) {
        Some('\u{a1}')
    } else if chars_eq(name, &['c', 'e', 'n', 't']) {
        Some('\u{a2}')
    } else if chars_eq(name, &['p', 'o', 'u', 'n', 'd']) {
        Some('\u{a3}')
    } else if chars_eq(name, &['c', 'u', 'r', 'r', 'e', 'n']) {
        Some('\u{a4}')
    } else if chars_eq(name, &['y', 'e', 'n']) {
        Some('\u{a5}')
    } else if chars_eq(name, &['b', 'r', 'v', 'b', 'a', 'r']) {
        Some('\u{a6}')
    } else if chars_eq(name, &['s', 'e', 'c', 't']) {
        Some('\u{a7}')
    } else if chars_eq(name, &['u', 'm', 'l']) {
        Some('\u{a8}')
    } else if chars_eq(name, &['c', 'o', 'p', 'y']) {
        Some('\u{a9}')
    } else if chars_eq(name, &['o', 'r', 'd', 'f']) {
        Some('\u{aa}')
    } else if chars_eq(name, &['l', 'a', 'q', 'u', 'o']) {
        Some('\u{ab}')
    } else if chars_eq(name, &['n', 'o', 't']) {
        Some('\u{ac}')
    } else if chars_eq(name, &['s', 'h', 'y']) {
        Some('\u{ad}')
    } else if chars_eq(name, &['r', 'e', 'g']) {
        Some('\u{ae}')
    } else if chars_eq(name, &['m', 'a', 'c', 'r']) {
        Some('\u{af}')
    } else if chars_eq(name, &['d', 'e', 'g']) {
        Some('\u{b0}')
    } else if chars_eq(name, &['p', 'l', 'u', 's', 'm', 'n']) {
        Some('\u{b1}')
    } else if chars_eq(name, &['s', 'u', 'p', '2']) {
        Some('\u{b2}')
    } else if chars_eq(name, &['s', 'u', 'p', '3']) {
        Some('\u{b3}')
    } else if chars_eq(name, &['a', 'c', 'u', 't', 'e']) {
        Some('\u{b4}')
    } else if chars_eq(name, &['m', 'i', 'c', 'r', 'o']) {
        Some('\u{b5}')
    } else if chars_eq(name, &['p', 'a', 'r', 'a']) {
        Some('\u{b6}')
    } else if chars_eq(name, &['m', 'i', 'd', 'd', 'o', 't']) {
        Some('\u{b7}')
    } else if chars_eq(name, &['c', 'e', 'd', 'i', 'l']) {
        Some('\u{b8}')
    } else if chars_eq(name, &['s', 'u', 'p', '1']) {
        Some('\u{b9}')
    } else if chars_eq(name, &['o', 'r', 'd', 'm']) {
        Some('\u{ba}')
    } else if chars_eq(name, &['r', 'a', 'q', 'u', 'o']) {
        Some('\u{bb}')
    } else if chars_eq(name, &['f', 'r', 'a', 'c', '1', '4']) {
        Some('\u{bc}')
    } else if chars_eq(name, &['f', 'r', 'a', 'c', '1', '2']) {
        Some('\u{bd}')
    } else if chars_eq(name, &['f', 'r', 'a', 'c', '3', '4']) {
        Some('\u{be}')
    } else if chars_eq(name, &['i', 'q', 'u', 'e', 's', 't']) {
        Some('\u{bf}')
    } else if chars_eq(name, &['A', 'g', 'r', 'a', 'v', 'e']) {
        Some('\u{c0}')
    } else if chars_eq(name, &['A', 'a', 'c', 'u', 't', 'e']) {
        Some('\u{c1}')
    } else if chars_eq(name, &['A', 'c', 'i', 'r', 'c']) {
        Some('\u{c2}')
    } else if chars_eq(name, &['A', 't', 'i', 'l', 'd', 'e']) {
        Some('\u{c3}')
    } else if chars_eq(name, &['A', 'u', 'm', 'l']) {
        Some('\u{c4}')
    } else if chars_eq(name, &['A', 'r', 'i', 'n', 'g']) {
        Some('\u{c5}')
    } else if chars_eq(name, &['A', 'E', 'l', 'i', 'g']) {
        Some('\u{c6}')
    } else if chars_eq(name, &['C', 'c', 'e', 'd', 'i', 'l']) {
        Some('\u{c7}')
    } else if chars_eq(name, &['E', 'g', 'r', 'a', 'v', 'e']) {
        Some('\u{c8}')
    } else if chars_eq(name, &['E', 'a', 'c', 'u', 't', 'e']) {
        Some('\u{c9}')
    } else if chars_eq(name, &['E', 'c', 'i', 'r', 'c']) {
        Some('\u{ca}')
    } else if chars_eq(name, &['E', 'u', 'm', 'l']) {
        Some('\u{cb}')
    } else if chars_eq(name, &['I', 'g', 'r', 'a', 'v', 'e']) {
        Some('\u{cc}')
    } else if chars_eq(name, &['I', 'a', 'c', 'u', 't', 'e']) {
        Some('\u{cd}')
    } else if chars_eq(name, &['I', 'c', 'i', 'r', 'c']) {
        Some('\u{ce}')
    } else if chars_eq(name, &['I', 'u', 'm', 'l']) {
        Some('\u{cf}')
    } else if chars_eq(name, &['E', 'T', 'H']) {
        Some('\u{d0}')
    } else if chars_eq(name, &['N', 't', 'i', 'l', 'd', 'e']) {
        Some('\u{d1}')
    } else if chars_eq(name, &['O', 'g', 'r', 'a', 'v', 'e']) {
        Some('\u{d2}')
    } else if chars_eq(name, &['O', 'a', 'c', 'u', 't', 'e']) {
        Some('\u{d3}')
    } else if chars_eq(name, &['O', 'c', 'i', 'r', 'c']) {
        Some('\u{d4}')
    } else if chars_eq(name, &['O', 't', 'i', 'l', 'd', 'e']) {
        Some('\u{d5}')
    } else if chars_eq(name, &['O', 'u', 'm', 'l']) {
        Some('\u{d6}')
    } else if chars_eq(name, &['t', 'i', 'm', 'e', 's']) {
        Some('\u{d7}')
    } else if chars_eq(name, &['O', 's', 'l', 'a', 's', 'h']) {
        Some('\u{d8}')
    } else if chars_eq(name, &['U', 'g', 'r', 'a', 'v', 'e']) {
        Some('\u{d9}')
    } else if chars_eq(name, &['U', 'a', 'c', 'u', 't', 'e']) {
        Some('\u{da}')
    } else if chars_eq(name, &['U', 'c', 'i', 'r', 'c']) {
        Some('\u{db}')
    } else if chars_eq(name, &['U', 'u', 'm', 'l']) {
        Some('\u{dc}')
    } else if chars_eq(name, &['Y', 'a', 'c', 'u', 't', 'e']) {
        Some('\u{dd}')
    } else if chars_eq(name, &['T', 'H', 'O', 'R', 'N']) {
        Some('\u{de}')
    } else if chars_eq(name, &['s', 'z', 'l', 'i', 'g']) {
        Some('\u{df}')
    } else if chars_eq(name, &['a', 'g', 'r', 'a', 'v', 'e']) {
        Some('\u{e0}')
    } else if chars_eq(name, &['a', 'a', 'c', 'u', 't', 'e']) {
        Some('\u{e1}')
    } else if chars_eq(name, &['a', 'c', 'i', 'r', 'c']) {
        Some('\u{e2}')
    } else if chars_eq(name, &['a', 't', 'i', 'l', 'd', 'e']) {
        Some('\u{e3}')
    } else if chars_eq(name, &['a', 'u', 'm', 'l']) {
        Some('\u{e4}')
    } else if chars_eq(name, &['a', 'r', 'i', 'n', 'g']) {
        Some('\u{e5}')
    } else if chars_eq(name, &['a', 'e', 'l', 'i', 'g']) {
        Some('\u{e6}')
    } else if chars_eq(name, &['c', 'c', 'e', 'd', 'i', 'l']) {
        Some('\u{e7}')
    } else if chars_eq(name, &['e', 'g', 'r', 'a', 'v', 'e']) {
        Some('\u{e8}')
    } else if chars_eq(name, &['e', 'a', 'c', 'u', 't', 'e']) {
        Some('\u{e9}')
    } else if chars_eq(name, &['e', 'c', 'i', 'r', 'c']) {
        Some('\u{ea}')
    } else if chars_eq(name, &['e', 'u', 'm', 'l']) {
        Some('\u{eb}')
    } else if chars_eq(name, &['i', 'g', 'r', 'a', 'v', 'e']) {
        Some('\u{ec}')
    } else if chars_eq(name, &['i', 'a', 'c', 'u', 't', 'e']) {
        Some('\u{ed}')
    } else if chars_eq(name, &['i', 'c', 'i', 'r', 'c']) {
        Some('\u{ee}')
    } else if chars_eq(name, &['i', 'u', 'm', 'l']) {
        Some('\u{ef}')
    } else if chars_eq(name, &['e', 't', 'h']) {
        Some('\u{f0}')
    } else if chars_eq(name, &['n', 't', 'i', 'l', 'd', 'e']) {
        Some('\u{f1}')
    } else if chars_eq(name, &['o', 'g', 'r', 'a', 'v', 'e']) {
        Some('\u{f2}')
    } else if chars_eq(name, &['o', 'a', 'c', 'u', 't', 'e']) {
        Some('\u{f3}')
    } else if chars_eq(name, &['o', 'c', 'i', 'r', 'c']) {
        Some('\u{f4}')
    } else if chars_eq(name, &['o', 't', 'i', 'l', 'd', 'e']) {
        Some('\u{f5}')
    } else if chars_eq(name, &['o', 'u', 'm', 'l']) {
        Some('\u{f6}')
    } else if chars_eq(name, &['d', 'i', 'v', 'i', 'd', 'e']) {
        Some('\u{f7}')
    } else if chars_eq(name, &['o', 's', 'l', 'a', 's', 'h']) {
        Some('\u{f8}')
    } else if chars_eq(name, &['u', 'g', 'r', 'a', 'v', 'e']) {
        Some('\u{f9}')
    } else if chars_eq(name, &['u', 'a', 'c', 'u', 't', 'e']) {
        Some('\u{fa}')
    } else if chars_eq(name, &['u', 'c', 'i', 'r', 'c']) {
        Some('\u{fb}')
    } else if chars_eq(name, &['u', 'u', 'm', 'l']) {
        Some('\u{fc}')
    } else if chars_eq(name, &['y', 'a', 'c', 'u', 't', 'e']) {
        Some('\u{fd}')
    } else if chars_eq(name, &['t', 'h', 'o', 'r', 'n']) {
        Some('\u{fe}')
    } else if chars_eq(name, &['y', 'u', 'm', 'l']) {
        Some('\u{ff}')
    } else if chars_eq(name, &['O', 'E', 'l', 'i', 'g']) {
        Some('\u{152}')
    } else if chars_eq(name, &['o', 'e', 'l', 'i', 'g']) {
        Some('\u{153}')
    } else if chars_eq(name, &['S', 'c', 'a', 'r', 'o', 'n']) {
        Some('\u{160}')
    } else if chars_eq(name, &['s', 'c', 'a', 'r', 'o', 'n']) {
        Some('\u{161}')
    } else if chars_eq(name, &['Y', 'u', 'm', 'l']) {
        Some('\u{178}')
    } else if chars_eq(name, &['f', 'n', 'o', 'f']) {
        Some('\u{192}')
    } else if chars_eq(name, &['c', 'i', 'r', 'c']) {
        Some('\u{2c6}')
    } else if chars_eq(name, &['t', 'i', 'l', 'd', 'e']) {
        Some('\u{2dc}')
    } else if chars_eq(name, &['e', 'n', 's', 'p']) {
        Some('\u{2002}')
    } else if chars_eq(name, &['e', 'm', 's', 'p']) {
        Some('\u{2003}')
    } else if chars_eq(name, &['t', 'h', 'i', 'n', 's', 'p']) {
        Some('\u{2009}')
    } else if chars_eq(name, &['z', 'w', 'n', 'j']) {
        Some('\u{200c}')
    } else if chars_eq(name, &['z', 'w', 'j']) {
        Some('\u{200d}')
    } else if chars_eq(name, &['l', 'r', 'm']) {
        Some('\u{200e}')
    } else if chars_eq(name, &['r', 'l', 'm']) {
        Some('\u{200f}')
    } else if chars_eq(name, &['n', 'd', 'a', 's', 'h']) {
        Some('\u{2013}')
    } else if chars_eq(name, &['m', 'd', 'a', 's', 'h']) {
        Some('\u{2014}')
    } else if chars_eq(name, &['l', 's', 'q', 'u', 'o']) {
        Some('\u{2018}')
    } else if chars_eq(name, &['r', 's', 'q', 'u', 'o']) {
        Some('\u{2019}')
    } else if chars_eq(name, &['s', 'b', 'q', 'u', 'o']) {
        Some('\u{201a}')
    } else if chars_eq(name, &['l', 'd', 'q', 'u', 'o']) {
        Some('\u{201c}')
    } else if chars_eq(name, &['r', 'd', 'q', 'u', 'o']) {
        Some('\u{201d}')
    } else if chars_eq(name, &['b', 'd', 'q', 'u', 'o']) {
        Some('\u{201e}')
    } else if chars_eq(name, &['d', 'a', 'g', 'g', 'e', 'r']) {
        Some('\u{2020}')
    } else if chars_eq(name, &['D', 'a', 'g', 'g', 'e', 'r']) {
        Some('\u{2021}')
    } else if chars_eq(name, &['b', 'u', 'l', 'l']) {
        Some('\u{2022}')
    } else if chars_eq(name, &['h', 'e', 'l', 'l', 'i', 'p']) {
        Some('\u{2026}')
    } else if chars_eq(name, &['p', 'e', 'r', 'm', 'i', 'l']) {
        Some('\u{2030}')
    } else if chars_eq(name, &['p', 'r', 'i', 'm', 'e']) {
        Some('\u{2032}')
    } else if chars_eq(name, &['P', 'r', 'i', 'm', 'e']) {
        Some('\u{2033}')
    } else if chars_eq(name, &['l', 's', 'a', 'q', 'u', 'o']) {
        Some('\u{2039}')
    } else if chars_eq(name, &['r', 's', 'a', 'q', 'u', 'o']) {
        Some('\u{203a}')
    } else if chars_eq(name, &['o', 'l', 'i', 'n', 'e']) {
        Some('\u{203e}')
    } else if chars_eq(name, &['f', 'r', 'a', 's', 'l']) {
        Some('\u{2044}')
    } else if chars_eq(name, &['e', 'u', 'r', 'o']) {
        Some('\u{20ac}')
    } else if chars_eq(name, &['t', 'r', 'a', 'd', 'e']) {
        Some('\u{2122}')
    } else if chars_eq(name, &['l', 'a', 'r', 'r']) {
        Some('\u{2190}')
    } else if chars_eq(name, &['u', 'a', 'r', 'r']) {
        Some('\u{2191}')
    } else if chars_eq(name, &['r', 'a', 'r', 'r']) {
        Some('\u{2192}')
    } else if chars_eq(name, &['d', 'a', 'r', 'r']) {
        Some('\u{2193}')
    } else if chars_eq(name, &['h', 'a', 'r', 'r']) {
        Some('\u{2194}')
    } else if chars_eq(name, &['m', 'i', 'n', 'u', 's']) {
        Some('\u{2212}')
    } else if chars_eq(name, &['i', 'n', 'f', 'i', 'n']) {
        Some('\u{221e}')
    } else if chars_eq(name, &['n', 'e']) {
        Some('\u{2260}')
    } else if chars_eq(name, &['l', 'e']) {
        Some('\u{2264}')
    } else if chars_eq(name, &['g', 'e']) {
        Some('\u{2265}')
    } else if chars_eq(name, &['h', 'e', 'a', 'r', 't', 's']) {
        Some('\u{2665}')
    } else {
        None
    }
}

} // verus!
