//! A character cursor over the input text with one character of lookahead.
use vstd::prelude::*;

verus! {

use crate::utils::{
    html_whitespace,
    is_html_whitespace,
    entity_char,
    decode_entity_chars,
    chars_of,
    string_of,
    contains_char,
    append_chars,
};

/// Whether `c` ends a run read by `get_until`.
pub open spec fn stops_at(c: char, stop_on_ws: bool, ends: Seq<char>) -> bool {
    (stop_on_ws && html_whitespace(c)) || ends.contains(c)
}

/// Length of the longest prefix of `s` that `get_until` reads.
pub open spec fn until_len(s: Seq<char>, stop_on_ws: bool, ends: Seq<char>) -> nat
    decreases s.len(),
{
    if s.len() == 0 || stops_at(s[0], stop_on_ws, ends) {
        0
    } else {
        1 + until_len(s.drop_first(), stop_on_ws, ends)
    }
}

/// Length of the run of markup whitespace at the start of `s`.
pub open spec fn ws_len(s: Seq<char>) -> nat
    decreases s.len(),
{
    if s.len() == 0 || !html_whitespace(s[0]) {
        0
    } else {
        1 + ws_len(s.drop_first())
    }
}

/// `s` without its leading markup whitespace.
pub open spec fn skip_ws(s: Seq<char>) -> Seq<char> {
    s.skip(ws_len(s) as int)
}

/// Whether `c` ends the name of a character reference that `read_text` is reading: a
/// character of `ends`, markup whitespace, or `;`.
pub open spec fn ends_entity(c: char, ends: Seq<char>) -> bool {
    ends.contains(c) || html_whitespace(c) || c == ';'
}

/// Number of characters after an `&` before the character that ends the reference.
pub open spec fn entity_scan(t: Seq<char>, ends: Seq<char>) -> nat
    decreases t.len(),
{
    if t.len() == 0 || ends_entity(t[0], ends) {
        0
    } else {
        1 + entity_scan(t.drop_first(), ends)
    }
}

/// `entity_scan` stays within its input.
pub proof fn lemma_entity_scan_bound(t: Seq<char>, ends: Seq<char>)
    ensures
        entity_scan(t, ends) <= t.len(),
    decreases t.len(),
{
    if t.len() > 0 && !ends_entity(t[0], ends) {
        lemma_entity_scan_bound(t.drop_first(), ends);
    }
}

/// `until_len` stays within its input.
pub proof fn lemma_until_len_bound(s: Seq<char>, stop_on_ws: bool, ends: Seq<char>)
    ensures
        until_len(s, stop_on_ws, ends) <= s.len(),
    decreases s.len(),
{
    if s.len() > 0 && !stops_at(s[0], stop_on_ws, ends) {
        lemma_until_len_bound(s.drop_first(), stop_on_ws, ends);
    }
}

/// `ws_len` stays within its input.
pub proof fn lemma_ws_len_bound(s: Seq<char>)
    ensures
        ws_len(s) <= s.len(),
    decreases s.len(),
{
    if s.len() > 0 && html_whitespace(s[0]) {
        lemma_ws_len_bound(s.drop_first());
    }
}

/// Text read up to the first character of `ends`, with character references decoded:
/// the text, and what is left of the input.
#[verifier::opaque]
pub open spec fn text_read(s: Seq<char>, ends: Seq<char>) -> (Seq<char>, Seq<char>)
    decreases s.len(),
    via text_read_decreases
{
    if s.len() == 0 || ends.contains(s[0]) {
        (seq![], s)
    } else if s[0] == '&' {
        let t = s.drop_first();
        let k = entity_scan(t, ends);
        if k < t.len() && t[k as int] == ';' && !ends.contains(';') {
            let piece = match entity_char(t.take(k as int)) {
                Some(c) => seq![c],
                None => s.take(k + 2int),
            };
            let r = text_read(t.skip(k + 1int), ends);
            (piece + r.0, r.1)
        } else {
            let r = text_read(t.skip(k as int), ends);
            (s.take(k + 1int) + r.0, r.1)
        }
    } else {
        let r = text_read(s.drop_first(), ends);
        (seq![s[0]] + r.0, r.1)
    }
}

#[via_fn]
proof fn text_read_decreases(s: Seq<char>, ends: Seq<char>) {
    if s.len() > 0 {
        lemma_entity_scan_bound(s.drop_first(), ends);
    }
}

/// How `text_read` goes on over a character that is not `&` and does not stop it.
pub proof fn lemma_text_read_plain(s: Seq<char>, ends: Seq<char>)
    requires
        s.len() > 0,
        !ends.contains(s[0]),
        s[0] != '&',
    ensures
        text_read(s, ends) == (seq![s[0]] + text_read(s.drop_first(), ends).0, text_read(
            s.drop_first(),
            ends,
        ).1),
{
    reveal(text_read);
}

/// How `text_read` stops.
pub proof fn lemma_text_read_stop(s: Seq<char>, ends: Seq<char>)
    requires
        s.len() == 0 || ends.contains(s[0]),
    ensures
        text_read(s, ends) == (Seq::<char>::empty(), s),
{
    reveal(text_read);
}

/// How `text_read` goes on over a character reference.
pub proof fn lemma_text_read_entity(s: Seq<char>, ends: Seq<char>)
    requires
        s.len() > 0,
        !ends.contains(s[0]),
        s[0] == '&',
    ensures
        ({
            let t = s.drop_first();
            let k = entity_scan(t, ends);
            if k < t.len() && t[k as int] == ';' && !ends.contains(';') {
                let piece = match entity_char(t.take(k as int)) {
                    Some(c) => seq![c],
                    None => s.take(k + 2int),
                };
                text_read(s, ends) == (piece + text_read(t.skip(k + 1int), ends).0, text_read(
                    t.skip(k + 1int),
                    ends,
                ).1)
            } else {
                text_read(s, ends) == (s.take(k + 1int) + text_read(t.skip(k as int), ends).0,
                text_read(t.skip(k as int), ends).1)
            }
        }),
{
    reveal(text_read);
}

/// Whether the first `j` characters of `s` end with `end`.
pub open spec fn ends_at(s: Seq<char>, end: Seq<char>, j: int) -> bool {
    end.len() <= j <= s.len() && s.subrange(j - end.len(), j) == end
}

/// The first `j > i` at which the first `j` characters of `s` end with `end`, or `s.len()`.
pub open spec fn raw_stop(s: Seq<char>, end: Seq<char>, i: int) -> int
    decreases s.len() - i,
{
    if i >= s.len() {
        s.len() as int
    } else if ends_at(s, end, i + 1) {
        i + 1
    } else {
        raw_stop(s, end, i + 1)
    }
}

/// Raw text up to the marker `end`, which is read and dropped: the text, and what is left.
/// Without a marker the whole input is the text.
pub open spec fn raw_read(s: Seq<char>, end: Seq<char>) -> (Seq<char>, Seq<char>) {
    let k = raw_stop(s, end, 0);
    if ends_at(s, end, k) {
        (s.take(k - end.len()), s.skip(k))
    } else {
        (s, seq![])
    }
}

/// Facts on reading the character at index `n` of `s`.
pub proof fn lemma_step(s: Seq<char>, n: int)
    requires
        0 <= n < s.len(),
    ensures
        s.skip(n).len() > 0,
        s.skip(n)[0] == s[n],
        s.skip(n).drop_first() == s.skip(n + 1),
        s.take(n + 1) == s.take(n).push(s[n]),
{
    assert(s.skip(n).drop_first() =~= s.skip(n + 1));
    assert(s.take(n + 1) =~= s.take(n).push(s[n]));
}

/// The smaller of two numbers.
pub open spec fn min_nat(a: nat, b: nat) -> nat {
    if a < b {
        a
    } else {
        b
    }
}

/// A cursor over the characters of a text. Its view is the sequence of characters not yet
/// read, a pushed-back character first.
pub struct Reader {
    chars: Vec<char>,
    pos: usize,
    pushback: Option<char>,
}

impl View for Reader {
    type V = Seq<char>;

    closed spec fn view(&self) -> Seq<char> {
        match self.pushback {
            Some(c) => seq![c] + self.chars@.skip(self.pos as int),
            None => self.chars@.skip(self.pos as int),
        }
    }
}

impl Reader {
    #[verifier::type_invariant]
    closed spec fn inv(&self) -> bool {
        self.pos <= self.chars@.len()
    }

    /// Whether a pushed-back character is waiting.
    pub closed spec fn has_pushback(&self) -> bool {
        self.pushback is Some
    }

    /// A reader over the characters of `chars`.
    pub fn new(chars: &str) -> (r: Reader)
        ensures
            r@ == chars@,
            !r.has_pushback(),
    {
        let v = chars_of(chars);
        let r = Reader { chars: v, pos: 0, pushback: None };
        assert(r@ =~= chars@);
        r
    }

    /// Takes the next character, or `None` at the end of the input.
    pub fn next_char(&mut self) -> (r: Option<char>)
        ensures
            old(self)@.len() == 0 ==> r is None && final(self)@ == old(self)@,
            old(self)@.len() > 0 ==> r == Some(old(self)@[0]) && final(self)@ == old(
                self,
            )@.drop_first(),
            !final(self).has_pushback(),
    {
        proof {
            use_type_invariant(&*self);
        }
        match self.pushback {
            Some(c) => {
                self.pushback = None;
                assert(self@ =~= old(self)@.drop_first());
                Some(c)
            },
            None => {
                if self.pos < self.chars.len() {
                    let c = self.chars[self.pos];
                    self.pos = self.pos + 1;
                    assert(self@ =~= old(self)@.drop_first());
                    Some(c)
                } else {
                    None
                }
            },
        }
    }

    /// Consumes the next character if it is `ignored_ch`.
    pub fn ignore_if_next(&mut self, ignored_ch: char) -> (r: bool)
        ensures
            r == (old(self)@.len() > 0 && old(self)@[0] == ignored_ch),
            final(self)@ == if r {
                old(self)@.drop_first()
            } else {
                old(self)@
            },
    {
        if let Some(ch) = self.next_char() {
            if ch == ignored_ch {
                return true;
            }
            self.push_back(ch);
            assert(self@ =~= old(self)@);
        }
        false
    }

    /// Puts `ch` back in front of the characters not yet read.
    pub fn push_back(&mut self, ch: char)
        requires
            !old(self).has_pushback(),
        ensures
            final(self)@ == seq![ch] + old(self)@,
            final(self).has_pushback(),
    {
        proof {
            use_type_invariant(&*self);
        }
        self.pushback = Some(ch);
    }

    /// Reads up to the first character of `end_chars` (or markup whitespace, when
    /// `stop_on_ws`), which stays unread.
    pub fn get_until(&mut self, stop_on_ws: bool, end_chars: &[char]) -> (r: String)
        ensures
            r@ == old(self)@.take(until_len(old(self)@, stop_on_ws, end_chars@) as int),
            final(self)@ == old(self)@.skip(until_len(old(self)@, stop_on_ws, end_chars@) as int),
    {
        let v = self.take_until(stop_on_ws, end_chars);
        string_of(v.as_slice())
    }

    /// `get_until`, giving the characters as a vector.
    pub fn take_until(&mut self, stop_on_ws: bool, end_chars: &[char]) -> (r: Vec<char>)
        ensures
            r@ == old(self)@.take(until_len(old(self)@, stop_on_ws, end_chars@) as int),
            final(self)@ == old(self)@.skip(until_len(old(self)@, stop_on_ws, end_chars@) as int),
    {
        let ghost s = self@;
        let mut result: Vec<char> = Vec::new();
        loop
            invariant
                self@ == s.skip(result@.len() as int),
                result@ == s.take(result@.len() as int),
                until_len(s, stop_on_ws, end_chars@) == result@.len() + until_len(
                    self@,
                    stop_on_ws,
                    end_chars@,
                ),
            ensures
                self@ == s.skip(result@.len() as int),
                result@ == s.take(result@.len() as int),
                until_len(s, stop_on_ws, end_chars@) == result@.len(),
            decreases self@.len(),
        {
            let ghost cur = self@;
            match self.next_char() {
                Some(ch) => {
                    if (stop_on_ws && is_html_whitespace(ch)) || contains_char(end_chars, ch) {
                        self.push_back(ch);
                        assert(self@ =~= cur);
                        break;
                    } else {
                        proof {
                            lemma_until_len_bound(s, stop_on_ws, end_chars@);
                            lemma_step(s, result@.len() as int);
                        }
                        result.push(ch);
                    }
                },
                None => {
                    break;
                },
            }
        }
        result
    }

    /// Skips markup whitespace.
    pub fn skip_whitespace(&mut self)
        ensures
            final(self)@ == skip_ws(old(self)@),
    {
        let ghost s = self@;
        let ghost mut n: nat = 0;
        loop
            invariant
                self@ == s.skip(n as int),
                n <= s.len(),
                ws_len(s) == n + ws_len(self@),
            ensures
                self@ == s.skip(n as int),
                ws_len(s) == n,
            decreases self@.len(),
        {
            let ghost cur = self@;
            match self.next_char() {
                Some(ch) => {
                    if !is_html_whitespace(ch) {
                        self.push_back(ch);
                        assert(self@ =~= cur);
                        break;
                    }
                    proof {
                        lemma_ws_len_bound(s);
                        lemma_step(s, n as int);
                        n = n + 1;
                    }
                },
                None => {
                    break;
                },
            }
        }
    }

    /// Reads the name of a character reference after its `&`: up to `;` (consumed, and
    /// then `true` is returned), a character of `end` or markup whitespace (both left unread),
    /// or the end of the input.
    fn read_entity_name(&mut self, end: &[char]) -> (r: (Vec<char>, bool))
        ensures
            r.0@ == old(self)@.take(entity_scan(old(self)@, end@) as int),
            r.0@.len() == entity_scan(old(self)@, end@),
            r.1 == (r.0@.len() < old(self)@.len() && old(self)@[r.0@.len() as int] == ';'
                && !end@.contains(';')),
            r.1 ==> final(self)@ == old(self)@.skip(r.0@.len() + 1int),
            !r.1 ==> final(self)@ == old(self)@.skip(r.0@.len() as int),
    {
        let ghost t = self@;
        proof {
            lemma_entity_scan_bound(t, end@);
        }
        let mut entity: Vec<char> = Vec::new();
        let mut finished = false;
        loop
            invariant_except_break
                !finished,
                entity_scan(t, end@) == entity@.len() + entity_scan(self@, end@),
                self@ == t.skip(entity@.len() as int),
            invariant
                entity@ == t.take(entity@.len() as int),
                entity@.len() <= t.len(),
            ensures
                entity@ == t.take(entity@.len() as int),
                entity@.len() <= t.len(),
                entity_scan(t, end@) == entity@.len(),
                finished == (entity@.len() < t.len() && t[entity@.len() as int] == ';'
                    && !end@.contains(';')),
                finished ==> self@ == t.skip(entity@.len() + 1int),
                !finished ==> self@ == t.skip(entity@.len() as int),
            decreases self@.len(),
        {
            let ghost cur = self@;
            let ghost n = entity@.len() as int;
            match self.next_char() {
                None => {
                    break;
                },
                Some(c) => {
                    proof {
                        lemma_step(t, n);
                    }
                    if contains_char(end, c) || is_html_whitespace(c) {
                        self.push_back(c);
                        assert(self@ =~= cur);
                        break;
                    } else if c == ';' {
                        finished = true;
                        break;
                    } else {
                        entity.push(c);
                    }
                },
            }
        }
        (entity, finished)
    }

    /// Reads text up to the first character of `end`, which stays unread, decoding
    /// character references (see `text_read`).
    pub fn read_text(&mut self, end: &[char]) -> (r: String)
        ensures
            (r@, final(self)@) == text_read(old(self)@, end@),
    {
        let v = self.read_text_chars(end);
        string_of(v.as_slice())
    }

    /// `read_text`, giving the characters as a vector.
    pub fn read_text_chars(&mut self, end: &[char]) -> (r: Vec<char>)
        ensures
            (r@, final(self)@) == text_read(old(self)@, end@),
    {
        let ghost s = self@;
        let mut content: Vec<char> = Vec::new();
        loop
            invariant
                text_read(s, end@) == (content@ + text_read(self@, end@).0, text_read(
                    self@,
                    end@,
                ).1),
            ensures
                text_read(s, end@) == (content@, self@),
            decreases self@.len(),
        {
            let ghost cur = self@;
            let ghost before = content@;
            match self.next_char() {
                None => {
                    proof {
                        lemma_text_read_stop(cur, end@);
                    }
                    assert(content@ + seq![] =~= content@);
                    break;
                },
                Some(ch) => {
                    if contains_char(end, ch) {
                        self.push_back(ch);
                        assert(self@ =~= cur);
                        proof {
                            lemma_text_read_stop(cur, end@);
                        }
                        assert(content@ + seq![] =~= content@);
                        break;
                    } else if ch == '&' {
                        let (entity, finished) = self.read_entity_name(end);
                        let ghost t = cur.drop_first();
                        let ghost k = entity@.len() as int;
                        proof {
                            lemma_entity_scan_bound(t, end@);
                            lemma_text_read_entity(cur, end@);
                            assert(cur.take(k + 1) =~= seq!['&'] + entity@);
                        }
                        if finished {
                            match decode_entity_chars(entity.as_slice()) {
                                Some(c) => {
                                    content.push(c);
                                    assert(content@ =~= before + seq![c]);
                                },
                                None => {
                                    assert(cur.take(k + 2) =~= seq!['&'] + entity@ + seq![';']);
                                    content.push('&');
                                    append_chars(&mut content, entity.as_slice());
                                    content.push(';');
                                    assert(content@ =~= before + cur.take(k + 2));
                                },
                            }
                        } else {
                            content.push('&');
                            append_chars(&mut content, entity.as_slice());
                            assert(content@ =~= before + cur.take(k + 1));
                        }
                        assert(text_read(s, end@).0 =~= content@ + text_read(self@, end@).0);
                    } else {
                        proof {
                            lemma_text_read_plain(cur, end@);
                        }
                        content.push(ch);
                        assert(text_read(s, end@).0 =~= content@ + text_read(self@, end@).0);
                    }
                },
            }
        }
        content
    }

    /// Reads up to the marker `end` and drops the marker (see `raw_read`).
    pub fn read_raw(&mut self, end: &str) -> (r: String)
        ensures
            (r@, final(self)@) == raw_read(old(self)@, end@),
    {
        let ghost s = self@;
        let marker = chars_of(end);
        let mut content: Vec<char> = Vec::new();
        let mut found = false;
        loop
            invariant_except_break
                raw_stop(s, end@, 0) == raw_stop(s, end@, content@.len() as int),
                content@.len() == 0 || !ends_at(s, end@, content@.len() as int),
                !found,
            invariant
                marker@ == end@,
                content@.len() <= s.len(),
                content@ == s.take(content@.len() as int),
                self@ == s.skip(content@.len() as int),
            ensures
                content@.len() <= s.len(),
                content@ == s.take(content@.len() as int),
                self@ == s.skip(content@.len() as int),
                raw_stop(s, end@, 0) == content@.len(),
                found ==> ends_at(s, end@, content@.len() as int),
                !found ==> content@.len() == s.len(),
                !found ==> content@.len() == 0 || !ends_at(s, end@, content@.len() as int),
            decreases self@.len(),
        {
            let ghost n = content@.len() as int;
            match self.next_char() {
                None => {
                    break;
                },
                Some(ch) => {
                    proof {
                        lemma_step(s, n);
                    }
                    content.push(ch);
                    let hit = ends_with(content.as_slice(), marker.as_slice());
                    proof {
                        if n + 1 >= end@.len() {
                            assert(content@.subrange(n + 1 - end@.len(), n + 1) =~= s.subrange(
                                n + 1 - end@.len(),
                                n + 1,
                            ));
                        }
                    }
                    if hit {
                        found = true;
                        break;
                    }
                },
            }
        }
        if found {
            let keep = content.len() - marker.len();
            content.truncate(keep);
            assert(content@ =~= s.take(keep as int));
        } else {
            assert(content@ =~= s);
            assert(self@ =~= seq![]);
            if content.len() == 0 {
                assert(s.take(0) =~= s);
                assert(s.skip(0) =~= s);
            }
        }
        string_of(content.as_slice())
    }

    /// Reads `count` characters, or fewer where the input ends first.
    pub fn read_raw_count(&mut self, count: usize) -> (r: String)
        ensures
            r@ == old(self)@.take(min_nat(count as nat, old(self)@.len()) as int),
            final(self)@ == old(self)@.skip(min_nat(count as nat, old(self)@.len()) as int),
    {
        let v = self.read_raw_count_chars(count);
        string_of(v.as_slice())
    }

    /// `read_raw_count`, giving the characters as a vector.
    pub fn read_raw_count_chars(&mut self, count: usize) -> (r: Vec<char>)
        ensures
            r@ == old(self)@.take(min_nat(count as nat, old(self)@.len()) as int),
            final(self)@ == old(self)@.skip(min_nat(count as nat, old(self)@.len()) as int),
    {
        let ghost s = self@;
        let mut content: Vec<char> = Vec::new();
        let mut i: usize = 0;
        while i < count
            invariant
                i <= count,
                content@.len() == min_nat(i as nat, s.len()),
                content@ == s.take(content@.len() as int),
                self@ == s.skip(content@.len() as int),
                content@.len() < i ==> content@.len() == s.len(),
            decreases count - i,
        {
            match self.next_char() {
                Some(ch) => {
                    proof {
                        lemma_step(s, content@.len() as int);
                    }
                    content.push(ch);
                },
                None => {},
            }
            i = i + 1;
        }
        content
    }
}

/// Whether `a` ends with `b`.
fn ends_with(a: &[char], b: &[char]) -> (r: bool)
    ensures
        r == (b@.len() <= a@.len() && a@.subrange(a@.len() - b@.len(), a@.len() as int) == b@),
{
    if b.len() > a.len() {
        return false;
    }
    let alen = a.len();
    let off = alen - b.len();
    let mut i: usize = 0;
    while i < b.len()
        invariant
            alen == a@.len(),
            off + b@.len() == a@.len(),
            off + i <= a@.len(),
            i <= b@.len(),
            forall|j: int| 0 <= j < i ==> a@[off + j] == b@[j],
        decreases b@.len() - i,
    {
        if a[off + i] != b[i] {
            assert(a@.subrange(off as int, a@.len() as int)[i as int] != b@[i as int]);
            return false;
        }
        i = i + 1;
    }
    assert(a@.subrange(off as int, a@.len() as int) =~= b@);
    true
}

} // verus!
