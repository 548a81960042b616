//! A tolerant parser for HTML-like tag soup, and the builder of the document tree.
use vstd::prelude::*;

verus! {

use crate::dom::{AttrModel, Attributes, Document, DocumentModel, attrs_set, opt_view};
use crate::builder::{DomParseHandler, apply_events, initial_state, state_document};
use crate::reader::{
    Reader,
    text_read,
    raw_read,
    skip_ws,
    until_len,
    min_nat,
    entity_scan,
    ends_at,
    raw_stop,
    lemma_ws_len_bound,
    lemma_until_len_bound,
    lemma_entity_scan_bound,
    lemma_text_read_entity,
    lemma_text_read_plain,
    lemma_text_read_stop,
};
use crate::utils::{
    html_whitespace,
    unicode_whitespace,
    is_unicode_whitespace,
    void_element,
    raw_element,
    string_of,
    chars_of,
    chars_eq,
    append_chars,
    is_html_whitespace,
    is_void_name,
    is_raw_name,
};

/// What the parser reports to a handler.
pub enum ParseEvent {
    Text(Seq<char>),
    Comment(Seq<char>),
    CData(Seq<char>),
    Doctype(Seq<char>),
    ProcessingInstruction(Seq<char>),
    /// Name, attributes, whether the element is closed already, verbatim content.
    ElementStart(Seq<char>, Seq<AttrModel>, bool, Option<Seq<char>>),
    ElementEnd(Seq<char>),
    Finish,
}

/// The first character of `s`, if any.
pub open spec fn first(s: Seq<char>) -> Option<char> {
    if s.len() > 0 {
        Some(s[0])
    } else {
        None
    }
}

/// `s` after reading one character, if there is one.
pub open spec fn after_first(s: Seq<char>) -> Seq<char> {
    if s.len() > 0 {
        s.drop_first()
    } else {
        s
    }
}

/// ASCII lower case of a character.
pub open spec fn ascii_lower(c: char) -> char {
    if 'A' <= c <= 'Z' {
        ((c as u32 + 32) as u8) as char
    } else {
        c
    }
}

/// ASCII lower case of a text.
pub open spec fn lower(s: Seq<char>) -> Seq<char> {
    s.map_values(|c: char| ascii_lower(c))
}

/// `s` without leading Unicode whitespace.
pub open spec fn trim_front(s: Seq<char>) -> Seq<char>
    decreases s.len(),
{
    if s.len() > 0 && unicode_whitespace(s[0]) {
        trim_front(s.drop_first())
    } else {
        s
    }
}

/// `s` without trailing Unicode whitespace.
pub open spec fn trim_back(s: Seq<char>) -> Seq<char>
    decreases s.len(),
{
    if s.len() > 0 && unicode_whitespace(s.last()) {
        trim_back(s.drop_last())
    } else {
        s
    }
}

/// `s` without leading and trailing Unicode whitespace.
pub open spec fn trim(s: Seq<char>) -> Seq<char> {
    trim_back(trim_front(s))
}

/// Characters that stop a text run: `<`.
pub open spec fn lt_set() -> Seq<char> {
    seq!['<']
}

/// Characters that stop the text after a malformed `<!` construct: `<` and `>`.
pub open spec fn angle_set() -> Seq<char> {
    seq!['<', '>']
}

/// The end of a comment.
pub open spec fn comment_end() -> Seq<char> {
    seq!['-', '-', '>']
}

/// The end of a CDATA section.
pub open spec fn cdata_end() -> Seq<char> {
    seq![']', ']', '>']
}

/// The end of a processing instruction.
pub open spec fn pi_end() -> Seq<char> {
    seq!['?', '>']
}

/// A text run, and whether a `>` follows (which is then read as well).
pub open spec fn text_and_gt(s: Seq<char>) -> (Seq<char>, Seq<char>) {
    let (t, r) = text_read(s, angle_set());
    if r.len() > 0 && r[0] == '>' {
        (t.push('>'), r.drop_first())
    } else {
        (t, r)
    }
}

/// After `<![C`: a CDATA section, or the literal text read so far.
pub open spec fn cdata_step(s: Seq<char>) -> (Seq<ParseEvent>, Seq<char>) {
    let n = min_nat(5, s.len());
    let marker = s.take(n as int);
    let r = s.skip(n as int);
    if marker == seq!['D', 'A', 'T', 'A', '['] {
        let (c, r2) = raw_read(r, cdata_end());
        (seq![ParseEvent::CData(c)], r2)
    } else {
        let (t, r2) = text_and_gt(r);
        (seq![ParseEvent::Text(seq!['<', '!', '[', 'C'] + marker + t)], r2)
    }
}

/// After `<!DO`: a doctype, or the literal text read so far.
pub open spec fn doctype_step(s: Seq<char>) -> (Seq<ParseEvent>, Seq<char>) {
    let n = min_nat(5, s.len());
    let marker = s.take(n as int);
    let r = s.skip(n as int);
    if marker == seq!['C', 'T', 'Y', 'P', 'E'] {
        let (c, r2) = raw_read(r, seq!['>']);
        (seq![ParseEvent::Doctype(trim(c))], r2)
    } else {
        let (t, r2) = text_and_gt(r);
        (seq![ParseEvent::Text(seq!['<', '!', 'D', 'O'] + marker + t)], r2)
    }
}

/// After `<!`: a comment, CDATA section or doctype, or literal text.
pub open spec fn bang_step(s: Seq<char>) -> (Seq<ParseEvent>, Seq<char>) {
    let a = first(s);
    let r1 = after_first(s);
    let b = first(r1);
    let r2 = after_first(r1);
    if a == Some('-') && b == Some('-') {
        let (c, r) = raw_read(r2, comment_end());
        (seq![ParseEvent::Comment(c)], r)
    } else if a == Some('[') && b == Some('C') {
        cdata_step(r2)
    } else if a == Some('D') && b == Some('O') {
        doctype_step(r2)
    } else if a == Some('>') {
        (seq![ParseEvent::Text(seq!['<', '!', '>'])], r1)
    } else if a is Some && b == Some('>') {
        (seq![ParseEvent::Text(seq!['<', '!', a->0, '>'])], r2)
    } else if a is Some && b is Some {
        let (t, r) = text_and_gt(r2);
        (seq![ParseEvent::Text(seq!['<', '!', a->0, b->0] + t)], r)
    } else if a is Some {
        (seq![ParseEvent::Text(seq!['<', '!', a->0])], r2)
    } else {
        (seq![ParseEvent::Text(seq!['<', '!'])], r2)
    }
}

/// After `</`: an end tag.
pub open spec fn end_tag_step(s: Seq<char>) -> (Seq<ParseEvent>, Seq<char>) {
    let s1 = skip_ws(s);
    let k = until_len(s1, true, seq!['>']);
    let name = lower(s1.take(k as int));
    let s2 = skip_ws(s1.skip(k as int));
    (seq![ParseEvent::ElementEnd(name)], after_first(s2))
}

/// Stops an attribute name.
pub open spec fn attr_name_set() -> Seq<char> {
    seq!['=', '/', '>']
}

/// Stops an unquoted attribute value.
pub open spec fn unquoted_set() -> Seq<char> {
    seq![' ', '/', '>']
}

/// An attribute value after `=` and whitespace, and what is left after the value and the
/// one character that follows it.
pub open spec fn attr_value(s: Seq<char>) -> (Seq<char>, Seq<char>) {
    let (v, r) = if s[0] == '"' {
        text_read(s.drop_first(), seq!['"'])
    } else if s[0] == '\'' {
        text_read(s.drop_first(), seq!['\''])
    } else {
        text_read(s, unquoted_set())
    };
    (v, after_first(r))
}

/// The attributes of a start tag, added to `attrs`, and what is left of the input.
pub open spec fn attr_loop(s: Seq<char>, attrs: Seq<AttrModel>) -> (Seq<AttrModel>, Seq<char>)
    decreases s.len(),
    via attr_loop_decreases
{
    if s.len() == 0 || s[0] == '/' || s[0] == '>' {
        (attrs, s)
    } else if html_whitespace(s[0]) {
        attr_loop(skip_ws(s.drop_first()), attrs)
    } else {
        let k = until_len(s, true, attr_name_set());
        let name = s.take(k as int);
        let r1 = skip_ws(s.skip(k as int));
        if r1.len() == 0 {
            (attrs, r1)
        } else if r1[0] == '=' {
            let r2 = skip_ws(r1.drop_first());
            if r2.len() == 0 {
                (attrs_set(attrs, name, None), r2)
            } else {
                let (v, r3) = attr_value(r2);
                attr_loop(r3, attrs_set(attrs, name, Some(v)))
            }
        } else {
            attr_loop(r1, attrs_set(attrs, name, None))
        }
    }
}

/// `skip_ws` never lengthens its input, and keeps one that starts with no whitespace.
pub proof fn lemma_skip_ws_len(s: Seq<char>)
    ensures
        skip_ws(s).len() <= s.len(),
        s.len() > 0 && !html_whitespace(s[0]) ==> skip_ws(s) == s,
{
    lemma_ws_len_bound(s);
    if s.len() > 0 && !html_whitespace(s[0]) {
        assert(s.skip(0) =~= s);
    }
}

/// What `text_read` leaves is never longer than its input.
pub proof fn lemma_text_read_len(s: Seq<char>, ends: Seq<char>)
    ensures
        text_read(s, ends).1.len() <= s.len(),
    decreases s.len(),
{
    if s.len() > 0 && !ends.contains(s[0]) {
        if s[0] == '&' {
            lemma_text_read_entity(s, ends);
            let t = s.drop_first();
            lemma_entity_scan_bound(t, ends);
            let k = entity_scan(t, ends);
            if k < t.len() && t[k as int] == ';' && !ends.contains(';') {
                lemma_text_read_len(t.skip(k + 1int), ends);
            } else {
                lemma_text_read_len(t.skip(k as int), ends);
            }
        } else {
            lemma_text_read_plain(s, ends);
            lemma_text_read_len(s.drop_first(), ends);
        }
    } else {
        lemma_text_read_stop(s, ends);
    }
}

/// Reading an attribute value takes at least one character.
pub proof fn lemma_attr_value_len(s: Seq<char>)
    requires
        s.len() > 0,
    ensures
        attr_value(s).1.len() < s.len(),
{
    if s[0] == '"' {
        lemma_text_read_len(s.drop_first(), seq!['"']);
    } else if s[0] == '\'' {
        lemma_text_read_len(s.drop_first(), seq!['\'']);
    } else {
        lemma_text_read_len(s, unquoted_set());
    }
}

#[via_fn]
proof fn attr_loop_decreases(s: Seq<char>, attrs: Seq<AttrModel>) {
    if s.len() == 0 || s[0] == '/' || s[0] == '>' {
    } else if html_whitespace(s[0]) {
        lemma_skip_ws_len(s.drop_first());
    } else {
        let k = until_len(s, true, attr_name_set());
        lemma_until_len_bound(s, true, attr_name_set());
        let r1 = skip_ws(s.skip(k as int));
        lemma_skip_ws_len(s.skip(k as int));
        if k == 0 {
            assert(s.skip(0) =~= s);
            lemma_skip_ws_len(s);
            assert(s[0] == '=');
        }
        if r1.len() > 0 && r1[0] == '=' {
            let r2 = skip_ws(r1.drop_first());
            lemma_skip_ws_len(r1.drop_first());
            if r2.len() > 0 {
                lemma_attr_value_len(r2);
            }
        }
    }
}

/// The characters that close a raw element whose tag name was written `raw_name`.
pub open spec fn raw_close(raw_name: Seq<char>) -> Seq<char> {
    seq!['<', '/'] + raw_name + seq!['>']
}

/// After `<`: a start tag.
pub open spec fn start_tag_step(s: Seq<char>) -> (Seq<ParseEvent>, Seq<char>) {
    let s1 = skip_ws(s);
    let k = until_len(s1, true, seq!['>', '/']);
    let raw_name = s1.take(k as int);
    let name = lower(raw_name);
    let s2 = skip_ws(s1.skip(k as int));
    let (attrs, s3) = attr_loop(s2, seq![]);
    let (autoclose, s4) = if s3.len() > 0 && s3[0] == '/' {
        (true, after_first(s3.drop_first()))
    } else {
        (void_element(name), after_first(s3))
    };
    if !autoclose && raw_element(name) {
        let (c, r) = raw_read(s4, raw_close(raw_name));
        (seq![ParseEvent::ElementStart(name, attrs, false, Some(c))], r)
    } else {
        (seq![ParseEvent::ElementStart(name, attrs, autoclose, None)], s4)
    }
}

/// One step of the parser on a non-empty input: the events it reports, and what is left.
pub open spec fn step(s: Seq<char>) -> (Seq<ParseEvent>, Seq<char>) {
    let s1 = s.drop_first();
    if s[0] != '<' {
        let (t, r) = text_read(s, lt_set());
        (seq![ParseEvent::Text(t)], r)
    } else if s1.len() == 0 {
        (seq![ParseEvent::Text(seq!['<'])], s1)
    } else if s1[0] == '/' {
        end_tag_step(s1.drop_first())
    } else if s1[0] == '!' {
        bang_step(s1.drop_first())
    } else if s1[0] == '?' {
        let (c, r) = raw_read(s1.drop_first(), pi_end());
        (seq![ParseEvent::ProcessingInstruction(c)], r)
    } else {
        start_tag_step(s1)
    }
}

/// `text_read` takes at least one character where the first one does not stop it.
pub proof fn lemma_text_read_first(s: Seq<char>, ends: Seq<char>)
    requires
        s.len() > 0,
        !ends.contains(s[0]),
    ensures
        text_read(s, ends).1.len() < s.len(),
{
    if s[0] == '&' {
        lemma_text_read_entity(s, ends);
        let t = s.drop_first();
        lemma_entity_scan_bound(t, ends);
        let k = entity_scan(t, ends);
        if k < t.len() && t[k as int] == ';' && !ends.contains(';') {
            lemma_text_read_len(t.skip(k + 1int), ends);
        } else {
            lemma_text_read_len(t.skip(k as int), ends);
        }
    } else {
        lemma_text_read_plain(s, ends);
        lemma_text_read_len(s.drop_first(), ends);
    }
}

/// `raw_stop` stays between its start and the end of the input.
pub proof fn lemma_raw_stop_bounds(s: Seq<char>, end: Seq<char>, i: int)
    requires
        0 <= i <= s.len(),
    ensures
        i <= raw_stop(s, end, i) <= s.len(),
    decreases s.len() - i,
{
    if i < s.len() && !ends_at(s, end, i + 1) {
        lemma_raw_stop_bounds(s, end, i + 1);
    }
}

/// What `raw_read` leaves is never longer than its input.
pub proof fn lemma_raw_read_len(s: Seq<char>, end: Seq<char>)
    ensures
        raw_read(s, end).1.len() <= s.len(),
{
    lemma_raw_stop_bounds(s, end, 0);
}

/// What `text_and_gt` leaves is never longer than its input.
pub proof fn lemma_text_and_gt_len(s: Seq<char>)
    ensures
        text_and_gt(s).1.len() <= s.len(),
{
    lemma_text_read_len(s, angle_set());
}

/// What `attr_loop` leaves is never longer than its input.
pub proof fn lemma_attr_loop_len(s: Seq<char>, attrs: Seq<AttrModel>)
    ensures
        attr_loop(s, attrs).1.len() <= s.len(),
    decreases s.len(),
{
    if s.len() == 0 || s[0] == '/' || s[0] == '>' {
    } else if html_whitespace(s[0]) {
        lemma_skip_ws_len(s.drop_first());
        lemma_attr_loop_len(skip_ws(s.drop_first()), attrs);
    } else {
        let k = until_len(s, true, attr_name_set());
        lemma_until_len_bound(s, true, attr_name_set());
        let name = s.take(k as int);
        let r1 = skip_ws(s.skip(k as int));
        lemma_skip_ws_len(s.skip(k as int));
        if k == 0 {
            assert(s.skip(0) =~= s);
            lemma_skip_ws_len(s);
        }
        if r1.len() == 0 {
        } else if r1[0] == '=' {
            let r2 = skip_ws(r1.drop_first());
            lemma_skip_ws_len(r1.drop_first());
            if r2.len() > 0 {
                lemma_attr_value_len(r2);
                let (v, r3) = attr_value(r2);
                lemma_attr_loop_len(r3, attrs_set(attrs, name, Some(v)));
            }
        } else {
            lemma_attr_loop_len(r1, attrs_set(attrs, name, None));
        }
    }
}

/// Each step of the parser reads at least one character.
pub proof fn lemma_step_len(s: Seq<char>)
    requires
        s.len() > 0,
    ensures
        step(s).1.len() < s.len(),
{
    let s1 = s.drop_first();
    if s[0] != '<' {
        lemma_text_read_first(s, lt_set());
    } else if s1.len() == 0 {
    } else if s1[0] == '/' {
        let s2 = s1.drop_first();
        let t1 = skip_ws(s2);
        lemma_skip_ws_len(s2);
        lemma_until_len_bound(t1, true, seq!['>']);
        let k = until_len(t1, true, seq!['>']);
        lemma_skip_ws_len(t1.skip(k as int));
    } else if s1[0] == '!' {
        let s2 = s1.drop_first();
        let r1 = after_first(s2);
        let r2 = after_first(r1);
        lemma_raw_read_len(r2, comment_end());
        lemma_text_and_gt_len(r2);
        let n = min_nat(5, r2.len());
        lemma_raw_read_len(r2.skip(n as int), cdata_end());
        lemma_raw_read_len(r2.skip(n as int), seq!['>']);
        lemma_text_and_gt_len(r2.skip(n as int));
    } else if s1[0] == '?' {
        lemma_raw_read_len(s1.drop_first(), pi_end());
    } else {
        let t1 = skip_ws(s1);
        lemma_skip_ws_len(s1);
        lemma_until_len_bound(t1, true, seq!['>', '/']);
        let k = until_len(t1, true, seq!['>', '/']);
        let raw_name = t1.take(k as int);
        let t2 = skip_ws(t1.skip(k as int));
        lemma_skip_ws_len(t1.skip(k as int));
        lemma_attr_loop_len(t2, seq![]);
        let t3 = attr_loop(t2, seq![]).1;
        let t4 = if t3.len() > 0 && t3[0] == '/' {
            after_first(t3.drop_first())
        } else {
            after_first(t3)
        };
        lemma_raw_read_len(t4, raw_close(raw_name));
    }
}

/// The events that the parser reports for the input `s`, ending with `Finish`.
pub open spec fn parse_events(s: Seq<char>) -> Seq<ParseEvent>
    decreases s.len(),
    via parse_events_decreases
{
    if s.len() == 0 {
        seq![ParseEvent::Finish]
    } else {
        let (e, r) = step(s);
        e + parse_events(r)
    }
}

#[via_fn]
proof fn parse_events_decreases(s: Seq<char>) {
    if s.len() > 0 {
        lemma_step_len(s);
    }
}

/// Receives the events of a parse, in document order.
pub trait ParseHandler {
    /// The events received so far.
    spec fn events(&self) -> Seq<ParseEvent>;

    /// The handler's own consistency condition.
    spec fn wf(&self) -> bool;

    fn finish(&mut self)
        requires
            old(self).wf(),
        ensures
            final(self).wf(),
            final(self).events() == old(self).events().push(ParseEvent::Finish),
    ;

    fn text(&mut self, text: String)
        requires
            old(self).wf(),
        ensures
            final(self).wf(),
            final(self).events() == old(self).events().push(ParseEvent::Text(text@)),
    ;

    fn comment(&mut self, content: String)
        requires
            old(self).wf(),
        ensures
            final(self).wf(),
            final(self).events() == old(self).events().push(ParseEvent::Comment(content@)),
    ;

    fn cdata(&mut self, content: String)
        requires
            old(self).wf(),
        ensures
            final(self).wf(),
            final(self).events() == old(self).events().push(ParseEvent::CData(content@)),
    ;

    fn doctype(&mut self, content: String)
        requires
            old(self).wf(),
        ensures
            final(self).wf(),
            final(self).events() == old(self).events().push(ParseEvent::Doctype(content@)),
    ;

    fn processing_instruction(&mut self, content: String)
        requires
            old(self).wf(),
        ensures
            final(self).wf(),
            final(self).events() == old(self).events().push(
                ParseEvent::ProcessingInstruction(content@),
            ),
    ;

    fn element_start(
        &mut self,
        name: String,
        attributes: Attributes,
        autoclose: bool,
        raw_content: Option<String>,
    )
        requires
            old(self).wf(),
        ensures
            final(self).wf(),
            final(self).events() == old(self).events().push(
                ParseEvent::ElementStart(name@, attributes@, autoclose, opt_view(raw_content)),
            ),
    ;

    fn element_end(&mut self, name: &str)
        requires
            old(self).wf(),
        ensures
            final(self).wf(),
            final(self).events() == old(self).events().push(ParseEvent::ElementEnd(name@)),
    ;
}

/// ASCII lower case of the characters of `v`.
pub fn lowercase(v: &[char]) -> (r: Vec<char>)
    ensures
        r@ == lower(v@),
{
    let mut r: Vec<char> = Vec::new();
    let mut i: usize = 0;
    while i < v.len()
        invariant
            i <= v@.len(),
            r@ == lower(v@.take(i as int)),
        decreases v@.len() - i,
    {
        let c = v[i];
        let l = if 'A' <= c && c <= 'Z' {
            ((c as u32 + 32) as u8) as char
        } else {
            c
        };
        r.push(l);
        i = i + 1;
        assert(r@ =~= lower(v@.take(i as int)));
    }
    assert(v@.take(v@.len() as int) =~= v@);
    r
}

/// The characters of `v` without leading and trailing Unicode whitespace.
pub fn trim_chars(v: &[char]) -> (r: Vec<char>)
    ensures
        r@ == trim(v@),
{
    let mut i: usize = 0;
    assert(v@.skip(0) =~= v@);
    while i < v.len() && is_unicode_whitespace(v[i])
        invariant
            i <= v@.len(),
            trim_front(v@) == trim_front(v@.skip(i as int)),
        decreases v@.len() - i,
    {
        assert(v@.skip(i as int).drop_first() =~= v@.skip(i + 1int));
        i = i + 1;
    }
    let mut j: usize = v.len();
    while j > i && is_unicode_whitespace(v[j - 1])
        invariant
            i <= j <= v@.len(),
            trim_back(v@.subrange(i as int, v@.len() as int)) == trim_back(
                v@.subrange(i as int, j as int),
            ),
        decreases j,
    {
        assert(v@.subrange(i as int, j as int).drop_last() =~= v@.subrange(
            i as int,
            j - 1int,
        ));
        j = j - 1;
    }
    assert(v@.skip(i as int) =~= v@.subrange(i as int, v@.len() as int));
    let mut r: Vec<char> = Vec::new();
    let mut k: usize = i;
    while k < j
        invariant
            i <= k <= j <= v@.len(),
            r@ == v@.subrange(i as int, k as int),
        decreases j - k,
    {
        r.push(v[k]);
        k = k + 1;
        assert(r@ =~= v@.subrange(i as int, k as int));
    }
    r
}

/// A parser over one input text.
pub struct Parser {
    reader: Reader,
}

impl Parser {
    /// What is left of the input.
    pub closed spec fn rest(&self) -> Seq<char> {
        self.reader@
    }

    /// A parser at the start of `raw`.
    pub fn new(raw: &str) -> (p: Parser)
        ensures
            p.rest() == raw@,
    {
        Parser { reader: Reader::new(raw) }
    }

    /// Parses the whole input, reporting every event to `handler`, then `finish`.
    pub fn parse<H: ParseHandler>(self, handler: &mut H)
        requires
            old(handler).wf(),
        ensures
            final(handler).wf(),
            final(handler).events() == old(handler).events() + parse_events(self.rest()),
    {
        let mut parser = self;
        parser.run(handler);
    }

    fn run<H: ParseHandler>(&mut self, handler: &mut H)
        requires
            old(handler).wf(),
        ensures
            final(handler).wf(),
            final(handler).events() == old(handler).events() + parse_events(old(self).rest()),
    {
        let ghost s0 = self.reader@;
        loop
            invariant
                handler.wf(),
                handler.events() + parse_events(self.reader@) == old(handler).events()
                    + parse_events(s0),
            ensures
                handler.wf(),
                self.reader@.len() == 0,
                handler.events() + parse_events(self.reader@) == old(handler).events()
                    + parse_events(s0),
            decreases self.reader@.len(),
        {
            let ghost cur = self.reader@;
            let ghost h0 = handler.events();
            match self.reader.next_char() {
                Some(ch) => {
                    assert(cur =~= seq![ch] + self.reader@);
                    self.process(handler, ch);
                    proof {
                        lemma_step_len(cur);
                        assert(parse_events(cur) == step(cur).0 + parse_events(step(cur).1));
                        assert(handler.events() + parse_events(self.reader@) =~= h0
                            + parse_events(cur));
                    }
                },
                None => {
                    break;
                },
            }
        }
        let ghost h1 = handler.events();
        handler.finish();
        assert(handler.events() =~= h1 + parse_events(self.reader@));
    }

    fn process<H: ParseHandler>(&mut self, handler: &mut H, ch: char)
        requires
            old(handler).wf(),
            !old(self).reader.has_pushback(),
        ensures
            final(handler).wf(),
            final(handler).events() == old(handler).events() + step(
                seq![ch] + old(self).rest(),
            ).0,
            final(self).rest() == step(seq![ch] + old(self).rest()).1,
    {
        let ghost s = seq![ch] + self.reader@;
        let ghost h0 = handler.events();
        assert(s.drop_first() =~= self.reader@);
        if ch == '<' {
            let ghost s1 = self.reader@;
            match self.reader.next_char() {
                Some('/') => {
                    self.parse_end_element(handler);
                    assert(handler.events() =~= h0 + step(s).0);
                },
                Some('!') => {
                    let ghost s2 = self.reader@;
                    let a = self.reader.next_char();
                    let b = self.reader.next_char();
                    match (a, b) {
                        (Some('-'), Some('-')) => {
                            self.parse_comment(handler);
                        },
                        (Some('['), Some('C')) => {
                            self.parse_cdata(handler);
                        },
                        (Some('D'), Some('O')) => {
                            self.parse_doctype(handler);
                        },
                        (Some('>'), ch2) => {
                            self.parse_unknown_special_tag(handler, ch2);
                            assert(self.reader@ =~= after_first(s2));
                        },
                        (Some(c), Some('>')) => {
                            self.parse_unknown_special_tag2(handler, c);
                        },
                        (c, c2) => {
                            self.parse_unknown_special_tag3(handler, c, c2);
                        },
                    }
                    assert(bang_step(s2) == step(s));
                    assert(handler.events() =~= h0 + step(s).0);
                },
                Some('?') => {
                    self.parse_processing_instruction(handler);
                    assert(handler.events() =~= h0 + step(s).0);
                },
                Some(c) => {
                    self.reader.push_back(c);
                    assert(self.reader@ =~= s1);
                    self.parse_start_element(handler);
                    assert(handler.events() =~= h0 + step(s).0);
                },
                None => {
                    let lt = ['<'];
                    assert(lt@ =~= seq!['<']);
                    handler.text(string_of(&lt));
                    assert(handler.events() =~= h0 + step(s).0);
                },
            }
        } else {
            self.reader.push_back(ch);
            let ends = ['<'];
            assert(ends@ =~= lt_set());
            let text = self.reader.read_text(&ends);
            handler.text(text);
            assert(handler.events() =~= h0 + step(s).0);
        }
    }

    fn parse_comment<H: ParseHandler>(&mut self, handler: &mut H)
        requires
            old(handler).wf(),
        ensures
            final(handler).wf(),
            final(handler).events() == old(handler).events().push(
                ParseEvent::Comment(raw_read(old(self).rest(), comment_end()).0),
            ),
            final(self).rest() == raw_read(old(self).rest(), comment_end()).1,
    {
        proof {
            reveal_strlit("-->");
            assert("-->"@ =~= comment_end());
        }
        let content = self.reader.read_raw("-->");
        handler.comment(content);
    }

    fn parse_processing_instruction<H: ParseHandler>(&mut self, handler: &mut H)
        requires
            old(handler).wf(),
        ensures
            final(handler).wf(),
            final(handler).events() == old(handler).events().push(
                ParseEvent::ProcessingInstruction(raw_read(old(self).rest(), pi_end()).0),
            ),
            final(self).rest() == raw_read(old(self).rest(), pi_end()).1,
    {
        proof {
            reveal_strlit("?>");
            assert("?>"@ =~= pi_end());
        }
        let text = self.reader.read_raw("?>");
        handler.processing_instruction(text);
    }

    /// Literal text after a malformed marker: `prefix`, then text up to `<` or `>`, and a
    /// `>` that follows.
    fn literal_text(&mut self, prefix: Vec<char>) -> (r: String)
        ensures
            r@ == prefix@ + text_and_gt(old(self).rest()).0,
            final(self).rest() == text_and_gt(old(self).rest()).1,
    {
        let mut text = prefix;
        let ends = ['<', '>'];
        assert(ends@ =~= angle_set());
        let t = self.reader.read_text_chars(&ends);
        append_chars(&mut text, t.as_slice());
        if self.reader.ignore_if_next('>') {
            text.push('>');
        }
        string_of(text.as_slice())
    }

    fn parse_cdata<H: ParseHandler>(&mut self, handler: &mut H)
        requires
            old(handler).wf(),
        ensures
            final(handler).wf(),
            final(handler).events() == old(handler).events() + cdata_step(old(self).rest()).0,
            final(self).rest() == cdata_step(old(self).rest()).1,
    {
        let marker = self.reader.read_raw_count_chars(5);
        if chars_eq(marker.as_slice(), &['D', 'A', 'T', 'A', '[']) {
            proof {
                reveal_strlit("]]>");
                assert("]]>"@ =~= cdata_end());
            }
            let content = self.reader.read_raw("]]>");
            handler.cdata(content);
            assert(handler.events() =~= old(handler).events() + cdata_step(old(self).rest()).0);
        } else {
            let mut prefix: Vec<char> = Vec::new();
            append_chars(&mut prefix, &['<', '!', '[', 'C']);
            append_chars(&mut prefix, marker.as_slice());
            let text = self.literal_text(prefix);
            handler.text(text);
            assert(handler.events() =~= old(handler).events() + cdata_step(old(self).rest()).0);
        }
    }

    fn parse_doctype<H: ParseHandler>(&mut self, handler: &mut H)
        requires
            old(handler).wf(),
        ensures
            final(handler).wf(),
            final(handler).events() == old(handler).events() + doctype_step(old(self).rest()).0,
            final(self).rest() == doctype_step(old(self).rest()).1,
    {
        let marker = self.reader.read_raw_count_chars(5);
        if chars_eq(marker.as_slice(), &['C', 'T', 'Y', 'P', 'E']) {
            proof {
                reveal_strlit(">");
                assert(">"@ =~= seq!['>']);
            }
            let content = self.reader.read_raw(">");
            let v = chars_of(content.as_str());
            let trimmed = trim_chars(v.as_slice());
            handler.doctype(string_of(trimmed.as_slice()));
            assert(handler.events() =~= old(handler).events() + doctype_step(old(self).rest()).0);
        } else {
            let mut prefix: Vec<char> = Vec::new();
            append_chars(&mut prefix, &['<', '!', 'D', 'O']);
            append_chars(&mut prefix, marker.as_slice());
            let text = self.literal_text(prefix);
            handler.text(text);
            assert(handler.events() =~= old(handler).events() + doctype_step(old(self).rest()).0);
        }
    }

    /// `<!>`: the character read after it goes back to the input.
    fn parse_unknown_special_tag<H: ParseHandler>(&mut self, handler: &mut H, ch2: Option<char>)
        requires
            old(handler).wf(),
            !old(self).reader.has_pushback(),
        ensures
            final(handler).wf(),
            final(handler).events() == old(handler).events().push(
                ParseEvent::Text(seq!['<', '!', '>']),
            ),
            final(self).rest() == match ch2 {
                Some(c) => seq![c] + old(self).rest(),
                None => old(self).rest(),
            },
    {
        handler.text(string_of(&['<', '!', '>']));
        if let Some(ch2) = ch2 {
            self.reader.push_back(ch2);
        }
    }

    /// `<!` followed by one character and `>`.
    fn parse_unknown_special_tag2<H: ParseHandler>(&mut self, handler: &mut H, ch: char)
        requires
            old(handler).wf(),
        ensures
            final(handler).wf(),
            final(handler).events() == old(handler).events().push(
                ParseEvent::Text(seq!['<', '!', ch, '>']),
            ),
            final(self).rest() == old(self).rest(),
    {
        handler.text(string_of(&['<', '!', ch, '>']));
    }

    /// Any other `<!` construct, kept as literal text.
    fn parse_unknown_special_tag3<H: ParseHandler>(
        &mut self,
        handler: &mut H,
        ch: Option<char>,
        ch2: Option<char>,
    )
        requires
            old(handler).wf(),
            ch is None ==> ch2 is None,
            ch2 is None ==> old(self).rest().len() == 0,
        ensures
            final(handler).wf(),
            ch2 is Some ==> final(handler).events() == old(handler).events().push(
                ParseEvent::Text(seq!['<', '!', ch->0, ch2->0] + text_and_gt(old(self).rest()).0),
            ) && final(self).rest() == text_and_gt(old(self).rest()).1,
            ch2 is None && ch is Some ==> final(handler).events() == old(handler).events().push(
                ParseEvent::Text(seq!['<', '!', ch->0]),
            ) && final(self).rest() == old(self).rest(),
            ch is None ==> final(handler).events() == old(handler).events().push(
                ParseEvent::Text(seq!['<', '!']),
            ) && final(self).rest() == old(self).rest(),
    {
        let mut text: Vec<char> = Vec::new();
        text.push('<');
        text.push('!');
        if let Some(ch) = ch {
            text.push(ch);
        }
        match ch2 {
            Some(ch2) => {
                text.push(ch2);
                assert(text@ =~= seq!['<', '!', ch->0, ch2]);
                let t = self.literal_text(text);
                handler.text(t);
            },
            None => {
                let gt = self.reader.ignore_if_next('>');
                assert(!gt);
                proof {
                    if ch is Some {
                        assert(text@ =~= seq!['<', '!', ch->0]);
                    } else {
                        assert(text@ =~= seq!['<', '!']);
                    }
                }
                handler.text(string_of(text.as_slice()));
            },
        }
    }

    /// The attributes of a start tag, up to `/`, `>` or the end of the input.
    fn parse_attributes(&mut self) -> (r: Attributes)
        ensures
            (r@, final(self).rest()) == attr_loop(old(self).rest(), seq![]),
    {
        let ghost s0 = self.reader@;
        let mut attributes = Attributes::new();
        loop
            invariant
                attr_loop(s0, seq![]) == attr_loop(self.reader@, attributes@),
            ensures
                attr_loop(s0, seq![]) == (attributes@, self.reader@),
            decreases self.reader@.len(),
        {
            let ghost cur = self.reader@;
            let ghost before = attributes@;
            match self.reader.next_char() {
                None => {
                    break;
                },
                Some(ch) => {
                    if ch == '/' || ch == '>' {
                        self.reader.push_back(ch);
                        assert(self.reader@ =~= cur);
                        break;
                    }
                    if is_html_whitespace(ch) {
                        self.reader.skip_whitespace();
                        proof {
                            lemma_skip_ws_len(cur.drop_first());
                        }
                        continue;
                    }
                    self.reader.push_back(ch);
                    assert(self.reader@ =~= cur);
                    let ends = ['=', '/', '>'];
                    assert(ends@ =~= attr_name_set());
                    let name = self.reader.take_until(true, &ends);
                    let ghost k = name@.len();
                    proof {
                        lemma_until_len_bound(cur, true, attr_name_set());
                        lemma_skip_ws_len(cur.skip(k as int));
                        if k == 0 {
                            assert(cur.skip(0) =~= cur);
                            lemma_skip_ws_len(cur);
                        }
                    }
                    let name = string_of(name.as_slice());
                    self.reader.skip_whitespace();
                    let ghost r1 = self.reader@;
                    match self.reader.next_char() {
                        Some('=') => {
                            self.reader.skip_whitespace();
                            let ghost r2 = self.reader@;
                            proof {
                                lemma_skip_ws_len(r1.drop_first());
                            }
                            let value = match self.reader.next_char() {
                                Some('"') => {
                                    let ends = ['"'];
                                    assert(ends@ =~= seq!['"']);
                                    self.reader.read_text_chars(&ends)
                                },
                                Some('\'') => {
                                    let ends = ['\''];
                                    assert(ends@ =~= seq!['\'']);
                                    self.reader.read_text_chars(&ends)
                                },
                                Some(c) => {
                                    self.reader.push_back(c);
                                    assert(self.reader@ =~= r2);
                                    let ends = [' ', '/', '>'];
                                    assert(ends@ =~= unquoted_set());
                                    self.reader.read_text_chars(&ends)
                                },
                                None => {
                                    attributes.set_bool(name.as_str());
                                    break;
                                },
                            };
                            self.reader.next_char();
                            proof {
                                lemma_attr_value_len(r2);
                            }
                            attributes.set2(name.as_str(), string_of(value.as_slice()));
                        },
                        Some(c) => {
                            attributes.set_bool(name.as_str());
                            self.reader.push_back(c);
                            assert(self.reader@ =~= r1);
                        },
                        None => {
                            break;
                        },
                    }
                },
            }
        }
        attributes
    }

    fn parse_start_element<H: ParseHandler>(&mut self, handler: &mut H)
        requires
            old(handler).wf(),
        ensures
            final(handler).wf(),
            final(handler).events() == old(handler).events() + start_tag_step(
                old(self).rest(),
            ).0,
            final(self).rest() == start_tag_step(old(self).rest()).1,
    {
        self.reader.skip_whitespace();
        let ends = ['>', '/'];
        assert(ends@ =~= seq!['>', '/']);
        let raw_name = self.reader.take_until(true, &ends);
        let name = lowercase(raw_name.as_slice());
        let void = is_void_name(name.as_slice());
        self.reader.skip_whitespace();
        let attributes = self.parse_attributes();
        let autoclose = match self.reader.next_char() {
            Some('/') => {
                self.reader.next_char();
                true
            },
            _ => void,
        };
        let raw_content = if !autoclose && is_raw_name(name.as_slice()) {
            let mut marker: Vec<char> = Vec::new();
            marker.push('<');
            marker.push('/');
            append_chars(&mut marker, raw_name.as_slice());
            marker.push('>');
            assert(marker@ =~= raw_close(raw_name@));
            let marker = string_of(marker.as_slice());
            Some(self.reader.read_raw(marker.as_str()))
        } else {
            None
        };
        handler.element_start(string_of(name.as_slice()), attributes, autoclose, raw_content);
        assert(handler.events() =~= old(handler).events() + start_tag_step(old(self).rest()).0);
    }

    fn parse_end_element<H: ParseHandler>(&mut self, handler: &mut H)
        requires
            old(handler).wf(),
        ensures
            final(handler).wf(),
            final(handler).events() == old(handler).events() + end_tag_step(old(self).rest()).0,
            final(self).rest() == end_tag_step(old(self).rest()).1,
    {
        self.reader.skip_whitespace();
        let ends = ['>'];
        assert(ends@ =~= seq!['>']);
        let raw = self.reader.take_until(true, &ends);
        let name = lowercase(raw.as_slice());
        self.reader.skip_whitespace();
        self.reader.next_char();
        let name = string_of(name.as_slice());
        handler.element_end(name.as_str());
        assert(handler.events() =~= old(handler).events() + end_tag_step(old(self).rest()).0);
    }
}

/// The document that parsing `s` builds.
pub open spec fn parse_model(s: Seq<char>) -> DocumentModel {
    state_document(apply_events(initial_state(), parse_events(s)))
}

/// Parses `raw`, reporting every event to `handler`, then `finish`.
pub fn parse<H: ParseHandler>(handler: &mut H, raw: &str)
    requires
        old(handler).wf(),
    ensures
        final(handler).wf(),
        final(handler).events() == old(handler).events() + parse_events(raw@),
{
    Parser::new(raw).parse(handler);
}

/// Parse HTML and build a simplified DOM tree
pub fn parse_to_dom(raw: &str) -> (d: Document)
    ensures
        d@ == parse_model(raw@),
{
    let mut handler = DomParseHandler::new();
    parse(&mut handler, raw);
    assert(handler.events() =~= parse_events(raw@));
    handler.into_document()
}

} // verus!
