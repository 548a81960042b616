//! Renders a document tree as markup.
use vstd::prelude::*;

verus! {

use crate::dom::{
    Document,
    DocumentModel,
    Element,
    ElementModel,
    Node,
    NodeModel,
    AttrModel,
    document_name,
    opt_view,
    element_model,
    node_model,
    nodes_model,
    lemma_nodes_model_push,
};
use crate::utils::{
    void_element,
    unicode_whitespace,
    is_unicode_whitespace,
    is_void_name,
    push_char,
    push_chars,
    chars_of,
    chars_eq,
};

/// The decimal digit character for `d < 10`.
pub open spec fn digit_char(d: nat) -> char {
    ((d + 48) as u8) as char
}

/// `n` written in decimal.
pub open spec fn decimal(n: nat) -> Seq<char>
    decreases n,
{
    if n < 10 {
        seq![digit_char(n)]
    } else {
        decimal(n / 10).push(digit_char(n % 10))
    }
}

/// How one character is written, in an attribute value or in text content.
pub open spec fn escape_char(c: char, attribute: bool) -> Seq<char> {
    if c == '&' {
        seq!['&', 'a', 'm', 'p', ';']
    } else if c == '>' {
        if attribute {
            seq![c]
        } else {
            seq!['&', 'g', 't', ';']
        }
    } else if c == '<' {
        if attribute {
            seq![c]
        } else {
            seq!['&', 'l', 't', ';']
        }
    } else if c == '"' {
        if attribute {
            seq!['&', 'q', 'u', 'o', 't', ';']
        } else {
            seq![c]
        }
    } else if c == '\u{a0}' {
        seq!['&', 'n', 'b', 's', 'p', ';']
    } else if c == ' ' {
        seq![c]
    } else if c <= '\u{1f}' {
        seq![]
    } else if unicode_whitespace(c) {
        seq!['&', 'x'] + decimal(c as nat) + seq![';']
    } else {
        seq![c]
    }
}

/// How a text is written, in an attribute value or in text content.
pub open spec fn escape(s: Seq<char>, attribute: bool) -> Seq<char>
    decreases s.len(),
{
    if s.len() == 0 {
        seq![]
    } else {
        escape(s.drop_last(), attribute) + escape_char(s.last(), attribute)
    }
}

/// ` name` or ` name="value"`.
pub open spec fn attribute_text(name: Seq<char>, value: Option<Seq<char>>) -> Seq<char> {
    let tail = match value {
        Some(v) => seq!['=', '"'] + escape(v, true) + seq!['"'],
        None => seq![],
    };
    seq![' '] + name + tail
}

/// The attributes of an opening tag, in stored order.
pub open spec fn attributes_text(a: Seq<AttrModel>) -> Seq<char>
    decreases a.len(),
{
    if a.len() == 0 {
        seq![]
    } else {
        attributes_text(a.drop_last()) + attribute_text(a.last().0, a.last().1)
    }
}

/// The opening tag of an element.
pub open spec fn start_tag_text(e: ElementModel) -> Seq<char> {
    seq!['<'] + e.name + attributes_text(e.attributes) + seq!['>']
}

/// A closing tag.
pub open spec fn end_tag_text(name: Seq<char>) -> Seq<char> {
    seq!['<', '/'] + name + seq!['>']
}

/// A comment.
pub open spec fn comment_text(c: Seq<char>) -> Seq<char> {
    seq!['<', '!', '-', '-'] + c + seq!['-', '-', '>']
}

/// A CDATA section.
pub open spec fn cdata_text(c: Seq<char>) -> Seq<char> {
    seq!['<', '!', '[', 'C', 'D', 'A', 'T', 'A', '['] + c + seq![']', ']', '>']
}

/// A processing instruction.
pub open spec fn pi_text(c: Seq<char>) -> Seq<char> {
    seq!['<', '?'] + c + seq!['?', '>']
}

/// A doctype declaration.
pub open spec fn doctype_text(d: Seq<char>) -> Seq<char> {
    seq!['<', '!', 'D', 'O', 'C', 'T', 'Y', 'P', 'E', ' '] + d + seq!['>']
}

/// How a node is written.
pub open spec fn node_text(n: NodeModel) -> Seq<char>
    decreases n,
{
    match n {
        NodeModel::Element(e) => element_text(e),
        NodeModel::Text(t) => escape(t, false),
        NodeModel::Comment(c) => comment_text(c),
        NodeModel::CData(c) => cdata_text(c),
        NodeModel::Raw(r) => r,
        NodeModel::ProcessingInstruction(p) => pi_text(p),
    }
}

/// Whether an element is written as its opening tag alone: a void element, or one that was
/// closed where it was opened.
pub open spec fn written_alone(e: ElementModel) -> bool {
    void_element(e.name) || e.autoclosed
}

/// How an element is written: children and a closing tag only where it is not written alone.
pub open spec fn element_text(e: ElementModel) -> Seq<char>
    decreases e,
{
    let rest = if written_alone(e) {
        seq![]
    } else {
        nodes_text(e.nodes) + end_tag_text(e.name)
    };
    start_tag_text(e) + rest
}

/// How a sequence of nodes is written.
pub open spec fn nodes_text(s: Seq<NodeModel>) -> Seq<char>
    decreases s,
{
    if s.len() == 0 {
        seq![]
    } else {
        nodes_text(s.drop_last()) + node_text(s.last())
    }
}

/// How a document is written: its doctype, then the children of its root.
pub open spec fn document_text(d: DocumentModel) -> Seq<char> {
    let head = match d.doctype {
        Some(t) => doctype_text(t),
        None => seq![],
    };
    head + nodes_text(d.element.nodes)
}

/// How `write_element` writes an element: the document root as its children alone.
pub open spec fn root_text(e: ElementModel) -> Seq<char> {
    if e.name == document_name() {
        nodes_text(e.nodes)
    } else {
        element_text(e)
    }
}

/// Accumulates markup text.
pub struct HtmlWriter {
    out: String,
}

impl View for HtmlWriter {
    type V = Seq<char>;

    closed spec fn view(&self) -> Seq<char> {
        self.out@
    }
}

impl HtmlWriter {
    /// A writer with no output yet.
    pub fn new() -> (r: HtmlWriter)
        ensures
            r@ == Seq::<char>::empty(),
    {
        HtmlWriter { out: String::new() }
    }

    /// The text written.
    pub fn into_string(self) -> (r: String)
        ensures
            r@ == self@,
    {
        self.out
    }

    pub fn push(&mut self, ch: char)
        ensures
            final(self)@ == old(self)@.push(ch),
    {
        push_char(&mut self.out, ch);
    }

    pub fn push_str(&mut self, s: &str)
        ensures
            final(self)@ == old(self)@ + s@,
    {
        let v = chars_of(s);
        push_chars(&mut self.out, v.as_slice());
    }

    /// Appends characters given as a slice.
    fn push_slice(&mut self, s: &[char])
        ensures
            final(self)@ == old(self)@ + s@,
    {
        push_chars(&mut self.out, s);
    }

    pub fn write_doctype(&mut self, dtd: &str)
        ensures
            final(self)@ == old(self)@ + doctype_text(dtd@),
    {
        let open = ['<', '!', 'D', 'O', 'C', 'T', 'Y', 'P', 'E', ' '];
        assert(open@ =~= seq!['<', '!', 'D', 'O', 'C', 'T', 'Y', 'P', 'E', ' ']);
        self.push_slice(&open);
        self.push_str(dtd);
        self.push('>');
        assert(self@ =~= old(self)@ + doctype_text(dtd@));
    }

    /// The opening tag of `element`, with its attributes.
    pub fn element_start(&mut self, element: &Element)
        ensures
            final(self)@ == old(self)@ + start_tag_text(element@),
    {
        self.element_start_name(element.name.as_str());
        let n = element.attributes.len();
        let mut i: usize = 0;
        while i < n
            invariant
                n == element.attributes@.len(),
                i <= n,
                self@ == old(self)@ + seq!['<'] + element.name@ + attributes_text(
                    element.attributes@.take(i as int),
                ),
            decreases n - i,
        {
            let attr = element.attributes.get(i);
            self.element_attribute(attr.name.as_str(), &attr.value);
            assert(element.attributes@.take(i + 1int).drop_last() =~= element.attributes@.take(
                i as int,
            ));
            i = i + 1;
        }
        assert(element.attributes@.take(n as int) =~= element.attributes@);
        self.push('>');
        assert(self@ =~= old(self)@ + start_tag_text(element@));
    }

    pub fn element_start_name(&mut self, name: &str)
        ensures
            final(self)@ == old(self)@ + seq!['<'] + name@,
    {
        self.push('<');
        self.push_str(name);
        assert(self@ =~= old(self)@ + seq!['<'] + name@);
    }

    /// ` name`, and `="value"` with the value escaped where there is one.
    pub fn element_attribute(&mut self, name: &str, value: &Option<String>)
        ensures
            final(self)@ == old(self)@ + attribute_text(name@, opt_view(*value)),
    {
        self.push(' ');
        self.push_str(name);
        if let Some(value) = value {
            self.push('=');
            self.push('"');
            self.append_text(value.as_str(), true);
            self.push('"');
        }
        assert(self@ =~= old(self)@ + attribute_text(name@, opt_view(*value)));
    }

    pub fn element_end(&mut self, element: &Element)
        ensures
            final(self)@ == old(self)@ + end_tag_text(element@.name),
    {
        self.element_end_for_name(element.name.as_str());
    }

    pub fn element_end_for_name(&mut self, element_name: &str)
        ensures
            final(self)@ == old(self)@ + end_tag_text(element_name@),
    {
        self.push('<');
        self.push('/');
        self.push_str(element_name);
        self.push('>');
        assert(self@ =~= old(self)@ + end_tag_text(element_name@));
    }

    /// `n` in decimal.
    fn push_decimal(&mut self, n: u32)
        ensures
            final(self)@ == old(self)@ + decimal(n as nat),
        decreases n,
    {
        if n >= 10 {
            self.push_decimal(n / 10);
        }
        let d: u8 = (n % 10) as u8;
        self.push((d + 48) as char);
        assert(self@ =~= old(self)@ + decimal(n as nat));
    }

    /// Appends one character, escaped.
    fn append_char(&mut self, ch: char, attribute: bool)
        ensures
            final(self)@ == old(self)@ + escape_char(ch, attribute),
    {
        if ch == '&' {
            let lit = ['&', 'a', 'm', 'p', ';'];
            assert(lit@ =~= seq!['&', 'a', 'm', 'p', ';']);
        self.push_slice(&lit);
        } else if ch == '>' {
            if attribute {
                self.push(ch);
            } else {
                let lit = ['&', 'g', 't', ';'];
                assert(lit@ =~= seq!['&', 'g', 't', ';']);
        self.push_slice(&lit);
            }
        } else if ch == '<' {
            if attribute {
                self.push(ch);
            } else {
                let lit = ['&', 'l', 't', ';'];
                assert(lit@ =~= seq!['&', 'l', 't', ';']);
        self.push_slice(&lit);
            }
        } else if ch == '"' {
            if attribute {
                let lit = ['&', 'q', 'u', 'o', 't', ';'];
                assert(lit@ =~= seq!['&', 'q', 'u', 'o', 't', ';']);
        self.push_slice(&lit);
            } else {
                self.push(ch);
            }
        } else if ch == '\u{a0}' {
            let lit = ['&', 'n', 'b', 's', 'p', ';'];
            assert(lit@ =~= seq!['&', 'n', 'b', 's', 'p', ';']);
        self.push_slice(&lit);
        } else if ch == ' ' {
            self.push(ch);
        } else if ch <= '\u{1f}' {
            // control characters, tab, newline and carriage return included, are dropped
        } else if is_unicode_whitespace(ch) {
            self.push('&');
            self.push('x');
            self.push_decimal(ch as u32);
            self.push(';');
        } else {
            self.push(ch);
        }
        assert(self@ =~= old(self)@ + escape_char(ch, attribute));
    }

    /// Appends `text`, escaped for an attribute value or for text content.
    pub fn append_text(&mut self, text: &str, attribute: bool)
        ensures
            final(self)@ == old(self)@ + escape(text@, attribute),
    {
        let v = chars_of(text);
        let mut i: usize = 0;
        while i < v.len()
            invariant
                v@ == text@,
                i <= v@.len(),
                self@ == old(self)@ + escape(v@.take(i as int), attribute),
            decreases v@.len() - i,
        {
            self.append_char(v[i], attribute);
            assert(v@.take(i + 1int).drop_last() =~= v@.take(i as int));
            i = i + 1;
            assert(self@ =~= old(self)@ + escape(v@.take(i as int), attribute));
        }
        assert(v@.take(v@.len() as int) =~= v@);
    }

    pub fn append_comment(&mut self, content: &str)
        ensures
            final(self)@ == old(self)@ + comment_text(content@),
    {
        let open = ['<', '!', '-', '-'];
        let close = ['-', '-', '>'];
        assert(open@ =~= seq!['<', '!', '-', '-']);
        self.push_slice(&open);
        self.push_str(content);
        assert(close@ =~= seq!['-', '-', '>']);
        self.push_slice(&close);
        assert(self@ =~= old(self)@ + comment_text(content@));
    }

    pub fn append_cdata(&mut self, content: &str)
        ensures
            final(self)@ == old(self)@ + cdata_text(content@),
    {
        let open = ['<', '!', '[', 'C', 'D', 'A', 'T', 'A', '['];
        let close = [']', ']', '>'];
        assert(open@ =~= seq!['<', '!', '[', 'C', 'D', 'A', 'T', 'A', '[']);
        self.push_slice(&open);
        self.push_str(content);
        assert(close@ =~= seq![']', ']', '>']);
        self.push_slice(&close);
        assert(self@ =~= old(self)@ + cdata_text(content@));
    }

    pub fn append_processing_instruction(&mut self, content: &str)
        ensures
            final(self)@ == old(self)@ + pi_text(content@),
    {
        self.push('<');
        self.push('?');
        self.push_str(content);
        self.push('?');
        self.push('>');
        assert(self@ =~= old(self)@ + pi_text(content@));
    }

    /// Appends `content` verbatim.
    pub fn append_raw(&mut self, content: &str)
        ensures
            final(self)@ == old(self)@ + content@,
    {
        self.push_str(content);
    }
}

/// Writing one more node appends its text.
pub proof fn lemma_nodes_text_push(s: Seq<NodeModel>, n: NodeModel)
    ensures
        nodes_text(s.push(n)) == nodes_text(s) + node_text(n),
{
    assert(s.push(n).drop_last() =~= s);
}

fn append_nodes(writer: &mut HtmlWriter, nodes: &Vec<Node>)
    ensures
        final(writer)@ == old(writer)@ + nodes_text(nodes_model(nodes@)),
    decreases nodes,
{
    let mut i: usize = 0;
    while i < nodes.len()
        invariant
            i <= nodes@.len(),
            writer@ == old(writer)@ + nodes_text(nodes_model(nodes@.take(i as int))),
        decreases nodes@.len() - i,
    {
        let node = &nodes[i];
        proof {
            assert(nodes@.take(i + 1int) =~= nodes@.take(i as int).push(nodes@[i as int]));
            lemma_nodes_model_push(nodes@.take(i as int), nodes@[i as int]);
            lemma_nodes_text_push(nodes_model(nodes@.take(i as int)), node_model(nodes@[i as int]));
        }
        match node {
            Node::Element(e) => {
                proof {
                    assert(decreases_to!(nodes => nodes@[i as int]));
                }
                append_element(writer, e);
            },
            Node::Text(text) => writer.append_text(text.content.as_str(), false),
            Node::Comment(comment) => writer.append_comment(comment.content.as_str()),
            Node::CData(cdata) => writer.append_cdata(cdata.content.as_str()),
            Node::Raw(raw) => writer.append_raw(raw.content.as_str()),
            Node::ProcessingInstruction(pi) => writer.append_processing_instruction(
                pi.content.as_str(),
            ),
        }
        i = i + 1;
        assert(writer@ =~= old(writer)@ + nodes_text(nodes_model(nodes@.take(i as int))));
    }
    assert(nodes@.take(nodes@.len() as int) =~= nodes@);
}

fn append_element(writer: &mut HtmlWriter, element: &Element)
    ensures
        final(writer)@ == old(writer)@ + element_text(element@),
    decreases element,
{
    writer.element_start(element);
    let name = chars_of(element.name.as_str());
    if !is_void_name(name.as_slice()) && !element.autoclosed {
        append_nodes(writer, &element.nodes);
        writer.element_end(element);
    }
    assert(writer@ =~= old(writer)@ + element_text(element@));
}

/// Writes a document: its doctype, then the children of its root.
pub fn write(doc: &Document) -> (r: String)
    ensures
        r@ == document_text(doc@),
{
    let mut writer = HtmlWriter::new();
    if let Some(dtd) = &doc.doctype {
        writer.write_doctype(dtd.as_str());
    }
    append_nodes(&mut writer, &doc.element.nodes);
    assert(writer@ =~= document_text(doc@));
    writer.into_string()
}

/// Writes an element; the document root `#document` is written as its children alone.
pub fn write_element(root: &Element) -> (r: String)
    ensures
        r@ == root_text(root@),
{
    let mut writer = HtmlWriter::new();
    let name = chars_of(root.name.as_str());
    if chars_eq(name.as_slice(), &['#', 'd', 'o', 'c', 'u', 'm', 'e', 'n', 't']) {
        append_nodes(&mut writer, &root.nodes);
    } else {
        append_element(&mut writer, root);
    }
    assert(writer@ =~= root_text(root@));
    writer.into_string()
}

} // verus!
