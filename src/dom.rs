//! Minimal document object model, and its mathematical model.
use vstd::prelude::*;

verus! {

use crate::utils::same_str;

/// An attribute as the contracts see it: its name, and its value if it has one.
pub type AttrModel = (Seq<char>, Option<Seq<char>>);

/// A node as the contracts see it.
pub enum NodeModel {
    Text(Seq<char>),
    Comment(Seq<char>),
    Element(ElementModel),
    Raw(Seq<char>),
    CData(Seq<char>),
    ProcessingInstruction(Seq<char>),
}

/// An element as the contracts see it.
pub struct ElementModel {
    pub name: Seq<char>,
    pub attributes: Seq<AttrModel>,
    pub nodes: Seq<NodeModel>,
    pub autoclosed: bool,
}

/// A document as the contracts see it.
pub struct DocumentModel {
    pub doctype: Option<Seq<char>>,
    pub is_xml: bool,
    pub element: ElementModel,
}

/// The name of the pseudo-element at the root of a document.
pub open spec fn document_name() -> Seq<char> {
    seq!['#', 'd', 'o', 'c', 'u', 'm', 'e', 'n', 't']
}

/// The view of an optional string.
pub open spec fn opt_view(o: Option<String>) -> Option<Seq<char>> {
    match o {
        Some(s) => Some(s@),
        None => None,
    }
}

/// Index of the first attribute named `name`, or -1.
pub open spec fn attr_pos(a: Seq<AttrModel>, name: Seq<char>) -> int
    decreases a.len(),
{
    if a.len() == 0 {
        -1
    } else {
        let p = attr_pos(a.drop_last(), name);
        if p >= 0 {
            p
        } else if a.last().0 == name {
            a.len() - 1
        } else {
            -1
        }
    }
}

/// `a` after setting attribute `name` to `value`: in place where the name is present,
/// appended otherwise.
pub open spec fn attrs_set(a: Seq<AttrModel>, name: Seq<char>, value: Option<Seq<char>>) -> Seq<
    AttrModel,
> {
    let p = attr_pos(a, name);
    if p >= 0 {
        a.update(p, (name, value))
    } else {
        a.push((name, value))
    }
}

/// The value of attribute `name`, where it is present and has one.
pub open spec fn attrs_value(a: Seq<AttrModel>, name: Seq<char>) -> Option<Seq<char>> {
    let p = attr_pos(a, name);
    if p >= 0 {
        a[p].1
    } else {
        None
    }
}

/// No two attributes share a name.
pub open spec fn attrs_unique(a: Seq<AttrModel>) -> bool {
    forall|i: int, j: int| 0 <= i < j < a.len() ==> a[i].0 != a[j].0
}

/// What `attr_pos` finds.
pub proof fn lemma_attr_pos(a: Seq<AttrModel>, name: Seq<char>)
    ensures
        -1 <= attr_pos(a, name) < a.len(),
        attr_pos(a, name) >= 0 ==> a[attr_pos(a, name)].0 == name,
        attr_pos(a, name) >= 0 ==> forall|i: int|
            0 <= i < attr_pos(a, name) ==> a[i].0 != name,
        attr_pos(a, name) < 0 ==> forall|i: int| 0 <= i < a.len() ==> a[i].0 != name,
    decreases a.len(),
{
    if a.len() > 0 {
        let b = a.drop_last();
        lemma_attr_pos(b, name);
        assert forall|i: int| 0 <= i < b.len() implies b[i] == a[i] by {}
    }
}

/// Setting an attribute keeps the names unique.
pub proof fn lemma_attrs_set_unique(a: Seq<AttrModel>, name: Seq<char>, value: Option<Seq<char>>)
    requires
        attrs_unique(a),
    ensures
        attrs_unique(attrs_set(a, name, value)),
{
    lemma_attr_pos(a, name);
}

/// Text node
#[derive(Debug)]
pub struct Text {
    pub content: String,
}

impl Text {
    pub fn new(content: &str) -> (r: Text)
        ensures
            r.content@ == content@,
    {
        Text { content: content.to_owned() }
    }
}

/// Comment node
#[derive(Debug)]
pub struct Comment {
    pub content: String,
}

impl Comment {
    pub fn new(content: &str) -> (r: Comment)
        ensures
            r.content@ == content@,
    {
        Comment { content: content.to_owned() }
    }
}

/// Raw node: the verbatim content of a `script` or `style` element.
#[derive(Debug)]
pub struct Raw {
    pub content: String,
}

impl Raw {
    pub fn new(content: &str) -> (r: Raw)
        ensures
            r.content@ == content@,
    {
        Raw { content: content.to_owned() }
    }
}

/// CData node
#[derive(Debug)]
pub struct CData {
    pub content: String,
}

impl CData {
    pub fn new(content: &str) -> (r: CData)
        ensures
            r.content@ == content@,
    {
        CData { content: content.to_owned() }
    }
}

/// XML processing instruction
#[derive(Debug)]
pub struct ProcessingInstruction {
    pub content: String,
}

impl ProcessingInstruction {
    pub fn new(content: &str) -> (r: ProcessingInstruction)
        ensures
            r.content@ == content@,
    {
        ProcessingInstruction { content: content.to_owned() }
    }
}

/// Attribute of an element; without a value it is a boolean attribute.
#[derive(Debug)]
pub struct Attribute {
    pub name: String,
    pub value: Option<String>,
}

impl View for Attribute {
    type V = AttrModel;

    open spec fn view(&self) -> AttrModel {
        (self.name@, opt_view(self.value))
    }
}

impl Attribute {
    pub fn new(name: &str, value: &str) -> (r: Attribute)
        ensures
            r@ == (name@, Some(value@)),
    {
        Attribute { name: name.to_owned(), value: Some(value.to_owned()) }
    }

    pub fn new_bool(name: &str) -> (r: Attribute)
        ensures
            r@ == (name@, None::<Seq<char>>),
    {
        Attribute { name: name.to_owned(), value: None }
    }

    pub fn is_bool(&self) -> (r: bool)
        ensures
            r == (self.value is None),
    {
        self.value.is_none()
    }

    pub fn destruct(self) -> (r: (String, Option<String>))
        ensures
            r.0@ == self@.0,
            opt_view(r.1) == self@.1,
    {
        (self.name, self.value)
    }
}

/// List of attributes of an element, unique by name, in the order they were first set.
#[derive(Debug)]
pub struct Attributes {
    list: Vec<Attribute>,
}

impl View for Attributes {
    type V = Seq<AttrModel>;

    closed spec fn view(&self) -> Seq<AttrModel> {
        self.list@.map_values(|a: Attribute| a@)
    }
}

impl Attributes {
    #[verifier::type_invariant]
    closed spec fn inv(&self) -> bool {
        attrs_unique(self@)
    }

    pub fn new() -> (r: Attributes)
        ensures
            r@ == Seq::<AttrModel>::empty(),
    {
        let r = Attributes { list: Vec::new() };
        assert(r@ =~= Seq::<AttrModel>::empty());
        r
    }

    /// Index of the attribute named `name`, if any.
    fn position(&self, name: &str) -> (r: Option<usize>)
        ensures
            r matches Some(i) ==> i == attr_pos(self@, name@) && i < self.list@.len(),
            r is None ==> attr_pos(self@, name@) < 0,
    {
        proof {
            lemma_attr_pos(self@, name@);
        }
        let mut i: usize = 0;
        while i < self.list.len()
            invariant
                i <= self.list@.len(),
                forall|j: int| 0 <= j < i ==> self@[j].0 != name@,
                -1 <= attr_pos(self@, name@) < self@.len(),
                attr_pos(self@, name@) >= 0 ==> self@[attr_pos(self@, name@)].0 == name@,
                attr_pos(self@, name@) >= 0 ==> forall|j: int|
                    0 <= j < attr_pos(self@, name@) ==> self@[j].0 != name@,
                attr_pos(self@, name@) < 0 ==> forall|j: int|
                    0 <= j < self@.len() ==> self@[j].0 != name@,
                self@.len() == self.list@.len(),
            decreases self.list@.len() - i,
        {
            if same_str(self.list[i].name.as_str(), name) {
                assert(self@[i as int].0 == name@);
                return Some(i);
            }
            assert(self@[i as int].0 != name@);
            i = i + 1;
        }
        None
    }

    fn put(&mut self, name: &str, value: Option<String>)
        ensures
            final(self)@ == attrs_set(old(self)@, name@, opt_view(value)),
    {
        proof {
            use_type_invariant(&*self);
            lemma_attrs_set_unique(self@, name@, opt_view(value));
        }
        let attr = Attribute { name: name.to_owned(), value };
        match self.position(name) {
            Some(i) => {
                let mut list = Vec::new();
                std::mem::swap(&mut list, &mut self.list);
                list.set(i, attr);
                assert(list@.map_values(|a: Attribute| a@) =~= attrs_set(
                    old(self)@,
                    name@,
                    opt_view(value),
                ));
                self.list = list;
                assert(self@ =~= attrs_set(old(self)@, name@, opt_view(value)));
            },
            None => {
                let mut list = Vec::new();
                std::mem::swap(&mut list, &mut self.list);
                list.push(attr);
                assert(list@.map_values(|a: Attribute| a@) =~= attrs_set(
                    old(self)@,
                    name@,
                    opt_view(value),
                ));
                self.list = list;
                assert(self@ =~= attrs_set(old(self)@, name@, opt_view(value)));
            },
        }
    }

    /// Sets attribute `name` to `value`: in place where it is present, appended otherwise.
    pub fn set(&mut self, name: &str, value: &str)
        ensures
            final(self)@ == attrs_set(old(self)@, name@, Some(value@)),
    {
        self.put(name, Some(value.to_owned()));
    }

    /// Sets attribute `name` to `value`, taking the value by move.
    pub fn set2(&mut self, name: &str, value: String)
        ensures
            final(self)@ == attrs_set(old(self)@, name@, Some(value@)),
    {
        self.put(name, Some(value));
    }

    /// Sets `name` as a boolean attribute: in place where it is present, appended otherwise.
    pub fn set_bool(&mut self, name: &str)
        ensures
            final(self)@ == attrs_set(old(self)@, name@, None),
    {
        self.put(name, None);
    }

    /// The value of attribute `name`; `None` where it is absent or boolean.
    pub fn get_value<'a>(&'a self, name: &str) -> (r: Option<&'a str>)
        ensures
            r is Some <==> attrs_value(self@, name@) is Some,
            r matches Some(v) ==> v@ == attrs_value(self@, name@)->0,
    {
        match self.position(name) {
            Some(i) => match &self.list[i].value {
                Some(v) => Some(v.as_str()),
                None => None,
            },
            None => None,
        }
    }

    /// Whether attribute `name` is present.
    pub fn contains(&self, name: &str) -> (r: bool)
        ensures
            r == (attr_pos(self@, name@) >= 0),
    {
        self.position(name).is_some()
    }

    pub fn len(&self) -> (r: usize)
        ensures
            r == self@.len(),
    {
        self.list.len()
    }

    pub fn is_empty(&self) -> (r: bool)
        ensures
            r == (self@.len() == 0),
    {
        self.list.len() == 0
    }

    pub fn into_vec(self) -> (r: Vec<Attribute>)
        ensures
            r@.map_values(|a: Attribute| a@) == self@,
    {
        self.list
    }

    /// The attribute at index `i`, in stored order.
    pub fn get(&self, i: usize) -> (r: &Attribute)
        requires
            i < self@.len(),
        ensures
            r@ == self@[i as int],
    {
        &self.list[i]
    }
}

/// Node
#[derive(Debug)]
pub enum Node {
    Text(Text),
    Comment(Comment),
    Element(Element),
    Raw(Raw),
    CData(CData),
    ProcessingInstruction(ProcessingInstruction),
}

/// Element node
#[derive(Debug)]
pub struct Element {
    pub name: String,
    pub attributes: Attributes,
    pub nodes: Vec<Node>,
    pub autoclosed: bool,
}

/// Document
#[derive(Debug)]
pub struct Document {
    pub doctype: Option<String>,
    pub is_xml: bool,
    pub element: Element,
}

/// The model of a node.
pub open spec fn node_model(n: Node) -> NodeModel
    decreases n,
{
    match n {
        Node::Text(t) => NodeModel::Text(t.content@),
        Node::Comment(c) => NodeModel::Comment(c.content@),
        Node::Element(e) => NodeModel::Element(element_model(e)),
        Node::Raw(r) => NodeModel::Raw(r.content@),
        Node::CData(c) => NodeModel::CData(c.content@),
        Node::ProcessingInstruction(p) => NodeModel::ProcessingInstruction(p.content@),
    }
}

/// The model of an element.
pub open spec fn element_model(e: Element) -> ElementModel
    decreases e,
{
    ElementModel {
        name: e.name@,
        attributes: e.attributes@,
        nodes: nodes_model(e.nodes@),
        autoclosed: e.autoclosed,
    }
}

/// The models of a sequence of nodes.
pub open spec fn nodes_model(s: Seq<Node>) -> Seq<NodeModel>
    decreases s,
{
    if s.len() == 0 {
        seq![]
    } else {
        nodes_model(s.drop_last()).push(node_model(s.last()))
    }
}

impl View for Node {
    type V = NodeModel;

    open spec fn view(&self) -> NodeModel {
        node_model(*self)
    }
}

impl View for Element {
    type V = ElementModel;

    open spec fn view(&self) -> ElementModel {
        element_model(*self)
    }
}

impl View for Document {
    type V = DocumentModel;

    open spec fn view(&self) -> DocumentModel {
        DocumentModel {
            doctype: opt_view(self.doctype),
            is_xml: self.is_xml,
            element: element_model(self.element),
        }
    }
}

/// The model of `s.push(n)` is the model of `s` with the model of `n` pushed.
pub proof fn lemma_nodes_model_push(s: Seq<Node>, n: Node)
    ensures
        nodes_model(s.push(n)) == nodes_model(s).push(node_model(n)),
{
    assert(s.push(n).drop_last() =~= s);
}

impl Element {
    /// An element with no attributes and no children.
    pub fn new(name: &str) -> (r: Element)
        ensures
            r@ == (ElementModel {
                name: name@,
                attributes: seq![],
                nodes: seq![],
                autoclosed: false,
            }),
    {
        Element::new_with_attributes(name, Attributes::new())
    }

    pub fn new_with_attributes(name: &str, attributes: Attributes) -> (r: Element)
        ensures
            r@ == (ElementModel {
                name: name@,
                attributes: attributes@,
                nodes: seq![],
                autoclosed: false,
            }),
    {
        let r = Element {
            name: name.to_owned(),
            attributes,
            nodes: Vec::new(),
            autoclosed: false,
        };
        assert(nodes_model(r.nodes@) =~= seq![]);
        r
    }

    /// Appends `n` to the children.
    pub fn add_node(&mut self, n: Node)
        ensures
            final(self)@ == (ElementModel {
                nodes: old(self)@.nodes.push(n@),
                ..old(self)@
            }),
    {
        proof {
            lemma_nodes_model_push(self.nodes@, n);
        }
        self.nodes.push(n);
    }

    pub fn add_element(&mut self, e: Element)
        ensures
            final(self)@ == (ElementModel {
                nodes: old(self)@.nodes.push(NodeModel::Element(e@)),
                ..old(self)@
            }),
    {
        self.add_node(Node::Element(e));
    }

    pub fn add_text(&mut self, content: &str)
        ensures
            final(self)@ == (ElementModel {
                nodes: old(self)@.nodes.push(NodeModel::Text(content@)),
                ..old(self)@
            }),
    {
        self.add_node(Node::Text(Text::new(content)));
    }

    pub fn add_comment(&mut self, content: &str)
        ensures
            final(self)@ == (ElementModel {
                nodes: old(self)@.nodes.push(NodeModel::Comment(content@)),
                ..old(self)@
            }),
    {
        self.add_node(Node::Comment(Comment::new(content)));
    }

    pub fn add_cdata(&mut self, content: &str)
        ensures
            final(self)@ == (ElementModel {
                nodes: old(self)@.nodes.push(NodeModel::CData(content@)),
                ..old(self)@
            }),
    {
        self.add_node(Node::CData(CData::new(content)));
    }

    pub fn add_processing_instruction(&mut self, content: &str)
        ensures
            final(self)@ == (ElementModel {
                nodes: old(self)@.nodes.push(NodeModel::ProcessingInstruction(content@)),
                ..old(self)@
            }),
    {
        self.add_node(Node::ProcessingInstruction(ProcessingInstruction::new(content)));
    }

    pub fn set_attribute(&mut self, name: &str, value: &str)
        ensures
            final(self)@ == (ElementModel {
                attributes: attrs_set(old(self)@.attributes, name@, Some(value@)),
                ..old(self)@
            }),
    {
        self.attributes.set(name, value);
    }

    pub fn set_bool_attribute(&mut self, name: &str)
        ensures
            final(self)@ == (ElementModel {
                attributes: attrs_set(old(self)@.attributes, name@, None),
                ..old(self)@
            }),
    {
        self.attributes.set_bool(name);
    }

    pub fn get_attribute_value<'a>(&'a self, name: &str) -> (r: Option<&'a str>)
        ensures
            r is Some <==> attrs_value(self@.attributes, name@) is Some,
            r matches Some(v) ==> v@ == attrs_value(self@.attributes, name@)->0,
    {
        self.attributes.get_value(name)
    }

    pub fn has_attribute(&self, name: &str) -> (r: bool)
        ensures
            r == (attr_pos(self@.attributes, name@) >= 0),
    {
        self.attributes.contains(name)
    }
}

impl Document {
    /// Creates a new empty HTML document
    #[allow(clippy::new_without_default)]
    pub fn new() -> (r: Document)
        ensures
            r@ == (DocumentModel {
                doctype: Some(seq!['h', 't', 'm', 'l']),
                is_xml: false,
                element: ElementModel {
                    name: document_name(),
                    attributes: seq![],
                    nodes: seq![],
                    autoclosed: false,
                },
            }),
    {
        proof {
            reveal_strlit("html");
            reveal_strlit("#document");
        }
        let r = Document {
            doctype: Some("html".to_owned()),
            is_xml: false,
            element: Element::new("#document"),
        };
        assert(r@.doctype->0 =~= seq!['h', 't', 'm', 'l']);
        assert(r@.element.name =~= document_name());
        r
    }
}

} // verus!
