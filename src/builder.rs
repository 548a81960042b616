//! Assembles the parser's events into a document tree with an explicit stack of open
//! elements.
use vstd::prelude::*;

verus! {

use crate::dom::{
    Attributes,
    Document,
    DocumentModel,
    Element,
    ElementModel,
    Node,
    NodeModel,
    Raw,
    document_name,
    opt_view,
    element_model,
    nodes_model,
    lemma_nodes_model_push,
};
use crate::parser::{ParseEvent, ParseHandler};
use crate::utils::{same_str, string_of};

/// The builder as the contracts see it: the open elements that wait for the current one to
/// close, outermost first, the current element, and what is known of the document.
pub struct BuildState {
    pub stack: Seq<ElementModel>,
    pub current: ElementModel,
    pub doctype: Option<Seq<char>>,
    pub is_xml: bool,
}

/// The empty document root, before any event.
pub open spec fn root_element() -> ElementModel {
    ElementModel { name: document_name(), attributes: seq![], nodes: seq![], autoclosed: false }
}

/// The state before any event.
pub open spec fn initial_state() -> BuildState {
    BuildState { stack: seq![], current: root_element(), doctype: None, is_xml: false }
}

/// `st` with `n` appended to the children of the current element.
pub open spec fn add_child(st: BuildState, n: NodeModel) -> BuildState {
    BuildState { current: ElementModel { nodes: st.current.nodes.push(n), ..st.current }, ..st }
}

/// Closes the current element: it becomes the last child of the innermost open element,
/// which becomes current.
pub open spec fn close_one(st: BuildState) -> BuildState {
    let parent = st.stack.last();
    BuildState {
        stack: st.stack.drop_last(),
        current: ElementModel {
            nodes: parent.nodes.push(NodeModel::Element(st.current)),
            ..parent
        },
        ..st
    }
}

/// Closes elements up to and including the first one named `name`, or all of them.
pub open spec fn close_until(st: BuildState, name: Seq<char>) -> BuildState
    decreases st.stack.len(),
{
    if st.stack.len() == 0 {
        st
    } else if st.current.name == name {
        close_one(st)
    } else {
        close_until(close_one(st), name)
    }
}

/// Closes every open element.
pub open spec fn close_all(st: BuildState) -> BuildState
    decreases st.stack.len(),
{
    if st.stack.len() == 0 {
        st
    } else {
        close_all(close_one(st))
    }
}

/// Whether a processing instruction is an XML declaration.
pub open spec fn is_xml_declaration(c: Seq<char>) -> bool {
    c.len() >= 3 && c[0] == 'x' && c[1] == 'm' && c[2] == 'l'
}

/// The state after one event.
pub open spec fn apply_event(st: BuildState, ev: ParseEvent) -> BuildState {
    match ev {
        ParseEvent::Text(t) => add_child(st, NodeModel::Text(t)),
        ParseEvent::Comment(c) => add_child(st, NodeModel::Comment(c)),
        ParseEvent::CData(c) => add_child(st, NodeModel::CData(c)),
        ParseEvent::Doctype(d) => BuildState { doctype: Some(d), ..st },
        ParseEvent::ProcessingInstruction(c) => if is_xml_declaration(c) {
            BuildState { is_xml: true, ..st }
        } else {
            add_child(st, NodeModel::ProcessingInstruction(c))
        },
        ParseEvent::ElementStart(name, attributes, autoclose, raw) => {
            let e = ElementModel { name, attributes, nodes: seq![], autoclosed: autoclose };
            if autoclose {
                add_child(st, NodeModel::Element(e))
            } else if raw is Some {
                add_child(
                    st,
                    NodeModel::Element(ElementModel { nodes: seq![NodeModel::Raw(raw->0)], ..e }),
                )
            } else {
                BuildState { stack: st.stack.push(st.current), current: e, ..st }
            }
        },
        ParseEvent::ElementEnd(name) => close_until(st, name),
        ParseEvent::Finish => close_all(st),
    }
}

/// The state after a sequence of events.
pub open spec fn apply_events(st: BuildState, evs: Seq<ParseEvent>) -> BuildState
    decreases evs.len(),
{
    if evs.len() == 0 {
        st
    } else {
        apply_event(apply_events(st, evs.drop_last()), evs.last())
    }
}

/// The document that a state stands for.
pub open spec fn state_document(st: BuildState) -> DocumentModel {
    DocumentModel { doctype: st.doctype, is_xml: st.is_xml, element: st.current }
}

/// A handler that builds a `Document` from the events.
pub struct DomParseHandler {
    stack: Vec<Element>,
    current: Element,
    doctype: Option<String>,
    is_xml: bool,
    log: Ghost<Seq<ParseEvent>>,
}

impl DomParseHandler {
    /// The state that the fields hold.
    pub closed spec fn state(&self) -> BuildState {
        BuildState {
            stack: self.stack@.map_values(|e: Element| element_model(e)),
            current: element_model(self.current),
            doctype: opt_view(self.doctype),
            is_xml: self.is_xml,
        }
    }

    /// A handler that has seen no event.
    pub fn new() -> (r: DomParseHandler)
        ensures
            r.wf(),
            r.events() == Seq::<ParseEvent>::empty(),
    {
        let current = Element::new_with_attributes(
            &string_of(&['#', 'd', 'o', 'c', 'u', 'm', 'e', 'n', 't']),
            Attributes::new(),
        );
        let r = DomParseHandler {
            stack: Vec::new(),
            current,
            doctype: None,
            is_xml: false,
            log: Ghost(Seq::empty()),
        };
        assert(r.state().stack =~= seq![]);
        assert(r.state().current.name =~= document_name());
        r
    }

    /// The document built from the events seen.
    pub fn into_document(self) -> (d: Document)
        requires
            self.wf(),
        ensures
            d@ == state_document(apply_events(initial_state(), self.events())),
    {
        Document { doctype: self.doctype, is_xml: self.is_xml, element: self.current }
    }

    proof fn lemma_log_push(log: Seq<ParseEvent>, ev: ParseEvent)
        ensures
            apply_events(initial_state(), log.push(ev)) == apply_event(
                apply_events(initial_state(), log),
                ev,
            ),
    {
        assert(log.push(ev).drop_last() =~= log);
    }

    /// Appends `n` to the current element.
    fn add(&mut self, n: Node, ev: Ghost<ParseEvent>)
        requires
            old(self).wf(),
            apply_event(old(self).state(), ev@) == add_child(old(self).state(), n@),
        ensures
            final(self).wf(),
            final(self).events() == old(self).events().push(ev@),
    {
        proof {
            Self::lemma_log_push(self.log@, ev@);
        }
        self.current.add_node(n);
        self.log = Ghost(self.log@.push(ev@));
    }
}

impl ParseHandler for DomParseHandler {
    closed spec fn events(&self) -> Seq<ParseEvent> {
        self.log@
    }

    closed spec fn wf(&self) -> bool {
        self.state() == apply_events(initial_state(), self.log@)
    }

    fn finish(&mut self) {
        let ghost st0 = self.state();
        proof {
            Self::lemma_log_push(self.log@, ParseEvent::Finish);
        }
        loop
            invariant
                close_all(st0) == close_all(self.state()),
                apply_events(initial_state(), self.log@) == st0,
                self.log == old(self).log,
            ensures
                close_all(st0) == self.state(),
                apply_events(initial_state(), self.log@) == st0,
                self.log == old(self).log,
            decreases self.stack@.len(),
        {
            let ghost before = self.state();
            match self.stack.pop() {
                Some(e) => {
                    let mut e = e;
                    std::mem::swap(&mut self.current, &mut e);
                    proof {
                        lemma_nodes_model_push(self.current.nodes@, Node::Element(e));
                    }
                    self.current.nodes.push(Node::Element(e));
                    assert(self.state().stack =~= before.stack.drop_last());
                    assert(self.state() == close_one(before));
                },
                None => {
                    break;
                },
            }
        }
        self.log = Ghost(self.log@.push(ParseEvent::Finish));
    }

    fn text(&mut self, content: String) {
        self.add(Node::Text(crate::dom::Text { content }), Ghost(ParseEvent::Text(content@)));
    }

    fn comment(&mut self, content: String) {
        self.add(
            Node::Comment(crate::dom::Comment { content }),
            Ghost(ParseEvent::Comment(content@)),
        );
    }

    fn cdata(&mut self, content: String) {
        self.add(Node::CData(crate::dom::CData { content }), Ghost(ParseEvent::CData(content@)));
    }

    fn doctype(&mut self, content: String) {
        proof {
            Self::lemma_log_push(self.log@, ParseEvent::Doctype(content@));
        }
        self.log = Ghost(self.log@.push(ParseEvent::Doctype(content@)));
        self.doctype = Some(content);
    }

    fn processing_instruction(&mut self, content: String) {
        let ghost ev = ParseEvent::ProcessingInstruction(content@);
        let v = crate::utils::chars_of(content.as_str());
        if v.len() >= 3 && v[0] == 'x' && v[1] == 'm' && v[2] == 'l' {
            proof {
                Self::lemma_log_push(self.log@, ev);
            }
            self.log = Ghost(self.log@.push(ev));
            self.is_xml = true;
        } else {
            self.add(
                Node::ProcessingInstruction(crate::dom::ProcessingInstruction { content }),
                Ghost(ev),
            );
        }
    }

    fn element_start(
        &mut self,
        name: String,
        attributes: Attributes,
        autoclose: bool,
        raw_content: Option<String>,
    ) {
        let ghost ev = ParseEvent::ElementStart(
            name@,
            attributes@,
            autoclose,
            opt_view(raw_content),
        );
        let mut e = Element { name, attributes, nodes: Vec::new(), autoclosed: autoclose };
        assert(nodes_model(e.nodes@) =~= seq![]);
        if autoclose {
            self.add(Node::Element(e), Ghost(ev));
        } else {
            match raw_content {
                Some(raw) => {
                    proof {
                        lemma_nodes_model_push(e.nodes@, Node::Raw(Raw { content: raw }));
                    }
                    e.nodes.push(Node::Raw(Raw { content: raw }));
                    assert(e@.nodes =~= seq![NodeModel::Raw(raw@)]);
                    self.add(Node::Element(e), Ghost(ev));
                },
                None => {
                    let ghost before = self.state();
                    proof {
                        Self::lemma_log_push(self.log@, ev);
                    }
                    std::mem::swap(&mut self.current, &mut e);
                    self.stack.push(e);
                    self.log = Ghost(self.log@.push(ev));
                    assert(self.state().stack =~= before.stack.push(before.current));
                },
            }
        }
    }

    fn element_end(&mut self, name: &str) {
        let ghost st0 = self.state();
        proof {
            Self::lemma_log_push(self.log@, ParseEvent::ElementEnd(name@));
        }
        loop
            invariant_except_break
                close_until(st0, name@) == close_until(self.state(), name@),
            invariant
                apply_events(initial_state(), self.log@) == st0,
                self.log == old(self).log,
            ensures
                close_until(st0, name@) == self.state(),
                apply_events(initial_state(), self.log@) == st0,
                self.log == old(self).log,
            decreases self.stack@.len(),
        {
            let ghost before = self.state();
            match self.stack.pop() {
                Some(e) => {
                    let mut e = e;
                    std::mem::swap(&mut self.current, &mut e);
                    let same = same_str(e.name.as_str(), name);
                    proof {
                        lemma_nodes_model_push(self.current.nodes@, Node::Element(e));
                    }
                    self.current.nodes.push(Node::Element(e));
                    assert(self.state().stack =~= before.stack.drop_last());
                    assert(self.state() == close_one(before));
                    if same {
                        break;
                    }
                },
                None => {
                    break;
                },
            }
        }
        self.log = Ghost(self.log@.push(ParseEvent::ElementEnd(name@)));
    }
}

} // verus!
