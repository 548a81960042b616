//! Properties of the tree builder and of whole parses, proved over the models.
use vstd::prelude::*;

verus! {

use crate::builder::{
    BuildState,
    root_element,
    add_child,
    apply_event,
    apply_events,
    close_all,
    close_one,
    close_until,
    initial_state,
};
use crate::dom::{AttrModel, DocumentModel, ElementModel, NodeModel};
use crate::parser::{
    ParseEvent,
    parse_events,
    parse_model,
    start_tag_step,
    step,
    end_tag_step,
    bang_step,
    cdata_step,
    doctype_step,
    lemma_step_len,
    lt_set,
    lower,
    attr_loop,
    raw_close,
    lemma_skip_ws_len,
};
use crate::utils::{void_element, raw_element, unicode_whitespace};
use crate::entities::named_entity;
use crate::reader::{
    text_read,
    raw_read,
    raw_stop,
    ends_at,
    stops_at,
    until_len,
    entity_scan,
    ends_entity,
    lemma_text_read_stop,
    lemma_text_read_plain,
    lemma_text_read_entity,
};
use crate::writer::{
    element_text,
    start_tag_text,
    escape,
    escape_char,
    document_text,
    nodes_text,
    node_text,
    attributes_text,
    written_alone,
};

/// The last child of `e` where that is an element, else `e` itself.
pub open spec fn last_element_child(e: ElementModel) -> ElementModel {
    if e.nodes.len() > 0 && e.nodes.last() is Element {
        e.nodes.last()->Element_0
    } else {
        e
    }
}

/// Follows the last element child `k` times down from `e`.
pub open spec fn descend(e: ElementModel, k: nat) -> ElementModel
    decreases k,
{
    if k == 0 {
        e
    } else {
        last_element_child(descend(e, (k - 1) as nat))
    }
}

/// `descend` one step further is the last element child of where it got to.
proof fn lemma_descend_tail(e: ElementModel, k: nat)
    ensures
        descend(e, k + 1) == last_element_child(descend(e, k)),
{
}

/// An end tag that names none of the open elements closes all of them, exactly as the end of
/// the input does: nothing is left open, each open element becomes the last child of the one
/// open around it (see `lemma_end_of_input_nests_open_elements`), and the doctype and the
/// XML flag stay as they were.
pub proof fn lemma_unmatched_end_tag_closes_all(st: BuildState, name: Seq<char>)
    requires
        st.stack.len() > 0 ==> st.current.name != name,
        forall|i: int| 1 <= i < st.stack.len() ==> (#[trigger] st.stack[i]).name != name,
    ensures
        apply_event(st, ParseEvent::ElementEnd(name)) == close_all(st),
        close_all(st).stack.len() == 0,
        descend(close_all(st).current, st.stack.len()) == st.current,
        forall|i: int|
            0 <= i < st.stack.len() ==> (#[trigger] descend(close_all(st).current, i as nat))
                == (ElementModel {
                nodes: st.stack[i].nodes.push(
                    NodeModel::Element(descend(close_all(st).current, (i + 1) as nat)),
                ),
                ..st.stack[i]
            }),
        close_all(st).doctype == st.doctype,
        close_all(st).is_xml == st.is_xml,
{
    lemma_unmatched_end_tag_is_close_all(st, name);
    lemma_end_of_input_nests_open_elements(st);
}

proof fn lemma_unmatched_end_tag_is_close_all(st: BuildState, name: Seq<char>)
    requires
        st.stack.len() > 0 ==> st.current.name != name,
        forall|i: int| 1 <= i < st.stack.len() ==> (#[trigger] st.stack[i]).name != name,
    ensures
        close_until(st, name) == close_all(st),
    decreases st.stack.len(),
{
    if st.stack.len() > 0 {
        let st2 = close_one(st);
        assert forall|i: int| 1 <= i < st2.stack.len() implies (#[trigger] st2.stack[i]).name
            != name by {
            assert(st2.stack[i] == st.stack[i]);
        }
        if st2.stack.len() > 0 {
            assert(st2.current.name == st.stack[st.stack.len() - 1].name);
        }
        lemma_unmatched_end_tag_is_close_all(st2, name);
    }
}

/// At the end of the input every element still open is closed, in last-opened-first-closed
/// order, and becomes the last child of the element that was open around it, which otherwise
/// keeps its name, attributes and children: the open elements form the chain of last
/// children from the root, the current element at its end, and nothing is left open. The
/// doctype and the XML flag stay as they were.
pub proof fn lemma_end_of_input_nests_open_elements(st: BuildState)
    ensures
        close_all(st).stack.len() == 0,
        close_all(st).doctype == st.doctype,
        close_all(st).is_xml == st.is_xml,
        descend(close_all(st).current, st.stack.len()) == st.current,
        forall|i: int|
            0 <= i < st.stack.len() ==> (#[trigger] descend(close_all(st).current, i as nat))
                == (ElementModel {
                nodes: st.stack[i].nodes.push(
                    NodeModel::Element(descend(close_all(st).current, (i + 1) as nat)),
                ),
                ..st.stack[i]
            }),
    decreases st.stack.len(),
{
    if st.stack.len() > 0 {
        let d = st.stack.len();
        let st2 = close_one(st);
        lemma_end_of_input_nests_open_elements(st2);
        let r = close_all(st).current;
        assert(close_all(st) == close_all(st2));
        lemma_descend_tail(r, (d - 1) as nat);
        assert forall|i: int| 0 <= i < d implies (#[trigger] descend(r, i as nat)) == (
        ElementModel {
            nodes: st.stack[i].nodes.push(NodeModel::Element(descend(r, (i + 1) as nat))),
            ..st.stack[i]
        }) by {
            if i < d - 1 {
                assert(st2.stack[i] == st.stack[i]);
            } else {
                assert(descend(r, i as nat) == st2.current);
            }
        }
    }
}

/// Anywhere in the tree, void elements are autoclosed and autoclosed elements have no
/// children.
pub open spec fn closed_childless(e: ElementModel) -> bool
    decreases e,
{
    (void_element(e.name) ==> e.autoclosed) && (e.autoclosed ==> e.nodes.len() == 0)
        && closed_childless_nodes(e.nodes)
}

/// `closed_childless` of every element among `s`.
pub open spec fn closed_childless_nodes(s: Seq<NodeModel>) -> bool
    decreases s,
{
    s.len() == 0 || (closed_childless_nodes(s.drop_last()) && match s.last() {
        NodeModel::Element(e) => closed_childless(e),
        _ => true,
    })
}

/// An open element: not void, not autoclosed, and `closed_childless`.
pub open spec fn open_ok(e: ElementModel) -> bool {
    !void_element(e.name) && !e.autoclosed && closed_childless(e)
}

/// Every element of the state is void-childless and no open element is void.
pub open spec fn state_ok(st: BuildState) -> bool {
    open_ok(st.current) && forall|i: int| 0 <= i < st.stack.len() ==> open_ok(#[trigger] st.stack[i])
}

/// A start event for a void element always comes closed.
pub open spec fn event_ok(ev: ParseEvent) -> bool {
    match ev {
        ParseEvent::ElementStart(name, _, autoclose, _) => void_element(name) ==> autoclose,
        _ => true,
    }
}

proof fn lemma_push_ok(s: Seq<NodeModel>, n: NodeModel)
    requires
        closed_childless_nodes(s),
        n matches NodeModel::Element(e) ==> closed_childless(e),
    ensures
        closed_childless_nodes(s.push(n)),
{
    assert(s.push(n).drop_last() =~= s);
}

proof fn lemma_add_child_ok(st: BuildState, n: NodeModel)
    requires
        state_ok(st),
        n matches NodeModel::Element(e) ==> closed_childless(e),
    ensures
        state_ok(add_child(st, n)),
{
    lemma_push_ok(st.current.nodes, n);
}

proof fn lemma_close_one_ok(st: BuildState)
    requires
        state_ok(st),
        st.stack.len() > 0,
    ensures
        state_ok(close_one(st)),
{
    let parent = st.stack.last();
    assert(open_ok(st.stack[st.stack.len() - 1]));
    lemma_push_ok(parent.nodes, NodeModel::Element(st.current));
    let st2 = close_one(st);
    assert forall|i: int| 0 <= i < st2.stack.len() implies open_ok(#[trigger] st2.stack[i]) by {
        assert(st2.stack[i] == st.stack[i]);
    }
}

proof fn lemma_close_until_ok(st: BuildState, name: Seq<char>)
    requires
        state_ok(st),
    ensures
        state_ok(close_until(st, name)),
    decreases st.stack.len(),
{
    if st.stack.len() > 0 {
        lemma_close_one_ok(st);
        if st.current.name != name {
            lemma_close_until_ok(close_one(st), name);
        }
    }
}

proof fn lemma_close_all_ok(st: BuildState)
    requires
        state_ok(st),
    ensures
        state_ok(close_all(st)),
    decreases st.stack.len(),
{
    if st.stack.len() > 0 {
        lemma_close_one_ok(st);
        lemma_close_all_ok(close_one(st));
    }
}

proof fn lemma_apply_event_ok(st: BuildState, ev: ParseEvent)
    requires
        state_ok(st),
        event_ok(ev),
    ensures
        state_ok(apply_event(st, ev)),
{
    let empty = Seq::<NodeModel>::empty();
    assert(closed_childless_nodes(empty));
    match ev {
        ParseEvent::Text(t) => lemma_add_child_ok(st, NodeModel::Text(t)),
        ParseEvent::Comment(c) => lemma_add_child_ok(st, NodeModel::Comment(c)),
        ParseEvent::CData(c) => lemma_add_child_ok(st, NodeModel::CData(c)),
        ParseEvent::Doctype(_) => {},
        ParseEvent::ProcessingInstruction(c) => lemma_add_child_ok(
            st,
            NodeModel::ProcessingInstruction(c),
        ),
        ParseEvent::ElementStart(name, attributes, autoclose, raw) => {
            let e = ElementModel { name, attributes, nodes: empty, autoclosed: autoclose };
            assert(closed_childless(e));
            if autoclose {
                lemma_add_child_ok(st, NodeModel::Element(e));
            } else if raw is Some {
                let e2 = ElementModel { nodes: seq![NodeModel::Raw(raw->0)], ..e };
                lemma_push_ok(empty, NodeModel::Raw(raw->0));
                assert(empty.push(NodeModel::Raw(raw->0)) =~= seq![NodeModel::Raw(raw->0)]);
                assert(closed_childless(e2));
                lemma_add_child_ok(st, NodeModel::Element(e2));
            } else {
                let st2 = apply_event(st, ev);
                assert forall|i: int| 0 <= i < st2.stack.len() implies open_ok(
                    #[trigger] st2.stack[i],
                ) by {
                    if i < st.stack.len() {
                        assert(st2.stack[i] == st.stack[i]);
                    }
                }
            }
        },
        ParseEvent::ElementEnd(name) => lemma_close_until_ok(st, name),
        ParseEvent::Finish => lemma_close_all_ok(st),
    }
}

proof fn lemma_apply_events_ok(evs: Seq<ParseEvent>)
    requires
        forall|i: int| 0 <= i < evs.len() ==> event_ok(#[trigger] evs[i]),
    ensures
        state_ok(apply_events(initial_state(), evs)),
    decreases evs.len(),
{
    if evs.len() == 0 {
        let root = initial_state().current;
        assert(closed_childless_nodes(root.nodes));
        assert(!void_element(root.name));
    } else {
        let front = evs.drop_last();
        assert forall|i: int| 0 <= i < front.len() implies event_ok(#[trigger] front[i]) by {
            assert(front[i] == evs[i]);
        }
        lemma_apply_events_ok(front);
        assert(event_ok(evs[evs.len() - 1]));
        lemma_apply_event_ok(apply_events(initial_state(), front), evs.last());
    }
}

proof fn lemma_step_events_ok(s: Seq<char>)
    requires
        s.len() > 0,
    ensures
        forall|i: int| 0 <= i < step(s).0.len() ==> event_ok(#[trigger] step(s).0[i]),
{
    let s1 = s.drop_first();
    if s[0] == '<' && s1.len() > 0 && s1[0] != '/' && s1[0] != '!' && s1[0] != '?' {
        assert(step(s) == start_tag_step(s1));
    } else if s[0] == '<' && s1.len() > 0 && s1[0] == '/' {
        assert(step(s) == end_tag_step(s1.drop_first()));
    } else if s[0] == '<' && s1.len() > 0 && s1[0] == '!' {
        let s2 = s1.drop_first();
        assert(step(s) == bang_step(s2));
        let r2 = crate::parser::after_first(crate::parser::after_first(s2));
        let c = cdata_step(r2);
        let d = doctype_step(r2);
        assert(forall|i: int| 0 <= i < c.0.len() ==> event_ok(#[trigger] c.0[i]));
        assert(forall|i: int| 0 <= i < d.0.len() ==> event_ok(#[trigger] d.0[i]));
    }
}

proof fn lemma_parse_events_ok(s: Seq<char>)
    ensures
        forall|i: int| 0 <= i < parse_events(s).len() ==> event_ok(#[trigger] parse_events(s)[i]),
    decreases s.len(),
{
    if s.len() > 0 {
        lemma_step_len(s);
        lemma_step_events_ok(s);
        let (e, r) = step(s);
        lemma_parse_events_ok(r);
        assert(parse_events(s) == e + parse_events(r));
        assert forall|i: int| 0 <= i < parse_events(s).len() implies event_ok(
            #[trigger] parse_events(s)[i],
        ) by {
            if i < e.len() {
                assert(parse_events(s)[i] == e[i]);
            } else {
                assert(parse_events(s)[i] == parse_events(r)[i - e.len()]);
            }
        }
    }
}

/// Whatever the input, every void element of the parsed document is autoclosed, and no
/// autoclosed element has children.
pub proof fn lemma_parsed_closed_elements_childless(s: Seq<char>)
    ensures
        closed_childless(parse_model(s).element),
{
    lemma_parse_events_ok(s);
    lemma_apply_events_ok(parse_events(s));
}

/// A void or autoclosed element is written as its opening tag alone: no children and no
/// closing tag, whatever children it holds.
pub proof fn lemma_closed_element_written_alone(e: ElementModel)
    requires
        void_element(e.name) || e.autoclosed,
    ensures
        element_text(e) == start_tag_text(e),
{
    assert(start_tag_text(e) + Seq::<char>::empty() =~= start_tag_text(e));
}

/// A character that the writer puts in text content so that it reads back as itself: no
/// control character (U+0000 to U+001F), and no Unicode whitespace but space and no-break
/// space.
pub open spec fn round_trip_char(c: char) -> bool {
    !(c <= '\u{1f}') && (unicode_whitespace(c) ==> (c == ' ' || c == '\u{a0}'))
}

proof fn lemma_escape_cons(c: char, t: Seq<char>, attribute: bool)
    ensures
        escape(seq![c] + t, attribute) == escape_char(c, attribute) + escape(t, attribute),
    decreases t.len(),
{
    let s = seq![c] + t;
    if t.len() == 0 {
        assert(s.drop_last() =~= Seq::<char>::empty());
        assert(s.last() == c);
        assert(escape(s.drop_last(), attribute) == Seq::<char>::empty());
        assert(escape(t, attribute) == Seq::<char>::empty());
        assert(escape(s, attribute) == escape(s.drop_last(), attribute) + escape_char(
            c,
            attribute,
        ));
        assert(escape_char(c, attribute) + escape(t, attribute) =~= escape_char(c, attribute));
        assert(Seq::<char>::empty() + escape_char(c, attribute) =~= escape_char(c, attribute));
    } else {
        assert(s.drop_last() =~= seq![c] + t.drop_last());
        lemma_escape_cons(c, t.drop_last(), attribute);
        assert(s.last() == t.last());
        assert(escape(s, attribute) =~= escape_char(c, attribute) + escape(t, attribute));
    }
}

proof fn lemma_entity_scan_name(w: Seq<char>, rest: Seq<char>, ends: Seq<char>)
    requires
        forall|i: int| 0 <= i < w.len() ==> !ends_entity(#[trigger] w[i], ends),
    ensures
        entity_scan(w + seq![';'] + rest, ends) == w.len(),
    decreases w.len(),
{
    let s = w + seq![';'] + rest;
    if w.len() == 0 {
        assert(s[0] == ';');
    } else {
        let w2 = w.drop_first();
        assert(s.drop_first() =~= w2 + seq![';'] + rest);
        assert forall|i: int| 0 <= i < w2.len() implies !ends_entity(#[trigger] w2[i], ends) by {
            assert(w2[i] == w[i + 1]);
        }
        assert(!ends_entity(w[0], ends));
        lemma_entity_scan_name(w2, rest, ends);
    }
}

/// A named reference `&w;` in text content reads as the character it names.
proof fn lemma_read_reference(w: Seq<char>, c: char, rest: Seq<char>)
    requires
        w.len() > 0,
        w[0] != '#',
        named_entity(w) == Some(c),
        forall|i: int| 0 <= i < w.len() ==> 'a' <= #[trigger] w[i] <= 'z',
    ensures
        text_read(seq!['&'] + w + seq![';'] + rest, lt_set()) == (seq![c] + text_read(
            rest,
            lt_set(),
        ).0, text_read(rest, lt_set()).1),
{
    let s = seq!['&'] + w + seq![';'] + rest;
    let t = s.drop_first();
    assert(t =~= w + seq![';'] + rest);
    assert(!lt_set().contains('&')) by {
        assert(lt_set()[0] == '<');
    }
    assert(!lt_set().contains(';')) by {
        assert(lt_set()[0] == '<');
    }
    assert forall|i: int| 0 <= i < w.len() implies !ends_entity(#[trigger] w[i], lt_set()) by {
        if lt_set().contains(w[i]) {
            let j = choose|j: int| 0 <= j < lt_set().len() && lt_set()[j] == w[i];
            assert(lt_set()[j] == '<');
        }
    }
    lemma_entity_scan_name(w, rest, lt_set());
    lemma_text_read_entity(s, lt_set());
    let k = w.len();
    assert(t[k as int] == ';');
    assert(t.take(k as int) =~= w);
    assert(t.skip(k + 1int) =~= rest);
}

/// Text content that the writer escapes reads back as the same text, up to the end of the
/// input: `text_read` of `escape(t, false)` gives `t` and leaves nothing, where every
/// character of `t` is a `round_trip_char`.
pub proof fn lemma_text_round_trip(t: Seq<char>)
    requires
        forall|i: int| 0 <= i < t.len() ==> round_trip_char(#[trigger] t[i]),
    ensures
        text_read(escape(t, false), lt_set()) == (t, Seq::<char>::empty()),
    decreases t.len(),
{
    if t.len() == 0 {
        lemma_text_read_stop(escape(t, false), lt_set());
    } else {
        let c = t[0];
        let t2 = t.drop_first();
        assert(t =~= seq![c] + t2);
        lemma_escape_cons(c, t2, false);
        assert forall|i: int| 0 <= i < t2.len() implies round_trip_char(#[trigger] t2[i]) by {
            assert(t2[i] == t[i + 1]);
        }
        assert(round_trip_char(t[0]));
        lemma_text_round_trip(t2);
        let rest = escape(t2, false);
        let s = escape_char(c, false) + rest;
        if c == '&' {
            lemma_read_reference(seq!['a', 'm', 'p'], '&', rest);
            assert(s =~= seq!['&'] + seq!['a', 'm', 'p'] + seq![';'] + rest);
        } else if c == '<' {
            lemma_read_reference(seq!['l', 't'], '<', rest);
            assert(s =~= seq!['&'] + seq!['l', 't'] + seq![';'] + rest);
        } else if c == '>' {
            lemma_read_reference(seq!['g', 't'], '>', rest);
            assert(s =~= seq!['&'] + seq!['g', 't'] + seq![';'] + rest);
        } else if c == '\u{a0}' {
            lemma_read_reference(seq!['n', 'b', 's', 'p'], '\u{a0}', rest);
            assert(s =~= seq!['&'] + seq!['n', 'b', 's', 'p'] + seq![';'] + rest);
        } else {
            assert(escape_char(c, false) == seq![c]);
            assert(!lt_set().contains(c)) by {
                if lt_set().contains(c) {
                    let j = choose|j: int| 0 <= j < lt_set().len() && lt_set()[j] == c;
                    assert(lt_set()[j] == '<');
                }
            }
            assert(s.drop_first() =~= rest);
            lemma_text_read_plain(s, lt_set());
        }
        assert(seq![c] + t2 =~= t);
    }
}

/// The tag name `script`.
pub open spec fn script_name() -> Seq<char> {
    seq!['s', 'c', 'r', 'i', 'p', 't']
}

/// `<script>`.
pub open spec fn script_open() -> Seq<char> {
    seq!['<'] + script_name() + seq!['>']
}

proof fn lemma_raw_stop_at_end(t: Seq<char>, end: Seq<char>, i: int)
    requires
        0 <= i < t.len(),
        forall|j: int| i < j < t.len() ==> !#[trigger] ends_at(t, end, j),
        ends_at(t, end, t.len() as int),
    ensures
        raw_stop(t, end, i) == t.len(),
    decreases t.len() - i,
{
    if i + 1 < t.len() {
        assert(!ends_at(t, end, i + 1));
        lemma_raw_stop_at_end(t, end, i + 1);
    }
}

proof fn lemma_until_len_word(
    w: Seq<char>,
    c: char,
    rest: Seq<char>,
    stop_on_ws: bool,
    ends: Seq<char>,
)
    requires
        forall|i: int| 0 <= i < w.len() ==> !stops_at(#[trigger] w[i], stop_on_ws, ends),
        stops_at(c, stop_on_ws, ends),
    ensures
        until_len(w + seq![c] + rest, stop_on_ws, ends) == w.len(),
    decreases w.len(),
{
    let t = w + seq![c] + rest;
    if w.len() == 0 {
        assert(t[0] == c);
    } else {
        let w2 = w.drop_first();
        assert(t.drop_first() =~= w2 + seq![c] + rest);
        assert forall|i: int| 0 <= i < w2.len() implies !stops_at(
            #[trigger] w2[i],
            stop_on_ws,
            ends,
        ) by {
            assert(w2[i] == w[i + 1]);
        }
        assert(!stops_at(w[0], stop_on_ws, ends));
        lemma_until_len_word(w2, c, rest, stop_on_ws, ends);
    }
}

/// The content of a `script` element comes back byte for byte, markup-like text, quotes and
/// `&` included: `<script>` + `s` + `</script>` parses to one `script` element holding `s`
/// as its raw content, and is written back unchanged. This holds where the closing tag
/// `</script>` occurs in `s` + `</script>` only at its end.
pub proof fn lemma_script_round_trip(s: Seq<char>)
    requires
        forall|j: int|
            0 <= j < s.len() + raw_close(script_name()).len() ==> !#[trigger] ends_at(
                s + raw_close(script_name()),
                raw_close(script_name()),
                j,
            ),
    ensures
        parse_model(script_open() + s + raw_close(script_name())) == (DocumentModel {
            doctype: None,
            is_xml: false,
            element: ElementModel {
                nodes: seq![
                    NodeModel::Element(
                        ElementModel {
                            name: script_name(),
                            attributes: seq![],
                            nodes: seq![NodeModel::Raw(s)],
                            autoclosed: false,
                        },
                    ),
                ],
                ..root_element()
            },
        }),
        document_text(parse_model(script_open() + s + raw_close(script_name())))
            == script_open() + s + raw_close(script_name()),
{
    let close = raw_close(script_name());
    let x = script_open() + s + close;
    let t = s + close;
    // the raw content runs up to the closing tag at the very end
    assert(t.subrange(t.len() - close.len(), t.len() as int) =~= close);
    lemma_raw_stop_at_end(t, close, 0);
    assert(t.take(t.len() - close.len()) =~= s);
    assert(t.skip(t.len() as int) =~= Seq::<char>::empty());
    assert(raw_read(t, close) == (s, Seq::<char>::empty()));
    // the start tag
    let s1 = x.drop_first();
    assert(s1 =~= script_name() + seq!['>'] + t);
    assert(s1[0] == 's');
    lemma_skip_ws_len(s1);
    let ends = seq!['>', '/'];
    assert forall|i: int| 0 <= i < script_name().len() implies !stops_at(
        #[trigger] script_name()[i],
        true,
        ends,
    ) by {
        let c = script_name()[i];
        if ends.contains(c) {
            let j = choose|j: int| 0 <= j < ends.len() && ends[j] == c;
            assert(ends[j] == '>' || ends[j] == '/');
        }
    }
    assert(stops_at('>', true, ends)) by {
        assert(ends[0] == '>');
    }
    lemma_until_len_word(script_name(), '>', t, true, ends);
    assert(s1.take(6) =~= script_name());
    assert(lower(script_name()) =~= script_name());
    let s2 = s1.skip(6);
    assert(s2 =~= seq!['>'] + t);
    lemma_skip_ws_len(s2);
    assert(attr_loop(s2, seq![]) == (Seq::<AttrModel>::empty(), s2));
    assert(s2.drop_first() =~= t);
    assert(!void_element(script_name()));
    assert(raw_element(script_name()));
    let ev = ParseEvent::ElementStart(script_name(), seq![], false, Some(s));
    assert(start_tag_step(s1) == (seq![ev], Seq::<char>::empty()));
    assert(step(x) == start_tag_step(s1));
    assert(x.len() > 0);
    assert(parse_events(x) == step(x).0 + parse_events(step(x).1));
    assert(parse_events(Seq::<char>::empty()) == seq![ParseEvent::Finish]);
    assert(parse_events(x) =~= seq![ev, ParseEvent::Finish]);
    // the builder
    let evs = seq![ev, ParseEvent::Finish];
    assert(evs.drop_last() =~= seq![ev]);
    assert(seq![ev].drop_last() =~= Seq::<ParseEvent>::empty());
    let e = ElementModel {
        name: script_name(),
        attributes: seq![],
        nodes: seq![NodeModel::Raw(s)],
        autoclosed: false,
    };
    assert(apply_events(initial_state(), Seq::<ParseEvent>::empty()) == initial_state());
    assert(apply_events(initial_state(), seq![ev]) == apply_event(initial_state(), ev));
    assert(apply_event(initial_state(), ev) == add_child(initial_state(), NodeModel::Element(e)));
    assert(apply_events(initial_state(), seq![ev]) == add_child(
        initial_state(),
        NodeModel::Element(e),
    ));
    assert(root_element().nodes.push(NodeModel::Element(e)) =~= seq![NodeModel::Element(e)]);
    // the writer
    let ns = seq![NodeModel::Element(e)];
    assert(ns.drop_last() =~= Seq::<NodeModel>::empty());
    assert(nodes_text(Seq::<NodeModel>::empty()) == Seq::<char>::empty());
    assert(ns.last() == NodeModel::Element(e));
    assert(node_text(NodeModel::Element(e)) == element_text(e));
    assert(nodes_text(ns) == nodes_text(ns.drop_last()) + node_text(ns.last()));
    assert(nodes_text(ns) =~= element_text(e));
    let rs = seq![NodeModel::Raw(s)];
    assert(rs.drop_last() =~= Seq::<NodeModel>::empty());
    assert(nodes_text(rs) =~= s);
    assert(attributes_text(e.attributes) =~= Seq::<char>::empty());
    assert(!written_alone(e));
    assert(element_text(e) =~= x);
    assert(document_text(parse_model(x)) =~= x);
}

} // verus!
