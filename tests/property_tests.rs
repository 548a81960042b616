use qd_html::dom::{Attributes, Document, Element, Node};
use qd_html::parser::parse_to_dom;
use qd_html::reader::Reader;
use qd_html::utils::{cleanup, decode_entity};
use qd_html::writer::{write_element, HtmlWriter};

fn first_text(html: &str) -> String {
    let doc = parse_to_dom(html);
    match &doc.element.nodes[0] {
        Node::Text(t) => t.content.clone(),
        other => panic!("not a text node: {:?}", other),
    }
}

#[test]
fn cleanup_twice_is_cleanup_once() {
    let inputs = [
        "<!DOCTYPE html><html><body><h1>test</body></html>",
        "<p class=\"a\" hidden>1 &lt; 2 &amp; 3</p><br><!-- c --><![CDATA[x]]>",
        "<ul><li>one<li>two</ul>",
        "<script>if (a < b) { x = \"</p>\"; }</script><style>p > a {}</style>",
        "text with\u{a0}nbsp and <img src=x alt='q\"uote'>",
    ];
    for x in inputs.iter() {
        let once = cleanup(x);
        assert_eq!(cleanup(&once), once, "input {:?}", x);
    }
}

#[test]
fn void_element_gets_no_children() {
    let doc = parse_to_dom("<div><br>hi</br><img src=x></div>");
    let div = match &doc.element.nodes[0] {
        Node::Element(e) => e,
        _ => panic!("expected an element"),
    };
    assert_eq!(div.name, "div");
    for n in div.nodes.iter() {
        if let Node::Element(e) = n {
            if e.name == "br" || e.name == "img" {
                assert!(e.autoclosed);
                assert_eq!(e.nodes.len(), 0);
            }
        }
    }
    assert_eq!(cleanup("<div><br>hi<img src=\"x\"></div>"), "<div><br>hi<img src=\"x\"></div>");
}

#[test]
fn void_element_children_are_not_written() {
    let mut br = Element::new("br");
    br.add_text("hidden");
    let mut root = Element::new("#document");
    root.add_element(br);
    assert_eq!(write_element(&root), "<br>");
}

#[test]
fn self_closed_void_element() {
    assert_eq!(cleanup("<br/><hr />"), "<br><hr>");
}

#[test]
fn unmatched_end_tag_closes_everything() {
    let doc = parse_to_dom("<a><b></x>after");
    let root = doc.element;
    assert_eq!(root.nodes.len(), 2);
    match &root.nodes[0] {
        Node::Element(a) => {
            assert_eq!(a.name, "a");
            assert_eq!(a.nodes.len(), 1);
            match &a.nodes[0] {
                Node::Element(b) => assert_eq!(b.name, "b"),
                _ => panic!("expected b"),
            }
        },
        _ => panic!("expected a"),
    }
    match &root.nodes[1] {
        Node::Text(t) => assert_eq!(t.content, "after"),
        _ => panic!("expected text"),
    }
}

#[test]
fn end_tag_closes_up_to_its_element() {
    assert_eq!(cleanup("<a><b><c></b>x</a>"), "<a><b><c></c></b>x</a>");
}

#[test]
fn open_elements_are_closed_at_end() {
    let doc = parse_to_dom("<test><foo><bar>");
    let test = match &doc.element.nodes[0] {
        Node::Element(e) => e,
        _ => panic!("expected test"),
    };
    assert_eq!(test.name, "test");
    let foo = match &test.nodes[0] {
        Node::Element(e) => e,
        _ => panic!("expected foo"),
    };
    assert_eq!(foo.name, "foo");
    let bar = match &foo.nodes[0] {
        Node::Element(e) => e,
        _ => panic!("expected bar"),
    };
    assert_eq!(bar.name, "bar");
    assert_eq!(bar.nodes.len(), 0);
    assert_eq!(cleanup("<test><foo><bar>"), "<test><foo><bar></bar></foo></test>");
}

#[test]
fn entity_round_trips() {
    assert_eq!(first_text("&amp;"), "&");
    assert_eq!(first_text("&nbsp;"), "\u{a0}");
    assert_eq!(first_text("&#128169;"), "\u{1f4a9}");
    assert_eq!(first_text("&#x1F4A9;"), "\u{1f4a9}");
    assert_eq!(first_text("&ZZZ;"), "&ZZZ;");
    assert_eq!(first_text("&Ouml W&oumlrld!"), "&Ouml W&oumlrld!");
}

#[test]
fn entity_edge_cases() {
    assert_eq!(decode_entity("#+65"), None);
    assert_eq!(decode_entity("#65"), Some('A'));
    assert_eq!(decode_entity("#-65"), None);
    assert_eq!(decode_entity("#xD800"), None);
    assert_eq!(decode_entity("#x110000"), None);
    assert_eq!(decode_entity("#x10FFFF"), Some('\u{10ffff}'));
    assert_eq!(decode_entity("#0"), Some('\u{0}'));
    assert_eq!(decode_entity("AMP"), None);
    assert_eq!(decode_entity("lt"), Some('<'));
    assert_eq!(first_text("a&b c"), "a&b c");
    assert_eq!(first_text("x&#65;y"), "xAy");
}

#[test]
fn script_content_is_verbatim() {
    let input = "<script> \"<test></test>\" </script>";
    assert_eq!(cleanup(input), input);
    let doc = parse_to_dom("<style>a &amp; b</style>");
    match &doc.element.nodes[0] {
        Node::Element(e) => match &e.nodes[0] {
            Node::Raw(r) => assert_eq!(r.content, "a &amp; b"),
            _ => panic!("expected raw"),
        },
        _ => panic!("expected style"),
    }
}

#[test]
fn unterminated_script_takes_the_rest() {
    let doc = parse_to_dom("<script>abc");
    match &doc.element.nodes[0] {
        Node::Element(e) => match &e.nodes[0] {
            Node::Raw(r) => assert_eq!(r.content, "abc"),
            _ => panic!("expected raw"),
        },
        _ => panic!("expected script"),
    }
}

#[test]
fn attribute_collision_keeps_last_value() {
    let doc = parse_to_dom("<test attr1=\"a1\" attr1='a2'></test>");
    match &doc.element.nodes[0] {
        Node::Element(e) => {
            assert_eq!(e.attributes.len(), 1);
            assert_eq!(e.get_attribute_value("attr1"), Some("a2"));
        },
        _ => panic!("expected test"),
    }
}

#[test]
fn attributes_keep_first_position() {
    let mut a = Attributes::new();
    a.set("x", "1");
    a.set_bool("y");
    a.set("x", "2");
    assert_eq!(a.len(), 2);
    assert_eq!(a.get(0).name, "x");
    assert_eq!(a.get(0).value, Some("2".to_owned()));
    assert_eq!(a.get(1).name, "y");
    assert!(a.get(1).is_bool());
    assert!(!a.is_empty());
}

#[test]
fn end_to_end_example() {
    assert_eq!(
        cleanup("<!DOCTYPE html><html><body><h1>test</body></html>"),
        "<!DOCTYPE html><html><body><h1>test</h1></body></html>"
    );
}

#[test]
fn self_closed_element_has_no_children() {
    let doc = parse_to_dom("<test />");
    assert_eq!(doc.element.nodes.len(), 1);
    match &doc.element.nodes[0] {
        Node::Element(e) => {
            assert_eq!(e.name, "test");
            assert!(e.autoclosed);
            assert_eq!(e.nodes.len(), 0);
        },
        _ => panic!("expected test"),
    }
    // an autoclosed element is written without a closing tag
    assert_eq!(cleanup("<test />"), "<test>");
}

#[test]
fn names_are_lowercased() {
    assert_eq!(cleanup("<DIV Class=\"a\">x</DiV>"), "<div Class=\"a\">x</div>");
}

#[test]
fn unquoted_value_drops_following_character() {
    let doc = parse_to_dom("<a href=x>t</a>");
    match &doc.element.nodes[0] {
        Node::Element(e) => {
            assert_eq!(e.get_attribute_value("href"), Some("x"));
            assert!(e.has_attribute("t<"));
        },
        _ => panic!("expected a"),
    }
}

#[test]
fn processing_instructions() {
    let doc = parse_to_dom("<?xml version=\"1.0\"?><a/>");
    assert!(doc.is_xml);
    assert_eq!(doc.element.nodes.len(), 1);
    assert_eq!(cleanup("<?php echo 1; ?>"), "<?php echo 1; ?>");
}

#[test]
fn malformed_markup_is_kept_as_text() {
    assert_eq!(first_text("<!"), "<!");
    assert_eq!(first_text("<!-"), "<!-");
    assert_eq!(first_text("<!->x"), "<!->");
    assert_eq!(first_text("<![CDAT"), "<![CDAT");
    assert_eq!(first_text("<!DOCTYP"), "<!DOCTYP");
    assert_eq!(first_text("<!>"), "<!>");
}

#[test]
fn unterminated_constructs() {
    let doc = parse_to_dom("<!-- open");
    match &doc.element.nodes[0] {
        Node::Comment(c) => assert_eq!(c.content, " open"),
        _ => panic!("expected comment"),
    }
    let doc = parse_to_dom("<![CDATA[abc");
    match &doc.element.nodes[0] {
        Node::CData(c) => assert_eq!(c.content, "abc"),
        _ => panic!("expected cdata"),
    }
    let doc = parse_to_dom("<!DOCTYPE  html  ");
    assert_eq!(doc.doctype, Some("html".to_owned()));
}

#[test]
fn later_doctype_wins() {
    let doc = parse_to_dom("<!DOCTYPE a><!DOCTYPE b>");
    assert_eq!(doc.doctype, Some("b".to_owned()));
}

#[test]
fn writer_escapes_whitespace_and_controls() {
    let mut root = Element::new("#document");
    let mut e = Element::new("p");
    e.set_attribute("t", "a\u{2003}b\u{1}c");
    e.add_text("x\u{3000}y\u{7}z\n\t\r!");
    root.add_element(e);
    assert_eq!(write_element(&root), "<p t=\"a&x8195;bc\">x&x12288;yz!</p>");
}

#[test]
fn write_element_writes_named_element_itself() {
    let mut e = Element::new("p");
    e.add_comment("c");
    e.add_cdata("d");
    e.add_processing_instruction("pi");
    assert_eq!(write_element(&e), "<p><!--c--><![CDATA[d]]><?pi?></p>");
}

#[test]
fn new_document_writes_html_doctype() {
    let mut doc = Document::new();
    let mut root = Element::new("html");
    root.add_element(Element::new("head"));
    root.add_element(Element::new("body"));
    doc.element.add_element(root);
    assert_eq!(qd_html::writer::write(&doc), "<!DOCTYPE html><html><head></head><body></body></html>");
}

#[test]
fn html_writer_pieces() {
    let mut w = HtmlWriter::new();
    w.element_start_name("a");
    w.element_attribute("b", &Some("<&>".to_owned()));
    w.element_attribute("c", &None);
    w.push('>');
    w.append_text("<&>", false);
    w.append_raw("<&>");
    w.element_end_for_name("a");
    w.write_doctype("x");
    w.push_str("!");
    assert_eq!(w.into_string(), "<a b=\"<&amp;>\" c>&lt;&amp;&gt;<&></a><!DOCTYPE x>!");
}

#[test]
fn reader_read_raw_and_text() {
    let mut r = Reader::new("abc-->rest");
    assert_eq!(r.read_raw("-->"), "abc");
    assert_eq!(r.read_text(&['x']), "rest");
    let mut r = Reader::new("a&lt;b&bogus;c&d e<");
    assert_eq!(r.read_text(&['<']), "a<b&bogus;c&d e");
    assert_eq!(r.next_char(), Some('<'));
}

#[test]
fn escaped_text_reads_back() {
    let t = "1 < 2 && 3 > 2 \"q\"\u{a0}é";
    let mut root = Element::new("#document");
    root.add_text(t);
    let written = write_element(&root);
    assert_eq!(written, "1 &lt; 2 &amp;&amp; 3 &gt; 2 \"q\"&nbsp;é");
    assert_eq!(first_text(&written), t);
}

#[test]
fn whitespace_ends_a_reference() {
    assert_eq!(first_text("&a\n&amp;"), "&a\n&");
    assert_eq!(first_text("&amp\t;"), "&amp\t;");
}

#[test]
fn read_raw_with_empty_marker_reads_one_character() {
    let mut r = Reader::new("ab");
    assert_eq!(r.read_raw(""), "a");
    assert_eq!(r.next_char(), Some('b'));
    let mut r = Reader::new("");
    assert_eq!(r.read_raw(""), "");
}

#[test]
fn autoclosed_element_children_are_not_written() {
    let mut e = Element::new("test");
    e.autoclosed = true;
    e.add_text("hidden");
    assert_eq!(write_element(&e), "<test>");
}
