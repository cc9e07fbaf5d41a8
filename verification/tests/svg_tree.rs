use sebastian::svg::{
    append, append_element, append_xhtml, get_attr, insert_first, new_element, new_xhtml_element,
    sci_to_plain, serialize, set_attr, set_text, set_text_append, Element, Node,
};

fn xml(e: &Element) -> String {
    let mut out = String::new();
    serialize(e, &mut out);
    out
}

#[test]
fn serializes_self_closing_and_xhtml() {
    let mut g = new_element("g");
    set_attr(&mut g, "class", "label");
    append(&mut g, "rect");
    let mut div = new_xhtml_element("div");
    let mut span = new_xhtml_element("span");
    set_text(&mut span, "A & B");
    append_element(&mut div, span);
    append_element(&mut g, div);
    assert_eq!(
        xml(&g),
        "<g class=\"label\"><rect/><div><span>A &amp; B</span></div></g>"
    );
}

#[test]
fn set_attr_updates_in_place() {
    let mut e = new_element("rect");
    set_attr(&mut e, "x", "1");
    set_attr(&mut e, "y", "2");
    set_attr(&mut e, "x", "3");
    assert_eq!(xml(&e), "<rect x=\"3\" y=\"2\"/>");
    assert_eq!(get_attr(&e, "x"), Some("3".to_string()));
    assert_eq!(get_attr(&e, "z"), None);
}

#[test]
fn attribute_values_are_trimmed_and_escaped() {
    let mut e = new_element("text");
    set_attr(&mut e, "title", "  a\"b<c>&d\te  ");
    set_text_append(&mut e, "x < y");
    assert_eq!(
        xml(&e),
        "<text title=\"a&quot;b&lt;c&gt;&amp;d&#9;e\">x &lt; y</text>"
    );
}

#[test]
fn empty_xhtml_elements_close_explicitly() {
    let mut p = new_xhtml_element("p");
    append_xhtml(&mut p, "br");
    append_xhtml(&mut p, "span");
    assert_eq!(xml(&p), "<p><br /><span></span></p>");
}

#[test]
fn insert_first_prepends() {
    let mut g = new_element("g");
    append(&mut g, "b");
    insert_first(&mut g, new_element("a"));
    assert_eq!(xml(&g), "<g><a/><b/></g>");
    match &g.children[0] {
        Node::Element(e) => assert_eq!(e.tag, "a"),
        Node::Text(_) => panic!("expected an element"),
    }
}

#[test]
fn sci_to_plain_expands_exponents() {
    assert_eq!(sci_to_plain("1.234e2"), "123.4");
    assert_eq!(sci_to_plain("-4.75078125e1"), "-47.5078125");
    assert_eq!(sci_to_plain("5.4e1"), "54");
    assert_eq!(sci_to_plain("1e-6"), "0.000001");
    assert_eq!(sci_to_plain("1e-7"), "1e-7");
    assert_eq!(sci_to_plain("2.5e-7"), "2.5e-7");
    assert_eq!(sci_to_plain("1.5e20"), "150000000000000000000");
    assert_eq!(sci_to_plain("2.35531250e2"), "235.53125");
    assert_eq!(sci_to_plain("0e0"), "0");
}

#[test]
fn sci_to_plain_keeps_large_exponents() {
    assert_eq!(sci_to_plain("5e-324"), "5e-324");
    assert_eq!(sci_to_plain("1e21"), "1e+21");
    assert_eq!(sci_to_plain("-1.5e300"), "-1.5e+300");
    assert_eq!(sci_to_plain("1.2e-8"), "1.2e-8");
}
