//! Escaping for serialized SVG/XHTML: attribute values and text content.

use crate::strs::{
    all_digits, chars_of, concat, copy_range, drop_sign, find_char_exec, is_digit, push_char,
    split_once_char, string_of, strip_set_end, strip_set_end_vec, trim, trim_vec,
};
use vstd::prelude::*;

verus! {

/// How one character is written inside an attribute value.
pub open spec fn attr_escape(c: char) -> Seq<char> {
    if c == '&' {
        "&amp;"@
    } else if c == '<' {
        "&lt;"@
    } else if c == '>' {
        "&gt;"@
    } else if c == '"' {
        "&quot;"@
    } else if c == '\t' {
        "&#9;"@
    } else if c == '\n' {
        "&#10;"@
    } else if c == '\r' {
        "&#13;"@
    } else {
        seq![c]
    }
}

/// How one character is written in text content.
pub open spec fn text_escape(c: char) -> Seq<char> {
    if c == '&' {
        "&amp;"@
    } else if c == '<' {
        "&lt;"@
    } else if c == '>' {
        "&gt;"@
    } else {
        seq![c]
    }
}

/// `s` with each character written as `attr_escape` gives it.
pub open spec fn escaped_attr(s: Seq<char>) -> Seq<char>
    decreases s.len(),
{
    if s.len() == 0 {
        Seq::empty()
    } else {
        escaped_attr(s.drop_last()) + attr_escape(s.last())
    }
}

/// `s` with each character written as `text_escape` gives it.
pub open spec fn escaped_text(s: Seq<char>) -> Seq<char>
    decreases s.len(),
{
    if s.len() == 0 {
        Seq::empty()
    } else {
        escaped_text(s.drop_last()) + text_escape(s.last())
    }
}

fn append_lit(out: &mut String, lit: &str)
    ensures
        final(out)@ == old(out)@ + lit@,
{
    out.append(lit);
}

/// Escapes an attribute value: `&`, `<`, `>`, `"`, tab, line feed and
/// carriage return as character references.
pub fn escape_attr(value: &str) -> (r: String)
    ensures
        r@ == escaped_attr(value@),
{
    let v = chars_of(value);
    let mut out = String::new();
    let mut i: usize = 0;
    while i < v.len()
        invariant
            i <= v@.len(),
            v@ == value@,
            out@ == escaped_attr(v@.take(i as int)),
        decreases v@.len() - i,
    {
        proof {
            assert(v@.take(i + 1).drop_last() =~= v@.take(i as int));
            assert(v@.take(i + 1).last() == v@[i as int]);
        }
        let c = v[i];
        if c == '&' {
            append_lit(&mut out, "&amp;");
        } else if c == '<' {
            append_lit(&mut out, "&lt;");
        } else if c == '>' {
            append_lit(&mut out, "&gt;");
        } else if c == '"' {
            append_lit(&mut out, "&quot;");
        } else if c == '\t' {
            append_lit(&mut out, "&#9;");
        } else if c == '\n' {
            append_lit(&mut out, "&#10;");
        } else if c == '\r' {
            append_lit(&mut out, "&#13;");
        } else {
            push_char(&mut out, c);
        }
        i += 1;
    }
    assert(v@.take(i as int) =~= v@);
    out
}

/// Escapes text content: `&`, `<` and `>` as character references.
pub fn escape_text(value: &str) -> (r: String)
    ensures
        r@ == escaped_text(value@),
{
    let v = chars_of(value);
    let mut out = String::new();
    let mut i: usize = 0;
    while i < v.len()
        invariant
            i <= v@.len(),
            v@ == value@,
            out@ == escaped_text(v@.take(i as int)),
        decreases v@.len() - i,
    {
        proof {
            assert(v@.take(i + 1).drop_last() =~= v@.take(i as int));
            assert(v@.take(i + 1).last() == v@[i as int]);
        }
        let c = v[i];
        if c == '&' {
            append_lit(&mut out, "&amp;");
        } else if c == '<' {
            append_lit(&mut out, "&lt;");
        } else if c == '>' {
            append_lit(&mut out, "&gt;");
        } else {
            push_char(&mut out, c);
        }
        i += 1;
    }
    assert(v@.take(i as int) =~= v@);
    out
}

/// Law: text without `&`, `<` and `>` is written unchanged.
pub proof fn escape_text_identity(s: Seq<char>)
    requires
        forall|i: int| 0 <= i < s.len() ==> s[i] != '&' && s[i] != '<' && s[i] != '>',
    ensures
        escaped_text(s) == s,
    decreases s.len(),
{
    if s.len() > 0 {
        escape_text_identity(s.drop_last());
        assert(s.drop_last() + seq![s.last()] =~= s);
    }
}


/// An SVG or XHTML element: tag, attributes in insertion order, children,
/// and whether it lives in the XHTML namespace (never self-closed).
pub struct Element {
    pub tag: String,
    pub attrs: Vec<(String, String)>,
    pub children: Vec<Node>,
    pub xhtml: bool,
}

/// A child of an element.
pub enum Node {
    Element(Element),
    Text(String),
}

/// The mathematical model of an [`Element`].
pub struct ElementV {
    pub tag: Seq<char>,
    pub attrs: Seq<(Seq<char>, Seq<char>)>,
    pub children: Seq<NodeV>,
    pub xhtml: bool,
}

/// The mathematical model of a [`Node`].
pub enum NodeV {
    Element(ElementV),
    Text(Seq<char>),
}

/// The attribute list as pairs of character sequences.
pub open spec fn attrs_view(a: Seq<(String, String)>) -> Seq<(Seq<char>, Seq<char>)> {
    a.map_values(|p: (String, String)| (p.0@, p.1@))
}

/// The model of an element.
pub open spec fn elem_view(e: Element) -> ElementV
    decreases e,
{
    ElementV {
        tag: e.tag@,
        attrs: attrs_view(e.attrs@),
        children: nodes_view(e.children@),
        xhtml: e.xhtml,
    }
}

/// The models of a sequence of nodes.
pub open spec fn nodes_view(ns: Seq<Node>) -> Seq<NodeV>
    decreases ns,
{
    if ns.len() == 0 {
        Seq::empty()
    } else {
        nodes_view(ns.subrange(0, ns.len() - 1)).push(node_view(ns[ns.len() - 1]))
    }
}

/// The model of a node.
pub open spec fn node_view(n: Node) -> NodeV
    decreases n,
{
    match n {
        Node::Element(e) => NodeV::Element(elem_view(e)),
        Node::Text(t) => NodeV::Text(t@),
    }
}

impl View for Element {
    type V = ElementV;

    open spec fn view(&self) -> ElementV {
        elem_view(*self)
    }
}


/// One attribute as the serializer writes it: a space, the name, and the
/// trimmed, escaped value in double quotes.
pub open spec fn attr_text(a: (Seq<char>, Seq<char>)) -> Seq<char> {
    " "@ + a.0 + "=\""@ + escaped_attr(trim(a.1)) + "\""@
}

/// The attribute list as the serializer writes it.
pub open spec fn attrs_text(a: Seq<(Seq<char>, Seq<char>)>) -> Seq<char>
    decreases a.len(),
{
    if a.len() == 0 {
        Seq::empty()
    } else {
        attrs_text(a.drop_last()) + attr_text(a.last())
    }
}

/// XHTML void elements, written `<br />` when empty.
pub open spec fn is_void_tag(t: Seq<char>) -> bool {
    t == "br"@ || t == "hr"@ || t == "img"@ || t == "input"@ || t == "wbr"@
}

/// The markup of an element: SVG elements without children self-close,
/// empty XHTML void elements close with ` />`, every other element gets an
/// explicit end tag.
pub open spec fn xml_of(e: ElementV) -> Seq<char>
    decreases e,
{
    let open = "<"@ + e.tag + attrs_text(e.attrs);
    if e.children.len() == 0 && !e.xhtml {
        open + "/>"@
    } else if e.children.len() == 0 && is_void_tag(e.tag) {
        open + " />"@
    } else {
        open + ">"@ + xml_of_nodes(e.children) + "</"@ + e.tag + ">"@
    }
}

/// The markup of a sequence of nodes, one after the other.
pub open spec fn xml_of_nodes(ns: Seq<NodeV>) -> Seq<char>
    decreases ns,
{
    if ns.len() == 0 {
        Seq::empty()
    } else {
        xml_of_nodes(ns.subrange(0, ns.len() - 1)) + xml_of_node(ns[ns.len() - 1])
    }
}

/// The markup of a node: an element, or escaped text.
pub open spec fn xml_of_node(n: NodeV) -> Seq<char>
    decreases n,
{
    match n {
        NodeV::Element(e) => xml_of(e),
        NodeV::Text(t) => escaped_text(t),
    }
}

proof fn lemma_nodes_view_len(ns: Seq<Node>)
    ensures
        nodes_view(ns).len() == ns.len(),
    decreases ns.len(),
{
    if ns.len() > 0 {
        lemma_nodes_view_len(ns.subrange(0, ns.len() - 1));
    }
}

proof fn lemma_nodes_view_take(ns: Seq<Node>, i: int)
    requires
        0 <= i < ns.len(),
    ensures
        nodes_view(ns.take(i + 1)) == nodes_view(ns.take(i)).push(node_view(ns[i])),
{
    assert(ns.take(i + 1).subrange(0, i) =~= ns.take(i));
}

proof fn lemma_attrs_take(a: Seq<(String, String)>, i: int)
    requires
        0 <= i < a.len(),
    ensures
        attrs_view(a.take(i + 1)).drop_last() == attrs_view(a.take(i)),
        attrs_view(a.take(i + 1)).last() == (a[i].0@, a[i].1@),
{
    assert(attrs_view(a.take(i + 1)).drop_last() =~= attrs_view(a.take(i)));
}

fn append_str(out: &mut String, s: &str)
    ensures
        final(out)@ == old(out)@ + s@,
{
    out.append(s);
}

/// Appends the markup of `el` to `out`, as Chrome's `XMLSerializer` writes
/// it: attribute values trimmed and escaped, SVG elements without children
/// self-closed, XHTML elements always closed.
pub fn serialize(el: &Element, out: &mut String)
    ensures
        final(out)@ == old(out)@ + xml_of(el@),
    decreases el,
{
    let ghost start = out@;
    let ghost e = el@;
    append_lit(out, "<");
    append_str(out, el.tag.as_str());
    let mut i: usize = 0;
    while i < el.attrs.len()
        invariant
            i <= el.attrs@.len(),
            e == el@,
            out@ == start + "<"@ + el.tag@ + attrs_text(attrs_view(el.attrs@.take(i as int))),
        decreases el.attrs@.len() - i,
    {
        proof {
            lemma_attrs_take(el.attrs@, i as int);
        }
        append_lit(out, " ");
        append_str(out, el.attrs[i].0.as_str());
        append_lit(out, "=\"");
        let v = chars_of(el.attrs[i].1.as_str());
        let tv = trim_vec(&v);
        let tvs = string_of(&tv);
        let esc = escape_attr(tvs.as_str());
        append_str(out, esc.as_str());
        append_lit(out, "\"");
        i += 1;
        proof {
            let a = attrs_view(el.attrs@.take(i as int));
            assert(attrs_text(a) == attrs_text(a.drop_last()) + attr_text(a.last()));
        }
    }
    assert(el.attrs@.take(i as int) =~= el.attrs@);
    let ghost open = start + "<"@ + el.tag@ + attrs_text(e.attrs);
    assert(out@ == open);
    proof {
        lemma_nodes_view_len(el.children@);
    }
    if el.children.len() == 0 && !el.xhtml {
        append_lit(out, "/>");
        return;
    }
    if el.children.len() == 0 && el.xhtml && is_void_tag_exec(el.tag.as_str()) {
        append_lit(out, " />");
        return;
    }
    append_lit(out, ">");
    let mut k: usize = 0;
    while k < el.children.len()
        invariant
            k <= el.children@.len(),
            e == el@,
            out@ == open + ">"@ + xml_of_nodes(nodes_view(el.children@.take(k as int))),
        decreases el.children@.len() - k,
    {
        proof {
            lemma_nodes_view_take(el.children@, k as int);
            let t = nodes_view(el.children@.take(k + 1));
            assert(t.subrange(0, t.len() - 1) =~= nodes_view(el.children@.take(k as int)));
        }
        let ghost before = out@;
        match &el.children[k] {
            Node::Element(c) => {
                serialize(c, out);
            },
            Node::Text(t) => {
                let esc = escape_text(t.as_str());
                append_str(out, esc.as_str());
            },
        }
        assert(out@ == before + xml_of_node(node_view(el.children@[k as int])));
        proof {
            let t = nodes_view(el.children@.take(k + 1));
            assert(t[t.len() - 1] == node_view(el.children@[k as int]));
            assert(xml_of_nodes(t) == xml_of_nodes(t.subrange(0, t.len() - 1)) + xml_of_node(
                t[t.len() - 1],
            ));
        }
        k += 1;
    }
    assert(el.children@.take(k as int) =~= el.children@);
    append_lit(out, "</");
    append_str(out, el.tag.as_str());
    append_lit(out, ">");
}

fn is_void_tag_exec(t: &str) -> (b: bool)
    ensures
        b == is_void_tag(t@),
{
    let v = chars_of(t);
    crate::strs::eq_str(&v, "br") || crate::strs::eq_str(&v, "hr") || crate::strs::eq_str(&v, "img")
        || crate::strs::eq_str(&v, "input") || crate::strs::eq_str(&v, "wbr")
}


/// The first position, from `i` on, of an attribute named `name`.
pub open spec fn attr_pos_from(a: Seq<(Seq<char>, Seq<char>)>, name: Seq<char>, i: nat) -> Option<
    nat,
>
    decreases a.len() - i,
{
    if i >= a.len() {
        None
    } else if a[i as int].0 == name {
        Some(i)
    } else {
        attr_pos_from(a, name, i + 1)
    }
}

/// The position of the attribute named `name`, if there is one.
pub open spec fn attr_pos(a: Seq<(Seq<char>, Seq<char>)>, name: Seq<char>) -> Option<nat> {
    attr_pos_from(a, name, 0)
}

/// The attribute list after setting `name` to `value`: an existing attribute
/// is updated in place, a new one goes at the end.
pub open spec fn with_attr(a: Seq<(Seq<char>, Seq<char>)>, name: Seq<char>, value: Seq<char>) -> Seq<
    (Seq<char>, Seq<char>),
> {
    match attr_pos(a, name) {
        Some(i) => a.update(i as int, (name, value)),
        None => a.push((name, value)),
    }
}

/// The value of the attribute named `name`, if there is one.
pub open spec fn attr_value(a: Seq<(Seq<char>, Seq<char>)>, name: Seq<char>) -> Option<Seq<char>> {
    match attr_pos(a, name) {
        Some(i) => Some(a[i as int].1),
        None => None,
    }
}

proof fn lemma_attr_pos_from_bounds(a: Seq<(Seq<char>, Seq<char>)>, name: Seq<char>, i: nat)
    ensures
        match attr_pos_from(a, name, i) {
            Some(k) => i <= k < a.len() && a[k as int].0 == name && forall|j: int|
                i <= j < k ==> a[j].0 != name,
            None => forall|j: int| i <= j < a.len() ==> a[j].0 != name,
        },
    decreases a.len() - i,
{
    if i < a.len() {
        lemma_attr_pos_from_bounds(a, name, i + 1);
    }
}

proof fn lemma_attr_pos_from_char(a: Seq<(Seq<char>, Seq<char>)>, name: Seq<char>, i: nat, k: nat)
    requires
        i <= k < a.len(),
        a[k as int].0 == name,
        forall|j: int| i <= j < k ==> a[j].0 != name,
    ensures
        attr_pos_from(a, name, i) == Some(k),
    decreases k - i,
{
    if i < k {
        lemma_attr_pos_from_char(a, name, i + 1, k);
    }
}

proof fn lemma_attr_pos_none(a: Seq<(Seq<char>, Seq<char>)>, name: Seq<char>, i: nat)
    requires
        forall|j: int| i <= j < a.len() ==> a[j].0 != name,
    ensures
        attr_pos_from(a, name, i) == None::<nat>,
    decreases a.len() - i,
{
    if i < a.len() {
        lemma_attr_pos_none(a, name, i + 1);
    }
}

proof fn lemma_attr_pos_is(a: Seq<(Seq<char>, Seq<char>)>, name: Seq<char>)
    ensures
        match attr_pos(a, name) {
            Some(k) => k < a.len() && a[k as int].0 == name && forall|j: int|
                0 <= j < k ==> a[j].0 != name,
            None => forall|j: int| 0 <= j < a.len() ==> a[j].0 != name,
        },
{
    lemma_attr_pos_from_bounds(a, name, 0);
}

/// Law: reading an attribute right after setting it gives the value set,
/// and setting it leaves every other attribute as it was.
pub proof fn set_then_get_attr(
    a: Seq<(Seq<char>, Seq<char>)>,
    name: Seq<char>,
    value: Seq<char>,
    other: Seq<char>,
)
    ensures
        attr_value(with_attr(a, name, value), name) == Some(value),
        other != name ==> attr_value(with_attr(a, name, value), other) == attr_value(a, other),
{
    let b = with_attr(a, name, value);
    lemma_attr_pos_is(a, name);
    lemma_attr_pos_is(a, other);
    match attr_pos(a, name) {
        Some(k) => {
            lemma_attr_pos_from_char(b, name, 0, k);
        },
        None => {
            lemma_attr_pos_from_char(b, name, 0, a.len());
        },
    }
    if other != name {
        match attr_pos(a, other) {
            Some(k) => {
                lemma_attr_pos_from_char(b, other, 0, k);
            },
            None => {
                lemma_attr_pos_none(b, other, 0);
            },
        }
    }
}

/// An empty SVG element.
pub fn new_element(tag: &str) -> (e: Element)
    ensures
        e@ == (ElementV { tag: tag@, attrs: Seq::empty(), children: Seq::empty(), xhtml: false }),
{
    let e = Element {
        tag: String::from_str(tag),
        attrs: Vec::new(),
        children: Vec::new(),
        xhtml: false,
    };
    assert(attrs_view(e.attrs@) =~= Seq::empty());
    e
}

/// An empty XHTML element.
pub fn new_xhtml_element(tag: &str) -> (e: Element)
    ensures
        e@ == (ElementV { tag: tag@, attrs: Seq::empty(), children: Seq::empty(), xhtml: true }),
{
    let mut e = new_element(tag);
    e.xhtml = true;
    e
}

/// Sets attribute `name` to `value`: in place where the element has it
/// already, at the end otherwise.
pub fn set_attr(el: &mut Element, name: &str, value: &str)
    ensures
        final(el)@ == (ElementV { attrs: with_attr(old(el)@.attrs, name@, value@), ..old(el)@ }),
{
    let n = String::from_str(name);
    let mut found: Option<usize> = None;
    let mut i: usize = 0;
    while i < el.attrs.len()
        invariant_except_break
            found is None,
        invariant
            i <= el.attrs@.len(),
            n@ == name@,
            forall|j: int| 0 <= j < i ==> el.attrs@[j].0@ != name@,
        ensures
            match found {
                Some(k) => k < el.attrs@.len() && el.attrs@[k as int].0@ == name@ && forall|j: int|
                    0 <= j < k ==> el.attrs@[j].0@ != name@,
                None => forall|j: int| 0 <= j < el.attrs@.len() ==> el.attrs@[j].0@ != name@,
            },
        decreases el.attrs@.len() - i,
    {
        if el.attrs[i].0 == n {
            found = Some(i);
            break;
        }
        i += 1;
    }
    let ghost a = attrs_view(old(el).attrs@);
    proof {
        lemma_attr_pos_is(a, name@);
    }
    match found {
        Some(k) => {
            proof {
                lemma_attr_pos_from_char(a, name@, 0, k as nat);
            }
            el.attrs.set(k, (n, String::from_str(value)));
            assert(attrs_view(el.attrs@) =~= a.update(k as int, (name@, value@)));
        },
        None => {
            proof {
                lemma_attr_pos_none(a, name@, 0);
            }
            el.attrs.push((n, String::from_str(value)));
            assert(attrs_view(el.attrs@) =~= a.push((name@, value@)));
        },
    }
}

/// The value of attribute `name`, if the element has it.
pub fn get_attr(el: &Element, name: &str) -> (r: Option<String>)
    ensures
        match r {
            Some(v) => attr_value(el@.attrs, name@) == Some(v@),
            None => attr_value(el@.attrs, name@) == None::<Seq<char>>,
        },
{
    let n = String::from_str(name);
    let ghost a = attrs_view(el.attrs@);
    let mut i: usize = 0;
    while i < el.attrs.len()
        invariant
            i <= el.attrs@.len(),
            n@ == name@,
            a == attrs_view(el.attrs@),
            forall|j: int| 0 <= j < i ==> el.attrs@[j].0@ != name@,
        decreases el.attrs@.len() - i,
    {
        if el.attrs[i].0 == n {
            proof {
                lemma_attr_pos_from_char(a, name@, 0, i as nat);
            }
            return Some(el.attrs[i].1.clone());
        }
        i += 1;
    }
    proof {
        lemma_attr_pos_none(a, name@, 0);
    }
    None
}

proof fn lemma_nodes_view_push(ns: Seq<Node>, n: Node)
    ensures
        nodes_view(ns.push(n)) == nodes_view(ns).push(node_view(n)),
{
    assert(ns.push(n).subrange(0, ns.len() as int) =~= ns);
}

proof fn lemma_nodes_view_prepend(n: Node, ns: Seq<Node>)
    ensures
        nodes_view(seq![n] + ns) == seq![node_view(n)] + nodes_view(ns),
    decreases ns.len(),
{
    let s = seq![n] + ns;
    if ns.len() == 0 {
        assert(s.subrange(0, 0) =~= Seq::<Node>::empty());
        assert(nodes_view(Seq::<Node>::empty()) == Seq::<NodeV>::empty());
        assert(s[0] == n);
        assert(nodes_view(s) == Seq::<NodeV>::empty().push(node_view(n)));
        assert(seq![node_view(n)] + nodes_view(ns) =~= Seq::<NodeV>::empty().push(node_view(n)));
    } else {
        let init = ns.subrange(0, ns.len() - 1);
        lemma_nodes_view_prepend(n, init);
        assert(s.subrange(0, s.len() - 1) =~= seq![n] + init);
        assert(s[s.len() - 1] == ns[ns.len() - 1]);
        assert(nodes_view(s) == nodes_view(seq![n] + init).push(node_view(ns[ns.len() - 1])));
        assert(nodes_view(ns) == nodes_view(init).push(node_view(ns[ns.len() - 1])));
        assert(seq![node_view(n)] + nodes_view(ns) =~= (seq![node_view(n)] + nodes_view(
            init,
        )).push(node_view(ns[ns.len() - 1])));
    }
}

/// Appends `child` as the last child of `parent`.
pub fn append_element(parent: &mut Element, child: Element)
    ensures
        final(parent)@ == (ElementV {
            children: old(parent)@.children.push(NodeV::Element(child@)),
            ..old(parent)@
        }),
{
    proof {
        lemma_nodes_view_push(parent.children@, Node::Element(child));
    }
    parent.children.push(Node::Element(child));
}

/// Appends an empty SVG element named `tag` as the last child of `parent`.
pub fn append(parent: &mut Element, tag: &str)
    ensures
        final(parent)@ == (ElementV {
            children: old(parent)@.children.push(
                NodeV::Element(
                    ElementV { tag: tag@, attrs: Seq::empty(), children: Seq::empty(), xhtml: false },
                ),
            ),
            ..old(parent)@
        }),
{
    let c = new_element(tag);
    append_element(parent, c);
}

/// Appends an empty XHTML element named `tag` as the last child of `parent`.
pub fn append_xhtml(parent: &mut Element, tag: &str)
    ensures
        final(parent)@ == (ElementV {
            children: old(parent)@.children.push(
                NodeV::Element(
                    ElementV { tag: tag@, attrs: Seq::empty(), children: Seq::empty(), xhtml: true },
                ),
            ),
            ..old(parent)@
        }),
{
    let c = new_xhtml_element(tag);
    append_element(parent, c);
}

/// Inserts `child` as the first child of `parent`.
pub fn insert_first(parent: &mut Element, child: Element)
    ensures
        final(parent)@ == (ElementV {
            children: seq![NodeV::Element(child@)] + old(parent)@.children,
            ..old(parent)@
        }),
{
    proof {
        lemma_nodes_view_prepend(Node::Element(child), parent.children@);
        assert(parent.children@.insert(0, Node::Element(child)) =~= seq![Node::Element(child)]
            + parent.children@);
    }
    parent.children.insert(0, Node::Element(child));
}

/// Appends a text node to `el`.
pub fn set_text_append(el: &mut Element, text: &str)
    ensures
        final(el)@ == (ElementV { children: old(el)@.children.push(NodeV::Text(text@)), ..old(el)@ }),
{
    let t = String::from_str(text);
    proof {
        lemma_nodes_view_push(el.children@, Node::Text(t));
    }
    el.children.push(Node::Text(t));
}

/// Replaces the children of `el` with one text node.
pub fn set_text(el: &mut Element, text: &str)
    ensures
        final(el)@ == (ElementV { children: seq![NodeV::Text(text@)], ..old(el)@ }),
{
    el.children = Vec::new();
    set_text_append(el, text);
    assert(nodes_view(Seq::<Node>::empty()) =~= Seq::empty());
    assert(Seq::<NodeV>::empty().push(NodeV::Text(text@)) =~= seq![NodeV::Text(text@)]);
}


/// The value of a string of decimal digits.
pub open spec fn digits_value(d: Seq<char>) -> nat
    decreases d.len(),
{
    if d.len() == 0 {
        0
    } else {
        digits_value(d.drop_last()) * 10 + ((d.last() as int) - ('0' as int)) as nat
    }
}

/// The value of an optionally signed decimal integer.
pub open spec fn int_text_value(t: Seq<char>) -> int {
    if t.len() > 0 && t[0] == '-' {
        -digits_value(drop_sign(t))
    } else {
        digits_value(drop_sign(t)) as int
    }
}

/// Text that `i32::from_str` accepts: an optional sign, then at least one
/// digit, with a value in range.
pub open spec fn is_i32_text(t: Seq<char>) -> bool {
    &&& drop_sign(t).len() > 0
    &&& all_digits(drop_sign(t))
    &&& i32::MIN <= int_text_value(t) <= i32::MAX
}

/// Scientific notation as Rust's `{:e}` formatting writes it: a mantissa,
/// `e`, and an exponent that fits an `i32`.
pub open spec fn is_sci_text(s: Seq<char>) -> bool {
    match split_once_char(s, 'e') {
        Some((_, x)) => is_i32_text(x),
        None => false,
    }
}

/// The digits of a mantissa, in order, without sign or point.
pub open spec fn keep_digits(m: Seq<char>) -> Seq<char>
    decreases m.len(),
{
    if m.len() == 0 {
        Seq::empty()
    } else if is_digit(m.last()) {
        keep_digits(m.drop_last()).push(m.last())
    } else {
        keep_digits(m.drop_last())
    }
}

/// The significant digits: trailing zeros dropped, `0` if none remain.
pub open spec fn sig_digits(m: Seq<char>) -> Seq<char> {
    let d = strip_set_end(keep_digits(m), seq!['0']);
    if d.len() == 0 {
        seq!['0']
    } else {
        d
    }
}

/// `n` zero digits.
pub open spec fn zeros(n: nat) -> Seq<char> {
    Seq::new(n, |i: int| '0')
}

/// The plain decimal form of mantissa `m` times ten to the power `e`.
pub open spec fn plain_decimal(m: Seq<char>, e: int) -> Seq<char> {
    let sign = if m.len() > 0 && m[0] == '-' {
        "-"@
    } else {
        Seq::empty()
    };
    let d = sig_digits(m);
    let point = e + 1;
    if point <= 0 {
        sign + "0."@ + zeros((-point) as nat) + d
    } else if point >= d.len() {
        sign + d + zeros((point - d.len()) as nat)
    } else {
        sign + d.take(point) + "."@ + d.skip(point)
    }
}

/// What [`sci_to_plain`] gives, as JavaScript's `String(number)` writes
/// numbers: plain notation for exponents strictly between -7 and 21; from 21
/// up the exponent is written with its `+`; from -7 down the text stays.
pub open spec fn sci_plain(s: Seq<char>) -> Seq<char> {
    match split_once_char(s, 'e') {
        Some((m, x)) => {
            let e = int_text_value(x);
            if e >= 21 {
                m + "e+"@ + drop_sign(x)
            } else if e <= -7 {
                s
            } else {
                plain_decimal(m, e)
            }
        },
        None => s,
    }
}

proof fn lemma_digits_value_prefix(d: Seq<char>, i: int)
    requires
        0 <= i <= d.len(),
    ensures
        digits_value(d.take(i)) <= digits_value(d),
    decreases d.len(),
{
    if i < d.len() {
        lemma_digits_value_prefix(d.drop_last(), i);
        assert(d.drop_last().take(i) =~= d.take(i));
    } else {
        assert(d.take(i) =~= d);
    }
}

/// The value of an `i32` text.
fn parse_i32_text(t: &[char]) -> (r: i64)
    requires
        is_i32_text(t@),
    ensures
        r == int_text_value(t@),
{
    let neg = t.len() > 0 && t[0] == '-';
    let start: usize = if t.len() > 0 && (t[0] == '-' || t[0] == '+') {
        1
    } else {
        0
    };
    let ghost d = drop_sign(t@);
    assert(d =~= t@.skip(start as int));
    proof {
        lemma_digits_value_prefix(d, d.len() as int);
    }
    let mut v: i64 = 0;
    let mut i: usize = start;
    while i < t.len()
        invariant
            start <= i <= t@.len(),
            d == t@.skip(start as int),
            all_digits(d),
            digits_value(d) <= 0x8000_0000,
            v == digits_value(d.take(i - start)),
        decreases t@.len() - i,
    {
        proof {
            lemma_digits_value_prefix(d, i - start + 1);
            let p = d.take(i - start + 1);
            assert(p.drop_last() =~= d.take(i - start));
            assert(p.last() == t@[i as int]);
            assert(is_digit(d[i - start]));
        }
        let c = t[i];
        let dv: i64 = (c as u32 - '0' as u32) as i64;
        v = v * 10 + dv;
        i += 1;
    }
    assert(d.take(i - start) =~= d);
    if neg {
        -v
    } else {
        v
    }
}

fn keep_digits_exec(m: &[char]) -> (r: Vec<char>)
    ensures
        r@ == keep_digits(m@),
{
    let mut r: Vec<char> = Vec::new();
    let mut i: usize = 0;
    while i < m.len()
        invariant
            i <= m@.len(),
            r@ == keep_digits(m@.take(i as int)),
        decreases m@.len() - i,
    {
        proof {
            assert(m@.take(i + 1).drop_last() =~= m@.take(i as int));
            assert(m@.take(i + 1).last() == m@[i as int]);
        }
        let c = m[i];
        if '0' <= c && c <= '9' {
            r.push(c);
        }
        i += 1;
    }
    assert(m@.take(i as int) =~= m@);
    r
}

fn push_zeros(out: &mut Vec<char>, n: usize)
    ensures
        final(out)@ == old(out)@ + zeros(n as nat),
{
    let ghost start = out@;
    let mut i: usize = 0;
    while i < n
        invariant
            i <= n,
            out@ == start + zeros(i as nat),
        decreases n - i,
    {
        out.push('0');
        i += 1;
        assert(out@ =~= start + zeros(i as nat));
    }
}

fn extend_range(out: &mut Vec<char>, s: &[char], lo: usize, hi: usize)
    requires
        lo <= hi <= s@.len(),
    ensures
        final(out)@ == old(out)@ + s@.subrange(lo as int, hi as int),
{
    let ghost start = out@;
    let mut i: usize = lo;
    while i < hi
        invariant
            lo <= i <= hi <= s@.len(),
            out@ == start + s@.subrange(lo as int, i as int),
        decreases hi - i,
    {
        out.push(s[i]);
        i += 1;
        assert(out@ =~= start + s@.subrange(lo as int, i as int));
    }
}

/// Rewrites scientific notation such as `1.234e2` the way JavaScript's
/// `String(number)` prints the number: plain decimal (`123.4`) for exponents
/// strictly between -7 and 21, `1e+21` (the `+` added) from 21 up, and the
/// text unchanged (`1e-7`) from -7 down.
pub fn sci_to_plain(s: &str) -> (r: String)
    requires
        is_sci_text(s@),
    ensures
        r@ == sci_plain(s@),
{
    let v = chars_of(s);
    proof {
        crate::strs::lemma_find_char(v@, 'e');
    }
    let k = match find_char_exec(&v, 'e') {
        Some(k) => k,
        None => {
            return String::from_str(s);
        },
    };
    let m = copy_range(&v, 0, k);
    let x = copy_range(&v, k + 1, v.len());
    assert(m@ =~= v@.take(k as int));
    assert(x@ =~= v@.skip(k + 1 as int));
    let e = parse_i32_text(&x);
    if e >= 21 {
        let ds = if x.len() > 0 && (x[0] == '-' || x[0] == '+') {
            copy_range(&x, 1, x.len())
        } else {
            copy_range(&x, 0, x.len())
        };
        let mut out = m.clone();
        out.push('e');
        out.push('+');
        let r = concat(&out, &ds);
        proof {
            assert(x@.subrange(0, x@.len() as int) =~= x@);
            assert(x@.subrange(1, x@.len() as int) =~= x@.drop_first());
            assert(r@ =~= m@ + "e+"@ + drop_sign(x@)) by {
                reveal_strlit("e+");
            }
        }
        return string_of(&r);
    }
    if e <= -7 {
        return String::from_str(s);
    }
    let neg = m.len() > 0 && m[0] == '-';
    let digits = keep_digits_exec(&m);
    let zero_set: Vec<char> = vec!['0'];
    assert(zero_set@ =~= seq!['0']);
    let d1 = strip_set_end_vec(&digits, &zero_set);
    let d: Vec<char> = if d1.len() == 0 {
        vec!['0']
    } else {
        d1
    };
    assert(d@ =~= sig_digits(m@));
    let point: i64 = e + 1;
    let mut out: Vec<char> = Vec::new();
    if neg {
        out.push('-');
    }
    let ghost sign = out@;
    proof {
        reveal_strlit("-");
        reveal_strlit("0.");
        reveal_strlit(".");
    }
    if point <= 0 {
        out.push('0');
        out.push('.');
        push_zeros(&mut out, (-point) as usize);
        extend_range(&mut out, &d, 0, d.len());
        assert(d@.subrange(0, d@.len() as int) =~= d@);
        assert(out@ =~= sign + "0."@ + zeros((-point) as nat) + d@);
    } else if point as usize >= d.len() {
        extend_range(&mut out, &d, 0, d.len());
        assert(d@.subrange(0, d@.len() as int) =~= d@);
        push_zeros(&mut out, point as usize - d.len());
        assert(out@ =~= sign + d@ + zeros((point - d@.len()) as nat));
    } else {
        let p = point as usize;
        extend_range(&mut out, &d, 0, p);
        out.push('.');
        extend_range(&mut out, &d, p, d.len());
        assert(out@ =~= sign + d@.take(point as int) + "."@ + d@.skip(point as int));
    }
    string_of(&out)
}


/// An SVG element without children, with the given attributes in order.
pub fn element_with(tag: &str, attrs: Vec<(String, String)>) -> (e: Element)
    ensures
        e@ == (ElementV {
            tag: tag@,
            attrs: attrs_view(attrs@),
            children: Seq::empty(),
            xhtml: false,
        }),
{
    let e = Element { tag: String::from_str(tag), attrs, children: Vec::new(), xhtml: false };
    assert(nodes_view(e.children@) =~= Seq::empty());
    e
}

/// An owned attribute pair.
pub fn attr_pair(name: &str, value: &str) -> (p: (String, String))
    ensures
        p.0@ == name@,
        p.1@ == value@,
{
    (String::from_str(name), String::from_str(value))
}


/// The model of an attribute list after a push.
pub proof fn lemma_attrs_view_push(a: Seq<(String, String)>, p: (String, String))
    ensures
        attrs_view(a.push(p)) == attrs_view(a).push((p.0@, p.1@)),
{
    assert(attrs_view(a.push(p)) =~= attrs_view(a).push((p.0@, p.1@)));
}

} // verus!
