//! The arrowhead markers (`<marker>` definitions) that edges refer to by id.

use crate::strs::{chars_of, eq_str};
use crate::svg::{
    append_element, lemma_attrs_view_push, attr_pair, attrs_view, element_with, set_attr, with_attr, Element, ElementV,
    NodeV,
};
use vstd::prelude::*;

verus! {

/// The shape drawn inside a marker.
pub enum Child {
    Path(&'static str),
    Polygon(&'static str),
    Circle,
}

/// One marker of the flowchart set.
pub struct MarkerSpec {
    pub id_suffix: &'static str,
    pub class: &'static str,
    pub view_box: Option<&'static str>,
    pub ref_x: &'static str,
    pub ref_y: &'static str,
    pub marker_width: &'static str,
    pub marker_height: &'static str,
    pub child: Child,
    pub style: &'static str,
    /// `refY` is written before `refX`.
    pub ref_y_first: bool,
}

/// The model of a [`Child`].
pub enum ChildV {
    Path(Seq<char>),
    Polygon(Seq<char>),
    Circle,
}

/// The model of a [`MarkerSpec`].
pub struct MarkerSpecV {
    pub id_suffix: Seq<char>,
    pub class: Seq<char>,
    pub view_box: Option<Seq<char>>,
    pub ref_x: Seq<char>,
    pub ref_y: Seq<char>,
    pub marker_width: Seq<char>,
    pub marker_height: Seq<char>,
    pub child: ChildV,
    pub style: Seq<char>,
    pub ref_y_first: bool,
}

impl View for MarkerSpec {
    type V = MarkerSpecV;

    open spec fn view(&self) -> MarkerSpecV {
        MarkerSpecV {
            id_suffix: self.id_suffix@,
            class: self.class@,
            view_box: match self.view_box {
                Some(v) => Some(v@),
                None => None,
            },
            ref_x: self.ref_x@,
            ref_y: self.ref_y@,
            marker_width: self.marker_width@,
            marker_height: self.marker_height@,
            child: match self.child {
                Child::Path(d) => ChildV::Path(d@),
                Child::Polygon(p) => ChildV::Polygon(p@),
                Child::Circle => ChildV::Circle,
            },
            style: self.style@,
            ref_y_first: self.ref_y_first,
        }
    }
}

/// The flowchart marker set: point, circle and cross heads at either end,
/// each plain and with a margin.
pub open spec fn marker_table() -> Seq<MarkerSpecV> {
    seq![
        MarkerSpecV {
            id_suffix: "pointEnd"@,
            class: "marker"@,
            view_box: Some("0 0 10 10"@),
            ref_x: "5"@,
            ref_y: "5"@,
            marker_width: "8"@,
            marker_height: "8"@,
            child: ChildV::Path("M 0 0 L 10 5 L 0 10 z"@),
            style: "stroke-width: 1; stroke-dasharray: 1, 0;"@,
            ref_y_first: false,
        },
        MarkerSpecV {
            id_suffix: "pointStart"@,
            class: "marker"@,
            view_box: Some("0 0 10 10"@),
            ref_x: "4.5"@,
            ref_y: "5"@,
            marker_width: "8"@,
            marker_height: "8"@,
            child: ChildV::Path("M 0 5 L 10 10 L 10 0 z"@),
            style: "stroke-width: 1; stroke-dasharray: 1, 0;"@,
            ref_y_first: false,
        },
        MarkerSpecV {
            id_suffix: "pointEnd-margin"@,
            class: "marker"@,
            view_box: Some("0 0 11.5 14"@),
            ref_x: "11.5"@,
            ref_y: "7"@,
            marker_width: "10.5"@,
            marker_height: "14"@,
            child: ChildV::Path("M 0 0 L 11.5 7 L 0 14 z"@),
            style: "stroke-width: 0; stroke-dasharray: 1, 0;"@,
            ref_y_first: false,
        },
        MarkerSpecV {
            id_suffix: "pointStart-margin"@,
            class: "marker"@,
            view_box: Some("0 0 11.5 14"@),
            ref_x: "1"@,
            ref_y: "7"@,
            marker_width: "11.5"@,
            marker_height: "14"@,
            child: ChildV::Polygon("0,7 11.5,14 11.5,0"@),
            style: "stroke-width: 0; stroke-dasharray: 1, 0;"@,
            ref_y_first: false,
        },
        MarkerSpecV {
            id_suffix: "circleEnd"@,
            class: "marker"@,
            view_box: Some("0 0 10 10"@),
            ref_x: "11"@,
            ref_y: "5"@,
            marker_width: "11"@,
            marker_height: "11"@,
            child: ChildV::Circle,
            style: "stroke-width: 1; stroke-dasharray: 1, 0;"@,
            ref_y_first: false,
        },
        MarkerSpecV {
            id_suffix: "circleStart"@,
            class: "marker"@,
            view_box: Some("0 0 10 10"@),
            ref_x: "-1"@,
            ref_y: "5"@,
            marker_width: "11"@,
            marker_height: "11"@,
            child: ChildV::Circle,
            style: "stroke-width: 1; stroke-dasharray: 1, 0;"@,
            ref_y_first: false,
        },
        MarkerSpecV {
            id_suffix: "circleEnd-margin"@,
            class: "marker"@,
            view_box: Some("0 0 10 10"@),
            ref_x: "12.25"@,
            ref_y: "5"@,
            marker_width: "14"@,
            marker_height: "14"@,
            child: ChildV::Circle,
            style: "stroke-width: 0; stroke-dasharray: 1, 0;"@,
            ref_y_first: true,
        },
        MarkerSpecV {
            id_suffix: "circleStart-margin"@,
            class: "marker"@,
            view_box: Some("0 0 10 10"@),
            ref_x: "-2"@,
            ref_y: "5"@,
            marker_width: "14"@,
            marker_height: "14"@,
            child: ChildV::Circle,
            style: "stroke-width: 0; stroke-dasharray: 1, 0;"@,
            ref_y_first: false,
        },
        MarkerSpecV {
            id_suffix: "crossEnd"@,
            class: "marker cross"@,
            view_box: Some("0 0 11 11"@),
            ref_x: "12"@,
            ref_y: "5.2"@,
            marker_width: "11"@,
            marker_height: "11"@,
            child: ChildV::Path("M 1,1 l 9,9 M 10,1 l -9,9"@),
            style: "stroke-width: 2; stroke-dasharray: 1, 0;"@,
            ref_y_first: false,
        },
        MarkerSpecV {
            id_suffix: "crossStart"@,
            class: "marker cross"@,
            view_box: Some("0 0 11 11"@),
            ref_x: "-1"@,
            ref_y: "5.2"@,
            marker_width: "11"@,
            marker_height: "11"@,
            child: ChildV::Path("M 1,1 l 9,9 M 10,1 l -9,9"@),
            style: "stroke-width: 2; stroke-dasharray: 1, 0;"@,
            ref_y_first: false,
        },
        MarkerSpecV {
            id_suffix: "crossEnd-margin"@,
            class: "marker cross"@,
            view_box: Some("0 0 15 15"@),
            ref_x: "17.7"@,
            ref_y: "7.5"@,
            marker_width: "12"@,
            marker_height: "12"@,
            child: ChildV::Path("M 1,1 L 14,14 M 1,14 L 14,1"@),
            style: "stroke-width: 2.5;"@,
            ref_y_first: false,
        },
        MarkerSpecV {
            id_suffix: "crossStart-margin"@,
            class: "marker cross"@,
            view_box: Some("0 0 15 15"@),
            ref_x: "-3.5"@,
            ref_y: "7.5"@,
            marker_width: "12"@,
            marker_height: "12"@,
            child: ChildV::Path("M 1,1 L 14,14 M 1,14 L 14,1"@),
            style: "stroke-width: 2.5; stroke-dasharray: 1, 0;"@,
            ref_y_first: false,
        },
    ]
}

/// The models of a list of marker specs.
pub open spec fn specs_view(v: Seq<MarkerSpec>) -> Seq<MarkerSpecV> {
    v.map_values(|m: MarkerSpec| m@)
}

/// The flowchart marker set.
pub fn marker_specs() -> (r: Vec<MarkerSpec>)
    ensures
        specs_view(r@) == marker_table(),
{
    let r = vec![
        MarkerSpec {
            id_suffix: "pointEnd",
            class: "marker",
            view_box: Some("0 0 10 10"),
            ref_x: "5",
            ref_y: "5",
            marker_width: "8",
            marker_height: "8",
            child: Child::Path("M 0 0 L 10 5 L 0 10 z"),
            style: "stroke-width: 1; stroke-dasharray: 1, 0;",
            ref_y_first: false,
        },
        MarkerSpec {
            id_suffix: "pointStart",
            class: "marker",
            view_box: Some("0 0 10 10"),
            ref_x: "4.5",
            ref_y: "5",
            marker_width: "8",
            marker_height: "8",
            child: Child::Path("M 0 5 L 10 10 L 10 0 z"),
            style: "stroke-width: 1; stroke-dasharray: 1, 0;",
            ref_y_first: false,
        },
        MarkerSpec {
            id_suffix: "pointEnd-margin",
            class: "marker",
            view_box: Some("0 0 11.5 14"),
            ref_x: "11.5",
            ref_y: "7",
            marker_width: "10.5",
            marker_height: "14",
            child: Child::Path("M 0 0 L 11.5 7 L 0 14 z"),
            style: "stroke-width: 0; stroke-dasharray: 1, 0;",
            ref_y_first: false,
        },
        MarkerSpec {
            id_suffix: "pointStart-margin",
            class: "marker",
            view_box: Some("0 0 11.5 14"),
            ref_x: "1",
            ref_y: "7",
            marker_width: "11.5",
            marker_height: "14",
            child: Child::Polygon("0,7 11.5,14 11.5,0"),
            style: "stroke-width: 0; stroke-dasharray: 1, 0;",
            ref_y_first: false,
        },
        MarkerSpec {
            id_suffix: "circleEnd",
            class: "marker",
            view_box: Some("0 0 10 10"),
            ref_x: "11",
            ref_y: "5",
            marker_width: "11",
            marker_height: "11",
            child: Child::Circle,
            style: "stroke-width: 1; stroke-dasharray: 1, 0;",
            ref_y_first: false,
        },
        MarkerSpec {
            id_suffix: "circleStart",
            class: "marker",
            view_box: Some("0 0 10 10"),
            ref_x: "-1",
            ref_y: "5",
            marker_width: "11",
            marker_height: "11",
            child: Child::Circle,
            style: "stroke-width: 1; stroke-dasharray: 1, 0;",
            ref_y_first: false,
        },
        MarkerSpec {
            id_suffix: "circleEnd-margin",
            class: "marker",
            view_box: Some("0 0 10 10"),
            ref_x: "12.25",
            ref_y: "5",
            marker_width: "14",
            marker_height: "14",
            child: Child::Circle,
            style: "stroke-width: 0; stroke-dasharray: 1, 0;",
            ref_y_first: true,
        },
        MarkerSpec {
            id_suffix: "circleStart-margin",
            class: "marker",
            view_box: Some("0 0 10 10"),
            ref_x: "-2",
            ref_y: "5",
            marker_width: "14",
            marker_height: "14",
            child: Child::Circle,
            style: "stroke-width: 0; stroke-dasharray: 1, 0;",
            ref_y_first: false,
        },
        MarkerSpec {
            id_suffix: "crossEnd",
            class: "marker cross",
            view_box: Some("0 0 11 11"),
            ref_x: "12",
            ref_y: "5.2",
            marker_width: "11",
            marker_height: "11",
            child: Child::Path("M 1,1 l 9,9 M 10,1 l -9,9"),
            style: "stroke-width: 2; stroke-dasharray: 1, 0;",
            ref_y_first: false,
        },
        MarkerSpec {
            id_suffix: "crossStart",
            class: "marker cross",
            view_box: Some("0 0 11 11"),
            ref_x: "-1",
            ref_y: "5.2",
            marker_width: "11",
            marker_height: "11",
            child: Child::Path("M 1,1 l 9,9 M 10,1 l -9,9"),
            style: "stroke-width: 2; stroke-dasharray: 1, 0;",
            ref_y_first: false,
        },
        MarkerSpec {
            id_suffix: "crossEnd-margin",
            class: "marker cross",
            view_box: Some("0 0 15 15"),
            ref_x: "17.7",
            ref_y: "7.5",
            marker_width: "12",
            marker_height: "12",
            child: Child::Path("M 1,1 L 14,14 M 1,14 L 14,1"),
            style: "stroke-width: 2.5;",
            ref_y_first: false,
        },
        MarkerSpec {
            id_suffix: "crossStart-margin",
            class: "marker cross",
            view_box: Some("0 0 15 15"),
            ref_x: "-3.5",
            ref_y: "7.5",
            marker_width: "12",
            marker_height: "12",
            child: Child::Path("M 1,1 L 14,14 M 1,14 L 14,1"),
            style: "stroke-width: 2.5; stroke-dasharray: 1, 0;",
            ref_y_first: false,
        },
    ];
    assert(specs_view(r@) =~= marker_table());
    r
}

/// An element without attributes or children.
pub open spec fn bare(tag: Seq<char>, attrs: Seq<(Seq<char>, Seq<char>)>) -> ElementV {
    ElementV { tag, attrs, children: Seq::empty(), xhtml: false }
}

/// The id of marker `suffix` of diagram `id` of type `ty`.
pub open spec fn marker_id(id: Seq<char>, ty: Seq<char>, suffix: Seq<char>) -> Seq<char> {
    id + "_"@ + ty + "-"@ + suffix
}

/// The attributes of a marker element, in the order they are written.
pub open spec fn marker_attrs(m: MarkerSpecV, ty: Seq<char>, id: Seq<char>) -> Seq<
    (Seq<char>, Seq<char>),
> {
    let head = seq![("id"@, marker_id(id, ty, m.id_suffix)), ("class"@, m.class + " "@ + ty)];
    let vb = match m.view_box {
        Some(v) => seq![("viewBox"@, v)],
        None => Seq::empty(),
    };
    let refs = if m.ref_y_first {
        seq![("refY"@, m.ref_y), ("refX"@, m.ref_x)]
    } else {
        seq![("refX"@, m.ref_x), ("refY"@, m.ref_y)]
    };
    head + vb + refs + seq![
        ("markerUnits"@, "userSpaceOnUse"@),
        ("markerWidth"@, m.marker_width),
        ("markerHeight"@, m.marker_height),
        ("orient"@, "auto"@),
    ]
}

/// The shape element inside a marker.
pub open spec fn marker_child(m: MarkerSpecV) -> ElementV {
    let cls = ("class"@, "arrowMarkerPath"@);
    let style = ("style"@, m.style);
    match m.child {
        ChildV::Path(d) => bare("path"@, seq![("d"@, d), cls, style]),
        ChildV::Polygon(p) => bare("polygon"@, seq![("points"@, p), cls, style]),
        ChildV::Circle => bare(
            "circle"@,
            seq![("cx"@, "5"@), ("cy"@, "5"@), ("r"@, "5"@), cls, style],
        ),
    }
}

/// The marker element for `m`.
pub open spec fn marker_elem(m: MarkerSpecV, ty: Seq<char>, id: Seq<char>) -> ElementV {
    ElementV {
        tag: "marker"@,
        attrs: marker_attrs(m, ty, id),
        children: seq![NodeV::Element(marker_child(m))],
        xhtml: false,
    }
}

fn cat(s: String, t: &str) -> (r: String)
    ensures
        r@ == s@ + t@,
{
    let mut s = s;
    s.append(t);
    s
}

fn marker_id_exec(id: &str, ty: &str, suffix: &str) -> (r: String)
    ensures
        r@ == marker_id(id@, ty@, suffix@),
{
    cat(cat(cat(cat(String::from_str(id), "_"), ty), "-"), suffix)
}

fn marker_child_exec(m: &MarkerSpec) -> (e: Element)
    ensures
        e@ == marker_child(m@),
{
    let mut a: Vec<(String, String)> = Vec::new();
    let tag = match m.child {
        Child::Path(d) => {
            a.push(attr_pair("d", d));
            "path"
        },
        Child::Polygon(p) => {
            a.push(attr_pair("points", p));
            "polygon"
        },
        Child::Circle => {
            a.push(attr_pair("cx", "5"));
            a.push(attr_pair("cy", "5"));
            a.push(attr_pair("r", "5"));
            "circle"
        },
    };
    a.push(attr_pair("class", "arrowMarkerPath"));
    a.push(attr_pair("style", m.style));
    assert(tag@ == marker_child(m@).tag);
    assert(attrs_view(a@) =~= marker_child(m@).attrs);
    element_with(tag, a)
}

fn marker_shell(m: &MarkerSpec, diagram_type: &str, id: &str) -> (e: Element)
    ensures
        e@ == (ElementV { children: Seq::empty(), ..marker_elem(m@, diagram_type@, id@) }),
{
    let mut a: Vec<(String, String)> = Vec::new();
    let mid = marker_id_exec(id, diagram_type, m.id_suffix);
    a.push((String::from_str("id"), mid));
    a.push((String::from_str("class"), cat(cat(String::from_str(m.class), " "), diagram_type)));
    let ghost n0 = a@.len();
    match m.view_box {
        Some(vb) => {
            a.push(attr_pair("viewBox", vb));
        },
        None => {},
    }
    if m.ref_y_first {
        a.push(attr_pair("refY", m.ref_y));
        a.push(attr_pair("refX", m.ref_x));
    } else {
        a.push(attr_pair("refX", m.ref_x));
        a.push(attr_pair("refY", m.ref_y));
    }
    a.push(attr_pair("markerUnits", "userSpaceOnUse"));
    a.push(attr_pair("markerWidth", m.marker_width));
    a.push(attr_pair("markerHeight", m.marker_height));
    a.push(attr_pair("orient", "auto"));
    assert(attrs_view(a@) =~= marker_attrs(m@, diagram_type@, id@));
    element_with("marker", a)
}

/// The marker element for `m`, with its id made from the diagram's `id`,
/// its type and the marker's suffix.
pub fn create_marker(m: &MarkerSpec, diagram_type: &str, id: &str) -> (e: Element)
    ensures
        e@ == marker_elem(m@, diagram_type@, id@),
{
    let mut e = marker_shell(m, diagram_type, id);
    let c = marker_child_exec(m);
    append_element(&mut e, c);
    assert(Seq::<NodeV>::empty().push(NodeV::Element(marker_child(m@))) =~= seq![
        NodeV::Element(marker_child(m@)),
    ]);
    e
}


/// The `barb` marker of state diagrams, wrapped in its own `<defs>`.
pub open spec fn barb_defs(ty: Seq<char>, id: Seq<char>) -> ElementV {
    let path = bare("path"@, seq![("d"@, "M 19,7 L9,13 L14,7 L9,1 Z"@)]);
    let marker = ElementV {
        tag: "marker"@,
        attrs: seq![
            ("id"@, marker_id(id, ty, "barbEnd"@)),
            ("refX"@, "19"@),
            ("refY"@, "7"@),
            ("markerWidth"@, "20"@),
            ("markerHeight"@, "14"@),
            ("markerUnits"@, "userSpaceOnUse"@),
            ("orient"@, "auto"@),
        ],
        children: seq![NodeV::Element(path)],
        xhtml: false,
    };
    ElementV {
        tag: "defs"@,
        attrs: Seq::empty(),
        children: seq![NodeV::Element(marker)],
        xhtml: false,
    }
}

fn wrap(tag: &str, child: Element) -> (e: Element)
    ensures
        e@ == (ElementV {
            tag: tag@,
            attrs: Seq::empty(),
            children: seq![NodeV::Element(child@)],
            xhtml: false,
        }),
{
    let mut e = element_with(tag, Vec::new());
    append_element(&mut e, child);
    assert(attrs_view(Seq::<(String, String)>::empty()) =~= Seq::empty());
    assert(Seq::<NodeV>::empty().push(NodeV::Element(child@)) =~= seq![NodeV::Element(child@)]);
    e
}

fn insert_barb(elem: &mut Element, diagram_type: &str, id: &str)
    ensures
        final(elem)@ == (ElementV {
            children: old(elem)@.children.push(NodeV::Element(barb_defs(diagram_type@, id@))),
            ..old(elem)@
        }),
{
    let mut pa: Vec<(String, String)> = Vec::new();
    pa.push(attr_pair("d", "M 19,7 L9,13 L14,7 L9,1 Z"));
    let path = element_with("path", pa);
    let mut a: Vec<(String, String)> = Vec::new();
    a.push((String::from_str("id"), marker_id_exec(id, diagram_type, "barbEnd")));
    a.push(attr_pair("refX", "19"));
    a.push(attr_pair("refY", "7"));
    a.push(attr_pair("markerWidth", "20"));
    a.push(attr_pair("markerHeight", "14"));
    a.push(attr_pair("markerUnits", "userSpaceOnUse"));
    a.push(attr_pair("orient", "auto"));
    let mut marker = element_with("marker", a);
    append_element(&mut marker, path);
    let defs = wrap("defs", marker);
    proof {
        let b = barb_defs(diagram_type@, id@);
        let mk = match b.children[0] {
            NodeV::Element(x) => x,
            NodeV::Text(_) => b,
        };
        assert(mk.attrs =~= attrs_view(a@));
        assert(attrs_view(pa@) =~= seq![("d"@, "M 19,7 L9,13 L14,7 L9,1 Z"@)]);
        assert(mk.children[0] == NodeV::Element(path@));
        assert(Seq::<NodeV>::empty().push(mk.children[0]) =~= mk.children);
    }
    append_element(elem, defs);
}

/// One marker of the class diagram set.
pub struct ClassMarker {
    pub suffix: &'static str,
    pub class: &'static str,
    pub attrs: Vec<(&'static str, &'static str)>,
    pub child_tag: &'static str,
    pub child_attrs: Vec<(&'static str, &'static str)>,
    /// The marker is wrapped in its own `<defs>`.
    pub in_defs: bool,
}

/// The model of a [`ClassMarker`].
#[verifier::ext_equal]
pub struct ClassMarkerV {
    pub suffix: Seq<char>,
    pub class: Seq<char>,
    pub attrs: Seq<(Seq<char>, Seq<char>)>,
    pub child_tag: Seq<char>,
    pub child_attrs: Seq<(Seq<char>, Seq<char>)>,
    pub in_defs: bool,
}

/// Pairs of literals as pairs of character sequences.
pub open spec fn lit_pairs(v: Seq<(&'static str, &'static str)>) -> Seq<(Seq<char>, Seq<char>)> {
    v.map_values(|p: (&'static str, &'static str)| (p.0@, p.1@))
}

impl View for ClassMarker {
    type V = ClassMarkerV;

    open spec fn view(&self) -> ClassMarkerV {
        ClassMarkerV {
            suffix: self.suffix@,
            class: self.class@,
            attrs: lit_pairs(self.attrs@),
            child_tag: self.child_tag@,
            child_attrs: lit_pairs(self.child_attrs@),
            in_defs: self.in_defs,
        }
    }
}

/// The class diagram marker set: aggregation, extension, composition,
/// dependency and lollipop heads at either end, plain and with a margin.
pub open spec fn class_marker_table() -> Seq<ClassMarkerV> {
    seq![
        ClassMarkerV {
            suffix: "aggregationStart"@,
            class: "marker aggregation "@,
            attrs: seq![
                ("refX"@, "18"@),
                ("refY"@, "7"@),
                ("markerWidth"@, "190"@),
                ("markerHeight"@, "240"@),
                ("orient"@, "auto"@),
            ],
            child_tag: "path"@,
            child_attrs: seq![("d"@, "M 18,7 L9,13 L1,7 L9,1 Z"@)],
            in_defs: true,
        },
        ClassMarkerV {
            suffix: "aggregationEnd"@,
            class: "marker aggregation "@,
            attrs: seq![
                ("refX"@, "1"@),
                ("refY"@, "7"@),
                ("markerWidth"@, "20"@),
                ("markerHeight"@, "28"@),
                ("orient"@, "auto"@),
            ],
            child_tag: "path"@,
            child_attrs: seq![("d"@, "M 18,7 L9,13 L1,7 L9,1 Z"@)],
            in_defs: true,
        },
        ClassMarkerV {
            suffix: "aggregationStart-margin"@,
            class: "marker aggregation "@,
            attrs: seq![
                ("refX"@, "15"@),
                ("refY"@, "7"@),
                ("markerWidth"@, "190"@),
                ("markerHeight"@, "240"@),
                ("orient"@, "auto"@),
                ("markerUnits"@, "userSpaceOnUse"@),
            ],
            child_tag: "path"@,
            child_attrs: seq![
                ("d"@, "M 18,7 L9,13 L1,7 L9,1 Z"@),
                ("style"@, "stroke-width: 2;"@),
            ],
            in_defs: true,
        },
        ClassMarkerV {
            suffix: "aggregationEnd-margin"@,
            class: "marker aggregation "@,
            attrs: seq![
                ("refX"@, "1"@),
                ("refY"@, "7"@),
                ("markerWidth"@, "20"@),
                ("markerHeight"@, "28"@),
                ("orient"@, "auto"@),
                ("markerUnits"@, "userSpaceOnUse"@),
            ],
            child_tag: "path"@,
            child_attrs: seq![
                ("d"@, "M 18,7 L9,13 L1,7 L9,1 Z"@),
                ("style"@, "stroke-width: 2;"@),
            ],
            in_defs: true,
        },
        ClassMarkerV {
            suffix: "extensionStart"@,
            class: "marker extension "@,
            attrs: seq![
                ("refX"@, "18"@),
                ("refY"@, "7"@),
                ("markerWidth"@, "20"@),
                ("markerHeight"@, "28"@),
                ("orient"@, "auto"@),
                ("markerUnits"@, "userSpaceOnUse"@),
            ],
            child_tag: "path"@,
            child_attrs: seq![("d"@, "M 1,7 L18,13 V 1 Z"@)],
            in_defs: true,
        },
        ClassMarkerV {
            suffix: "extensionEnd"@,
            class: "marker extension "@,
            attrs: seq![
                ("refX"@, "1"@),
                ("refY"@, "7"@),
                ("markerWidth"@, "20"@),
                ("markerHeight"@, "28"@),
                ("orient"@, "auto"@),
            ],
            child_tag: "path"@,
            child_attrs: seq![("d"@, "M 1,1 V 13 L18,7 Z"@)],
            in_defs: true,
        },
        ClassMarkerV {
            suffix: "extensionStart-margin"@,
            class: "marker extension "@,
            attrs: seq![
                ("refX"@, "18"@),
                ("refY"@, "7"@),
                ("markerWidth"@, "20"@),
                ("markerHeight"@, "28"@),
                ("orient"@, "auto"@),
                ("markerUnits"@, "userSpaceOnUse"@),
                ("viewBox"@, "0 0 20 14"@),
            ],
            child_tag: "polygon"@,
            child_attrs: seq![
                ("points"@, "10,7 18,13 18,1"@),
                ("style"@, "stroke-width: 2; stroke-dasharray: 0;"@),
            ],
            in_defs: false,
        },
        ClassMarkerV {
            suffix: "extensionEnd-margin"@,
            class: "marker extension "@,
            attrs: seq![
                ("refX"@, "9"@),
                ("refY"@, "7"@),
                ("markerWidth"@, "20"@),
                ("markerHeight"@, "28"@),
                ("orient"@, "auto"@),
                ("markerUnits"@, "userSpaceOnUse"@),
                ("viewBox"@, "0 0 20 14"@),
            ],
            child_tag: "polygon"@,
            child_attrs: seq![
                ("points"@, "10,1 10,13 18,7"@),
                ("style"@, "stroke-width: 2; stroke-dasharray: 0;"@),
            ],
            in_defs: true,
        },
        ClassMarkerV {
            suffix: "compositionStart"@,
            class: "marker composition "@,
            attrs: seq![
                ("refX"@, "18"@),
                ("refY"@, "7"@),
                ("markerWidth"@, "190"@),
                ("markerHeight"@, "240"@),
                ("orient"@, "auto"@),
            ],
            child_tag: "path"@,
            child_attrs: seq![("d"@, "M 18,7 L9,13 L1,7 L9,1 Z"@)],
            in_defs: true,
        },
        ClassMarkerV {
            suffix: "compositionEnd"@,
            class: "marker composition "@,
            attrs: seq![
                ("refX"@, "1"@),
                ("refY"@, "7"@),
                ("markerWidth"@, "20"@),
                ("markerHeight"@, "28"@),
                ("orient"@, "auto"@),
            ],
            child_tag: "path"@,
            child_attrs: seq![("d"@, "M 18,7 L9,13 L1,7 L9,1 Z"@)],
            in_defs: true,
        },
        ClassMarkerV {
            suffix: "compositionStart-margin"@,
            class: "marker composition "@,
            attrs: seq![
                ("refX"@, "15"@),
                ("refY"@, "7"@),
                ("markerWidth"@, "190"@),
                ("markerHeight"@, "240"@),
                ("orient"@, "auto"@),
                ("markerUnits"@, "userSpaceOnUse"@),
            ],
            child_tag: "path"@,
            child_attrs: seq![
                ("viewBox"@, "0 0 15 15"@),
                ("d"@, "M 18,7 L9,13 L1,7 L9,1 Z"@),
                ("style"@, "stroke-width: 0;"@),
            ],
            in_defs: true,
        },
        ClassMarkerV {
            suffix: "compositionEnd-margin"@,
            class: "marker composition "@,
            attrs: seq![
                ("refX"@, "3.5"@),
                ("refY"@, "7"@),
                ("markerWidth"@, "20"@),
                ("markerHeight"@, "28"@),
                ("orient"@, "auto"@),
                ("markerUnits"@, "userSpaceOnUse"@),
            ],
            child_tag: "path"@,
            child_attrs: seq![
                ("d"@, "M 18,7 L9,13 L1,7 L9,1 Z"@),
                ("style"@, "stroke-width: 0;"@),
            ],
            in_defs: true,
        },
        ClassMarkerV {
            suffix: "dependencyStart"@,
            class: "marker dependency "@,
            attrs: seq![
                ("refX"@, "6"@),
                ("refY"@, "7"@),
                ("markerWidth"@, "190"@),
                ("markerHeight"@, "240"@),
                ("orient"@, "auto"@),
            ],
            child_tag: "path"@,
            child_attrs: seq![("d"@, "M 5,7 L9,13 L1,7 L9,1 Z"@)],
            in_defs: true,
        },
        ClassMarkerV {
            suffix: "dependencyEnd"@,
            class: "marker dependency "@,
            attrs: seq![
                ("refX"@, "13"@),
                ("refY"@, "7"@),
                ("markerWidth"@, "20"@),
                ("markerHeight"@, "28"@),
                ("orient"@, "auto"@),
            ],
            child_tag: "path"@,
            child_attrs: seq![("d"@, "M 18,7 L9,13 L14,7 L9,1 Z"@)],
            in_defs: true,
        },
        ClassMarkerV {
            suffix: "dependencyStart-margin"@,
            class: "marker dependency "@,
            attrs: seq![
                ("refX"@, "4"@),
                ("refY"@, "7"@),
                ("markerWidth"@, "190"@),
                ("markerHeight"@, "240"@),
                ("orient"@, "auto"@),
                ("markerUnits"@, "userSpaceOnUse"@),
            ],
            child_tag: "path"@,
            child_attrs: seq![
                ("d"@, "M 5,7 L9,13 L1,7 L9,1 Z"@),
                ("style"@, "stroke-width: 0;"@),
            ],
            in_defs: true,
        },
        ClassMarkerV {
            suffix: "dependencyEnd-margin"@,
            class: "marker dependency "@,
            attrs: seq![
                ("refX"@, "16"@),
                ("refY"@, "7"@),
                ("markerWidth"@, "20"@),
                ("markerHeight"@, "28"@),
                ("orient"@, "auto"@),
                ("markerUnits"@, "userSpaceOnUse"@),
            ],
            child_tag: "path"@,
            child_attrs: seq![
                ("d"@, "M 18,7 L9,13 L14,7 L9,1 Z"@),
                ("style"@, "stroke-width: 0;"@),
            ],
            in_defs: true,
        },
        ClassMarkerV {
            suffix: "lollipopStart"@,
            class: "marker lollipop "@,
            attrs: seq![
                ("refX"@, "13"@),
                ("refY"@, "7"@),
                ("markerWidth"@, "190"@),
                ("markerHeight"@, "240"@),
                ("orient"@, "auto"@),
            ],
            child_tag: "circle"@,
            child_attrs: seq![
                ("fill"@, "transparent"@),
                ("cx"@, "7"@),
                ("cy"@, "7"@),
                ("r"@, "6"@),
            ],
            in_defs: true,
        },
        ClassMarkerV {
            suffix: "lollipopEnd"@,
            class: "marker lollipop "@,
            attrs: seq![
                ("refX"@, "1"@),
                ("refY"@, "7"@),
                ("markerWidth"@, "190"@),
                ("markerHeight"@, "240"@),
                ("orient"@, "auto"@),
            ],
            child_tag: "circle"@,
            child_attrs: seq![
                ("fill"@, "transparent"@),
                ("cx"@, "7"@),
                ("cy"@, "7"@),
                ("r"@, "6"@),
            ],
            in_defs: true,
        },
        ClassMarkerV {
            suffix: "lollipopStart-margin"@,
            class: "marker lollipop "@,
            attrs: seq![
                ("refX"@, "13"@),
                ("refY"@, "7"@),
                ("markerWidth"@, "190"@),
                ("markerHeight"@, "240"@),
                ("orient"@, "auto"@),
                ("markerUnits"@, "userSpaceOnUse"@),
            ],
            child_tag: "circle"@,
            child_attrs: seq![
                ("fill"@, "transparent"@),
                ("cx"@, "7"@),
                ("cy"@, "7"@),
                ("r"@, "6"@),
                ("stroke-width"@, "2"@),
            ],
            in_defs: true,
        },
        ClassMarkerV {
            suffix: "lollipopEnd-margin"@,
            class: "marker lollipop "@,
            attrs: seq![
                ("refX"@, "1"@),
                ("refY"@, "7"@),
                ("markerWidth"@, "190"@),
                ("markerHeight"@, "240"@),
                ("orient"@, "auto"@),
                ("markerUnits"@, "userSpaceOnUse"@),
            ],
            child_tag: "circle"@,
            child_attrs: seq![
                ("fill"@, "transparent"@),
                ("cx"@, "7"@),
                ("cy"@, "7"@),
                ("r"@, "6"@),
                ("stroke-width"@, "2"@),
            ],
            in_defs: true,
        },
    ]
}

/// The models of a list of class markers.
pub open spec fn class_specs_view(v: Seq<ClassMarker>) -> Seq<ClassMarkerV> {
    v.map_values(|m: ClassMarker| m@)
}

/// The class diagram marker set.
pub fn class_marker_specs() -> (r: Vec<ClassMarker>)
    ensures
        class_specs_view(r@) == class_marker_table(),
{
    let r = vec![
        ClassMarker {
            suffix: "aggregationStart",
            class: "marker aggregation ",
            attrs: vec![
                ("refX", "18"),
                ("refY", "7"),
                ("markerWidth", "190"),
                ("markerHeight", "240"),
                ("orient", "auto"),
            ],
            child_tag: "path",
            child_attrs: vec![("d", "M 18,7 L9,13 L1,7 L9,1 Z")],
            in_defs: true,
        },
        ClassMarker {
            suffix: "aggregationEnd",
            class: "marker aggregation ",
            attrs: vec![
                ("refX", "1"),
                ("refY", "7"),
                ("markerWidth", "20"),
                ("markerHeight", "28"),
                ("orient", "auto"),
            ],
            child_tag: "path",
            child_attrs: vec![("d", "M 18,7 L9,13 L1,7 L9,1 Z")],
            in_defs: true,
        },
        ClassMarker {
            suffix: "aggregationStart-margin",
            class: "marker aggregation ",
            attrs: vec![
                ("refX", "15"),
                ("refY", "7"),
                ("markerWidth", "190"),
                ("markerHeight", "240"),
                ("orient", "auto"),
                ("markerUnits", "userSpaceOnUse"),
            ],
            child_tag: "path",
            child_attrs: vec![
                ("d", "M 18,7 L9,13 L1,7 L9,1 Z"),
                ("style", "stroke-width: 2;"),
            ],
            in_defs: true,
        },
        ClassMarker {
            suffix: "aggregationEnd-margin",
            class: "marker aggregation ",
            attrs: vec![
                ("refX", "1"),
                ("refY", "7"),
                ("markerWidth", "20"),
                ("markerHeight", "28"),
                ("orient", "auto"),
                ("markerUnits", "userSpaceOnUse"),
            ],
            child_tag: "path",
            child_attrs: vec![
                ("d", "M 18,7 L9,13 L1,7 L9,1 Z"),
                ("style", "stroke-width: 2;"),
            ],
            in_defs: true,
        },
        ClassMarker {
            suffix: "extensionStart",
            class: "marker extension ",
            attrs: vec![
                ("refX", "18"),
                ("refY", "7"),
                ("markerWidth", "20"),
                ("markerHeight", "28"),
                ("orient", "auto"),
                ("markerUnits", "userSpaceOnUse"),
            ],
            child_tag: "path",
            child_attrs: vec![("d", "M 1,7 L18,13 V 1 Z")],
            in_defs: true,
        },
        ClassMarker {
            suffix: "extensionEnd",
            class: "marker extension ",
            attrs: vec![
                ("refX", "1"),
                ("refY", "7"),
                ("markerWidth", "20"),
                ("markerHeight", "28"),
                ("orient", "auto"),
            ],
            child_tag: "path",
            child_attrs: vec![("d", "M 1,1 V 13 L18,7 Z")],
            in_defs: true,
        },
        ClassMarker {
            suffix: "extensionStart-margin",
            class: "marker extension ",
            attrs: vec![
                ("refX", "18"),
                ("refY", "7"),
                ("markerWidth", "20"),
                ("markerHeight", "28"),
                ("orient", "auto"),
                ("markerUnits", "userSpaceOnUse"),
                ("viewBox", "0 0 20 14"),
            ],
            child_tag: "polygon",
            child_attrs: vec![
                ("points", "10,7 18,13 18,1"),
                ("style", "stroke-width: 2; stroke-dasharray: 0;"),
            ],
            in_defs: false,
        },
        ClassMarker {
            suffix: "extensionEnd-margin",
            class: "marker extension ",
            attrs: vec![
                ("refX", "9"),
                ("refY", "7"),
                ("markerWidth", "20"),
                ("markerHeight", "28"),
                ("orient", "auto"),
                ("markerUnits", "userSpaceOnUse"),
                ("viewBox", "0 0 20 14"),
            ],
            child_tag: "polygon",
            child_attrs: vec![
                ("points", "10,1 10,13 18,7"),
                ("style", "stroke-width: 2; stroke-dasharray: 0;"),
            ],
            in_defs: true,
        },
        ClassMarker {
            suffix: "compositionStart",
            class: "marker composition ",
            attrs: vec![
                ("refX", "18"),
                ("refY", "7"),
                ("markerWidth", "190"),
                ("markerHeight", "240"),
                ("orient", "auto"),
            ],
            child_tag: "path",
            child_attrs: vec![("d", "M 18,7 L9,13 L1,7 L9,1 Z")],
            in_defs: true,
        },
        ClassMarker {
            suffix: "compositionEnd",
            class: "marker composition ",
            attrs: vec![
                ("refX", "1"),
                ("refY", "7"),
                ("markerWidth", "20"),
                ("markerHeight", "28"),
                ("orient", "auto"),
            ],
            child_tag: "path",
            child_attrs: vec![("d", "M 18,7 L9,13 L1,7 L9,1 Z")],
            in_defs: true,
        },
        ClassMarker {
            suffix: "compositionStart-margin",
            class: "marker composition ",
            attrs: vec![
                ("refX", "15"),
                ("refY", "7"),
                ("markerWidth", "190"),
                ("markerHeight", "240"),
                ("orient", "auto"),
                ("markerUnits", "userSpaceOnUse"),
            ],
            child_tag: "path",
            child_attrs: vec![
                ("viewBox", "0 0 15 15"),
                ("d", "M 18,7 L9,13 L1,7 L9,1 Z"),
                ("style", "stroke-width: 0;"),
            ],
            in_defs: true,
        },
        ClassMarker {
            suffix: "compositionEnd-margin",
            class: "marker composition ",
            attrs: vec![
                ("refX", "3.5"),
                ("refY", "7"),
                ("markerWidth", "20"),
                ("markerHeight", "28"),
                ("orient", "auto"),
                ("markerUnits", "userSpaceOnUse"),
            ],
            child_tag: "path",
            child_attrs: vec![
                ("d", "M 18,7 L9,13 L1,7 L9,1 Z"),
                ("style", "stroke-width: 0;"),
            ],
            in_defs: true,
        },
        ClassMarker {
            suffix: "dependencyStart",
            class: "marker dependency ",
            attrs: vec![
                ("refX", "6"),
                ("refY", "7"),
                ("markerWidth", "190"),
                ("markerHeight", "240"),
                ("orient", "auto"),
            ],
            child_tag: "path",
            child_attrs: vec![("d", "M 5,7 L9,13 L1,7 L9,1 Z")],
            in_defs: true,
        },
        ClassMarker {
            suffix: "dependencyEnd",
            class: "marker dependency ",
            attrs: vec![
                ("refX", "13"),
                ("refY", "7"),
                ("markerWidth", "20"),
                ("markerHeight", "28"),
                ("orient", "auto"),
            ],
            child_tag: "path",
            child_attrs: vec![("d", "M 18,7 L9,13 L14,7 L9,1 Z")],
            in_defs: true,
        },
        ClassMarker {
            suffix: "dependencyStart-margin",
            class: "marker dependency ",
            attrs: vec![
                ("refX", "4"),
                ("refY", "7"),
                ("markerWidth", "190"),
                ("markerHeight", "240"),
                ("orient", "auto"),
                ("markerUnits", "userSpaceOnUse"),
            ],
            child_tag: "path",
            child_attrs: vec![
                ("d", "M 5,7 L9,13 L1,7 L9,1 Z"),
                ("style", "stroke-width: 0;"),
            ],
            in_defs: true,
        },
        ClassMarker {
            suffix: "dependencyEnd-margin",
            class: "marker dependency ",
            attrs: vec![
                ("refX", "16"),
                ("refY", "7"),
                ("markerWidth", "20"),
                ("markerHeight", "28"),
                ("orient", "auto"),
                ("markerUnits", "userSpaceOnUse"),
            ],
            child_tag: "path",
            child_attrs: vec![
                ("d", "M 18,7 L9,13 L14,7 L9,1 Z"),
                ("style", "stroke-width: 0;"),
            ],
            in_defs: true,
        },
        ClassMarker {
            suffix: "lollipopStart",
            class: "marker lollipop ",
            attrs: vec![
                ("refX", "13"),
                ("refY", "7"),
                ("markerWidth", "190"),
                ("markerHeight", "240"),
                ("orient", "auto"),
            ],
            child_tag: "circle",
            child_attrs: vec![
                ("fill", "transparent"),
                ("cx", "7"),
                ("cy", "7"),
                ("r", "6"),
            ],
            in_defs: true,
        },
        ClassMarker {
            suffix: "lollipopEnd",
            class: "marker lollipop ",
            attrs: vec![
                ("refX", "1"),
                ("refY", "7"),
                ("markerWidth", "190"),
                ("markerHeight", "240"),
                ("orient", "auto"),
            ],
            child_tag: "circle",
            child_attrs: vec![
                ("fill", "transparent"),
                ("cx", "7"),
                ("cy", "7"),
                ("r", "6"),
            ],
            in_defs: true,
        },
        ClassMarker {
            suffix: "lollipopStart-margin",
            class: "marker lollipop ",
            attrs: vec![
                ("refX", "13"),
                ("refY", "7"),
                ("markerWidth", "190"),
                ("markerHeight", "240"),
                ("orient", "auto"),
                ("markerUnits", "userSpaceOnUse"),
            ],
            child_tag: "circle",
            child_attrs: vec![
                ("fill", "transparent"),
                ("cx", "7"),
                ("cy", "7"),
                ("r", "6"),
                ("stroke-width", "2"),
            ],
            in_defs: true,
        },
        ClassMarker {
            suffix: "lollipopEnd-margin",
            class: "marker lollipop ",
            attrs: vec![
                ("refX", "1"),
                ("refY", "7"),
                ("markerWidth", "190"),
                ("markerHeight", "240"),
                ("orient", "auto"),
                ("markerUnits", "userSpaceOnUse"),
            ],
            child_tag: "circle",
            child_attrs: vec![
                ("fill", "transparent"),
                ("cx", "7"),
                ("cy", "7"),
                ("r", "6"),
                ("stroke-width", "2"),
            ],
            in_defs: true,
        },
    ];
    assert(class_specs_view(r@) =~~= class_marker_table());
    r
}

/// The node a class marker adds: the marker, in its own `<defs>` where the
/// table says so.
pub open spec fn class_marker_node(m: ClassMarkerV, ty: Seq<char>, id: Seq<char>) -> NodeV {
    let marker = ElementV {
        tag: "marker"@,
        attrs: seq![("id"@, marker_id(id, ty, m.suffix)), ("class"@, m.class + ty)] + m.attrs,
        children: seq![NodeV::Element(bare(m.child_tag, m.child_attrs))],
        xhtml: false,
    };
    if m.in_defs {
        NodeV::Element(
            ElementV {
                tag: "defs"@,
                attrs: Seq::empty(),
                children: seq![NodeV::Element(marker)],
                xhtml: false,
            },
        )
    } else {
        NodeV::Element(marker)
    }
}

proof fn lemma_lit_pairs_take(v: Seq<(&'static str, &'static str)>, i: int)
    requires
        0 <= i < v.len(),
    ensures
        lit_pairs(v.take(i + 1)) == lit_pairs(v.take(i)).push((v[i].0@, v[i].1@)),
{
    assert(lit_pairs(v.take(i + 1)) =~= lit_pairs(v.take(i)).push((v[i].0@, v[i].1@)));
}

fn extend_lit_pairs(a: &mut Vec<(String, String)>, v: &Vec<(&'static str, &'static str)>)
    ensures
        attrs_view(final(a)@) == attrs_view(old(a)@) + lit_pairs(v@),
{
    let ghost start = attrs_view(a@);
    let mut i: usize = 0;
    while i < v.len()
        invariant
            i <= v@.len(),
            attrs_view(a@) == start + lit_pairs(v@.take(i as int)),
        decreases v@.len() - i,
    {
        let p = attr_pair(v[i].0, v[i].1);
        proof {
            lemma_attrs_view_push(a@, p);
            lemma_lit_pairs_take(v@, i as int);
            assert(start + lit_pairs(v@.take(i as int)).push((p.0@, p.1@)) =~= (start + lit_pairs(
                v@.take(i as int),
            )).push((p.0@, p.1@)));
        }
        a.push(p);
        i += 1;
    }
    assert(v@.take(i as int) =~= v@);
}

fn lit_element(tag: &str, v: &Vec<(&'static str, &'static str)>) -> (e: Element)
    ensures
        e@ == bare(tag@, lit_pairs(v@)),
{
    let mut a: Vec<(String, String)> = Vec::new();
    extend_lit_pairs(&mut a, v);
    assert(attrs_view(Seq::<(String, String)>::empty()) + lit_pairs(v@) =~= lit_pairs(v@));
    element_with(tag, a)
}

fn class_marker_elem(m: &ClassMarker, ty: &str, id: &str) -> (e: Element)
    ensures
        NodeV::Element(e@) == class_marker_node(m@, ty@, id@),
{
    let child = lit_element(m.child_tag, &m.child_attrs);
    let mut a: Vec<(String, String)> = Vec::new();
    a.push((String::from_str("id"), marker_id_exec(id, ty, m.suffix)));
    a.push((String::from_str("class"), cat(String::from_str(m.class), ty)));
    assert(attrs_view(a@) =~= seq![
        ("id"@, marker_id(id@, ty@, m.suffix@)),
        ("class"@, m.class@ + ty@),
    ]);
    extend_lit_pairs(&mut a, &m.attrs);
    let mut marker = element_with("marker", a);
    append_element(&mut marker, child);
    assert(Seq::<NodeV>::empty().push(NodeV::Element(child@)) =~= seq![NodeV::Element(child@)]);
    if m.in_defs {
        wrap("defs", marker)
    } else {
        marker
    }
}

/// The nodes the class marker set adds, in table order.
pub open spec fn class_marker_nodes(ty: Seq<char>, id: Seq<char>) -> Seq<NodeV> {
    class_marker_table().map_values(|m: ClassMarkerV| class_marker_node(m, ty, id))
}

fn insert_class_markers(elem: &mut Element, ty: &str, id: &str)
    ensures
        final(elem)@ == (ElementV {
            children: old(elem)@.children + class_marker_nodes(ty@, id@),
            ..old(elem)@
        }),
{
    let table = class_marker_specs();
    let ghost start = elem@;
    let mut i: usize = 0;
    while i < table.len()
        invariant
            i <= table@.len(),
            class_specs_view(table@) == class_marker_table(),
            elem@ == (ElementV {
                children: start.children + class_marker_nodes(ty@, id@).take(i as int),
                ..start
            }),
        decreases table@.len() - i,
    {
        let e = class_marker_elem(&table[i], ty, id);
        append_element(elem, e);
        i += 1;
        assert(start.children + class_marker_nodes(ty@, id@).take(i as int) =~= (start.children
            + class_marker_nodes(ty@, id@).take(i - 1)).push(NodeV::Element(e@)));
    }
    assert(class_marker_nodes(ty@, id@).take(i as int) =~= class_marker_nodes(ty@, id@));
}

/// The nodes the flowchart marker set adds, in table order.
pub open spec fn flow_marker_nodes(ty: Seq<char>, id: Seq<char>) -> Seq<NodeV> {
    marker_table().map_values(|m: MarkerSpecV| NodeV::Element(marker_elem(m, ty, id)))
}

/// The marker definitions a diagram of type `ty` adds.
pub open spec fn inserted_markers(ty: Seq<char>, id: Seq<char>) -> Seq<NodeV> {
    if ty == "stateDiagram"@ {
        seq![NodeV::Element(barb_defs(ty, id))]
    } else if ty == "class"@ {
        class_marker_nodes(ty, id)
    } else {
        flow_marker_nodes(ty, id)
    }
}

/// Appends the marker definitions for a diagram of type `diagram_type` to
/// `elem`: the barb for state diagrams, the class set for class diagrams, the
/// point/circle/cross set otherwise.
pub fn insert_markers(elem: &mut Element, diagram_type: &str, id: &str)
    ensures
        final(elem)@ == (ElementV {
            children: old(elem)@.children + inserted_markers(diagram_type@, id@),
            ..old(elem)@
        }),
{
    let ty = chars_of(diagram_type);
    if eq_str(&ty, "stateDiagram") {
        insert_barb(elem, diagram_type, id);
        assert(old(elem)@.children.push(NodeV::Element(barb_defs(diagram_type@, id@)))
            =~= old(elem)@.children + inserted_markers(diagram_type@, id@));
        return;
    }
    if eq_str(&ty, "class") {
        insert_class_markers(elem, diagram_type, id);
        return;
    }
    let table = marker_specs();
    let ghost start = elem@;
    let mut i: usize = 0;
    while i < table.len()
        invariant
            i <= table@.len(),
            specs_view(table@) == marker_table(),
            elem@ == (ElementV {
                children: start.children + flow_marker_nodes(diagram_type@, id@).take(i as int),
                ..start
            }),
        decreases table@.len() - i,
    {
        let e = create_marker(&table[i], diagram_type, id);
        append_element(elem, e);
        i += 1;
        assert(start.children + flow_marker_nodes(diagram_type@, id@).take(i as int)
            =~= (start.children + flow_marker_nodes(diagram_type@, id@).take(i - 1)).push(
            NodeV::Element(e@),
        ));
    }
    assert(flow_marker_nodes(diagram_type@, id@).take(i as int) =~= flow_marker_nodes(
        diagram_type@,
        id@,
    ));
}


/// The first position, from `i` on, of the marker whose suffix is `suffix`.
pub open spec fn suffix_pos_from(t: Seq<MarkerSpecV>, suffix: Seq<char>, i: nat) -> Option<nat>
    decreases t.len() - i,
{
    if i >= t.len() {
        None
    } else if t[i as int].id_suffix == suffix {
        Some(i)
    } else {
        suffix_pos_from(t, suffix, i + 1)
    }
}

/// Tags whose stroke (and fill) a colored marker sets.
pub open spec fn is_colorable(tag: Seq<char>) -> bool {
    tag == "path"@ || tag == "circle"@ || tag == "line"@
}

/// A marker shape with the stroke, and the fill if asked, set to `color`.
pub open spec fn colored_child(c: ElementV, color: Seq<char>, fill: bool) -> ElementV {
    if is_colorable(c.tag) {
        let a = with_attr(c.attrs, "stroke"@, color);
        ElementV { attrs: if fill { with_attr(a, "fill"@, color) } else { a }, ..c }
    } else {
        c
    }
}

/// The colored variant of marker `m`, under the id `cid`.
pub open spec fn colored_marker(
    m: MarkerSpecV,
    ty: Seq<char>,
    id: Seq<char>,
    cid: Seq<char>,
    color: Seq<char>,
    fill: bool,
) -> ElementV {
    ElementV {
        tag: "marker"@,
        attrs: with_attr(marker_attrs(m, ty, id), "id"@, cid),
        children: seq![NodeV::Element(colored_child(marker_child(m), color, fill))],
        xhtml: false,
    }
}

/// Appends to `root` a copy of the flowchart marker whose suffix is
/// `marker_suffix`, under the id `colored_id`, with its path or circle
/// stroked (and, if `fill`, filled) in `stroke_color`. An unknown suffix
/// leaves `root` as it was.
pub fn create_colored_marker(
    root: &mut Element,
    diagram_type: &str,
    id: &str,
    marker_suffix: &str,
    colored_id: &str,
    stroke_color: &str,
    fill: bool,
)
    ensures
        match suffix_pos_from(marker_table(), marker_suffix@, 0) {
            None => final(root)@ == old(root)@,
            Some(i) => final(root)@ == (ElementV {
                children: old(root)@.children.push(
                    NodeV::Element(
                        colored_marker(
                            marker_table()[i as int],
                            diagram_type@,
                            id@,
                            colored_id@,
                            stroke_color@,
                            fill,
                        ),
                    ),
                ),
                ..old(root)@
            }),
        },
{
    let table = marker_specs();
    let mut found: Option<usize> = None;
    let mut i: usize = 0;
    while i < table.len()
        invariant_except_break
            found is None,
        invariant
            i <= table@.len(),
            specs_view(table@) == marker_table(),
            suffix_pos_from(marker_table(), marker_suffix@, 0) == suffix_pos_from(
                marker_table(),
                marker_suffix@,
                i as nat,
            ),
        ensures
            match found {
                Some(k) => k < table@.len() && suffix_pos_from(marker_table(), marker_suffix@, 0)
                    == Some(k as nat),
                None => suffix_pos_from(marker_table(), marker_suffix@, 0) is None,
            },
        decreases table@.len() - i,
    {
        let v = chars_of(table[i].id_suffix);
        if eq_str(&v, marker_suffix) {
            found = Some(i);
            break;
        }
        i += 1;
    }
    match found {
        None => {},
        Some(k) => {
            let m = &table[k];
            let mut child = marker_child_exec(m);
            let tag = chars_of(child.tag.as_str());
            if eq_str(&tag, "path") || eq_str(&tag, "circle") || eq_str(&tag, "line") {
                set_attr(&mut child, "stroke", stroke_color);
                if fill {
                    set_attr(&mut child, "fill", stroke_color);
                }
            }
            assert(child@ == colored_child(marker_child(m@), stroke_color@, fill));
            let mut marker = marker_shell(m, diagram_type, id);
            set_attr(&mut marker, "id", colored_id);
            append_element(&mut marker, child);
            assert(Seq::<NodeV>::empty().push(NodeV::Element(child@)) =~= seq![
                NodeV::Element(child@),
            ]);
            append_element(root, marker);
        },
    }
}


proof fn lemma_suffixes_distinct()
    ensures
        forall|i: int, j: int|
            0 <= i < j < marker_table().len() ==> marker_table()[i].id_suffix
                != marker_table()[j].id_suffix,
{
    reveal_strlit("pointEnd");
    reveal_strlit("pointStart");
    reveal_strlit("pointEnd-margin");
    reveal_strlit("pointStart-margin");
    reveal_strlit("circleEnd");
    reveal_strlit("circleStart");
    reveal_strlit("circleEnd-margin");
    reveal_strlit("circleStart-margin");
    reveal_strlit("crossEnd");
    reveal_strlit("crossStart");
    reveal_strlit("crossEnd-margin");
    reveal_strlit("crossStart-margin");
    let t = marker_table();
    assert forall|i: int, j: int| 0 <= i < j < t.len() implies t[i].id_suffix
        != t[j].id_suffix by {
        let a = t[i].id_suffix;
        let b = t[j].id_suffix;
        if a.len() == b.len() {
            assert(a[0] != b[0] || a[2] != b[2] || a[5] != b[5] || a[6] != b[6] || a[a.len() - 1]
                != b[b.len() - 1]);
        }
    }
}

/// Law: the flowchart markers of one diagram all get different ids.
pub proof fn flow_marker_ids_distinct(ty: Seq<char>, id: Seq<char>)
    ensures
        forall|i: int, j: int|
            0 <= i < j < marker_table().len() ==> marker_attrs(marker_table()[i], ty, id)[0].1
                != marker_attrs(marker_table()[j], ty, id)[0].1,
{
    lemma_suffixes_distinct();
    let t = marker_table();
    let pre = id + "_"@ + ty + "-"@;
    assert forall|i: int, j: int| 0 <= i < j < t.len() implies marker_attrs(t[i], ty, id)[0].1
        != marker_attrs(t[j], ty, id)[0].1 by {
        let x = marker_attrs(t[i], ty, id)[0].1;
        let y = marker_attrs(t[j], ty, id)[0].1;
        assert(x == pre + t[i].id_suffix);
        assert(y == pre + t[j].id_suffix);
        if x == y {
            assert(x.skip(pre.len() as int) =~= t[i].id_suffix);
            assert(y.skip(pre.len() as int) =~= t[j].id_suffix);
        }
    }
}


/// One marker of the sequence diagram set.
pub struct SeqMarker {
    pub name: &'static str,
    pub attrs: Vec<(&'static str, &'static str)>,
    pub child_tag: &'static str,
    pub child_attrs: Vec<(&'static str, &'static str)>,
}

/// The model of a [`SeqMarker`].
#[verifier::ext_equal]
pub struct SeqMarkerV {
    pub name: Seq<char>,
    pub attrs: Seq<(Seq<char>, Seq<char>)>,
    pub child_tag: Seq<char>,
    pub child_attrs: Seq<(Seq<char>, Seq<char>)>,
}

impl View for SeqMarker {
    type V = SeqMarkerV;

    open spec fn view(&self) -> SeqMarkerV {
        SeqMarkerV {
            name: self.name@,
            attrs: lit_pairs(self.attrs@),
            child_tag: self.child_tag@,
            child_attrs: lit_pairs(self.child_attrs@),
        }
    }
}

/// The sequence diagram marker set: arrow, cross and filled heads, the
/// sequence number disc, and the half arrowheads.
pub open spec fn seq_marker_table() -> Seq<SeqMarkerV> {
    seq![
        SeqMarkerV {
            name: "arrowhead"@,
            attrs: seq![("refX"@, "7.9"@), ("refY"@, "5"@), ("markerUnits"@, "userSpaceOnUse"@), ("markerWidth"@, "12"@), ("markerHeight"@, "12"@), ("orient"@, "auto-start-reverse"@)],
            child_tag: "path"@,
            child_attrs: seq![("d"@, "M -1 0 L 10 5 L 0 10 z"@)],
        },
        SeqMarkerV {
            name: "crosshead"@,
            attrs: seq![("markerWidth"@, "15"@), ("markerHeight"@, "8"@), ("orient"@, "auto"@), ("refX"@, "4"@), ("refY"@, "4.5"@)],
            child_tag: "path"@,
            child_attrs: seq![("fill"@, "none"@), ("stroke"@, "#000000"@), ("stroke-width"@, "1pt"@), ("d"@, "M 1,2 L 6,7 M 6,2 L 1,7"@), ("style"@, "stroke-dasharray: 0, 0;"@)],
        },
        SeqMarkerV {
            name: "filled-head"@,
            attrs: seq![("refX"@, "15.5"@), ("refY"@, "7"@), ("markerWidth"@, "20"@), ("markerHeight"@, "28"@), ("orient"@, "auto"@)],
            child_tag: "path"@,
            child_attrs: seq![("d"@, "M 18,7 L9,13 L14,7 L9,1 Z"@)],
        },
        SeqMarkerV {
            name: "sequencenumber"@,
            attrs: seq![("refX"@, "15"@), ("refY"@, "15"@), ("markerWidth"@, "60"@), ("markerHeight"@, "40"@), ("orient"@, "auto"@)],
            child_tag: "circle"@,
            child_attrs: seq![("cx"@, "15"@), ("cy"@, "15"@), ("r"@, "6"@)],
        },
        SeqMarkerV {
            name: "solidTopArrowHead"@,
            attrs: seq![("refX"@, "7.9"@), ("refY"@, "7.25"@), ("markerUnits"@, "userSpaceOnUse"@), ("markerWidth"@, "12"@), ("markerHeight"@, "12"@), ("orient"@, "auto-start-reverse"@)],
            child_tag: "path"@,
            child_attrs: seq![("d"@, "M 0 0 L 10 8 L 0 8 z"@)],
        },
        SeqMarkerV {
            name: "solidBottomArrowHead"@,
            attrs: seq![("refX"@, "7.9"@), ("refY"@, "0.75"@), ("markerUnits"@, "userSpaceOnUse"@), ("markerWidth"@, "12"@), ("markerHeight"@, "12"@), ("orient"@, "auto-start-reverse"@)],
            child_tag: "path"@,
            child_attrs: seq![("d"@, "M 0 0 L 10 0 L 0 8 z"@)],
        },
        SeqMarkerV {
            name: "stickTopArrowHead"@,
            attrs: seq![("refX"@, "7.5"@), ("refY"@, "7"@), ("markerUnits"@, "userSpaceOnUse"@), ("markerWidth"@, "12"@), ("markerHeight"@, "12"@), ("orient"@, "auto-start-reverse"@)],
            child_tag: "path"@,
            child_attrs: seq![("d"@, "M 0 0 L 7 7"@), ("stroke"@, "black"@), ("stroke-width"@, "1.5"@), ("fill"@, "none"@)],
        },
        SeqMarkerV {
            name: "stickBottomArrowHead"@,
            attrs: seq![("refX"@, "7.5"@), ("refY"@, "0"@), ("markerUnits"@, "userSpaceOnUse"@), ("markerWidth"@, "12"@), ("markerHeight"@, "12"@), ("orient"@, "auto-start-reverse"@)],
            child_tag: "path"@,
            child_attrs: seq![("d"@, "M 0 7 L 7 0"@), ("stroke"@, "black"@), ("stroke-width"@, "1.5"@), ("fill"@, "none"@)],
        },
    ]
}

/// The sequence diagram marker set.
pub fn seq_marker_specs() -> (r: Vec<SeqMarker>)
    ensures
        r@.map_values(|m: SeqMarker| m@) == seq_marker_table(),
{
    let r = vec![
        SeqMarker {
            name: "arrowhead",
            attrs: vec![("refX", "7.9"), ("refY", "5"), ("markerUnits", "userSpaceOnUse"), ("markerWidth", "12"), ("markerHeight", "12"), ("orient", "auto-start-reverse")],
            child_tag: "path",
            child_attrs: vec![("d", "M -1 0 L 10 5 L 0 10 z")],
        },
        SeqMarker {
            name: "crosshead",
            attrs: vec![("markerWidth", "15"), ("markerHeight", "8"), ("orient", "auto"), ("refX", "4"), ("refY", "4.5")],
            child_tag: "path",
            child_attrs: vec![("fill", "none"), ("stroke", "#000000"), ("stroke-width", "1pt"), ("d", "M 1,2 L 6,7 M 6,2 L 1,7"), ("style", "stroke-dasharray: 0, 0;")],
        },
        SeqMarker {
            name: "filled-head",
            attrs: vec![("refX", "15.5"), ("refY", "7"), ("markerWidth", "20"), ("markerHeight", "28"), ("orient", "auto")],
            child_tag: "path",
            child_attrs: vec![("d", "M 18,7 L9,13 L14,7 L9,1 Z")],
        },
        SeqMarker {
            name: "sequencenumber",
            attrs: vec![("refX", "15"), ("refY", "15"), ("markerWidth", "60"), ("markerHeight", "40"), ("orient", "auto")],
            child_tag: "circle",
            child_attrs: vec![("cx", "15"), ("cy", "15"), ("r", "6")],
        },
        SeqMarker {
            name: "solidTopArrowHead",
            attrs: vec![("refX", "7.9"), ("refY", "7.25"), ("markerUnits", "userSpaceOnUse"), ("markerWidth", "12"), ("markerHeight", "12"), ("orient", "auto-start-reverse")],
            child_tag: "path",
            child_attrs: vec![("d", "M 0 0 L 10 8 L 0 8 z")],
        },
        SeqMarker {
            name: "solidBottomArrowHead",
            attrs: vec![("refX", "7.9"), ("refY", "0.75"), ("markerUnits", "userSpaceOnUse"), ("markerWidth", "12"), ("markerHeight", "12"), ("orient", "auto-start-reverse")],
            child_tag: "path",
            child_attrs: vec![("d", "M 0 0 L 10 0 L 0 8 z")],
        },
        SeqMarker {
            name: "stickTopArrowHead",
            attrs: vec![("refX", "7.5"), ("refY", "7"), ("markerUnits", "userSpaceOnUse"), ("markerWidth", "12"), ("markerHeight", "12"), ("orient", "auto-start-reverse")],
            child_tag: "path",
            child_attrs: vec![("d", "M 0 0 L 7 7"), ("stroke", "black"), ("stroke-width", "1.5"), ("fill", "none")],
        },
        SeqMarker {
            name: "stickBottomArrowHead",
            attrs: vec![("refX", "7.5"), ("refY", "0"), ("markerUnits", "userSpaceOnUse"), ("markerWidth", "12"), ("markerHeight", "12"), ("orient", "auto-start-reverse")],
            child_tag: "path",
            child_attrs: vec![("d", "M 0 7 L 7 0"), ("stroke", "black"), ("stroke-width", "1.5"), ("fill", "none")],
        },
    ];
    assert(r@.map_values(|m: SeqMarker| m@) =~~= seq_marker_table());
    r
}

/// The `<defs>` a sequence diagram marker adds: its marker, with the id
/// `{id}-{name}`, around its shape.
pub open spec fn seq_marker_node(m: SeqMarkerV, id: Seq<char>) -> NodeV {
    let marker = ElementV {
        tag: "marker"@,
        attrs: seq![("id"@, id + "-"@ + m.name)] + m.attrs,
        children: seq![NodeV::Element(bare(m.child_tag, m.child_attrs))],
        xhtml: false,
    };
    NodeV::Element(
        ElementV {
            tag: "defs"@,
            attrs: Seq::empty(),
            children: seq![NodeV::Element(marker)],
            xhtml: false,
        },
    )
}

/// The nodes the sequence diagram marker set adds, in table order.
pub open spec fn seq_marker_nodes(id: Seq<char>) -> Seq<NodeV> {
    seq_marker_table().map_values(|m: SeqMarkerV| seq_marker_node(m, id))
}

fn seq_marker_elem(m: &SeqMarker, id: &str) -> (e: Element)
    ensures
        NodeV::Element(e@) == seq_marker_node(m@, id@),
{
    let child = lit_element(m.child_tag, &m.child_attrs);
    let mut a: Vec<(String, String)> = Vec::new();
    a.push((String::from_str("id"), cat(cat(String::from_str(id), "-"), m.name)));
    assert(attrs_view(a@) =~= seq![("id"@, id@ + "-"@ + m.name@)]);
    extend_lit_pairs(&mut a, &m.attrs);
    let mut marker = element_with("marker", a);
    append_element(&mut marker, child);
    assert(Seq::<NodeV>::empty().push(NodeV::Element(child@)) =~= seq![NodeV::Element(child@)]);
    wrap("defs", marker)
}

/// Appends the sequence diagram marker definitions to `svg`, each in its
/// own `<defs>`, with ids `{id}-{name}`.
pub fn insert_sequence_markers(svg: &mut Element, id: &str)
    ensures
        final(svg)@ == (ElementV { children: old(svg)@.children + seq_marker_nodes(id@), ..old(svg)@ }),
{
    let table = seq_marker_specs();
    let ghost start = svg@;
    let mut i: usize = 0;
    while i < table.len()
        invariant
            i <= table@.len(),
            table@.map_values(|m: SeqMarker| m@) == seq_marker_table(),
            svg@ == (ElementV {
                children: start.children + seq_marker_nodes(id@).take(i as int),
                ..start
            }),
        decreases table@.len() - i,
    {
        let e = seq_marker_elem(&table[i], id);
        append_element(svg, e);
        i += 1;
        assert(start.children + seq_marker_nodes(id@).take(i as int) =~= (start.children
            + seq_marker_nodes(id@).take(i - 1)).push(NodeV::Element(e@)));
    }
    assert(seq_marker_nodes(id@).take(i as int) =~= seq_marker_nodes(id@));
}

/// The `<defs>` an icon adds: a symbol with the id `{id}-{suffix}`, sized
/// 24 by 24 if `wh`, with even-odd fill and clip rules if `fill_rule`,
/// around a half-scale path.
pub open spec fn icon_node(
    id: Seq<char>,
    suffix: Seq<char>,
    wh: bool,
    fill_rule: bool,
    d: Seq<char>,
) -> NodeV {
    let size = if wh {
        seq![("width"@, "24"@), ("height"@, "24"@)]
    } else {
        Seq::empty()
    };
    let rule = if fill_rule {
        seq![("fill-rule"@, "evenodd"@), ("clip-rule"@, "evenodd"@)]
    } else {
        Seq::empty()
    };
    let path = bare("path"@, seq![("transform"@, "scale(.5)"@), ("d"@, d)]);
    let symbol = ElementV {
        tag: "symbol"@,
        attrs: seq![("id"@, id + "-"@ + suffix)] + size + rule,
        children: seq![NodeV::Element(path)],
        xhtml: false,
    };
    NodeV::Element(
        ElementV {
            tag: "defs"@,
            attrs: Seq::empty(),
            children: seq![NodeV::Element(symbol)],
            xhtml: false,
        },
    )
}

/// Appends an icon symbol, in its own `<defs>`, to `svg`.
pub fn insert_icon(svg: &mut Element, id: &str, suffix: &str, wh: bool, fill_rule: bool, d: &str)
    ensures
        final(svg)@ == (ElementV {
            children: old(svg)@.children.push(icon_node(id@, suffix@, wh, fill_rule, d@)),
            ..old(svg)@
        }),
{
    let mut pa: Vec<(String, String)> = Vec::new();
    pa.push(attr_pair("transform", "scale(.5)"));
    pa.push(attr_pair("d", d));
    let path = element_with("path", pa);
    let mut a: Vec<(String, String)> = Vec::new();
    a.push((String::from_str("id"), cat(cat(String::from_str(id), "-"), suffix)));
    if wh {
        a.push(attr_pair("width", "24"));
        a.push(attr_pair("height", "24"));
    }
    if fill_rule {
        a.push(attr_pair("fill-rule", "evenodd"));
        a.push(attr_pair("clip-rule", "evenodd"));
    }
    let mut symbol = element_with("symbol", a);
    append_element(&mut symbol, path);
    let defs = wrap("defs", symbol);
    proof {
        let n = icon_node(id@, suffix@, wh, fill_rule, d@);
        let sym = match n {
            NodeV::Element(x) => match x.children[0] {
                NodeV::Element(y) => y,
                NodeV::Text(_) => x,
            },
            NodeV::Text(_) => symbol@,
        };
        assert(attrs_view(a@) =~= sym.attrs);
        assert(attrs_view(pa@) =~= seq![("transform"@, "scale(.5)"@), ("d"@, d@)]);
        assert(Seq::<NodeV>::empty().push(NodeV::Element(path@)) =~= sym.children);
    }
    append_element(svg, defs);
}

} // verus!
