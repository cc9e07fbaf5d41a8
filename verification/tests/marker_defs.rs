use sebastian::edges::{add_edge_markers, is_label_style, MarkerState};
use sebastian::markers::{
    create_colored_marker, insert_icon, insert_markers, insert_sequence_markers,
};
use sebastian::svg::{get_attr, new_element, serialize, Element, Node};

fn xml(e: &Element) -> String {
    let mut out = String::new();
    serialize(e, &mut out);
    out
}

fn child(e: &Element, k: usize) -> &Element {
    match &e.children[k] {
        Node::Element(c) => c,
        Node::Text(_) => panic!("expected an element"),
    }
}

#[test]
fn flowchart_marker_set() {
    let mut g = new_element("g");
    insert_markers(&mut g, "flowchart", "d");
    assert_eq!(g.children.len(), 12);
    assert_eq!(
        xml(child(&g, 0)),
        "<marker id=\"d_flowchart-pointEnd\" class=\"marker flowchart\" viewBox=\"0 0 10 10\" \
         refX=\"5\" refY=\"5\" markerUnits=\"userSpaceOnUse\" markerWidth=\"8\" markerHeight=\"8\" \
         orient=\"auto\"><path d=\"M 0 0 L 10 5 L 0 10 z\" class=\"arrowMarkerPath\" \
         style=\"stroke-width: 1; stroke-dasharray: 1, 0;\"/></marker>"
    );
    // circleEnd-margin writes refY before refX.
    assert_eq!(
        xml(child(&g, 6)),
        "<marker id=\"d_flowchart-circleEnd-margin\" class=\"marker flowchart\" \
         viewBox=\"0 0 10 10\" refY=\"5\" refX=\"12.25\" markerUnits=\"userSpaceOnUse\" \
         markerWidth=\"14\" markerHeight=\"14\" orient=\"auto\"><circle cx=\"5\" cy=\"5\" r=\"5\" \
         class=\"arrowMarkerPath\" style=\"stroke-width: 0; stroke-dasharray: 1, 0;\"/></marker>"
    );
    let mut ids: Vec<String> = (0..12)
        .map(|k| get_attr(child(&g, k), "id").unwrap())
        .collect();
    ids.sort();
    ids.dedup();
    assert_eq!(ids.len(), 12);
}

#[test]
fn state_diagram_barb() {
    let mut g = new_element("g");
    insert_markers(&mut g, "stateDiagram", "s");
    assert_eq!(
        xml(&g),
        "<g><defs><marker id=\"s_stateDiagram-barbEnd\" refX=\"19\" refY=\"7\" \
         markerWidth=\"20\" markerHeight=\"14\" markerUnits=\"userSpaceOnUse\" orient=\"auto\">\
         <path d=\"M 19,7 L9,13 L14,7 L9,1 Z\"/></marker></defs></g>"
    );
}

#[test]
fn class_marker_set() {
    let mut g = new_element("g");
    insert_markers(&mut g, "class", "c");
    assert_eq!(g.children.len(), 20);
    assert_eq!(
        xml(child(&g, 0)),
        "<defs><marker id=\"c_class-aggregationStart\" class=\"marker aggregation class\" \
         refX=\"18\" refY=\"7\" markerWidth=\"190\" markerHeight=\"240\" orient=\"auto\">\
         <path d=\"M 18,7 L9,13 L1,7 L9,1 Z\"/></marker></defs>"
    );
    // extensionStart-margin is not wrapped in defs.
    assert_eq!(child(&g, 6).tag, "marker");
    assert_eq!(
        get_attr(child(&g, 6), "id"),
        Some("c_class-extensionStart-margin".to_string())
    );
}

#[test]
fn colored_marker_copies_and_colors() {
    let mut root = new_element("g");
    create_colored_marker(&mut root, "flowchart", "d", "pointEnd", "red-id", "#f00", true);
    assert_eq!(root.children.len(), 1);
    let m = child(&root, 0);
    assert_eq!(get_attr(m, "id"), Some("red-id".to_string()));
    let p = child(m, 0);
    assert_eq!(get_attr(p, "stroke"), Some("#f00".to_string()));
    assert_eq!(get_attr(p, "fill"), Some("#f00".to_string()));
    create_colored_marker(&mut root, "flowchart", "d", "barbEnd", "x", "#f00", true);
    assert_eq!(root.children.len(), 1);
}

#[test]
fn edge_markers_plain_and_colored() {
    let mut path = new_element("path");
    let mut st = MarkerState { root: new_element("g"), created: Vec::new() };
    add_edge_markers(&mut path, "arrow_circle", "arrow_point", "d", "flowchart", " ", &mut st);
    assert_eq!(
        get_attr(&path, "marker-start"),
        Some("url(#d_flowchart-circleStart)".to_string())
    );
    assert_eq!(
        get_attr(&path, "marker-end"),
        Some("url(#d_flowchart-pointEnd)".to_string())
    );
    assert!(st.root.children.is_empty());

    let mut path2 = new_element("path");
    add_edge_markers(&mut path2, "none", "arrow_point", "d", "flowchart", "#0a0", &mut st);
    assert_eq!(get_attr(&path2, "marker-start"), None);
    assert_eq!(
        get_attr(&path2, "marker-end"),
        Some("url(#d_flowchart-pointEnd__0a0)".to_string())
    );
    assert_eq!(st.created, vec!["d_flowchart-pointEnd__0a0".to_string()]);
    assert_eq!(st.root.children.len(), 1);
    // The same colored marker is not made twice.
    let mut path3 = new_element("path");
    add_edge_markers(&mut path3, "none", "arrow_point", "d", "flowchart", "#0a0", &mut st);
    assert_eq!(st.root.children.len(), 1);
    assert_eq!(st.created.len(), 1);
}

#[test]
fn sequence_marker_set_and_icons() {
    let mut svg = new_element("svg");
    insert_sequence_markers(&mut svg, "q");
    assert_eq!(svg.children.len(), 8);
    assert_eq!(
        xml(child(&svg, 3)),
        "<defs><marker id=\"q-sequencenumber\" refX=\"15\" refY=\"15\" markerWidth=\"60\" \
         markerHeight=\"40\" orient=\"auto\"><circle cx=\"15\" cy=\"15\" r=\"6\"/></marker></defs>"
    );
    insert_icon(&mut svg, "q", "clock", true, false, "M0 0");
    assert_eq!(
        xml(child(&svg, 8)),
        "<defs><symbol id=\"q-clock\" width=\"24\" height=\"24\"><path transform=\"scale(.5)\" \
         d=\"M0 0\"/></symbol></defs>"
    );
}

#[test]
fn label_style_detection() {
    assert!(is_label_style("color:red;"));
    assert!(!is_label_style("color:red;stroke:blue"));
    assert!(!is_label_style("fill:#fff;color:red"));
    assert!(!is_label_style("font-weight:bold"));
}

#[test]
fn fresh_marker_state() {
    let st = sebastian::edges::render_markers_state(new_element("g"));
    assert!(st.created.is_empty());
    assert_eq!(xml(&st.root), "<g/>");
}
