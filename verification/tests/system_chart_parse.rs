use sebastian::system_chart::{
    legend_kind_label_exec, parse, rank_rows_exec, ranks_exec, symbol_colors_exec,
    validate_edges, EdgeKind,
};

const SRC: &str = "system_chart\n  title Query pipeline\n  query: chat \"AI Agent Query\" \"What is our churn rate?\"\n  rt: router \"Router\" \"(Classify)\"\n  okf: wiki \"OKF\" \"(Wiki)\"\n  rag: db \"RAG\" \"(Vector DB)\"\n  ai: llm \"LLM\" \"(Synthesize)\"\n  query --> rt\n  rt --> okf : Canonical?\n  rt --> rag : Exploratory?\n  okf --> ai\n  rag --> ai\n";

#[test]
fn parses_the_doc_example() {
    let db = parse(SRC).ok().unwrap();
    assert_eq!(db.title, "Query pipeline");
    assert_eq!(db.nodes.len(), 5);
    assert_eq!(db.nodes[0].id, "query");
    assert_eq!(db.nodes[0].kind, "chat");
    assert_eq!(db.nodes[0].title, "AI Agent Query");
    assert_eq!(db.nodes[0].subtitle, "What is our churn rate?");
    assert_eq!(db.edges.len(), 5);
    assert_eq!(db.edges[1].label, "Canonical?");
    assert!(db.edges[0].kind == EdgeKind::Call);
    assert!(validate_edges(&db).is_ok());
}

#[test]
fn ranks_follow_longest_paths() {
    let db = parse(SRC).ok().unwrap();
    let r = ranks_exec(&db);
    assert_eq!(r, vec![0, 1, 2, 2, 3]);
    let rows = rank_rows_exec(&r);
    assert_eq!(rows, vec![vec![0], vec![1], vec![2, 3], vec![4]]);
}

#[test]
fn ranks_stay_below_node_count_with_cycles() {
    let db = parse("system_chart\na: box \"A\"\nb: box \"B\"\na --> b\nb --> a\n").ok().unwrap();
    let r = ranks_exec(&db);
    assert_eq!(r.len(), 2);
    assert!(r.iter().all(|&x| x < 2));
}

#[test]
fn edge_kinds_and_legend() {
    let db = parse("system_chart\nlegend\na ..> b\nb ==> c\nc --- a\n").ok().unwrap();
    assert!(db.legend);
    assert!(db.edges[0].kind == EdgeKind::Event);
    assert!(db.edges[1].kind == EdgeKind::Message);
    assert!(db.edges[2].kind == EdgeKind::Assoc);
    assert_eq!(legend_kind_label_exec(EdgeKind::Assoc), "association");
    assert_eq!(legend_kind_label_exec(EdgeKind::Call), "call");
}

#[test]
fn undeclared_edge_end_is_reported() {
    let db = parse("system_chart\na: box \"A\"\na --> ghost\n").ok().unwrap();
    match validate_edges(&db) {
        Err(e) => assert_eq!(e.0, "edge references undeclared node \"ghost\""),
        Ok(()) => panic!("expected error"),
    }
}

#[test]
fn system_chart_errors() {
    let cases = [
        ("flowchart\n", "expected system_chart header, got \"flowchart\""),
        ("", "missing system_chart header"),
        ("system_chart\n --> b\n", "bad edge line \"--> b\""),
        ("system_chart\njust words\n", "expected node or edge line, got \"just words\""),
        ("system_chart\nx:   \n", "node \"x\" is missing a symbol kind"),
        ("system_chart\nx: db Title\n", "node \"x\" needs a quoted title"),
    ];
    for (src, msg) in cases {
        match parse(src) {
            Err(e) => {
                assert_eq!(e.0, msg);
                assert_eq!(e.display(), format!("system_chart parse error: {msg}"));
            }
            Ok(_) => panic!("expected error for {src:?}"),
        }
    }
}

#[test]
fn symbol_color_table() {
    assert_eq!(symbol_colors_exec("db"), ("#2563EB", "#EFF6FF"));
    assert_eq!(symbol_colors_exec("box"), ("#64748B", "#FFFFFF"));
    assert_eq!(symbol_colors_exec("unknown"), ("#64748B", "#FFFFFF"));
}

#[test]
fn empty_chart_svg() {
    assert_eq!(
        sebastian::system_chart::empty_svg("sc"),
        "<svg id=\"sc\" xmlns=\"http://www.w3.org/2000/svg\" aria-roledescription=\"system_chart\"/>"
    );
}

#[test]
fn system_chart_stylesheet() {
    let vars = sebastian::themed_css::ThemeVars {
        entries: vec![
            ("fontFamily".to_string(), sebastian::themed_css::ThemeValue::Str("arial".to_string())),
            ("textColor".to_string(), sebastian::themed_css::ThemeValue::Str("#333".to_string())),
        ],
    };
    let css = sebastian::system_chart::system_chart_css("c", &vars, "stroke:#333;", "stroke:#1a1a1a;");
    assert!(css.starts_with("#c{font-family:arial;}#c .system-chart-title{font-size:20px;font-weight:bold;fill:#333;stroke:#333;}"));
    assert!(css.contains("#c .system-chart-node-title{font-size:16px;font-weight:bold;fill:#1a1a1a;stroke:#1a1a1a;}"));
    assert!(css.contains("#c .system-chart-edge-label{font-size:13px;font-weight:bold;paint-order:stroke;stroke:white;stroke-width:4px;stroke-linejoin:round;}"));
    assert!(css.ends_with("#c .system-chart-icon-fill{stroke:none;}"));
}

#[test]
fn arrowhead_markers_per_accent_colour() {
    let db = parse(SRC).ok().unwrap();
    let colors = sebastian::system_chart::marker_colors_exec(&db);
    assert_eq!(colors, vec!["#3B82F6", "#7C3AED", "#16A34A", "#2563EB"]);
    assert!(sebastian::system_chart::legend_kinds_exec(&db).is_empty());
    let defs = sebastian::system_chart::system_chart_defs("c", &vec![], &colors);
    assert_eq!(defs.children.len(), 4);
}

#[test]
fn legend_marker_only_for_directed_kinds() {
    let db = parse("system_chart\nlegend\na: user \"A\"\nb: user \"B\"\na --- b\n").ok().unwrap();
    let kinds = sebastian::system_chart::legend_kinds_exec(&db);
    assert!(kinds == vec![EdgeKind::Assoc]);
    let colors = sebastian::system_chart::marker_colors_exec(&db);
    assert!(colors.is_empty());
    let defs = sebastian::system_chart::system_chart_defs("c", &kinds, &colors);
    assert!(defs.children.is_empty());

    let db = parse("system_chart\nlegend\na: user \"A\"\nb: user \"B\"\nb --- a\na ..> b\n").ok().unwrap();
    let kinds = sebastian::system_chart::legend_kinds_exec(&db);
    assert!(kinds == vec![EdgeKind::Event, EdgeKind::Assoc]);
    let colors = sebastian::system_chart::marker_colors_exec(&db);
    let defs = sebastian::system_chart::system_chart_defs("c", &kinds, &colors);
    let mut out = String::new();
    sebastian::svg::serialize(&defs, &mut out);
    assert_eq!(
        out,
        "<defs><marker id=\"c-arrow-legend\" viewBox=\"0 0 10 10\" refX=\"9\" refY=\"5\" markerWidth=\"7\" markerHeight=\"7\" orient=\"auto-start-reverse\"><path d=\"M 0 0 L 10 5 L 0 10 z\" fill=\"#64748B\"/></marker><marker id=\"c-arrow-0\" viewBox=\"0 0 10 10\" refX=\"9\" refY=\"5\" markerWidth=\"7\" markerHeight=\"7\" orient=\"auto-start-reverse\"><path d=\"M 0 0 L 10 5 L 0 10 z\" fill=\"#0284C7\"/></marker></defs>"
    );
}
