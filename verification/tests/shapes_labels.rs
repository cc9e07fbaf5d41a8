use sebastian::shapes::{div_style_w, font_size_literal, get_node_classes};
use sebastian::svg::{append, append_element, new_element, new_xhtml_element, set_attr};
use sebastian::shapes::{
    break_atoms_exec, div_style, escape_member_text, node_label_text_style, remove_style_decl,
    split_lines_exec,
};

#[test]
fn split_lines_on_br() {
    let l: Vec<char> = "a<br/>b<br >c".chars().collect();
    assert_eq!(split_lines_exec(&l), vec!["a", "b", "c"]);
    let m: Vec<char> = "a<br".chars().collect();
    assert_eq!(split_lines_exec(&m), vec!["a<br"]);
}

#[test]
fn break_atoms_at_spaces_hyphens_brackets() {
    assert_eq!(break_atoms_exec("foo bar-baz x-1"), vec!["foo ", "bar-", "baz ", "x-1"]);
    assert_eq!(break_atoms_exec("f(x) -(y)"), vec!["f(x) ", "-", "(y)"]);
}

#[test]
fn remove_declarations() {
    let s: Vec<char> = "fill:red;stroke:blue;fill:;color:x".chars().collect();
    let r: String = remove_style_decl(&s, "fill:").into_iter().collect();
    assert_eq!(r, "stroke:blue;fill:;color:x");
}

#[test]
fn label_text_style_transform() {
    assert_eq!(node_label_text_style(""), "");
    assert_eq!(
        node_label_text_style("stroke:#333;stroke-width:2px;fill:#fff;color:red"),
        "lineColor:#333;fill:red"
    );
}

#[test]
fn member_text_escapes_visibility() {
    assert_eq!(escape_member_text("+name"), "\\+name");
    assert_eq!(escape_member_text("name"), "name");
    assert_eq!(escape_member_text("~x"), "\\~x");
}

#[test]
fn div_styles() {
    assert_eq!(
        div_style(false),
        "display: table-cell; white-space: nowrap; line-height: 1.5; max-width: 200px; text-align: center;"
    );
    assert_eq!(
        div_style(true),
        "display: table; white-space: break-spaces; line-height: 1.5; max-width: 200px; text-align: center; width: 200px;"
    );
}

fn xml_of(e: &sebastian::svg::Element) -> String {
    let mut out = String::new();
    sebastian::svg::serialize(e, &mut out);
    out
}

#[test]
fn styles_reach_nested_spans_and_paths() {
    let mut g = new_element("g");
    let mut div = new_xhtml_element("div");
    let mut span = new_xhtml_element("span");
    set_attr(&mut span, "style", "old");
    let inner = new_xhtml_element("span");
    append_element(&mut span, inner);
    append_element(&mut div, span);
    append_element(&mut g, div);
    append(&mut g, "path");
    sebastian::shapes::set_span_styles(&mut g, "color:red");
    assert_eq!(
        xml_of(&g),
        "<g><div><span style=\"color:red\"><span style=\"color:red\"></span></span></div><path/></g>"
    );
    sebastian::shapes::set_path_styles(&mut g, "fill:none");
    assert_eq!(
        xml_of(&g),
        "<g><div><span style=\"color:red\"><span style=\"color:red\"></span></span></div><path style=\"fill:none\"/></g>"
    );
}

#[test]
fn label_paragraph_lines() {
    let mut span = new_xhtml_element("span");
    sebastian::shapes::write_label_paragraph(&mut span, "a<br/>b<br>");
    assert_eq!(xml_of(&span), "<span><p>a<br />b<br /></p></span>");
    let mut empty = new_xhtml_element("span");
    sebastian::shapes::write_label_paragraph(&mut empty, "");
    assert_eq!(xml_of(&empty), "<span></span>");
}

#[test]
fn atom_wrapping_drops_trailing_spaces() {
    let mut st = sebastian::shapes::AtomWrap::new();
    // Candidates longer than 6 characters are too wide.
    for atom in ["ab ", "cd ", "efgh ", "i"] {
        let atom = atom.to_string();
        let too_wide = !st.current.is_empty() && st.candidate(&atom).chars().count() > 6;
        st.step(atom, too_wide);
    }
    assert_eq!(st.finish(), vec!["ab cd".to_string(), "efgh i".to_string()]);
}

#[test]
fn font_size_from_label_styles() {
    assert_eq!(font_size_literal("color:red;font-size: 20px !important"), Some("20".to_string()));
    assert_eq!(font_size_literal("font-size:large;font-size:12.5px"), Some("12.5".to_string()));
    assert_eq!(font_size_literal("font-size:1.2em"), None);
    assert_eq!(font_size_literal("fill:#fff"), None);
    assert_eq!(font_size_literal(" font-size : 9 px!important!important"), Some("9".to_string()));
}

#[test]
fn node_group_classes() {
    assert_eq!(get_node_classes("handDrawn", "a b"), "rough-node a b ");
    assert_eq!(get_node_classes("classic", ""), "node  ");
}

#[test]
fn div_style_at_a_width() {
    assert_eq!(
        div_style_w(true, "150.5"),
        "display: table; white-space: break-spaces; line-height: 1.5; max-width: 150.5px; text-align: center; width: 150.5px;"
    );
    assert_eq!(
        div_style_w(false, "80"),
        "display: table-cell; white-space: nowrap; line-height: 1.5; max-width: 80px; text-align: center;"
    );
}
