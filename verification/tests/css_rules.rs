use sebastian::css::{class_defs_css, cssom_color_value, flowchart_css, hex_to_rgb_exec, rule};

#[test]
fn flowchart_css_fills_the_id() {
    assert_eq!(
        flowchart_css("{ID} .node{fill:red;}{ID} .edge{}", "graph-1"),
        "#graph-1 .node{fill:red;}#graph-1 .edge{}"
    );
    assert_eq!(flowchart_css("no placeholders", "x"), "no placeholders");
}

#[test]
fn hex_colors_become_rgb() {
    assert_eq!(cssom_color_value("fill", "#f00"), "rgb(255, 0, 0)");
    assert_eq!(cssom_color_value("stroke", "#1a2B3c"), "rgb(26, 43, 60)");
    assert_eq!(cssom_color_value("stroke-width", "#fff"), "#fff");
    assert_eq!(cssom_color_value("color", "#ffff"), "#ffff");
    assert_eq!(cssom_color_value("color", "#ggg"), "#ggg");
    assert_eq!(cssom_color_value("bgFill", "blue"), "blue");
}

#[test]
fn hex_to_rgb_formula() {
    let v: Vec<char> = "#0a0B0c".chars().collect();
    assert_eq!(hex_to_rgb_exec(&v), Some("rgb(10, 11, 12)".to_string()));
    let w: Vec<char> = "123".chars().collect();
    assert_eq!(hex_to_rgb_exec(&w), None);
}

#[test]
fn class_defs_rules() {
    let classes = vec![
        (
            "red".to_string(),
            vec!["fill:#f00".to_string(), "  ".to_string(), "stroke-width: 2px".to_string()],
            vec!["color:#0f0".to_string()],
        ),
        ("plain".to_string(), vec![], vec![]),
    ];
    assert_eq!(
        class_defs_css("g", &classes),
        "#g .red>*{fill:rgb(255, 0, 0)!important;stroke-width:2px!important;}\
#g .red span{fill:rgb(255, 0, 0)!important;stroke-width:2px!important;}\
#g .red tspan{fill:rgb(0, 255, 0)!important;}"
    );
}

#[test]
fn rule_minifies_commas_outside_parens() {
    let mut o = String::from("x");
    rule(&mut o, "#d", &[" .a", " .b"], "font-family: a, b;fill:rgba(1, 2, 3, 0.5);");
    assert_eq!(o, "x#d .a,#d .b{font-family: a,b;fill:rgba(1, 2, 3, 0.5);}");
}
