use sebastian::themed_css::{
    stroke_width, theme_get, theme_get_bool, themed_class_css, themed_flowchart_css,
    themed_sequence_css, themed_statediagram_css, themed_timeline_css, ThemeValue, ThemeVars,
};

fn vars(pairs: &[(&str, ThemeValue)]) -> ThemeVars {
    ThemeVars {
        entries: pairs
            .iter()
            .map(|(k, v)| {
                let v = match v {
                    ThemeValue::Str(s) => ThemeValue::Str(s.clone()),
                    ThemeValue::Bool(b) => ThemeValue::Bool(*b),
                    ThemeValue::Num(t, j) => ThemeValue::Num(t.clone(), j.clone()),
                    ThemeValue::Other => ThemeValue::Other,
                };
                (k.to_string(), v)
            })
            .collect(),
    }
}

fn s(x: &str) -> ThemeValue {
    ThemeValue::Str(x.to_string())
}

#[test]
fn theme_values_as_text_and_flags() {
    let v = vars(&[
        ("a", s("red")),
        ("b", ThemeValue::Bool(false)),
        ("n", ThemeValue::Num("16".to_string(), "16".to_string())),
        ("o", ThemeValue::Other),
        ("e", s("")),
    ]);
    assert_eq!(theme_get(&v, "a"), "red");
    assert_eq!(theme_get(&v, "b"), "false");
    assert_eq!(theme_get(&v, "n"), "16");
    assert_eq!(theme_get(&v, "o"), "");
    assert_eq!(theme_get(&v, "missing"), "");
    assert!(theme_get_bool(&v, "a"));
    assert!(!theme_get_bool(&v, "b"));
    assert!(!theme_get_bool(&v, "e"));
    assert!(!theme_get_bool(&v, "n"));
}

#[test]
fn stroke_width_defaults_to_one() {
    assert_eq!(stroke_width(&vars(&[])), "1");
    assert_eq!(stroke_width(&vars(&[("strokeWidth", s("2"))])), "1");
    let v = vars(&[("strokeWidth", ThemeValue::Num("2.0".to_string(), "2".to_string()))]);
    assert_eq!(stroke_width(&v), "2");
}

#[test]
fn class_stylesheet_rules() {
    let v = vars(&[
        ("fontFamily", s("trebuchet")),
        ("fontSize", s("16px")),
        ("textColor", s("#333")),
        ("lineColor", s("#444")),
        ("mainBkg", s("#eee")),
    ]);
    let css = themed_class_css("d", &v);
    assert!(css.starts_with(
        "#d{font-family:trebuchet;font-size:16px;fill:#333;}\
         @keyframes edge-animation-frame{from{stroke-dashoffset:0;}}\
         @keyframes dash{to{stroke-dashoffset:0;}}"
    ));
    assert!(css.contains(
        "#d [id$=\"-compositionStart\"],#d .composition{fill:#444!important;stroke:#444!important;stroke-width:1;}"
    ));
    assert!(css.contains(
        "#d [id$=\"-lollipopEnd\"],#d .lollipop{fill:#eee!important;stroke:#444!important;stroke-width:1;}"
    ));
    assert!(css.contains("#d .edge-thickness-normal{stroke-width:1px;}"));
    assert!(css.ends_with("#d :root{--mermaid-font-family:trebuchet;}"));
}

#[test]
fn stylesheet_tail_follows_gradient_and_shadow() {
    let plain = themed_class_css("d", &vars(&[("nodeBorder", s("#999"))]));
    assert!(plain.contains(
        "#d [data-look=\"neo\"].node rect,#d [data-look=\"neo\"].cluster rect,#d [data-look=\"neo\"].node polygon{stroke:#999;filter:none;}"
    ));
    let fancy = themed_class_css(
        "d",
        &vars(&[("useGradient", ThemeValue::Bool(true)), ("dropShadow", s("url(#x)"))]),
    );
    assert!(fancy.contains("#d [data-look=\"neo\"].node path{stroke:url(#d-gradient);stroke-width:1px;}"));
    assert!(fancy.contains("#d [data-look=\"neo\"].node .outer-path{filter:url(#x);}"));
}

#[test]
fn sequence_stylesheet_defaults() {
    let css = themed_sequence_css("q", &vars(&[("signalColor", s("#111"))]));
    assert!(css.contains("#q rect.actor.outer-path[data-look=\"neo\"]{filter:none;}"));
    assert!(css.contains("#q .messageLine1{stroke-width:1.5;stroke-dasharray:2,2;stroke:#111;}"));
    assert!(css.contains("#q .noteText,#q .noteText>tspan{fill:;stroke:none;font-weight:normal;}"));
}

#[test]
fn state_stylesheet_fallbacks() {
    let v = vars(&[
        ("tertiaryTextColor", s("#abc")),
        ("dropShadow", s("url(#drop-shadow)")),
        ("radius", s("5")),
    ]);
    let css = themed_statediagram_css("st", &v);
    assert!(css.contains("#st .edgeLabel .label text{fill:#abc;}"));
    assert!(css.contains(
        "#st [data-look=\"neo\"].statediagram-cluster rect.outer{rx:5px;ry:5px;filter:url(st-drop-shadow);}"
    ));
    assert!(css.contains(
        "#st .statediagram-cluster.statediagram-cluster-alt .inner{fill:#efefef;}"
    ));
    let note = "#st .statediagram-note rect{fill:;stroke:;stroke-width:1px;rx:0;ry:0;}";
    assert_eq!(css.matches(note).count(), 2);
}

#[test]
fn timeline_stylesheet_sections() {
    let v = vars(&[("cScale0", s("c0")), ("cScale11", s("c11")), ("git0", s("g"))]);
    let css = themed_timeline_css("t", &v);
    assert!(css.contains(
        "#t .section--1 rect,#t .section--1 path,#t .section--1 circle,#t .section--1 path{fill:c0;}"
    ));
    assert!(css.contains("#t .edge-depth--1{stroke-width:17;}"));
    assert!(css.contains("#t .edge-depth-10{stroke-width:-16;}"));
    assert!(css.contains("#t .section-edge-10{stroke:c11;}"));
    assert!(css.contains("#t .disabled,#t .disabled circle,#t .disabled text{fill:lightgray;}"));
    assert!(css.contains("#t .section-root rect,#t .section-root path,#t .section-root circle{fill:g;}"));
}

#[test]
fn flowchart_stylesheet_uses_faded_background() {
    let css = themed_flowchart_css("f", &vars(&[("textColor", s("#222"))]), "rgba(1, 2, 3, 0.5)");
    assert!(css.contains("#f .labelBkg{background-color:rgba(1, 2, 3, 0.5);}"));
    assert!(css.contains("#f .label{font-family:;color:#222;}"));
}

#[test]
fn hand_drawn_colors_fall_back_to_defaults() {
    let (fill, stroke) = sebastian::shapes::hd_theme_colors(&vars(&[("mainBkg", s("#fff")), ("nodeBorder", s(""))]));
    assert_eq!(fill, "#fff");
    assert_eq!(stroke, "#9370DB");
    let (fill, stroke) = sebastian::shapes::hd_theme_colors(&vars(&[]));
    assert_eq!(fill, "#ECECFF");
    assert_eq!(stroke, "#9370DB");
}

#[test]
fn statediagram_stylesheet_frame() {
    let v = vars(&[("fontFamily", s("a, b")), ("fontSize", s("16px")), ("textColor", s("#333"))]);
    let css = themed_statediagram_css("st", &v);
    assert!(css.starts_with("#st{font-family:a,b;font-size:16px;fill:#333;}@keyframes edge-animation-frame{"));
    assert!(css.ends_with("#st :root{--mermaid-font-family:a,b;}"));
}
