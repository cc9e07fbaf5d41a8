use sebastian::config::{detect_init, Json};

#[test]
fn parses_theme_directive() {
    let cfg = detect_init(
        "%%{init: {'theme': 'dark', 'themeVariables': { 'primaryColor': '#ffcc00' }}}%%\ngraph TD\nA-->B\n",
    );
    assert_eq!(cfg.theme, "dark");
    assert_eq!(
        cfg.theme_variables
            .iter()
            .find(|(k, _)| k == "primaryColor")
            .and_then(|(_, v)| match v {
                Json::Str(s) => Some(s.as_str()),
                _ => None,
            }),
        Some("#ffcc00")
    );
}

#[test]
fn parses_html_labels() {
    let cfg = detect_init("%%{init: {\"flowchart\": {\"htmlLabels\": false}} }%%\ngraph TD\nA\n");
    assert!(!cfg.effective_html_labels());
    assert!(cfg.node_html_labels());
}

#[test]
fn parses_font_size() {
    let cfg = detect_init(
        "%%{init: {'theme':'base', 'themeVariables': {'fontSize':'18px'}}}%%\ngraph TD\nA\n",
    );
    assert_eq!(cfg.theme, "base");
    let size: f64 = cfg.font_size_literal().map_or(16.0, |s| s.parse().unwrap());
    assert_eq!(size, 18.0);
}

#[test]
fn directives_apply_in_order_over_defaults() {
    let cfg = detect_init("graph TD\n");
    assert_eq!(cfg.theme, "default");
    assert_eq!(cfg.look, "classic");
    assert_eq!(cfg.node_spacing, "50");
    assert!(cfg.effective_html_labels());
    let cfg = detect_init(
        "%%{init: {\"look\": \"handDrawn\", \"flowchart\": {\"nodeSpacing\": 30.5, \"curve\": \"basis\"}, \"themeVariables\": {\"a\": 1, \"b\": true}}}%%\n%%{init: not json}%%\n%%{initialize: {\"htmlLabels\": false, \"gitGraph\": {\"showCommitLabel\": false}, \"themeVariables\": {\"a\": \"x\"}}}%%\n",
    );
    assert!(cfg.is_hand_drawn());
    assert_eq!(cfg.node_spacing, "30.5");
    assert_eq!(cfg.rank_spacing, "50");
    assert_eq!(cfg.curve.as_deref(), Some("basis"));
    assert_eq!(cfg.top_html_labels, Some(false));
    assert!(!cfg.effective_html_labels());
    assert_eq!(cfg.git_show_commit_label, Some(false));
    let keys: Vec<&str> = cfg.theme_variables.iter().map(|(k, _)| k.as_str()).collect();
    assert_eq!(keys, vec!["a", "b"]);
    assert!(matches!(&cfg.theme_variables[0].1, Json::Str(s) if s == "x"));
    assert!(cfg.font_size_literal().is_none());
}
