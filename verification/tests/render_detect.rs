use sebastian::render::{detect_diagram_type, elk_direction, init_directive_args};

#[test]
fn detects_by_header() {
    assert_eq!(detect_diagram_type("%% c\n\nsequenceDiagram\nA->B: x"), "sequence");
    assert_eq!(detect_diagram_type("stateDiagram-v2\n"), "state");
    assert_eq!(detect_diagram_type("timeline\n"), "timeline");
    assert_eq!(detect_diagram_type("timeline title\n"), "timeline");
    assert_eq!(detect_diagram_type("timelines\n"), "flowchart");
    assert_eq!(detect_diagram_type("classDiagram\n"), "class");
    assert_eq!(detect_diagram_type("graph TD\n"), "flowchart");
    assert_eq!(detect_diagram_type(""), "flowchart");
}

#[test]
fn elk_directions() {
    assert_eq!(elk_direction("BT"), "UP");
    assert_eq!(elk_direction("LR"), "RIGHT");
    assert_eq!(elk_direction("RL"), "LEFT");
    assert_eq!(elk_direction("TD"), "DOWN");
    assert_eq!(elk_direction("TB"), "DOWN");
}

#[test]
fn init_directives_are_collected() {
    let src = "%%{init: {'theme': 'dark'}}%%\n%%{config: {}}%%\n%%{initialize: {\"look\": \"handDrawn\"} }%%\ngraph TD\n";
    assert_eq!(
        init_directive_args(src),
        vec!["{\"theme\": \"dark\"}".to_string(), "{\"look\": \"handDrawn\"}".to_string()]
    );
    assert!(init_directive_args("graph TD").is_empty());
}
