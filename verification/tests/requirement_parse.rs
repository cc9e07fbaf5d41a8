use sebastian::requirement::{
    element_label_exec, get_layout_data, parse, parse_relation_exec, requirement_label_exec, risk_name_exec,
    verify_name_exec,
};

const SRC: &str = "requirementDiagram\n\nrequirement test_req {\n  id: 1\n  text: \"the test text.\"\n  risk: high\n  verifymethod: test\n}\n\nfunctionalRequirement test_req2 {\n  id: 1.1\n}\n\nelement test_entity {\n  type: simulation\n  docRef: reqs/test_entity\n}\n\ntest_entity - satisfies -> test_req2\ntest_req <- copies - test_entity\n";

#[test]
fn parses_requirements_elements_relations() {
    let db = parse(SRC).ok().unwrap();
    assert_eq!(db.requirements.len(), 2);
    let r = &db.requirements[0];
    assert_eq!(r.name, "test_req");
    assert_eq!(r.ty, "Requirement");
    assert_eq!(r.id, "1");
    assert_eq!(r.text, "the test text.");
    assert_eq!(r.risk, "High");
    assert_eq!(r.verify, "Test");
    assert_eq!(db.requirements[1].ty, "Functional Requirement");
    assert_eq!(db.elements.len(), 1);
    assert_eq!(db.elements[0].ty, "simulation");
    assert_eq!(db.elements[0].doc_ref, "reqs/test_entity");
    assert_eq!(db.relations.len(), 2);
    assert_eq!(db.relations[0].ty, "satisfies");
    assert_eq!(db.relations[0].src, "test_entity");
    assert_eq!(db.relations[0].dst, "test_req2");
    assert_eq!(db.relations[1].ty, "copies");
    assert_eq!(db.relations[1].src, "test_entity");
    assert_eq!(db.relations[1].dst, "test_req");
    assert_eq!(db.direction, "TB");
}

#[test]
fn first_definition_wins() {
    let db = parse("requirementDiagram\nrequirement r {\nid: 1\n}\nrequirement r {\nid: 2\n}\ndirection LR\n").ok().unwrap();
    assert_eq!(db.requirements.len(), 1);
    assert_eq!(db.requirements[0].id, "1");
    assert_eq!(db.direction, "LR");
}

#[test]
fn labels_stack_lines() {
    let db = parse(SRC).ok().unwrap();
    assert_eq!(
        requirement_label_exec(&db.requirements[0]),
        "<<Requirement>>\ntest_req\nID: 1\nText: the test text.\nRisk: High\nVerification: Test"
    );
    assert_eq!(
        element_label_exec(&db.elements[0]),
        "<<Element>>\ntest_entity\nType: simulation\nDoc Ref: reqs/test_entity"
    );
}

#[test]
fn relations_need_a_known_word() {
    let l: Vec<char> = "a - likes -> b".chars().collect();
    assert!(parse_relation_exec(&l).is_none());
    let c: Vec<char> = "\"x y\" - contains -> z".chars().collect();
    let r = parse_relation_exec(&c).unwrap();
    assert!(r.contains);
    assert_eq!(r.src, "x y");
}

#[test]
fn names_of_risk_and_verify() {
    let k: Vec<char> = "MEDIUM".chars().collect();
    assert_eq!(risk_name_exec(&k), "Medium");
    let o: Vec<char> = "odd".chars().collect();
    assert_eq!(risk_name_exec(&o), "odd");
    let i: Vec<char> = "Inspection".chars().collect();
    assert_eq!(verify_name_exec(&i), "Inspection");
}

#[test]
fn requirement_errors() {
    match parse("requirementDiagram\nthing x {\n}\n") {
        Err(e) => {
            assert_eq!(e.message, "unknown requirement statement: thing x {");
            assert_eq!(e.display(), "requirement diagram parse error: unknown requirement statement: thing x {");
        }
        Ok(_) => panic!("expected error"),
    }
    match parse("graph\n") {
        Err(e) => assert_eq!(e.message, "expected requirementDiagram header, got \"graph\""),
        Ok(_) => panic!("expected error"),
    }
    match parse("\n%% c\n") {
        Err(e) => assert_eq!(e.message, "missing requirementDiagram header"),
        Ok(_) => panic!("expected error"),
    }
}

#[test]
fn layout_boxes_and_edges() {
    let l = get_layout_data(SRC, "rd").ok().unwrap();
    assert_eq!(l.nodes.len(), 3);
    assert_eq!(l.nodes[0].id, "test_req");
    assert_eq!(
        l.nodes[0].label,
        "<<Requirement>>\ntest_req\nID: 1\nText: the test text.\nRisk: High\nVerification: Test"
    );
    assert_eq!(l.nodes[2].id, "test_entity");
    assert_eq!(l.nodes[2].css_classes, "requirementBox default");
    assert_eq!(l.edges.len(), 2);
    assert_eq!(l.edges[0].id, "test_entity-test_req2-0");
    assert_eq!(l.edges[0].label, "<<satisfies>>");
    assert_eq!(l.edges[0].arrow_type_end, "arrow_point");
    assert_eq!(l.edges[0].pattern, "dashed");
    assert_eq!(l.edges[0].style, vec!["fill:none".to_string(), "stroke-dasharray: 10,7".to_string()]);
    assert_eq!(l.edges[1].id, "test_entity-test_req-1");
    assert_eq!(l.direction, "TB");
    assert_eq!(l.diagram_id, "rd");
}

#[test]
fn layout_contains_relation_is_solid_with_cross() {
    let l = get_layout_data("requirementDiagram\nrequirement a {\n}\nelement b {\n}\na - contains -> b\n", "x")
        .ok()
        .unwrap();
    assert_eq!(l.edges[0].arrow_type_start, "arrow_cross");
    assert_eq!(l.edges[0].arrow_type_end, "");
    assert_eq!(l.edges[0].pattern, "solid");
    assert_eq!(l.edges[0].style, vec!["fill:none".to_string(), String::new()]);
}

#[test]
fn layout_passes_parse_errors_on() {
    match get_layout_data("graph\n", "x") {
        Ok(_) => panic!("expected an error"),
        Err(e) => assert_eq!(e.message, "expected requirementDiagram header, got \"graph\""),
    }
}
