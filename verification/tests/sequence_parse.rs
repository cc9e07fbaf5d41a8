use sebastian::sequence::{
    is_line_type, parse, DOTTED_POINT, SequenceDb, ACTIVE_END, ACTIVE_START, ALT_ELSE, ALT_END, ALT_START, AUTONUMBER,
    DOTTED, DOTTED_OPEN, LEFTOF, LOOP_END, LOOP_START, NOTE, OVER, SOLID, SOLID_OPEN,
};

fn db(src: &str) -> SequenceDb {
    match parse(src) {
        Ok(db) => db,
        Err(e) => panic!("unexpected error: {}", e.message),
    }
}

#[test]
fn parses_messages_and_actors_in_order() {
    let d = db("sequenceDiagram\n  Alice->>Bob: Hello Bob\n  Bob-->>Alice: Hi\n");
    assert_eq!(d.actors.len(), 2);
    assert_eq!(d.actors[0].name, "Alice");
    assert_eq!(d.actors[1].name, "Bob");
    assert_eq!(d.messages.len(), 2);
    assert_eq!(d.messages[0].from, "Alice");
    assert_eq!(d.messages[0].to, "Bob");
    assert_eq!(d.messages[0].message, "Hello Bob");
    assert_eq!(d.messages[0].ty, SOLID);
    assert_eq!(d.messages[1].ty, DOTTED);
}

#[test]
fn message_ids_are_positions() {
    let d = db("sequenceDiagram\nA->B: one\nloop x\nB->A: two\nend\nnote over A: n\n");
    for (i, m) in d.messages.iter().enumerate() {
        assert_eq!(m.id, i.to_string());
    }
    assert_eq!(d.messages.len(), 5);
    assert_eq!(d.messages[0].ty, SOLID_OPEN);
    assert_eq!(d.messages[1].ty, LOOP_START);
    assert_eq!(d.messages[1].message, "x");
    assert_eq!(d.messages[3].ty, LOOP_END);
    assert_eq!(d.messages[4].ty, NOTE);
}

#[test]
fn actors_are_chained() {
    let d = db("sequenceDiagram\nparticipant A\nparticipant B\nparticipant C\n");
    assert_eq!(d.actors[0].prev_actor, None);
    assert_eq!(d.actors[0].next_actor.as_deref(), Some("B"));
    assert_eq!(d.actors[1].prev_actor.as_deref(), Some("A"));
    assert_eq!(d.actors[1].next_actor.as_deref(), Some("C"));
    assert_eq!(d.actors[2].prev_actor.as_deref(), Some("B"));
    assert_eq!(d.actors[2].next_actor, None);
}

#[test]
fn participant_alias_and_actor_kind() {
    let d = db("sequenceDiagram\nparticipant A as Alice the Great\nactor B\nA->>B: x\n");
    assert_eq!(d.actors[0].name, "A");
    assert_eq!(d.actors[0].description, "Alice the Great");
    assert!(!d.actors[0].is_actor_man);
    assert!(d.actors[1].is_actor_man);
    assert_eq!(d.actors[1].description, "B");
    assert_eq!(d.actors.len(), 2);
}

#[test]
fn participant_metadata_type() {
    let d = db("sequenceDiagram\nparticipant DB@{ \"type\" : \"database\" }\n");
    assert_eq!(d.actors[0].name, "DB");
    assert_eq!(d.actors[0].meta_type, "database");
}

#[test]
fn redeclaring_updates_description_only() {
    let d = db("sequenceDiagram\nA->>B: x\nparticipant A as Alpha\n");
    assert_eq!(d.actors.len(), 2);
    assert_eq!(d.actors[0].description, "Alpha");
}

#[test]
fn longest_arrow_wins() {
    let d = db("sequenceDiagram\nA-->>B: x\nA<<->>B: y\nA--xB: z\nA-)B: w\n");
    assert_eq!(d.messages[0].ty, DOTTED);
    assert_eq!(d.messages[1].ty, 33);
    assert_eq!(d.messages[2].ty, 4);
    assert_eq!(d.messages[3].ty, 24);
    assert_eq!(d.actors.len(), 2);
}

#[test]
fn activation_shorthand() {
    let d = db("sequenceDiagram\nA->>+B: go\nB-->>-A: back\n");
    assert_eq!(d.messages.len(), 4);
    assert!(d.messages[0].activate);
    assert_eq!(d.messages[1].ty, ACTIVE_START);
    assert_eq!(d.messages[1].from, "B");
    assert_eq!(d.messages[3].ty, ACTIVE_END);
    assert_eq!(d.messages[3].from, "B");
}

#[test]
fn notes_placement_and_pairs() {
    let d = db("sequenceDiagram\nnote left of A: hi\nNote over A,B: both\n");
    assert_eq!(d.messages[0].placement, Some(LEFTOF));
    assert_eq!(d.messages[0].message, "hi");
    assert_eq!(d.messages[1].placement, Some(OVER));
    assert_eq!(d.messages[1].from, "A");
    assert_eq!(d.messages[1].to, "B");
    assert_eq!(d.actors.len(), 2);
}

#[test]
fn note_errors() {
    match parse("sequenceDiagram\nnote under A: x\n") {
        Err(e) => assert_eq!(e.message, "bad note statement: note under A: x"),
        Ok(_) => panic!("expected error"),
    }
    match parse("sequenceDiagram\nnote over A\n") {
        Err(e) => assert_eq!(e.message, "note missing text: note over A"),
        Ok(_) => panic!("expected error"),
    }
}

#[test]
fn alt_else_end_blocks() {
    let d = db("sequenceDiagram\nalt ok\nA->B: x\nelse bad\nA->B: y\nend\n");
    let tys: Vec<i32> = d.messages.iter().map(|m| m.ty).collect();
    assert_eq!(tys, vec![ALT_START, SOLID_OPEN, ALT_ELSE, SOLID_OPEN, ALT_END]);
    assert_eq!(d.messages[2].message, "bad");
}

#[test]
fn unmatched_end_closes_a_loop() {
    let d = db("sequenceDiagram\nend\n");
    assert_eq!(d.messages[0].ty, LOOP_END);
}

#[test]
fn boxes_collect_their_actors() {
    let d = db("sequenceDiagram\nbox Aqua Group One\nparticipant A\nparticipant B\nend\nparticipant C\n");
    assert_eq!(d.boxes.len(), 1);
    assert_eq!(d.boxes[0].fill, "Aqua");
    assert_eq!(d.boxes[0].name.as_deref(), Some("Group One"));
    assert_eq!(d.boxes[0].actor_keys, vec!["A".to_string(), "B".to_string()]);
    assert_eq!(d.actors[0].box_index, Some(0));
    assert_eq!(d.actors[2].box_index, None);
}

#[test]
fn box_colors() {
    let d = db("sequenceDiagram\nbox rgb(10, 20, 30) Team\nend\nbox Nope title\nend\nbox transparent\nend\n");
    assert_eq!(d.boxes[0].fill, "rgb(10, 20, 30)");
    assert_eq!(d.boxes[0].name.as_deref(), Some("Team"));
    assert_eq!(d.boxes[1].fill, "transparent");
    assert_eq!(d.boxes[1].name.as_deref(), Some("Nope title"));
    assert_eq!(d.boxes[2].fill, "transparent");
    assert_eq!(d.boxes[2].name, None);
}

#[test]
fn autonumber_tokens() {
    let d = db("sequenceDiagram\nautonumber 10 5\nautonumber off\nautonumber\n");
    let a = d.messages[0].autonumber.as_ref().unwrap();
    assert_eq!(d.messages[0].ty, AUTONUMBER);
    assert_eq!(a.start.as_deref(), Some("10"));
    assert_eq!(a.step.as_deref(), Some("5"));
    assert!(a.visible);
    let b = d.messages[1].autonumber.as_ref().unwrap();
    assert!(!b.visible);
    assert_eq!(b.start, None);
    let c = d.messages[2].autonumber.as_ref().unwrap();
    assert!(c.visible);
    assert_eq!(c.start, None);
}

#[test]
fn create_destroy_link() {
    let d = db("sequenceDiagram\nA->>B: hi\ncreate participant C\ndestroy B\nlink A: Docs @ https://x\n");
    assert_eq!(d.created_actors, vec![("C".to_string(), 1)]);
    assert_eq!(d.destroyed_actors, vec![("B".to_string(), 1)]);
    assert_eq!(d.actors[0].links, vec![("Docs".to_string(), "https://x".to_string())]);
}

#[test]
fn wrap_prefix_removed() {
    let d = db("sequenceDiagram\nA->>B: wrap: long text\n");
    assert_eq!(d.messages[0].message, "long text");
}

#[test]
fn header_errors() {
    match parse("graph TD\n") {
        Err(e) => {
            assert_eq!(e.message, "expected sequenceDiagram header, got \"graph TD\"");
            assert_eq!(e.display(), "sequence diagram parse error: expected sequenceDiagram header, got \"graph TD\"");
        }
        Ok(_) => panic!("expected error"),
    }
    match parse("%% only a comment\n\n") {
        Err(e) => assert_eq!(e.message, "missing sequenceDiagram header"),
        Ok(_) => panic!("expected error"),
    }
    match parse("sequenceDiagram\nthis is nonsense\n") {
        Err(e) => assert_eq!(e.message, "unsupported statement: this is nonsense"),
        Ok(_) => panic!("expected error"),
    }
}

#[test]
fn titles_and_comments_are_skipped() {
    let d = db("%% c\nsequenceDiagram\n# x\ntitle My title\naccTitle: a\nA->>B: m\r\n");
    assert_eq!(d.messages.len(), 1);
    assert_eq!(d.messages[0].message, "m");
}

#[test]
fn activate_deactivate() {
    let d = db("sequenceDiagram\nactivate A\ndeactivate A\n");
    assert_eq!(d.messages[0].ty, ACTIVE_START);
    assert_eq!(d.messages[0].from, "A");
    assert_eq!(d.messages[1].ty, ACTIVE_END);
}

#[test]
fn plain_arrow_without_text() {
    let d = db("sequenceDiagram\nA-->B\n");
    assert_eq!(d.messages[0].ty, DOTTED_OPEN);
    assert_eq!(d.messages[0].message, "");
    assert_eq!(d.messages[0].to, "B");
}

#[test]
fn line_types() {
    assert!(is_line_type(SOLID));
    assert!(is_line_type(DOTTED_POINT));
    assert!(is_line_type(33));
    assert!(!is_line_type(NOTE));
    assert!(!is_line_type(10));
}

#[test]
fn word_wrapping_joins_lines_with_br() {
    let words = sebastian::sequence::WordWrap::words("one two three  four");
    assert_eq!(words, vec!["one", "two", "three", "", "four"]);
    let mut st = sebastian::sequence::WordWrap::new();
    for w in words {
        let fits = st.candidate(&w).chars().count() <= 7;
        st.step(w, fits);
    }
    assert_eq!(st.finish(), "one two<br/>three <br/>four");
}

#[test]
fn message_width_counts_towards_neighbours() {
    let src = "sequenceDiagram\nAlice->>Bob: hi\nBob->>Alice: yo\nAlice->>Alice: self\nNote left of Alice: n1\nNote right of Bob: n2\nNote over Bob: n3\nNote right of Alice: n4\n";
    let db = sebastian::sequence::parse(src).ok().unwrap();
    let bumps: Vec<Vec<(String, bool)>> = db.messages.iter().map(|m| db.width_bumps(m)).collect();
    let a = |s: &str, half: bool| (s.to_string(), half);
    assert_eq!(bumps[0], vec![a("Alice", false)]);
    assert_eq!(bumps[1], vec![a("Alice", false)]);
    assert_eq!(bumps[2], vec![a("Alice", true), a("Alice", true)]);
    assert_eq!(bumps[3], vec![]);
    assert_eq!(bumps[4], vec![]);
    assert_eq!(bumps[5], vec![a("Alice", true)]);
    assert_eq!(bumps[6], vec![a("Alice", false)]);
}

#[test]
fn boxes_close_in_layout_order() {
    let d = db("sequenceDiagram\nbox Aqua One\nparticipant A\nparticipant B\nend\nparticipant C\nbox Two\nparticipant D\nend\nbox Three\nparticipant E\nend\n");
    assert_eq!(d.box_close_order(), vec![0, 1, 2]);
    let d = db("sequenceDiagram\nparticipant C\n");
    assert!(d.box_close_order().is_empty());
}

#[test]
fn blocks_link_dividers_and_ends_to_their_start() {
    let d = db("sequenceDiagram\nA->>B: a\nalt ok\nA->>B: b\nelse failed\nA->>B: c\nelse wrap:\nend\nloop every\nB->>A: d\nend\nend\n");
    let links = d.block_links();
    let types: Vec<i32> = d.messages.iter().map(|m| m.ty).collect();
    assert_eq!(types.len(), links.len());
    assert_eq!(types[1], ALT_START);
    assert_eq!(links[1], None);
    assert_eq!(types[3], ALT_ELSE);
    assert_eq!(links[3], Some(1));
    assert_eq!(types[5], ALT_ELSE);
    assert_eq!(links[5], None);
    assert_eq!(types[6], ALT_END);
    assert_eq!(links[6], Some(1));
    assert_eq!(types[7], LOOP_START);
    assert_eq!(links[9], Some(7));
    assert_eq!(links[10], None);
}

#[test]
fn activations_stack_per_actor() {
    let d = db("sequenceDiagram\nA->>+B: x\nA->>+B: y\nB-->>-A: z\nA->>+B: v\nB->>+A: u\n");
    let types: Vec<i32> = d.messages.iter().map(|m| m.ty).collect();
    let levels = d.activation_levels();
    assert_eq!(levels.len(), types.len());
    let starts: Vec<usize> = types
        .iter()
        .zip(&levels)
        .filter(|(t, _)| **t == ACTIVE_START)
        .map(|(_, l)| *l)
        .collect();
    assert_eq!(starts, vec![0, 1, 1, 0]);
    assert!(types.iter().zip(&levels).all(|(t, l)| *t == ACTIVE_START || *l == 0));
}

#[test]
fn actors_keep_first_appearance_order() {
    let d = db("sequenceDiagram\nBob->>Alice: hi\nparticipant Carol\nAlice->>Dave: x\nparticipant Bob as B\n");
    let names: Vec<String> = d.actors.iter().map(|a| a.name.clone()).collect();
    assert_eq!(names, vec!["Bob", "Alice", "Carol", "Dave"]);
    assert_eq!(d.actors[0].description, "B");
}

#[test]
fn header_errors_name_the_first_statement() {
    assert_eq!(parse("").err().unwrap().message, "missing sequenceDiagram header");
    assert_eq!(parse("%% note\n# c\n\n").err().unwrap().message, "missing sequenceDiagram header");
    assert_eq!(
        parse("%% note\n\n  graph TD  \nsequenceDiagram\n").err().unwrap().message,
        "expected sequenceDiagram header, got \"graph TD\""
    );
}
