use sebastian::timeline::{collapse_ws, join_trim, parse, push_ws_tokens, wrap_tokens_exec, WrapState};

#[test]
fn parses_sections_tasks_and_events() {
    let src = "timeline\n  title History\n  section Early\n  2002 : LinkedIn\n  2004 : Facebook : Google\n  : Later event\n  section Late\n  2010 : Instagram\n";
    let db = parse(src).ok().unwrap();
    assert_eq!(db.title, "History");
    assert_eq!(db.sections, vec!["Early".to_string(), "Late".to_string()]);
    assert_eq!(db.tasks.len(), 3);
    assert_eq!(db.tasks[0].label, "2002");
    assert_eq!(db.tasks[0].section, "Early");
    assert_eq!(db.tasks[0].events, vec!["LinkedIn".to_string()]);
    assert_eq!(
        db.tasks[1].events,
        vec!["Facebook".to_string(), "Google".to_string(), "Later event".to_string()]
    );
    assert_eq!(db.tasks[2].section, "Late");
}

#[test]
fn task_without_section_has_empty_section() {
    let db = parse("timeline\n2020 : A\n").ok().unwrap();
    assert_eq!(db.tasks[0].section, "");
    assert!(db.sections.is_empty());
}

#[test]
fn continuation_without_task_is_ignored() {
    let db = parse("timeline\n: orphan\n").ok().unwrap();
    assert!(db.tasks.is_empty());
}

#[test]
fn timeline_errors() {
    match parse("timelines\n") {
        Err(e) => {
            assert_eq!(e.message, "expected timeline header, got \"timelines\"");
            assert_eq!(e.display(), "timeline parse error: expected timeline header, got \"timelines\"");
        }
        Ok(_) => panic!("expected error"),
    }
    match parse("") {
        Err(e) => assert_eq!(e.message, "missing timeline header"),
        Ok(_) => panic!("expected error"),
    }
}

#[test]
fn whitespace_runs_become_tokens() {
    let mut toks = vec!["x".to_string()];
    let text: Vec<char> = "a  bc d".chars().collect();
    push_ws_tokens(&text, &mut toks);
    assert_eq!(toks, vec!["x", "a", "  ", "bc", " ", "d"]);
}

#[test]
fn join_trim_joins_with_spaces() {
    let line = vec!["".to_string(), "a".to_string(), " ".to_string(), "b".to_string()];
    assert_eq!(join_trim(&line), "a   b");
}

#[test]
fn collapse_whitespace() {
    let t: Vec<char> = "a \t b\n\nc ".chars().collect();
    assert_eq!(collapse_ws(&t), "a b c ");
}

#[test]
fn wrap_tokens_split_on_br() {
    let t: Vec<char> = "one two<br>three".chars().collect();
    assert_eq!(wrap_tokens_exec(&t), vec!["one", " ", "two", "<br>", "three"]);
}

#[test]
fn wrapping_breaks_on_width_and_br() {
    let words: Vec<String> = ["one", " ", "two", "<br>", "three", " ", "four"]
        .iter()
        .map(|s| s.to_string())
        .collect();
    // A measurer that finds any candidate longer than 7 characters too wide.
    let mut st = WrapState::new();
    for w in words {
        let cand = st.candidate(&w);
        let too_wide = cand.chars().count() > 7;
        st.step(w, too_wide);
    }
    assert_eq!(st.finish(), vec!["one   two".to_string(), "three".to_string(), "four".to_string()]);
}

#[test]
fn wrap_candidate_collapses_whitespace() {
    let mut st = WrapState::new();
    st.step("a".to_string(), false);
    st.step("  ".to_string(), false);
    assert_eq!(st.candidate(&"b".to_string()), "a b");
    assert_eq!(st.current, "a");
}

fn plan_of(src: &str) -> Vec<(String, String, i64)> {
    let db = parse(src).ok().unwrap();
    sebastian::timeline::timeline_plan_exec(&db)
        .into_iter()
        .map(|p| {
            let role = match p.role {
                sebastian::timeline::NodeRole::Section => "section",
                sebastian::timeline::NodeRole::Task => "task",
                sebastian::timeline::NodeRole::Event => "event",
            };
            (role.to_string(), p.text, p.section)
        })
        .collect()
}

#[test]
fn drawing_plan_with_sections() {
    let plan = plan_of("timeline\n2001 : orphan\nsection Early\n2002 : LinkedIn\n2004 : Facebook : Google\nsection Late\n2010 : Instagram\n");
    let n = |r: &str, t: &str, s: i64| (r.to_string(), t.to_string(), s);
    assert_eq!(
        plan,
        vec![
            n("section", "Early", -1),
            n("task", "2002", -1),
            n("event", "LinkedIn", -1),
            n("task", "2004", -1),
            n("event", "Facebook", -1),
            n("event", "Google", -1),
            n("section", "Late", 0),
            n("task", "2010", 0),
            n("event", "Instagram", 0),
        ]
    );
}

#[test]
fn drawing_plan_without_sections_cycles_colours() {
    let mut src = String::from("timeline\n");
    for i in 0..13 {
        src.push_str(&format!("{i} : e\n"));
    }
    let plan = plan_of(&src);
    assert_eq!(plan.len(), 26);
    assert_eq!(plan[0].2, -1);
    assert_eq!(plan[2].2, 0);
    assert_eq!(plan[22].2, 10);
    assert_eq!(plan[24], ("task".to_string(), "12".to_string(), -1));
    assert_eq!(plan[25], ("event".to_string(), "e".to_string(), -1));
}
