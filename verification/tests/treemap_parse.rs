use sebastian::treemap::{build_arena_exec, parse, Ordinal};

#[test]
fn parses_sections_and_leaves() {
    let src = "treemap-beta\n\"Root\"\n    \"A\": 1,000\n    \"B\", 20\n  'C'\n      \"D\": abc :::cls\n";
    let items = parse(src).ok().unwrap();
    assert_eq!(items.len(), 5);
    assert_eq!(items[0].name, "Root");
    assert!(!items[0].is_leaf);
    assert_eq!(items[0].level, 0);
    assert_eq!(items[1].name, "A");
    assert!(items[1].is_leaf);
    assert_eq!(items[1].value.as_deref(), Some("1000"));
    assert_eq!(items[1].level, 4);
    assert_eq!(items[2].value.as_deref(), Some("20"));
    assert_eq!(items[3].name, "C");
    assert_eq!(items[3].level, 2);
    assert!(items[4].is_leaf);
    assert_eq!(items[4].value, None);
}

#[test]
fn non_item_lines_are_skipped_and_header_required() {
    let items = parse("treemap\ntitle T\nclassDef x fill:red\nnot an item\n").ok().unwrap();
    assert!(items.is_empty());
    assert_eq!(parse("").err().unwrap().0, "missing treemap header");
    assert_eq!(parse("\n%% note\n  \n").err().unwrap().0, "missing treemap header");
}

#[test]
fn treemap_header_error() {
    match parse("pie\n") {
        Err(e) => {
            assert_eq!(e.0, "expected treemap header, got \"pie\"");
            assert_eq!(e.display(), "treemap parse error: expected treemap header, got \"pie\"");
        }
        Ok(_) => panic!("expected error"),
    }
}

#[test]
fn arena_follows_indentation() {
    let items = parse("treemap\n\"S1\"\n  \"a\": 1\n  \"S2\"\n    \"b\": 2\n\"S3\"\n  \"c\": 3\n").ok().unwrap();
    let arena = build_arena_exec(&items);
    assert_eq!(arena.len(), 7);
    assert_eq!(arena[0].children, vec![1, 5]);
    assert_eq!(arena[1].children, vec![2, 3]);
    assert_eq!(arena[3].children, vec![4]);
    assert_eq!(arena[4].parent, Some(3));
    assert_eq!(arena[4].depth, 3);
    assert_eq!(arena[6].parent, Some(5));
    assert_eq!(arena[6].depth, 2);
    for i in 1..arena.len() {
        let p = arena[i].parent.unwrap();
        assert!(p < i);
        assert_eq!(arena[i].depth, arena[p].depth + 1);
    }
}

#[test]
fn ordinal_keeps_colors_per_name() {
    let mut o = Ordinal::new(vec!["red".to_string(), "green".to_string()]);
    assert_eq!(o.get("a"), "red");
    assert_eq!(o.get("b"), "green");
    assert_eq!(o.get("c"), "red");
    assert_eq!(o.get("b"), "green");
    assert_eq!(o.get("a"), "red");
}
