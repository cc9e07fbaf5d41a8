use sebastian::sankey::{compute_node_links, compute_ranks, parse, split_csv_exec};

#[test]
fn csv_fields_with_quotes() {
    let l: Vec<char> = "a,\"b,c\",\"say \"\"hi\"\"\",".chars().collect();
    assert_eq!(split_csv_exec(&l), vec!["a", "b,c", "say \"hi\"", ""]);
}

#[test]
fn parses_flows_and_numbers_nodes() {
    let g = parse("sankey-beta\n\nAgricultural 'waste',Bio-conversion,124.729\nBio-conversion,Liquid,0.597\nBio-conversion,Losses,26.862\n").ok().unwrap();
    assert_eq!(g.ids, vec!["Agricultural 'waste'", "Bio-conversion", "Liquid", "Losses"]);
    assert_eq!(g.links.len(), 3);
    assert_eq!(g.links[0].source, 0);
    assert_eq!(g.links[0].target, 1);
    assert_eq!(g.links[0].value, "124.729");
    assert_eq!(g.links[2].source, 1);
    assert_eq!(g.links[2].target, 3);
}

#[test]
fn sankey_errors() {
    let cases = [
        ("sankey\n", "expected sankey-beta header, got \"sankey\""),
        ("sankey-beta\na,b\n", "bad sankey row (need source,target,value): a,b"),
        ("sankey-beta\na,b,lots\n", "bad sankey value: a,b,lots"),
        ("", "missing sankey-beta header"),
    ];
    for (src, msg) in cases {
        match parse(src) {
            Err(e) => {
                assert_eq!(e.message, msg);
                assert_eq!(e.display(), format!("sankey parse error: {msg}"));
            }
            Ok(_) => panic!("expected error for {src:?}"),
        }
    }
}

#[test]
fn node_links_and_ranks() {
    use_ranks();
}

fn use_ranks() {
    let g = parse("sankey-beta\na,b,1\nb,c,2\na,c,3\n").ok().unwrap();
    let nodes = compute_node_links(g.ids.len(), &g.links);
    assert_eq!(nodes.len(), 3);
    assert_eq!(nodes[0].source_links, vec![0, 2]);
    assert_eq!(nodes[2].target_links, vec![1, 2]);
    assert!(nodes[2].source_links.is_empty());
    assert_eq!(compute_ranks(&nodes, &g.links, true), vec![0, 1, 2]);
    assert_eq!(compute_ranks(&nodes, &g.links, false), vec![2, 1, 0]);
}

#[test]
fn ranks_of_disconnected_nodes() {
    let g = parse("sankey-beta\na,b,1\nc,d,1\nd,e,1\n").ok().unwrap();
    let nodes = compute_node_links(g.ids.len(), &g.links);
    assert_eq!(compute_ranks(&nodes, &g.links, true), vec![0, 1, 0, 1, 2]);
    assert_eq!(compute_ranks(&nodes, &g.links, false), vec![1, 0, 2, 1, 0]);
}

#[test]
fn node_colours_cycle_through_the_scheme() {
    assert_eq!(sebastian::sankey::node_color(0), "#4e79a7");
    assert_eq!(sebastian::sankey::node_color(9), "#bab0ab");
    assert_eq!(sebastian::sankey::node_color(12), "#e15759");
}

#[test]
fn circular_links_are_rejected() {
    for src in ["sankey-beta\nA,B,1\nB,A,1\n", "sankey-beta\nA,A,1\n", "sankey-beta\na,b,1\nb,c,1\nc,a,1\n"] {
        let g = parse(src).ok().unwrap();
        let nodes = compute_node_links(g.ids.len(), &g.links);
        let e = sebastian::sankey::check_circular_links(&nodes, &g.links).err().unwrap();
        assert_eq!(e.message, "circular link");
        assert!(sebastian::sankey::node_depths_and_heights(&nodes, &g.links).is_err());
    }
    let g = parse("sankey-beta\na,b,1\nb,c,2\na,c,3\n").ok().unwrap();
    let nodes = compute_node_links(g.ids.len(), &g.links);
    assert!(sebastian::sankey::check_circular_links(&nodes, &g.links).is_ok());
    let (d, h) = sebastian::sankey::node_depths_and_heights(&nodes, &g.links).ok().unwrap();
    assert_eq!(d, vec![0, 1, 2]);
    assert_eq!(h, vec![2, 1, 0]);
}
