//! Diagram-type detection, layout direction mapping and the scan for
//! `%%{init: ...}%%` directives.

use crate::css::replace_all;
use crate::strs::{
    chars_of, copy_range, eq_str, find, find_char, find_char_exec, find_from_exec, join_exec, lines, lines_of, split_on_str, starts_with, starts_with_str, string_of, trim, trim_vec, lemma_trim_twice,
};
use vstd::prelude::*;

verus! {

/// The diagram type named by the first line that is not blank or a
/// comment.
pub open spec fn diagram_type_of(ls: Seq<Seq<char>>) -> Seq<char>
    decreases ls.len(),
{
    if ls.len() == 0 {
        "flowchart"@
    } else {
        let t = trim(ls[0]);
        if t.len() == 0 || starts_with(t, "%%"@) || starts_with(t, "#"@) {
            diagram_type_of(ls.drop_first())
        } else if starts_with(t, "stateDiagram"@) {
            "state"@
        } else if starts_with(t, "sequenceDiagram"@) {
            "sequence"@
        } else if t == "timeline"@ || starts_with(t, "timeline "@) {
            "timeline"@
        } else if starts_with(t, "classDiagram"@) {
            "class"@
        } else {
            "flowchart"@
        }
    }
}

/// Detects the mermaid diagram type of `source` from its header keyword.
pub fn detect_diagram_type(source: &str) -> (r: &'static str)
    ensures
        r@ == diagram_type_of(lines(source@)),
{
    let src = chars_of(source);
    let ls = lines_of(&src);
    let ghost all = lines(source@);
    let mut i: usize = 0;
    assert(all.skip(0) =~= all);
    while i < ls.len()
        invariant
            i <= ls@.len(),
            ls@.len() == all.len(),
            all == lines(source@),
            forall|j: int| 0 <= j < ls@.len() ==> #[trigger] ls@[j]@ == all[j],
            diagram_type_of(all) == diagram_type_of(all.skip(i as int)),
        decreases ls@.len() - i,
    {
        proof {
            assert(all.skip(i as int)[0] == all[i as int]);
            assert(all.skip(i as int).drop_first() =~= all.skip(i + 1));
        }
        let t = trim_vec(&ls[i]);
        if t.len() == 0 || starts_with_str(&t, "%%") || starts_with_str(&t, "#") {
            i += 1;
            continue;
        }
        if starts_with_str(&t, "stateDiagram") {
            return "state";
        }
        if starts_with_str(&t, "sequenceDiagram") {
            return "sequence";
        }
        if eq_str(&t, "timeline") || starts_with_str(&t, "timeline ") {
            return "timeline";
        }
        if starts_with_str(&t, "classDiagram") {
            return "class";
        }
        return "flowchart";
    }
    assert(all.skip(i as int) =~= Seq::<Seq<char>>::empty());
    "flowchart"
}

/// The first line of `ls` that is neither blank nor a comment (`%%` or
/// `#`), trimmed.
pub open spec fn first_content_line(ls: Seq<Seq<char>>) -> Option<Seq<char>>
    decreases ls.len(),
{
    if ls.len() == 0 {
        None
    } else {
        let t = trim(ls[0]);
        if t.len() == 0 || starts_with(t, "%%"@) || starts_with(t, "#"@) {
            first_content_line(ls.drop_first())
        } else {
            Some(t)
        }
    }
}

/// The detected type is decided by the first content line alone.
proof fn lemma_type_of_first_line(ls: Seq<Seq<char>>)
    ensures
        first_content_line(ls) is None ==> diagram_type_of(ls) == "flowchart"@,
        first_content_line(ls) matches Some(t) ==> diagram_type_of(ls) == diagram_type_of(seq![t]),
    decreases ls.len(),
{
    if ls.len() > 0 {
        let t = trim(ls[0]);
        if t.len() == 0 || starts_with(t, "%%"@) || starts_with(t, "#"@) {
            lemma_type_of_first_line(ls.drop_first());
        } else {
            lemma_trim_twice(ls[0]);
            assert(seq![t][0] == t);
        }
    }
}

/// Text that starts with `p` does not start with `q` when the two differ at
/// position `i`.
proof fn lemma_prefix_clash(t: Seq<char>, p: Seq<char>, q: Seq<char>, i: int)
    requires
        starts_with(t, p),
        0 <= i < p.len(),
        i < q.len(),
        p[i] != q[i],
    ensures
        !starts_with(t, q),
{
    assert(t.take(p.len() as int)[i] == t[i]);
    if q.len() <= t.len() {
        assert(t.take(q.len() as int)[i] == t[i]);
    }
}

/// Law: the first line of the source that is neither blank nor a comment
/// names the diagram type: `stateDiagram` (with `stateDiagram-v2`) gives
/// `state`, `sequenceDiagram` gives `sequence`, `timeline` gives `timeline`,
/// `classDiagram` gives `class`; any other line, or none at all, gives
/// `flowchart`.
pub proof fn first_line_names_the_type(source: Seq<char>)
    ensures
        first_content_line(lines(source)) matches Some(t) && starts_with(t, "stateDiagram"@)
            ==> diagram_type_of(lines(source)) == "state"@,
        first_content_line(lines(source)) matches Some(t) && starts_with(t, "sequenceDiagram"@)
            ==> diagram_type_of(lines(source)) == "sequence"@,
        first_content_line(lines(source)) matches Some(t) && (t == "timeline"@ || starts_with(
            t,
            "timeline "@,
        )) ==> diagram_type_of(lines(source)) == "timeline"@,
        first_content_line(lines(source)) matches Some(t) && starts_with(t, "classDiagram"@)
            ==> diagram_type_of(lines(source)) == "class"@,
        first_content_line(lines(source)) matches Some(t) && !starts_with(t, "stateDiagram"@)
            && !starts_with(t, "sequenceDiagram"@) && t != "timeline"@ && !starts_with(
            t,
            "timeline "@,
        ) && !starts_with(t, "classDiagram"@) ==> diagram_type_of(lines(source)) == "flowchart"@,
        first_content_line(lines(source)) is None ==> diagram_type_of(lines(source))
            == "flowchart"@,
{
    reveal_strlit("stateDiagram");
    reveal_strlit("sequenceDiagram");
    reveal_strlit("classDiagram");
    reveal_strlit("timeline");
    reveal_strlit("timeline ");
    reveal_strlit("%%");
    reveal_strlit("#");
    let ls = lines(source);
    lemma_type_of_first_line(ls);
    if let Some(t) = first_content_line(ls) {
        lemma_first_content_line(ls);
        let one = seq![t];
        assert(one[0] == t);
        assert(one.drop_first() =~= Seq::<Seq<char>>::empty());
        if t == "timeline"@ {
            assert(t.take(8) =~= t);
        }
        if starts_with(t, "sequenceDiagram"@) {
            lemma_prefix_clash(t, "sequenceDiagram"@, "stateDiagram"@, 1);
        }
        if t == "timeline"@ || starts_with(t, "timeline "@) {
            let p = if t == "timeline"@ { "timeline"@ } else { "timeline "@ };
            lemma_prefix_clash(t, p, "stateDiagram"@, 0);
            lemma_prefix_clash(t, p, "sequenceDiagram"@, 0);
        }
        if starts_with(t, "classDiagram"@) {
            lemma_prefix_clash(t, "classDiagram"@, "stateDiagram"@, 0);
            lemma_prefix_clash(t, "classDiagram"@, "sequenceDiagram"@, 0);
            lemma_prefix_clash(t, "classDiagram"@, "timeline "@, 0);
            if t == "timeline"@ {
                lemma_prefix_clash(t, "classDiagram"@, "timeline"@, 0);
            }
        }
    }
}

/// The first content line is trimmed already, not blank and no comment.
proof fn lemma_first_content_line(ls: Seq<Seq<char>>)
    ensures
        first_content_line(ls) matches Some(t) ==> t.len() > 0 && !starts_with(t, "%%"@)
            && !starts_with(t, "#"@) && trim(t) == t,
    decreases ls.len(),
{
    if ls.len() > 0 {
        let t = trim(ls[0]);
        if t.len() == 0 || starts_with(t, "%%"@) || starts_with(t, "#"@) {
            lemma_first_content_line(ls.drop_first());
        } else {
            lemma_trim_twice(ls[0]);
        }
    }
}

/// ELK's `elk.direction` for a mermaid flow direction.
pub open spec fn elk_direction_of(flow_dir: Seq<char>) -> Seq<char> {
    if flow_dir == "BT"@ {
        "UP"@
    } else if flow_dir == "LR"@ {
        "RIGHT"@
    } else if flow_dir == "RL"@ {
        "LEFT"@
    } else {
        "DOWN"@
    }
}

/// Maps a mermaid flow direction to ELK's `elk.direction` (`TB`, `TD` and
/// anything else go down).
pub fn elk_direction(flow_dir: &str) -> (r: &'static str)
    ensures
        r@ == elk_direction_of(flow_dir@),
{
    let d = chars_of(flow_dir);
    if eq_str(&d, "BT") {
        "UP"
    } else if eq_str(&d, "LR") {
        "RIGHT"
    } else if eq_str(&d, "RL") {
        "LEFT"
    } else {
        "DOWN"
    }
}

/// The argument texts of the `init`/`initialize` directives in `search`,
/// in order: each `%%{type: args}%%` with a colon, whose type is one of
/// those, gives its trimmed args.
pub open spec fn init_args(search: Seq<char>) -> Seq<Seq<char>>
    decreases search.len(),
{
    match find(search, "%%{"@) {
        None => Seq::empty(),
        Some(start) => {
            let after = search.skip(start + "%%{"@.len() as int);
            match find(after, "}%%"@) {
                None => Seq::empty(),
                Some(end) => {
                    proof {
                        crate::strs::lemma_find_bounds(search, "%%{"@);
                        crate::strs::lemma_find_bounds(after, "}%%"@);
                        reveal_strlit("%%{");
                        reveal_strlit("}%%");
                    }
                    let body = after.take(end as int);
                    let next = after.skip(end + "}%%"@.len() as int);
                    match find_char(body, ':') {
                        None => init_args(next),
                        Some(colon) => {
                            let ty = trim(body.take(colon as int));
                            if ty == "init"@ || ty == "initialize"@ {
                                seq![trim(body.skip(colon + 1 as int))] + init_args(next)
                            } else {
                                init_args(next)
                            }
                        },
                    }
                },
            }
        },
    }
}

/// `detectDirective`'s scan: single quotes become double quotes, then the
/// args of every init directive, in order.
pub open spec fn init_directive_args_spec(text: Seq<char>) -> Seq<Seq<char>> {
    init_args(replace_all(trim(text), "'"@, "\""@))
}

/// The argument texts (JSON objects, by intent) of the `%%{init: ...}%%`
/// and `%%{initialize: ...}%%` directives in `text`, in order.
pub fn init_directive_args(text: &str) -> (r: Vec<String>)
    ensures
        r@.map_values(|s: String| s@) == init_directive_args_spec(text@),
{
    let t0 = chars_of(text);
    let t1 = trim_vec(&t0);
    let pieces = split_on_str(&t1, "'");
    let mut strs: Vec<String> = Vec::new();
    let mut i: usize = 0;
    while i < pieces.len()
        invariant
            i <= pieces@.len(),
            strs@.map_values(|s: String| s@) == pieces@.map_values(|v: Vec<char>| v@).take(
                i as int,
            ),
        decreases pieces@.len() - i,
    {
        let ghost before = strs@;
        let piece = string_of(&pieces[i]);
        strs.push(piece);
        proof {
            assert(strs@.map_values(|s: String| s@) =~= before.map_values(|s: String| s@).push(
                piece@,
            ));
            assert(pieces@.map_values(|v: Vec<char>| v@).take(i + 1) =~= pieces@.map_values(
                |v: Vec<char>| v@,
            ).take(i as int).push(pieces@[i as int]@));
        }
        i += 1;
    }
    proof {
        assert(pieces@.map_values(|v: Vec<char>| v@).take(i as int) =~= pieces@.map_values(
            |v: Vec<char>| v@,
        ));
    }
    let s = join_exec(&strs, "\"");
    proof {
        assert(s@ == replace_all(trim(text@), "'"@, "\""@));
    }
    let mut out: Vec<String> = Vec::new();
    let mut pos: usize = 0;
    let open = chars_of("%%{");
    let close = chars_of("}%%");
    proof {
        reveal_strlit("%%{");
        reveal_strlit("}%%");
        assert(s@.skip(0) =~= s@);
        assert(out@.map_values(|x: String| x@) =~= Seq::<Seq<char>>::empty());
    }
    while pos < s.len()
        invariant_except_break
            pos < s@.len() || init_args(s@.skip(pos as int)) == Seq::<Seq<char>>::empty(),
        invariant
            pos <= s@.len(),
            open@ == "%%{"@,
            close@ == "}%%"@,
            init_args(s@) == out@.map_values(|x: String| x@) + init_args(s@.skip(pos as int)),
        ensures
            init_args(s@) == out@.map_values(|x: String| x@),
        decreases s@.len() - pos,
    {
        proof {
            reveal_strlit("%%{");
            reveal_strlit("}%%");
        }
        let search = copy_range(&s, pos, s.len());
        assert(search@ =~= s@.skip(pos as int));
        let start = match find_from_exec(&search, &open, 0) {
            Some(st) => st,
            None => {
                proof {
                    assert(init_args(search@) =~= Seq::<Seq<char>>::empty());
                    assert(out@.map_values(|x: String| x@) + Seq::<Seq<char>>::empty()
                        =~= out@.map_values(|x: String| x@));
                }
                break;
            },
        };
        let after = copy_range(&search, start + 3, search.len());
        let end = match find_from_exec(&after, &close, 0) {
            Some(e) => e,
            None => {
                proof {
                    assert(after@ =~= search@.skip(start + 3));
                    assert(init_args(search@) =~= Seq::<Seq<char>>::empty());
                    assert(out@.map_values(|x: String| x@) + Seq::<Seq<char>>::empty()
                        =~= out@.map_values(|x: String| x@));
                }
                break;
            },
        };
        let body = copy_range(&after, 0, end);
        let ghost next = after@.skip(end + 3);
        proof {
            assert(next =~= s@.skip(pos + start + 3 + end + 3));
        }
        match find_char_exec(&body, ':') {
            Some(colon) => {
                let th = copy_range(&body, 0, colon);
                let ty = trim_vec(&th);
                if eq_str(&ty, "init") || eq_str(&ty, "initialize") {
                    let a = copy_range(&body, colon + 1, body.len());
                    let args = trim_vec(&a);
                    let ghost before = out@;
                    out.push(string_of(&args));
                    proof {
                        assert(out@.map_values(|x: String| x@) =~= before.map_values(|x: String| x@).push(
                            args@,
                        ));
                        assert(before.map_values(|x: String| x@) + (seq![args@] + init_args(next))
                            =~= out@.map_values(|x: String| x@) + init_args(next));
                    }
                }
            },
            None => {},
        }
        pos = pos + start + 3 + end + 3;
    }
    out
}

} // verus!
