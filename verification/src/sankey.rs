//! sankey-beta source: CSV rows `source,target,value` naming flows between
//! nodes, the nodes numbered in order of first mention.
//!
//! Flow values stay as the numeric text of the row; the layout reads them
//! as numbers.

use crate::strs::{
    chars_of, debug_quote, debug_quoted, eq_str, is_float_literal, is_float_literal_exec, lines, lines_of, push_char, starts_with, starts_with_str, string_of, trim, trim_end, trim_start, is_ws, lemma_trim_of_trim_end, lemma_trim_end_first_kept, lemma_trim_end_after, trim_end_vec, trim_vec, chars_of_string,
};
use vstd::prelude::*;

verus! {

/// A parse error for sankey source.
pub struct SankeyParseError {
    pub message: String,
}

/// A flow from node `source` to node `target` (positions in the id list).
pub struct Link {
    pub source: usize,
    pub target: usize,
    /// The flow's numeric text.
    pub value: String,
}

/// The parsed graph: node ids in order of first mention, and the flows.
pub struct Graph {
    pub ids: Vec<String>,
    pub links: Vec<Link>,
}

pub ghost struct LinkV {
    pub source: nat,
    pub target: nat,
    pub value: Seq<char>,
}

pub ghost struct GraphV {
    pub ids: Seq<Seq<char>>,
    pub links: Seq<LinkV>,
}

impl View for Link {
    type V = LinkV;

    open spec fn view(&self) -> LinkV {
        LinkV { source: self.source as nat, target: self.target as nat, value: self.value@ }
    }
}

impl View for Graph {
    type V = GraphV;

    open spec fn view(&self) -> GraphV {
        GraphV {
            ids: self.ids@.map_values(|s: String| s@),
            links: self.links@.map_values(|l: Link| l@),
        }
    }
}

/// The fields of a CSV line from the current state: `cur` is the field
/// being read, `in_q` whether inside double quotes (where `""` is a quote).
pub open spec fn csv_fields(s: Seq<char>, cur: Seq<char>, in_q: bool) -> Seq<Seq<char>>
    decreases s.len(),
{
    if s.len() == 0 {
        seq![cur]
    } else {
        let c = s[0];
        let rest = s.drop_first();
        if in_q {
            if c == '"' {
                if rest.len() > 0 && rest[0] == '"' {
                    csv_fields(rest.drop_first(), cur.push('"'), true)
                } else {
                    csv_fields(rest, cur, false)
                }
            } else {
                csv_fields(rest, cur.push(c), true)
            }
        } else if c == '"' {
            csv_fields(rest, cur, true)
        } else if c == ',' {
            seq![cur] + csv_fields(rest, Seq::empty(), false)
        } else {
            csv_fields(rest, cur.push(c), false)
        }
    }
}

/// Splits a CSV line into fields (comma delimiter, double-quoted fields
/// with `""` escapes).
pub open spec fn split_csv(line: Seq<char>) -> Seq<Seq<char>> {
    csv_fields(line, Seq::empty(), false)
}

/// [`split_csv`], executable.
pub fn split_csv_exec(line: &[char]) -> (r: Vec<String>)
    ensures
        r@.map_values(|s: String| s@) == split_csv(line@),
{
    let mut out: Vec<String> = Vec::new();
    let mut cur = String::new();
    let mut in_q = false;
    let mut i: usize = 0;
    proof {
        assert(line@.skip(0) =~= line@);
        assert(out@.map_values(|s: String| s@) =~= Seq::<Seq<char>>::empty());
    }
    while i < line.len()
        invariant
            i <= line@.len(),
            out@.map_values(|s: String| s@) + csv_fields(line@.skip(i as int), cur@, in_q)
                == split_csv(line@),
        decreases line@.len() - i,
    {
        let ghost rest = line@.skip(i as int);
        proof {
            assert(rest[0] == line@[i as int]);
            assert(rest.drop_first() =~= line@.skip(i + 1));
        }
        let c = line[i];
        if in_q {
            if c == '"' {
                if i + 1 < line.len() && line[i + 1] == '"' {
                    proof {
                        assert(rest.drop_first()[0] == line@[i + 1]);
                        assert(rest.drop_first().drop_first() =~= line@.skip(i + 2));
                    }
                    push_char(&mut cur, '"');
                    i += 2;
                } else {
                    in_q = false;
                    i += 1;
                }
            } else {
                push_char(&mut cur, c);
                i += 1;
            }
        } else if c == '"' {
            in_q = true;
            i += 1;
        } else if c == ',' {
            let ghost before = out@;
            let ghost cv = cur@;
            out.push(cur);
            cur = String::new();
            proof {
                assert(out@.map_values(|s: String| s@) =~= before.map_values(|s: String| s@).push(
                    cv,
                ));
                assert(before.map_values(|s: String| s@) + (seq![cv] + csv_fields(
                    line@.skip(i + 1),
                    Seq::empty(),
                    false,
                )) =~= out@.map_values(|s: String| s@) + csv_fields(
                    line@.skip(i + 1),
                    Seq::empty(),
                    false,
                ));
            }
            i += 1;
        } else {
            push_char(&mut cur, c);
            i += 1;
        }
    }
    proof {
        assert(line@.skip(i as int) =~= Seq::<char>::empty());
    }
    let ghost before = out@;
    let ghost cv = cur@;
    out.push(cur);
    proof {
        assert(out@.map_values(|s: String| s@) =~= before.map_values(|s: String| s@).push(cv));
    }
    out
}

/// The position of `id` among `ids`.
pub open spec fn id_position(ids: Seq<Seq<char>>, id: Seq<char>, i: nat) -> Option<nat>
    decreases ids.len() - i,
{
    if i >= ids.len() {
        None
    } else if ids[i as int] == id {
        Some(i)
    } else {
        id_position(ids, id, i + 1)
    }
}

/// The ids with `id` appended when new, and its position.
pub open spec fn intern(ids: Seq<Seq<char>>, id: Seq<char>) -> (Seq<Seq<char>>, nat) {
    match id_position(ids, id, 0) {
        Some(p) => (ids, p),
        None => (ids.push(id), ids.len()),
    }
}

/// The parser's state between lines.
pub ghost struct StateV {
    pub g: GraphV,
    pub found: bool,
}

/// One source line.
pub open spec fn step(st: StateV, raw: Seq<char>) -> Result<StateV, Seq<char>> {
    let line = trim_end(raw);
    let trimmed = trim(line);
    if !st.found {
        if trimmed.len() == 0 || starts_with(trimmed, "%%"@) {
            Ok(st)
        } else if trimmed == "sankey-beta"@ {
            Ok(StateV { found: true, ..st })
        } else {
            Err("expected sankey-beta header, got "@ + debug_quoted(trimmed))
        }
    } else if trimmed.len() == 0 || starts_with(trimmed, "%%"@) {
        Ok(st)
    } else {
        let fields = split_csv(line);
        if fields.len() < 3 {
            Err("bad sankey row (need source,target,value): "@ + line)
        } else if !is_float_literal(trim(fields[2])) {
            Err("bad sankey value: "@ + line)
        } else {
            let (ids1, s) = intern(st.g.ids, trim(fields[0]));
            let (ids2, t) = intern(ids1, trim(fields[1]));
            Ok(
                StateV {
                    g: GraphV {
                        ids: ids2,
                        links: st.g.links.push(LinkV { source: s, target: t, value: trim(fields[2]) }),
                    },
                    ..st
                },
            )
        }
    }
}

/// The lines of `ls` applied in order from `st`; the first error stops.
pub open spec fn run(st: StateV, ls: Seq<Seq<char>>) -> Result<StateV, Seq<char>>
    decreases ls.len(),
{
    if ls.len() == 0 {
        Ok(st)
    } else {
        match step(st, ls[0]) {
            Ok(st1) => run(st1, ls.drop_first()),
            Err(e) => Err(e),
        }
    }
}

/// What the source lines `ls` parse to: the graph, or the error message.
pub open spec fn parse_lines(ls: Seq<Seq<char>>) -> Result<GraphV, Seq<char>> {
    match run(StateV { g: GraphV { ids: Seq::empty(), links: Seq::empty() }, found: false }, ls) {
        Ok(st) => if st.found {
            Ok(st.g)
        } else {
            Err("missing sankey-beta header"@)
        },
        Err(e) => Err(e),
    }
}

/// What [`parse`] gives for `source`.
pub open spec fn parse_result(source: Seq<char>) -> Result<GraphV, Seq<char>> {
    parse_lines(lines(source))
}

/// [`intern`], executable: the position of `id`, appending it when new.
pub fn intern_exec(ids: &mut Vec<String>, id: &[char]) -> (p: usize)
    ensures
        (final(ids)@.map_values(|s: String| s@), p as nat) == intern(
            old(ids)@.map_values(|s: String| s@),
            id@,
        ),
{
    let ghost iv = ids@.map_values(|s: String| s@);
    let mut i: usize = 0;
    let mut found: Option<usize> = None;
    while i < ids.len()
        invariant_except_break
            found is None,
        invariant
            i <= ids@.len(),
            iv == ids@.map_values(|s: String| s@),
            ids@ == old(ids)@,
            found is None ==> id_position(iv, id@, 0) == id_position(iv, id@, i as nat),
            found matches Some(p) ==> id_position(iv, id@, 0) == Some(p as nat),
        ensures
            found matches Some(p) ==> id_position(iv, id@, 0) == Some(p as nat),
            found is None ==> id_position(iv, id@, 0) is None,
        decreases ids@.len() - i,
    {
        let c = chars_of_string(&ids[i]);
        if eq_slices(&c, id) {
            found = Some(i);
            break;
        }
        i += 1;
    }
    match found {
        Some(p) => p,
        None => {
            let n = ids.len();
            ids.push(string_of(id));
            proof {
                assert(ids@.map_values(|s: String| s@) =~= iv.push(id@));
            }
            n
        },
    }
}

fn eq_slices(a: &[char], b: &[char]) -> (r: bool)
    ensures
        r == (a@ == b@),
{
    crate::sequence::eq_slices(a, b)
}

/// Parses sankey-beta source.
pub fn parse(source: &str) -> (r: Result<Graph, SankeyParseError>)
    ensures
        match (r, parse_result(source@)) {
            (Ok(g), Ok(v)) => g@ == v,
            (Err(e), Err(m)) => e.message@ == m,
            _ => false,
        },
{
    let src = chars_of(source);
    let ls = lines_of(&src);
    let mut g = Graph { ids: Vec::new(), links: Vec::new() };
    let mut found = false;
    let ghost all = lines(source@);
    let ghost init = StateV { g: GraphV { ids: Seq::empty(), links: Seq::empty() }, found: false };
    proof {
        assert(g@.ids =~= Seq::<Seq<char>>::empty());
        assert(g@.links =~= Seq::<LinkV>::empty());
        assert(all.skip(0) =~= all);
    }
    let mut i: usize = 0;
    while i < ls.len()
        invariant
            i <= ls@.len(),
            ls@.len() == all.len(),
            all == lines(source@),
            init == (StateV { g: GraphV { ids: Seq::empty(), links: Seq::empty() }, found: false }),
            forall|j: int| 0 <= j < ls@.len() ==> #[trigger] ls@[j]@ == all[j],
            run(init, all) == run(StateV { g: g@, found }, all.skip(i as int)),
        decreases ls@.len() - i,
    {
        proof {
            assert(all.skip(i as int)[0] == all[i as int]);
            assert(all.skip(i as int).drop_first() =~= all.skip(i + 1));
        }
        let line = trim_end_vec(&ls[i]);
        let trimmed = trim_vec(&line);
        proof {
            assert(trim(trim_end(ls@[i as int]@)) == trimmed@);
        }
        if !found {
            if trimmed.len() == 0 || starts_with_str(&trimmed, "%%") {
            } else if eq_str(&trimmed, "sankey-beta") {
                found = true;
            } else {
                let mut m = String::from_str("expected sankey-beta header, got ");
                let ts = string_of(&trimmed);
                let q = debug_quote(ts.as_str());
                m.append(q.as_str());
                return Err(SankeyParseError { message: m });
            }
        } else if trimmed.len() == 0 || starts_with_str(&trimmed, "%%") {
        } else {
            let fields = split_csv_exec(&line);
            if fields.len() < 3 {
                let mut m = String::from_str("bad sankey row (need source,target,value): ");
                let ls_ = string_of(&line);
                m.append(ls_.as_str());
                return Err(SankeyParseError { message: m });
            }
            let f0 = chars_of_string(&fields[0]);
            let f1 = chars_of_string(&fields[1]);
            let f2 = chars_of_string(&fields[2]);
            let v = trim_vec(&f2);
            if !is_float_literal_exec(&v) {
                let mut m = String::from_str("bad sankey value: ");
                let ls_ = string_of(&line);
                m.append(ls_.as_str());
                return Err(SankeyParseError { message: m });
            }
            let src_id = trim_vec(&f0);
            let tgt_id = trim_vec(&f1);
            let s = intern_exec(&mut g.ids, &src_id);
            let t = intern_exec(&mut g.ids, &tgt_id);
            let link = Link { source: s, target: t, value: string_of(&v) };
            let ghost before = g.links@;
            g.links.push(link);
            proof {
                assert(g@.links =~= before.map_values(|l: Link| l@).push(link@));
            }
        }
        i += 1;
    }
    proof {
        assert(all.skip(i as int) =~= Seq::<Seq<char>>::empty());
    }
    if !found {
        return Err(SankeyParseError { message: String::from_str("missing sankey-beta header") });
    }
    Ok(g)
}

/// Node ids are distinct and every flow joins two listed nodes.
pub open spec fn graph_ok(g: GraphV) -> bool {
    &&& forall|i: int, j: int| 0 <= i < j < g.ids.len() ==> #[trigger] g.ids[i] != #[trigger] g.ids[j]
    &&& forall|k: int|
        0 <= k < g.links.len() ==> #[trigger] g.links[k].source < g.ids.len() && g.links[k].target
            < g.ids.len()
}

proof fn lemma_id_position(ids: Seq<Seq<char>>, id: Seq<char>, i: nat)
    ensures
        id_position(ids, id, i) matches Some(p) ==> i <= p < ids.len() && ids[p as int] == id,
        id_position(ids, id, i) is None ==> forall|j: int| i <= j < ids.len() ==> ids[j] != id,
    decreases ids.len() - i,
{
    if i < ids.len() && ids[i as int] != id {
        lemma_id_position(ids, id, i + 1);
    }
}

proof fn lemma_intern_ok(ids: Seq<Seq<char>>, id: Seq<char>)
    requires
        forall|i: int, j: int| 0 <= i < j < ids.len() ==> #[trigger] ids[i] != #[trigger] ids[j],
    ensures
        forall|i: int, j: int|
            0 <= i < j < intern(ids, id).0.len() ==> #[trigger] intern(ids, id).0[i]
                != #[trigger] intern(ids, id).0[j],
        intern(ids, id).1 < intern(ids, id).0.len(),
        intern(ids, id).0.len() >= ids.len(),
{
    lemma_id_position(ids, id, 0);
    let ids2 = intern(ids, id).0;
    assert forall|i: int, j: int| 0 <= i < j < ids2.len() implies #[trigger] ids2[i]
        != #[trigger] ids2[j] by {
        if j == ids.len() {
            assert(ids2[j] == id);
            assert(ids2[i] == ids[i]);
        }
    }
}

proof fn lemma_run_ok(st: StateV, ls: Seq<Seq<char>>)
    requires
        graph_ok(st.g),
    ensures
        run(st, ls) matches Ok(st2) ==> graph_ok(st2.g),
    decreases ls.len(),
{
    if ls.len() > 0 {
        if let Ok(st1) = step(st, ls[0]) {
            let line = trim_end(ls[0]);
            let fields = split_csv(line);
            if st.found && st1 != st {
                lemma_intern_ok(st.g.ids, trim(fields[0]));
                let (ids1, s) = intern(st.g.ids, trim(fields[0]));
                lemma_intern_ok(ids1, trim(fields[1]));
                assert(graph_ok(st1.g));
            }
            lemma_run_ok(st1, ls.drop_first());
        }
    }
}

/// Law: in every graph `parse` returns, node ids are distinct (each node is
/// numbered once, at its first mention) and every flow joins two nodes of
/// the id list.
pub proof fn parse_graph_ok(source: Seq<char>)
    ensures
        parse_result(source) matches Ok(g) ==> graph_ok(g),
{
    lemma_run_ok(
        StateV { g: GraphV { ids: Seq::empty(), links: Seq::empty() }, found: false },
        lines(source),
    );
}

/// A blank or comment line leaves the parser's state as it is, before the
/// header and after it.
proof fn lemma_comment_step(st: StateV, c: Seq<char>)
    requires
        trim(c).len() == 0 || starts_with(trim(c), "%%"@),
    ensures
        step(st, c) == Ok::<StateV, Seq<char>>(st),
{
    lemma_trim_of_trim_end(c);
}

/// A blank or comment line taken out of the lines left to run changes
/// nothing.
proof fn lemma_comment_run(st: StateV, ls1: Seq<Seq<char>>, c: Seq<char>, ls2: Seq<Seq<char>>)
    requires
        trim(c).len() == 0 || starts_with(trim(c), "%%"@),
    ensures
        run(st, ls1 + seq![c] + ls2) == run(st, ls1 + ls2),
    decreases ls1.len(),
{
    if ls1.len() == 0 {
        assert(ls1 + seq![c] + ls2 =~= seq![c] + ls2);
        assert((seq![c] + ls2).drop_first() =~= ls2);
        assert(ls1 + ls2 =~= ls2);
        lemma_comment_step(st, c);
    } else {
        assert((ls1 + seq![c] + ls2)[0] == ls1[0]);
        assert((ls1 + ls2)[0] == ls1[0]);
        assert((ls1 + seq![c] + ls2).drop_first() =~= ls1.drop_first() + seq![c] + ls2);
        assert((ls1 + ls2).drop_first() =~= ls1.drop_first() + ls2);
        if let Ok(st1) = step(st, ls1[0]) {
            lemma_comment_run(st1, ls1.drop_first(), c, ls2);
        }
    }
}

/// Law: a line whose trimmed text starts with `%%` is a comment, and a line
/// of whitespace is blank: inserting either anywhere among the source lines,
/// after the `sankey-beta` header as well as before it, leaves the result,
/// graph or error, unchanged.
pub proof fn comment_and_blank_lines_change_nothing(ls1: Seq<Seq<char>>, c: Seq<char>, ls2: Seq<Seq<char>>)
    requires
        trim(c).len() == 0 || starts_with(trim(c), "%%"@),
    ensures
        parse_lines(ls1 + seq![c] + ls2) == parse_lines(ls1 + ls2),
{
    lemma_comment_run(
        StateV { g: GraphV { ids: Seq::empty(), links: Seq::empty() }, found: false },
        ls1,
        c,
        ls2,
    );
}

/// A CSV field with no comma and no double quote: read as it is written.
pub open spec fn plain_field(f: Seq<char>) -> bool {
    forall|i: int| 0 <= i < f.len() ==> f[i] != ',' && f[i] != '"'
}

/// A plain field is read into the field being built.
proof fn lemma_csv_plain(a: Seq<char>, rest: Seq<char>, cur: Seq<char>)
    requires
        plain_field(a),
    ensures
        csv_fields(a + rest, cur, false) == csv_fields(rest, cur + a, false),
    decreases a.len(),
{
    if a.len() == 0 {
        assert(a + rest =~= rest);
        assert(cur + a =~= cur);
    } else {
        assert((a + rest)[0] == a[0]);
        assert((a + rest).drop_first() =~= a.drop_first() + rest);
        lemma_csv_plain(a.drop_first(), rest, cur.push(a[0]));
        assert(cur.push(a[0]) + a.drop_first() =~= cur + a);
    }
}

/// Plain fields joined by commas split back into those fields.
proof fn lemma_split_plain(s: Seq<char>, t: Seq<char>, v: Seq<char>)
    requires
        plain_field(s),
        plain_field(t),
        plain_field(v),
    ensures
        split_csv(s + seq![','] + t + seq![','] + v) == seq![s, t, v],
        split_csv(s + seq![','] + t) == seq![s, t],
{
    let e = Seq::<char>::empty();
    lemma_csv_plain(s, seq![','] + t + seq![','] + v, e);
    assert(s + seq![','] + t + seq![','] + v =~= s + (seq![','] + t + seq![','] + v));
    assert(e + s =~= s);
    assert((seq![','] + t + seq![','] + v).drop_first() =~= t + (seq![','] + v));
    lemma_csv_plain(t, seq![','] + v, e);
    assert(e + t =~= t);
    assert((seq![','] + v).drop_first() =~= v);
    lemma_csv_plain(v, Seq::<char>::empty(), e);
    assert(v + Seq::<char>::empty() =~= v);
    assert(e + v =~= v);
    assert(seq![s] + (seq![t] + seq![v]) =~= seq![s, t, v]);
    lemma_csv_plain(s, seq![','] + t, e);
    assert(s + seq![','] + t =~= s + (seq![','] + t));
    assert((seq![','] + t).drop_first() =~= t);
    lemma_csv_plain(t, Seq::<char>::empty(), e);
    assert(t + Seq::<char>::empty() =~= t);
    assert(seq![s] + seq![t] =~= seq![s, t]);
}

/// The line of a row and its trimmed text, as the parser reads them.
proof fn lemma_row_line(s: Seq<char>, rest: Seq<char>)
    requires
        s.len() > 0,
        !is_ws(s[0]),
        s[0] != '%',
    ensures
        trim(trim_end(s + rest)).len() > 0,
        !starts_with(trim(trim_end(s + rest)), "%%"@),
{
    reveal_strlit("%%");
    let x = s + rest;
    assert(x[0] == s[0]);
    lemma_trim_end_first_kept(x);
    lemma_trim_end_first_kept(trim_end(x));
    assert(trim_start(trim_end(x)) == trim_end(x));
    let tt = trim(trim_end(x));
    assert(tt[0] == s[0]);
    if tt.len() >= 2 {
        assert(tt.take(2)[0] == tt[0]);
    }
}

/// Law: after the `sankey-beta` header, a row `source,target,value` whose
/// fields hold no comma and no quote (the source starting with a visible
/// character other than `%`) adds one flow from the node named by the
/// trimmed source to the node named by the trimmed target, valued by the
/// trimmed value text, keeping the nodes already numbered; a value that
/// does not read as a number is refused, and so is a row of two fields.
pub proof fn rows_add_flows(st: StateV, s: Seq<char>, t: Seq<char>, v: Seq<char>)
    requires
        st.found,
        plain_field(s),
        plain_field(t),
        plain_field(v),
        s.len() > 0,
        !is_ws(s[0]),
        s[0] != '%',
    ensures
        is_float_literal(trim(v)) ==> (step(st, s + seq![','] + t + seq![','] + v) matches Ok(st1)
            && st1.found && st1.g.links.len() == st.g.links.len() + 1 && st1.g.links.drop_last()
            == st.g.links && st1.g.ids.len() >= st.g.ids.len() && st1.g.ids.take(
            st.g.ids.len() as int,
        ) == st.g.ids && st1.g.links.last().source < st1.g.ids.len() && st1.g.links.last().target
            < st1.g.ids.len() && st1.g.ids[st1.g.links.last().source as int] == trim(s)
            && st1.g.ids[st1.g.links.last().target as int] == trim(t) && st1.g.links.last().value
            == trim(v)),
        !is_float_literal(trim(v)) ==> step(st, s + seq![','] + t + seq![','] + v) == Err::<
            StateV,
            Seq<char>,
        >("bad sankey value: "@ + trim_end(s + seq![','] + t + seq![','] + v)),
        step(st, s + seq![','] + t) == Err::<StateV, Seq<char>>(
            "bad sankey row (need source,target,value): "@ + trim_end(s + seq![','] + t),
        ),
{
    let row = s + seq![','] + t + seq![','] + v;
    let a = s + seq![','] + t + seq![','];
    assert(row =~= a + v);
    assert(a.last() == ',');
    lemma_trim_end_after(a, v);
    let ve = trim_end(v);
    assert(plain_field(ve)) by {
        assert forall|i: int| 0 <= i < ve.len() implies ve[i] != ',' && ve[i] != '"' by {
            assert(ve[i] == v[i]);
        }
    }
    assert(trim_end(row) =~= s + seq![','] + t + seq![','] + ve);
    lemma_split_plain(s, t, ve);
    lemma_row_line(s, seq![','] + t + seq![','] + v);
    assert(s + (seq![','] + t + seq![','] + v) =~= row);
    lemma_trim_of_trim_end(v);
    if is_float_literal(trim(v)) {
        let ids = st.g.ids;
        lemma_intern_facts(ids, trim(s));
        let (ids1, p) = intern(ids, trim(s));
        lemma_intern_facts(ids1, trim(s));
        lemma_intern_facts(ids1, trim(t));
        let (ids2, q) = intern(ids1, trim(t));
        assert(ids2.take(ids1.len() as int)[p as int] == ids1[p as int]);
        assert(ids2.take(ids.len() as int) =~= ids) by {
            assert(ids1.take(ids.len() as int) =~= ids);
            assert forall|i: int| 0 <= i < ids.len() implies ids2[i] == ids[i] by {
                assert(ids2.take(ids1.len() as int)[i] == ids2[i]);
                assert(ids1.take(ids.len() as int)[i] == ids1[i]);
            }
        }
        let st1 = StateV {
            g: GraphV { ids: ids2, links: st.g.links.push(LinkV { source: p, target: q, value: trim(v) }) },
            ..st
        };
        assert(step(st, row) == Ok::<StateV, Seq<char>>(st1));
        assert(st1.g.links.drop_last() =~= st.g.links);
    }
    let r2 = s + seq![','] + t;
    let a2 = s + seq![','];
    assert(r2 =~= a2 + t);
    assert(a2.last() == ',');
    lemma_trim_end_after(a2, t);
    let te = trim_end(t);
    assert(plain_field(te)) by {
        assert forall|i: int| 0 <= i < te.len() implies te[i] != ',' && te[i] != '"' by {
            assert(te[i] == t[i]);
        }
    }
    assert(trim_end(r2) =~= s + seq![','] + te);
    lemma_split_plain(s, te, Seq::<char>::empty());
    lemma_row_line(s, seq![','] + t);
    assert(s + (seq![','] + t) =~= r2);
}

/// What [`intern`] keeps and where it puts the id.
proof fn lemma_intern_facts(ids: Seq<Seq<char>>, id: Seq<char>)
    ensures
        intern(ids, id).1 < intern(ids, id).0.len(),
        intern(ids, id).0[intern(ids, id).1 as int] == id,
        intern(ids, id).0.len() >= ids.len(),
        intern(ids, id).0.take(ids.len() as int) == ids,
{
    lemma_id_position(ids, id, 0);
    assert(ids.push(id).take(ids.len() as int) =~= ids);
    assert(ids.take(ids.len() as int) =~= ids);
}

impl SankeyParseError {
    /// The error as a message.
    pub fn display(&self) -> (s: String)
        ensures
            s@ == "sankey parse error: "@ + self.message@,
    {
        let mut s = String::from_str("sankey parse error: ");
        s.append(self.message.as_str());
        s
    }
}


/// The node a flow leaves from, walking forwards (`fwd`) or backwards.
pub open spec fn from_end(l: LinkV, fwd: bool) -> nat {
    if fwd {
        l.source
    } else {
        l.target
    }
}

/// The node a flow leads to, walking forwards (`fwd`) or backwards.
pub open spec fn to_end(l: LinkV, fwd: bool) -> nat {
    if fwd {
        l.target
    } else {
        l.source
    }
}

/// Node `v` ends a walk of `x` flows among the `n` nodes (forwards, or
/// backwards against the flows).
pub open spec fn in_layer(links: Seq<LinkV>, n: nat, fwd: bool, x: nat, v: nat) -> bool
    decreases x,
{
    if x == 0 {
        v < n
    } else {
        exists|k: int|
            0 <= k < links.len() && to_end(#[trigger] links[k], fwd) == v && in_layer(
                links,
                n,
                fwd,
                (x - 1) as nat,
                from_end(links[k], fwd),
            )
    }
}

/// No walk, forwards or backwards, has as many flows as there are nodes:
/// the flows form no cycle.
pub open spec fn acyclic(links: Seq<LinkV>, n: nat) -> bool {
    forall|v: nat| !in_layer(links, n, true, n, v) && !in_layer(links, n, false, n, v)
}

/// A node with the flows that leave it and enter it, as positions in the
/// flow list.
pub struct RankNode {
    pub source_links: Vec<usize>,
    pub target_links: Vec<usize>,
}

/// The flows among the first `k` whose end `from_end` is `v`, in order.
pub open spec fn flows_upto(links: Seq<LinkV>, fwd: bool, v: nat, k: nat) -> Seq<usize>
    decreases k,
{
    if k == 0 {
        Seq::empty()
    } else {
        let p = flows_upto(links, fwd, v, (k - 1) as nat);
        if from_end(links[k - 1], fwd) == v {
            p.push((k - 1) as usize)
        } else {
            p
        }
    }
}

/// `ls` lists, in order, the flows whose end `from_end` is `v`.
pub open spec fn lists_flows(ls: Seq<usize>, links: Seq<LinkV>, fwd: bool, v: nat) -> bool {
    ls == flows_upto(links, fwd, v, links.len())
}

/// Each node lists the flows leaving it and the flows entering it.
pub open spec fn links_listed(nodes: Seq<RankNode>, links: Seq<LinkV>) -> bool {
    forall|v: int|
        #![trigger nodes[v]]
        0 <= v < nodes.len() ==> lists_flows(nodes[v].source_links@, links, true, v as nat)
            && lists_flows(nodes[v].target_links@, links, false, v as nat)
}

/// Every flow joins two of the `n` nodes.
pub open spec fn links_within(links: Seq<LinkV>, n: nat) -> bool {
    forall|k: int| 0 <= k < links.len() ==> #[trigger] links[k].source < n && links[k].target < n
}

proof fn lemma_flows_upto(links: Seq<LinkV>, fwd: bool, v: nat, k: nat)
    requires
        k <= links.len() <= usize::MAX,
    ensures
        forall|a: int|
            0 <= a < flows_upto(links, fwd, v, k).len() ==> #[trigger] flows_upto(
                links,
                fwd,
                v,
                k,
            )[a] < k,
        forall|q: int|
            #![trigger links[q]]
            0 <= q < k ==> (flows_upto(links, fwd, v, k).contains(q as usize) <==> from_end(
                links[q],
                fwd,
            ) == v),
    decreases k,
{
    if k > 0 {
        lemma_flows_upto(links, fwd, v, (k - 1) as nat);
        let p = flows_upto(links, fwd, v, (k - 1) as nat);
        let f = flows_upto(links, fwd, v, k);
        let last = (k - 1) as usize;
        assert forall|q: int| #![trigger links[q]] 0 <= q < k implies (f.contains(q as usize)
            <==> from_end(links[q], fwd) == v) by {
            let qu = q as usize;
            if from_end(links[k - 1], fwd) == v {
                assert(f == p.push(last));
                if q < k - 1 {
                    if f.contains(qu) {
                        let a = choose|a: int| 0 <= a < f.len() && f[a] == qu;
                        assert(a < p.len());
                        assert(p[a] == qu);
                    }
                    if p.contains(qu) {
                        let a = choose|a: int| 0 <= a < p.len() && p[a] == qu;
                        assert(f[a] == qu);
                    }
                } else {
                    assert(f[f.len() - 1] == qu);
                }
            } else {
                assert(f == p);
                if q == k - 1 && p.contains(qu) {
                    let a = choose|a: int| 0 <= a < p.len() && p[a] == qu;
                    assert(p[a] < k - 1);
                }
            }
        }
    }
}

/// The nodes `0..n`, each with the flows that leave and enter it.
pub fn compute_node_links(n: usize, links: &Vec<Link>) -> (nodes: Vec<RankNode>)
    requires
        links_within(links@.map_values(|l: Link| l@), n as nat),
    ensures
        nodes@.len() == n,
        links_listed(nodes@, links@.map_values(|l: Link| l@)),
{
    let ghost lv = links@.map_values(|l: Link| l@);
    let mut nodes: Vec<RankNode> = Vec::new();
    let mut v: usize = 0;
    while v < n
        invariant
            v <= n,
            nodes@.len() == v,
            lv == links@.map_values(|l: Link| l@),
            forall|u: int|
                #![trigger nodes@[u]]
                0 <= u < v ==> lists_flows(nodes@[u].source_links@, lv, true, u as nat)
                    && lists_flows(nodes@[u].target_links@, lv, false, u as nat),
        decreases n - v,
    {
        let mut out: Vec<usize> = Vec::new();
        let mut inn: Vec<usize> = Vec::new();
        let mut k: usize = 0;
        while k < links.len()
            invariant
                k <= links@.len(),
                lv == links@.map_values(|l: Link| l@),
                out@ == flows_upto(lv, true, v as nat, k as nat),
                inn@ == flows_upto(lv, false, v as nat, k as nat),
            decreases links@.len() - k,
        {
            assert(lv[k as int] == links@[k as int]@);
            if links[k].source == v {
                out.push(k);
            }
            if links[k].target == v {
                inn.push(k);
            }
            k += 1;
        }
        nodes.push(RankNode { source_links: out, target_links: inn });
        v += 1;
    }
    nodes
}


/// Some flow leaves one of the first `m` nodes of `cs` towards `v`.
pub open spec fn reach_from(links: Seq<LinkV>, fwd: bool, cs: Seq<usize>, m: int, v: usize) -> bool {
    exists|i: int, k: int|
        0 <= i < m && 0 <= k < links.len() && from_end(links[k], fwd) == cs[i] && to_end(
            #[trigger] links[k],
            fwd,
        ) == v as nat && #[trigger] cs[i] == cs[i]
}

/// One of the first `j` flows of `list` leads to `v`.
pub open spec fn reach_list(links: Seq<LinkV>, fwd: bool, list: Seq<usize>, j: int, v: usize) -> bool {
    exists|a: int| 0 <= a < j && to_end(links[#[trigger] list[a] as int], fwd) == v as nat
}

/// The list of the flows from `ni`.
fn flow_list(node: &RankNode, fwd: bool) -> (r: &Vec<usize>)
    ensures
        r@ == if fwd {
            node.source_links@
        } else {
            node.target_links@
        },
{
    if fwd {
        &node.source_links
    } else {
        &node.target_links
    }
}

/// The nodes one flow on from `current`, each once, in order of discovery.
fn next_layer(
    nodes: &Vec<RankNode>,
    links: &Vec<Link>,
    current: &Vec<usize>,
    fwd: bool,
) -> (next: Vec<usize>)
    requires
        links@.len() <= usize::MAX,
        links_within(links@.map_values(|l: Link| l@), nodes@.len()),
        links_listed(nodes@, links@.map_values(|l: Link| l@)),
        forall|i: int| 0 <= i < current@.len() ==> #[trigger] current@[i] < nodes@.len(),
    ensures
        forall|a: int, b: int| 0 <= a < b < next@.len() ==> next@[a] != next@[b],
        forall|a: int| 0 <= a < next@.len() ==> #[trigger] next@[a] < nodes@.len(),
        forall|v: usize|
            #![trigger next@.contains(v)]
            next@.contains(v) && v < nodes@.len() <==> reach_from(
                links@.map_values(|l: Link| l@),
                fwd,
                current@,
                current@.len() as int,
                v,
            ),
{
    let ghost lv = links@.map_values(|l: Link| l@);
    let n = nodes.len();
    let mut seen: Vec<bool> = vec![false; n];
    let mut next: Vec<usize> = Vec::new();
    let mut i: usize = 0;
    while i < current.len()
        invariant
            lv == links@.map_values(|l: Link| l@),
            n == nodes@.len(),
            links@.len() <= usize::MAX,
            links_within(lv, n as nat),
            links_listed(nodes@, lv),
            forall|q: int| 0 <= q < current@.len() ==> #[trigger] current@[q] < n,
            i <= current@.len(),
            seen@.len() == n,
            forall|a: int, b: int| 0 <= a < b < next@.len() ==> next@[a] != next@[b],
            forall|a: int| 0 <= a < next@.len() ==> #[trigger] next@[a] < n,
            forall|u: int| 0 <= u < n ==> (#[trigger] seen@[u] <==> next@.contains(u as usize)),
            forall|v: usize|
                #![trigger next@.contains(v)]
                #![trigger reach_from(lv, fwd, current@, i as int, v)]
                next@.contains(v) && v < n <==> reach_from(lv, fwd, current@, i as int, v),
        decreases current@.len() - i,
    {
        let ni = current[i];
        let list = flow_list(&nodes[ni], fwd);
        proof {
            lemma_flows_upto(lv, fwd, ni as nat, lv.len());
        }
        let ghost before = next@;
        let mut j: usize = 0;
        while j < list.len()
            invariant
                lv == links@.map_values(|l: Link| l@),
                n == nodes@.len(),
                links_within(lv, n as nat),
                list@ == flows_upto(lv, fwd, ni as nat, lv.len()),
                forall|a: int| 0 <= a < list@.len() ==> #[trigger] list@[a] < lv.len(),
                j <= list@.len(),
                seen@.len() == n,
                forall|a: int, b: int| 0 <= a < b < next@.len() ==> next@[a] != next@[b],
                forall|a: int| 0 <= a < next@.len() ==> #[trigger] next@[a] < n,
                forall|u: int| 0 <= u < n ==> (#[trigger] seen@[u] <==> next@.contains(u as usize)),
                forall|v: usize|
                    #![trigger next@.contains(v)]
                    #![trigger reach_list(lv, fwd, list@, j as int, v)]
                    next@.contains(v) && v < n <==> (before.contains(v) && v < n) || reach_list(
                        lv,
                        fwd,
                        list@,
                        j as int,
                        v,
                    ),
            decreases list@.len() - j,
        {
            let l = list[j];
            assert(lv[l as int] == links@[l as int]@);
            let nb = if fwd {
                links[l].target
            } else {
                links[l].source
            };
            assert(nb == to_end(lv[l as int], fwd));
            let ghost prev = next@;
            if !seen[nb] {
                seen.set(nb, true);
                next.push(nb);
                proof {
                    assert forall|a: int, b: int| 0 <= a < b < next@.len() implies next@[a]
                        != next@[b] by {
                        if b == next@.len() - 1 {
                            assert(prev.contains(next@[a]) ==> seen@[next@[a] as int]);
                            assert(seen@.len() == n);
                            if next@[a] == nb {
                                assert(prev.contains(nb));
                            }
                        }
                    }
                    assert forall|u: int| 0 <= u < n implies (#[trigger] seen@[u]
                        <==> next@.contains(u as usize)) by {
                        if u != nb {
                            if next@.contains(u as usize) {
                                let a = choose|a: int| 0 <= a < next@.len() && next@[a] == u as usize;
                                assert(a < prev.len());
                                assert(prev.contains(u as usize));
                            }
                            if prev.contains(u as usize) {
                                let a = choose|a: int| 0 <= a < prev.len() && prev[a] == u as usize;
                                assert(next@[a] == u as usize);
                            }
                        } else {
                            assert(next@[next@.len() - 1] == nb);
                        }
                    }
                }
            }
            proof {
                assert forall|v: usize|
                    #![trigger next@.contains(v)]
                    #![trigger reach_list(lv, fwd, list@, j + 1, v)]
                    next@.contains(v) && v < n <==> (before.contains(v) && v < n) || reach_list(
                        lv,
                        fwd,
                        list@,
                        j + 1,
                        v,
                    ) by {
                    if reach_list(lv, fwd, list@, j + 1, v) && !reach_list(lv, fwd, list@, j as int, v) {
                        let a = choose|a: int|
                            0 <= a < j + 1 && to_end(lv[#[trigger] list@[a] as int], fwd) == v as nat;
                        assert(a == j);
                        assert(v == nb);
                        assert(seen@[nb as int]);
                    }
                    if reach_list(lv, fwd, list@, j as int, v) {
                        let a = choose|a: int|
                            0 <= a < j && to_end(lv[#[trigger] list@[a] as int], fwd) == v as nat;
                        assert(reach_list(lv, fwd, list@, j + 1, v));
                    }
                    if next@.contains(v) && !prev.contains(v) {
                        assert(v == nb);
                        assert(reach_list(lv, fwd, list@, j + 1, v)) by {
                            assert(to_end(lv[list@[j as int] as int], fwd) == v as nat);
                        }
                    }
                    if prev.contains(v) {
                        let a = choose|a: int| 0 <= a < prev.len() && prev[a] == v;
                        assert(next@[a] == v);
                    }
                }
            }
            j += 1;
        }
        proof {
            assert forall|v: usize|
                #![trigger next@.contains(v)]
                #![trigger reach_from(lv, fwd, current@, i + 1, v)]
                next@.contains(v) && v < n <==> reach_from(
                lv,
                fwd,
                current@,
                i + 1,
                v,
            ) by {
                if reach_list(lv, fwd, list@, list@.len() as int, v) {
                    let a = choose|a: int|
                        0 <= a < list@.len() && to_end(lv[#[trigger] list@[a] as int], fwd) == v as nat;
                    let k = list@[a] as int;
                    assert(list@.contains(k as usize));
                    assert(from_end(lv[k], fwd) == ni);
                    assert(current@[i as int] == ni);
                    assert(reach_from(lv, fwd, current@, i + 1, v));
                }
                if reach_from(lv, fwd, current@, i as int, v) {
                    let (q, k) = choose|q: int, k: int|
                        0 <= q < i && 0 <= k < lv.len() && from_end(lv[k], fwd) == current@[q]
                            && to_end(#[trigger] lv[k], fwd) == v as nat && #[trigger] current@[q]
                            == current@[q];
                    assert(reach_from(lv, fwd, current@, i + 1, v));
                }
                if reach_from(lv, fwd, current@, i + 1, v) && !reach_from(
                    lv,
                    fwd,
                    current@,
                    i as int,
                    v,
                ) {
                    let (q, k) = choose|q: int, k: int|
                        0 <= q < i + 1 && 0 <= k < lv.len() && from_end(lv[k], fwd) == current@[q]
                            && to_end(#[trigger] lv[k], fwd) == v as nat && #[trigger] current@[q]
                            == current@[q];
                    assert(q == i);
                    assert(list@.contains(k as usize));
                    let a = choose|a: int| 0 <= a < list@.len() && list@[a] == k as usize;
                    assert(to_end(lv[list@[a] as int], fwd) == v as nat);
                    assert(reach_list(lv, fwd, list@, list@.len() as int, v));
                    assert(to_end(lv[k], fwd) < n);
                }
            }
        }
        i += 1;
    }
    next
}


/// `r` is the rank of node `v`: the most flows on a walk ending at `v`
/// (forwards for depths, backwards for heights).
pub open spec fn is_rank(links: Seq<LinkV>, n: nat, fwd: bool, v: nat, r: int) -> bool {
    &&& r >= 0
    &&& in_layer(links, n, fwd, r as nat, v)
    &&& forall|y: nat| y > r ==> !#[trigger] in_layer(links, n, fwd, y, v)
}

proof fn lemma_layers_stay_empty(links: Seq<LinkV>, n: nat, fwd: bool, m: nat, y: nat)
    requires
        forall|v: nat| !#[trigger] in_layer(links, n, fwd, m, v),
        y >= m,
    ensures
        forall|v: nat| !#[trigger] in_layer(links, n, fwd, y, v),
    decreases y - m,
{
    if y > m {
        lemma_layers_stay_empty(links, n, fwd, m, (y - 1) as nat);
        assert forall|v: nat| !#[trigger] in_layer(links, n, fwd, y, v) by {
            if in_layer(links, n, fwd, y, v) {
                let k = choose|k: int|
                    0 <= k < links.len() && to_end(#[trigger] links[k], fwd) == v && in_layer(
                        links,
                        n,
                        fwd,
                        (y - 1) as nat,
                        from_end(links[k], fwd),
                    );
            }
        }
    }
}

proof fn lemma_next_is_layer(
    links: Seq<LinkV>,
    n: nat,
    fwd: bool,
    x: nat,
    current: Seq<usize>,
    v: usize,
)
    requires
        n <= usize::MAX,
        links_within(links, n),
        forall|u: usize| #![trigger current.contains(u)] current.contains(u) && u < n <==> in_layer(links, n, fwd, x, u as nat),
        forall|i: int| 0 <= i < current.len() ==> #[trigger] current[i] < n,
    ensures
        reach_from(links, fwd, current, current.len() as int, v) <==> in_layer(
            links,
            n,
            fwd,
            x + 1,
            v as nat,
        ),
{
    if reach_from(links, fwd, current, current.len() as int, v) {
        let (i, k) = choose|i: int, k: int|
            0 <= i < current.len() && 0 <= k < links.len() && from_end(links[k], fwd) == current[i]
                && to_end(#[trigger] links[k], fwd) == v as nat && #[trigger] current[i] == current[i];
        assert(current.contains(current[i]));
        assert(in_layer(links, n, fwd, x, from_end(links[k], fwd)));
    }
    if in_layer(links, n, fwd, x + 1, v as nat) {
        let k = choose|k: int|
            0 <= k < links.len() && to_end(#[trigger] links[k], fwd) == v as nat && in_layer(
                links,
                n,
                fwd,
                x,
                from_end(links[k], fwd),
            );
        let u = from_end(links[k], fwd);
        assert(u < n);
        assert(current.contains(u as usize));
        let i = choose|i: int| 0 <= i < current.len() && current[i] == u as usize;
        assert(reach_from(links, fwd, current, current.len() as int, v));
    }
}

/// The rank of every node: its depth (`depth`), the most flows on a walk
/// from any node to it, or its height, the most flows on a walk from it.
/// The nodes are taken layer by layer: all of them, then those one flow on,
/// and so on, each node keeping the number of the last layer it is in.
pub fn compute_ranks(nodes: &Vec<RankNode>, links: &Vec<Link>, depth: bool) -> (ranks: Vec<i64>)
    requires
        links@.len() <= usize::MAX,
        nodes@.len() <= i64::MAX,
        links_within(links@.map_values(|l: Link| l@), nodes@.len()),
        links_listed(nodes@, links@.map_values(|l: Link| l@)),
        acyclic(links@.map_values(|l: Link| l@), nodes@.len()),
    ensures
        ranks@.len() == nodes@.len(),
        forall|v: int|
            0 <= v < nodes@.len() ==> is_rank(
                links@.map_values(|l: Link| l@),
                nodes@.len(),
                depth,
                v as nat,
                #[trigger] ranks@[v] as int,
            ),
{
    let ghost lv = links@.map_values(|l: Link| l@);
    let n = nodes.len();
    let ghost nn = n as nat;
    proof {
        assert forall|v: nat| !#[trigger] in_layer(lv, nn, depth, nn, v) by {
            assert(!in_layer(lv, nn, true, nn, v) && !in_layer(lv, nn, false, nn, v));
        }
    }
    let mut ranks: Vec<i64> = vec![0; n];
    let mut current: Vec<usize> = Vec::new();
    let mut v0: usize = 0;
    while v0 < n
        invariant
            v0 <= n,
            current@.len() == v0,
            forall|i: int| 0 <= i < v0 ==> current@[i] == i,
        decreases n - v0,
    {
        current.push(v0);
        v0 += 1;
    }
    proof {
        assert forall|u: usize| #![trigger current@.contains(u)] current@.contains(u) && u < n <==> in_layer(lv, nn, depth, 0, u as nat) by {
            if u < n {
                assert(current@[u as int] == u);
            }
        }
    }
    let mut x: i64 = 0;
    while current.len() > 0
        invariant
            lv == links@.map_values(|l: Link| l@),
            n == nodes@.len(),
            nn == n as nat,
            links@.len() <= usize::MAX,
            n <= i64::MAX,
            links_within(lv, nn),
            links_listed(nodes@, lv),
            forall|v: nat| !#[trigger] in_layer(lv, nn, depth, nn, v),
            0 <= x <= n,
            ranks@.len() == n,
            forall|i: int| 0 <= i < current@.len() ==> #[trigger] current@[i] < n,
            forall|a: int, b: int| 0 <= a < b < current@.len() ==> current@[a] != current@[b],
            forall|u: usize|
                #![trigger current@.contains(u)]
                current@.contains(u) && u < n <==> in_layer(lv, nn, depth, x as nat, u as nat),
            x > 0 ==> forall|v: int|
                0 <= v < n ==> {
                    &&& 0 <= #[trigger] ranks@[v] < x
                    &&& in_layer(lv, nn, depth, ranks@[v] as nat, v as nat)
                    &&& forall|y: nat|
                        ranks@[v] < y < x ==> !#[trigger] in_layer(lv, nn, depth, y, v as nat)
                },
            x == 0 ==> forall|u: usize| #![trigger current@.contains(u)] u < n ==> current@.contains(u),
        decreases n - x,
    {
        proof {
            let u = current@[0];
            assert(current@.contains(u));
            assert(in_layer(lv, nn, depth, x as nat, u as nat));
            if x >= n {
                lemma_layers_stay_empty(lv, nn, depth, nn, x as nat);
            }
        }
        let ghost old_ranks = ranks@;
        let mut q: usize = 0;
        while q < current.len()
            invariant
                n == nodes@.len(),
                0 <= x < n,
                ranks@.len() == n,
                old_ranks.len() == n,
                q <= current@.len(),
                forall|i: int| 0 <= i < current@.len() ==> #[trigger] current@[i] < n,
                forall|v: int|
                    0 <= v < n ==> #[trigger] ranks@[v] == if current@.take(q as int).contains(
                        v as usize,
                    ) {
                        x
                    } else {
                        old_ranks[v]
                    },
            decreases current@.len() - q,
        {
            let ni = current[q];
            ranks.set(ni, x);
            proof {
                assert forall|v: int| 0 <= v < n implies #[trigger] ranks@[v] == if current@.take(
                    q + 1,
                ).contains(v as usize) {
                    x
                } else {
                    old_ranks[v]
                } by {
                    let t0 = current@.take(q as int);
                    let t1 = current@.take(q + 1);
                    assert(t1 =~= t0.push(ni));
                    if t0.contains(v as usize) {
                        let a = choose|a: int| 0 <= a < t0.len() && t0[a] == v as usize;
                        assert(t1[a] == v as usize);
                    }
                    if v == ni as int {
                        assert(t1[q as int] == v as usize);
                    }
                    if t1.contains(v as usize) && v != ni as int {
                        let a = choose|a: int| 0 <= a < t1.len() && t1[a] == v as usize;
                        assert(t0[a] == v as usize);
                    }
                }
            }
            q += 1;
        }
        assert(current@.take(q as int) =~= current@);
        let next = next_layer(nodes, links, &current, depth);
        proof {
            assert forall|u: usize|
                #![trigger next@.contains(u)]
                next@.contains(u) && u < n <==> in_layer(lv, nn, depth, (x + 1) as nat, u as nat) by {
                lemma_next_is_layer(lv, nn, depth, x as nat, current@, u);
            }
            assert forall|v: int| 0 <= v < n implies {
                &&& 0 <= #[trigger] ranks@[v] < x + 1
                &&& in_layer(lv, nn, depth, ranks@[v] as nat, v as nat)
                &&& forall|y: nat|
                    ranks@[v] < y < x + 1 ==> !#[trigger] in_layer(lv, nn, depth, y, v as nat)
            } by {
                if current@.contains(v as usize) {
                    assert(ranks@[v] == x);
                } else {
                    assert(!in_layer(lv, nn, depth, x as nat, v as nat));
                    if x == 0 {
                        assert(current@.contains(v as usize));
                    }
                }
            }
        }
        x += 1;
        current = next;
    }
    proof {
        assert forall|v: nat| !#[trigger] in_layer(lv, nn, depth, x as nat, v) by {
            if in_layer(lv, nn, depth, x as nat, v) {
                if v < nn {
                    assert(current@.contains(v as usize));
                } else {
                    if x == 0 {
                    } else {
                        let k = choose|k: int|
                            0 <= k < lv.len() && to_end(#[trigger] lv[k], depth) == v && in_layer(
                                lv,
                                nn,
                                depth,
                                (x - 1) as nat,
                                from_end(lv[k], depth),
                            );
                    }
                }
            }
        }
        assert forall|v: int| 0 <= v < n implies is_rank(lv, nn, depth, v as nat, #[trigger] ranks@[v] as int) by {
            assert(x > 0) by {
                if x == 0 {
                    assert(current@.contains(v as usize));
                }
            }
            assert forall|y: nat| y > ranks@[v] implies !#[trigger] in_layer(lv, nn, depth, y, v as nat) by {
                if y >= x {
                    lemma_layers_stay_empty(lv, nn, depth, x as nat, y);
                }
            }
        }
    }
    ranks
}


/// Law: along every flow the depth grows: a flow's target lies deeper than
/// its source (and, for heights, its source higher than its target).
pub proof fn ranks_grow_along_flows(links: Seq<LinkV>, n: nat, fwd: bool, ranks: Seq<int>)
    requires
        links_within(links, n),
        ranks.len() == n,
        forall|v: int| 0 <= v < n ==> is_rank(links, n, fwd, v as nat, #[trigger] ranks[v]),
    ensures
        forall|k: int|
            0 <= k < links.len() ==> ranks[to_end(#[trigger] links[k], fwd) as int] > ranks[from_end(
                links[k],
                fwd,
            ) as int],
{
    assert forall|k: int| 0 <= k < links.len() implies ranks[to_end(#[trigger] links[k], fwd) as int]
        > ranks[from_end(links[k], fwd) as int] by {
        let a = from_end(links[k], fwd);
        let b = to_end(links[k], fwd);
        assert(a < n && b < n);
        assert(is_rank(links, n, fwd, a, ranks[a as int]));
        assert(is_rank(links, n, fwd, b, ranks[b as int]));
        let y = (ranks[a as int] + 1) as nat;
        assert(in_layer(links, n, fwd, y, b));
    }
}

/// The Tableau 10 colour scheme that nodes take in turn.
pub open spec fn tableau10(i: nat) -> Seq<char> {
    if i == 0 {
        "#4e79a7"@
    } else if i == 1 {
        "#f28e2c"@
    } else if i == 2 {
        "#e15759"@
    } else if i == 3 {
        "#76b7b2"@
    } else if i == 4 {
        "#59a14f"@
    } else if i == 5 {
        "#edc949"@
    } else if i == 6 {
        "#af7aa1"@
    } else if i == 7 {
        "#ff9da7"@
    } else if i == 8 {
        "#9c755f"@
    } else {
        "#bab0ab"@
    }
}

/// The fill of node `i`, which its links' gradients start or end with:
/// the scheme, over and over.
pub fn node_color(i: usize) -> (r: &'static str)
    ensures
        r@ == tableau10((i % 10) as nat),
{
    let k = i % 10;
    if k == 0 {
        "#4e79a7"
    } else if k == 1 {
        "#f28e2c"
    } else if k == 2 {
        "#e15759"
    } else if k == 3 {
        "#76b7b2"
    } else if k == 4 {
        "#59a14f"
    } else if k == 5 {
        "#edc949"
    } else if k == 6 {
        "#af7aa1"
    } else if k == 7 {
        "#ff9da7"
    } else if k == 8 {
        "#9c755f"
    } else {
        "#bab0ab"
    }
}

proof fn lemma_layer_within(links: Seq<LinkV>, n: nat, fwd: bool, x: nat, v: nat)
    requires
        links_within(links, n),
        in_layer(links, n, fwd, x, v),
    ensures
        v < n,
{
    if x > 0 {
        let k = choose|k: int|
            0 <= k < links.len() && to_end(#[trigger] links[k], fwd) == v && in_layer(
                links,
                n,
                fwd,
                (x - 1) as nat,
                from_end(links[k], fwd),
            );
        assert(links[k].source < n && links[k].target < n);
    }
}

/// Some walk of `n` flows exists among the `n` nodes in direction `fwd`.
pub open spec fn has_walk_of_n(links: Seq<LinkV>, n: nat, fwd: bool) -> bool {
    exists|v: nat| #[trigger] in_layer(links, n, fwd, n, v)
}

/// Whether some walk of `n` flows exists in direction `fwd`: the nodes are
/// taken layer by layer, `n` times.
fn has_long_walk(nodes: &Vec<RankNode>, links: &Vec<Link>, fwd: bool) -> (b: bool)
    requires
        links@.len() <= usize::MAX,
        links_within(links@.map_values(|l: Link| l@), nodes@.len()),
        links_listed(nodes@, links@.map_values(|l: Link| l@)),
    ensures
        b == has_walk_of_n(links@.map_values(|l: Link| l@), nodes@.len(), fwd),
{
    let ghost lv = links@.map_values(|l: Link| l@);
    let n = nodes.len();
    let ghost nn = n as nat;
    let mut current: Vec<usize> = Vec::new();
    let mut v0: usize = 0;
    while v0 < n
        invariant
            v0 <= n,
            current@.len() == v0,
            forall|i: int| 0 <= i < v0 ==> current@[i] == i,
        decreases n - v0,
    {
        current.push(v0);
        v0 += 1;
    }
    proof {
        assert forall|u: usize| #![trigger current@.contains(u)] current@.contains(u) && u < n <==> in_layer(lv, nn, fwd, 0, u as nat) by {
            if u < n {
                assert(current@[u as int] == u);
            }
        }
    }
    let mut x: usize = 0;
    while x < n
        invariant
            lv == links@.map_values(|l: Link| l@),
            n == nodes@.len(),
            nn == n as nat,
            links@.len() <= usize::MAX,
            links_within(lv, nn),
            links_listed(nodes@, lv),
            x <= n,
            forall|i: int| 0 <= i < current@.len() ==> #[trigger] current@[i] < n,
            forall|u: usize|
                #![trigger current@.contains(u)]
                current@.contains(u) && u < n <==> in_layer(lv, nn, fwd, x as nat, u as nat),
        decreases n - x,
    {
        let next = next_layer(nodes, links, &current, fwd);
        proof {
            assert forall|u: usize| #![trigger next@.contains(u)] next@.contains(u) && u < n <==> in_layer(lv, nn, fwd, (x + 1) as nat, u as nat) by {
                lemma_next_is_layer(lv, nn, fwd, x as nat, current@, u);
            }
        }
        current = next;
        x += 1;
    }
    if current.len() > 0 {
        proof {
            let u = current@[0];
            assert(current@.contains(u));
            assert(in_layer(lv, nn, fwd, nn, u as nat));
        }
        true
    } else {
        proof {
            assert forall|v: nat| !#[trigger] in_layer(lv, nn, fwd, nn, v) by {
                if in_layer(lv, nn, fwd, nn, v) {
                    lemma_layer_within(lv, nn, fwd, nn, v);
                    assert(!current@.contains(v as usize));
                }
            }
        }
        false
    }
}

/// Rejects flows that form a cycle, as the sankey layout does ("circular
/// link"); the ranks are only defined without one.
pub fn check_circular_links(nodes: &Vec<RankNode>, links: &Vec<Link>) -> (r: Result<(), SankeyParseError>)
    requires
        links@.len() <= usize::MAX,
        links_within(links@.map_values(|l: Link| l@), nodes@.len()),
        links_listed(nodes@, links@.map_values(|l: Link| l@)),
    ensures
        r is Ok <==> acyclic(links@.map_values(|l: Link| l@), nodes@.len()),
        r matches Err(e) ==> e.message@ == "circular link"@,
{
    let ghost lv = links@.map_values(|l: Link| l@);
    let f = has_long_walk(nodes, links, true);
    let b = has_long_walk(nodes, links, false);
    if f || b {
        proof {
            if f {
                let v = choose|v: nat| in_layer(lv, nodes@.len(), true, nodes@.len(), v);
            } else {
                let v = choose|v: nat| in_layer(lv, nodes@.len(), false, nodes@.len(), v);
            }
        }
        Err(SankeyParseError { message: String::from_str("circular link") })
    } else {
        Ok(())
    }
}

/// The depths and heights of the nodes, or the circular-link error when
/// the flows form a cycle.
pub fn node_depths_and_heights(nodes: &Vec<RankNode>, links: &Vec<Link>) -> (r: Result<
    (Vec<i64>, Vec<i64>),
    SankeyParseError,
>)
    requires
        links@.len() <= usize::MAX,
        nodes@.len() <= i64::MAX,
        links_within(links@.map_values(|l: Link| l@), nodes@.len()),
        links_listed(nodes@, links@.map_values(|l: Link| l@)),
    ensures
        r is Ok <==> acyclic(links@.map_values(|l: Link| l@), nodes@.len()),
        r matches Err(e) ==> e.message@ == "circular link"@,
        r matches Ok((d, h)) ==> d@.len() == nodes@.len() && h@.len() == nodes@.len() && forall|v: int|
            0 <= v < nodes@.len() ==> is_rank(
                links@.map_values(|l: Link| l@),
                nodes@.len(),
                true,
                v as nat,
                #[trigger] d@[v] as int,
            ) && is_rank(links@.map_values(|l: Link| l@), nodes@.len(), false, v as nat, h@[v] as int),
{
    check_circular_links(nodes, links)?;
    let d = compute_ranks(nodes, links, true);
    let h = compute_ranks(nodes, links, false);
    Ok((d, h))
}

} // verus!
