//! `system_chart` diagrams: component boxes with a symbol kind, linked by
//! edges whose operator gives the connection type.
//!
//! Node lines are `id: symbol "Title" ["Subtitle"]`; edge lines are
//! `a OP b [: label]` with `OP` one of `-->` (call), `..>` (event), `==>`
//! (message via a queue) and `---` (association). Nodes are ranked by the
//! longest path from the sources, with a bounded number of relaxation
//! rounds so that cycles terminate.

use crate::strs::{
    chars_of, copy_range, debug_quote, debug_quoted, decimal, decimal_string, eq_str, find, find_char, find_char_exec, find_str, lines, lines_of, starts_with, starts_with_str, string_of, strip_prefix, strip_prefix_str, trim, trim_start, trim_start_vec, trim_vec, first_ws_from, is_ws, lemma_find_char_is, lemma_trim_start_ws, lemma_trim_start_suffix,
};
use crate::strs::is_ws_char;
use crate::svg::{
    append_element, attr_pair, element_with, new_element, serialize, xml_of, Element, ElementV,
};
use crate::themed_css::{theme_get, tv, ThemeVars};
use vstd::prelude::*;

verus! {

/// How two components are connected; encoded in the arrow's line style.
#[derive(Clone, Copy, PartialEq, Eq, Structural)]
pub enum EdgeKind {
    /// `-->`: synchronous call / request.
    Call,
    /// `..>`: event trigger / async notification.
    Event,
    /// `==>`: message via a queue or bus.
    Message,
    /// `---`: undirected association.
    Assoc,
}

/// Parse error for system charts.
pub struct SystemChartParseError(pub String);

pub struct Node {
    pub id: String,
    pub kind: String,
    pub title: String,
    pub subtitle: String,
}

pub struct EdgeDef {
    pub from: String,
    pub to: String,
    pub label: String,
    pub kind: EdgeKind,
}

pub struct Db {
    pub title: String,
    pub nodes: Vec<Node>,
    pub edges: Vec<EdgeDef>,
    /// A `legend` line is present: draw a key of the connection types used.
    pub legend: bool,
}

pub ghost struct NodeV {
    pub id: Seq<char>,
    pub kind: Seq<char>,
    pub title: Seq<char>,
    pub subtitle: Seq<char>,
}

pub ghost struct EdgeV {
    pub from: Seq<char>,
    pub to: Seq<char>,
    pub label: Seq<char>,
    pub kind: EdgeKind,
}

pub ghost struct DbV {
    pub title: Seq<char>,
    pub nodes: Seq<NodeV>,
    pub edges: Seq<EdgeV>,
    pub legend: bool,
}

impl View for Node {
    type V = NodeV;

    open spec fn view(&self) -> NodeV {
        NodeV { id: self.id@, kind: self.kind@, title: self.title@, subtitle: self.subtitle@ }
    }
}

impl View for EdgeDef {
    type V = EdgeV;

    open spec fn view(&self) -> EdgeV {
        EdgeV { from: self.from@, to: self.to@, label: self.label@, kind: self.kind }
    }
}

impl View for Db {
    type V = DbV;

    open spec fn view(&self) -> DbV {
        DbV {
            title: self.title@,
            nodes: self.nodes@.map_values(|n: Node| n@),
            edges: self.edges@.map_values(|e: EdgeDef| e@),
            legend: self.legend,
        }
    }
}

/// The symbol kinds with their accent (stroke/icon) and fill colours.
pub open spec fn symbols() -> Seq<(Seq<char>, Seq<char>, Seq<char>)> {
    seq![
        ("user"@, "#0284C7"@, "#F0F9FF"@),
        ("users"@, "#6366F1"@, "#EEF2FF"@),
        ("chat"@, "#3B82F6"@, "#EFF6FF"@),
        ("queue"@, "#D97706"@, "#FFFBEB"@),
        ("folder"@, "#F59E0B"@, "#FFFBEB"@),
        ("db"@, "#2563EB"@, "#EFF6FF"@),
        ("wiki"@, "#16A34A"@, "#F0FDF4"@),
        ("router"@, "#7C3AED"@, "#F5F3FF"@),
        ("llm"@, "#EA580C"@, "#FFF7ED"@),
        ("doc"@, "#64748B"@, "#F8FAFC"@),
        ("cloud"@, "#0891B2"@, "#ECFEFF"@),
        ("service"@, "#475569"@, "#F1F5F9"@),
        ("lock"@, "#DC2626"@, "#FEF2F2"@),
        ("server"@, "#059669"@, "#ECFDF5"@),
        ("cache"@, "#CA8A04"@, "#FEFCE8"@),
        ("api"@, "#0D9488"@, "#F0FDFA"@),
        ("fn"@, "#8B5CF6"@, "#F5F3FF"@),
        ("stream"@, "#0EA5E9"@, "#F0F9FF"@),
        ("scheduler"@, "#B45309"@, "#FFFBEB"@),
        ("browser"@, "#4F46E5"@, "#EEF2FF"@),
        ("mobile"@, "#DB2777"@, "#FDF2F8"@),
        ("metrics"@, "#65A30D"@, "#F7FEE7"@),
        ("mail"@, "#E11D48"@, "#FFF1F2"@),
        ("bucket"@, "#92400E"@, "#FEF3C7"@),
        ("key"@, "#A16207"@, "#FEFCE8"@),
        ("robot"@, "#C026D3"@, "#FDF4FF"@),
        ("search"@, "#0369A1"@, "#F0F9FF"@),
        ("file"@, "#78716C"@, "#FAFAF9"@),
        ("files"@, "#4D7C0F"@, "#F7FEE7"@),
        ("box"@, "#64748B"@, "#FFFFFF"@),
    ]
}

/// The first symbol entry at or after `i` whose name is `kind`.
pub open spec fn symbol_from(kind: Seq<char>, i: nat) -> Option<nat>
    decreases symbols().len() - i,
{
    if i >= symbols().len() {
        None
    } else if symbols()[i as int].0 == kind {
        Some(i)
    } else {
        symbol_from(kind, i + 1)
    }
}

/// The accent and fill colours of a symbol kind; unknown kinds are slate
/// on white.
pub open spec fn symbol_colors(kind: Seq<char>) -> (Seq<char>, Seq<char>) {
    match symbol_from(kind, 0) {
        Some(i) => (symbols()[i as int].1, symbols()[i as int].2),
        None => ("#64748B"@, "#FFFFFF"@),
    }
}

fn symbol_entry(i: usize) -> (r: (&'static str, &'static str, &'static str))
    requires
        i < 30,
    ensures
        (r.0@, r.1@, r.2@) == symbols()[i as int],
{
    match i {
        0 => ("user", "#0284C7", "#F0F9FF"),
        1 => ("users", "#6366F1", "#EEF2FF"),
        2 => ("chat", "#3B82F6", "#EFF6FF"),
        3 => ("queue", "#D97706", "#FFFBEB"),
        4 => ("folder", "#F59E0B", "#FFFBEB"),
        5 => ("db", "#2563EB", "#EFF6FF"),
        6 => ("wiki", "#16A34A", "#F0FDF4"),
        7 => ("router", "#7C3AED", "#F5F3FF"),
        8 => ("llm", "#EA580C", "#FFF7ED"),
        9 => ("doc", "#64748B", "#F8FAFC"),
        10 => ("cloud", "#0891B2", "#ECFEFF"),
        11 => ("service", "#475569", "#F1F5F9"),
        12 => ("lock", "#DC2626", "#FEF2F2"),
        13 => ("server", "#059669", "#ECFDF5"),
        14 => ("cache", "#CA8A04", "#FEFCE8"),
        15 => ("api", "#0D9488", "#F0FDFA"),
        16 => ("fn", "#8B5CF6", "#F5F3FF"),
        17 => ("stream", "#0EA5E9", "#F0F9FF"),
        18 => ("scheduler", "#B45309", "#FFFBEB"),
        19 => ("browser", "#4F46E5", "#EEF2FF"),
        20 => ("mobile", "#DB2777", "#FDF2F8"),
        21 => ("metrics", "#65A30D", "#F7FEE7"),
        22 => ("mail", "#E11D48", "#FFF1F2"),
        23 => ("bucket", "#92400E", "#FEF3C7"),
        24 => ("key", "#A16207", "#FEFCE8"),
        25 => ("robot", "#C026D3", "#FDF4FF"),
        26 => ("search", "#0369A1", "#F0F9FF"),
        27 => ("file", "#78716C", "#FAFAF9"),
        28 => ("files", "#4D7C0F", "#F7FEE7"),
        _ => ("box", "#64748B", "#FFFFFF"),
    }
}

/// [`symbol_colors`], executable.
pub fn symbol_colors_exec(kind: &str) -> (r: (&'static str, &'static str))
    ensures
        (r.0@, r.1@) == symbol_colors(kind@),
{
    let kv = chars_of(kind);
    let mut i: usize = 0;
    while i < 30
        invariant
            i <= 30,
            kv@ == kind@,
            symbol_from(kind@, 0) == symbol_from(kind@, i as nat),
        decreases 30 - i,
    {
        let (name, accent, fill) = symbol_entry(i);
        if eq_str(&kv, name) {
            return (accent, fill);
        }
        i += 1;
    }
    ("#64748B", "#FFFFFF")
}

/// The key text of each connection type.
pub open spec fn legend_kind_label(kind: EdgeKind) -> Seq<char> {
    match kind {
        EdgeKind::Call => "call"@,
        EdgeKind::Event => "event"@,
        EdgeKind::Message => "message"@,
        EdgeKind::Assoc => "association"@,
    }
}

/// [`legend_kind_label`], executable.
pub fn legend_kind_label_exec(kind: EdgeKind) -> (r: &'static str)
    ensures
        r@ == legend_kind_label(kind),
{
    match kind {
        EdgeKind::Call => "call",
        EdgeKind::Event => "event",
        EdgeKind::Message => "message",
        EdgeKind::Assoc => "association",
    }
}

/// Pulls a leading double-quoted string off `s`: its text and what follows
/// the closing quote.
pub open spec fn take_quoted(s: Seq<char>) -> Option<(Seq<char>, Seq<char>)> {
    match strip_prefix(trim_start(s), "\""@) {
        Some(rest) => match find_char(rest, '"') {
            Some(end) => Some((rest.take(end as int), rest.skip(end + 1 as int))),
            None => None,
        },
        None => None,
    }
}

/// [`take_quoted`], executable.
pub fn take_quoted_exec(s: &[char]) -> (r: Option<(Vec<char>, Vec<char>)>)
    ensures
        match r {
            Some((a, b)) => take_quoted(s@) == Some((a@, b@)),
            None => take_quoted(s@) is None,
        },
{
    let t = trim_start_vec(s);
    let rest = strip_prefix_str(&t, "\"")?;
    let found = find_char_exec(&rest, '"');
    match found {
        Some(end) => Some((copy_range(&rest, 0, end), copy_range(&rest, end + 1, rest.len()))),
        None => None,
    }
}

/// The edge operators in the order they are looked for.
pub open spec fn edge_ops() -> Seq<(Seq<char>, EdgeKind)> {
    seq![
        ("-->"@, EdgeKind::Call),
        ("..>"@, EdgeKind::Event),
        ("==>"@, EdgeKind::Message),
        ("---"@, EdgeKind::Assoc),
    ]
}

/// The first operator of [`edge_ops`] (from `k` on) that occurs in the
/// line: where it first occurs, and its kind.
pub open spec fn edge_op_from(line: Seq<char>, k: nat) -> Option<(nat, EdgeKind)>
    decreases 4 - k,
{
    if k >= 4 {
        None
    } else {
        match find(line, edge_ops()[k as int].0) {
            Some(pos) => Some((pos, edge_ops()[k as int].1)),
            None => edge_op_from(line, k + 1),
        }
    }
}

/// The parser's state between lines.
pub ghost struct StateV {
    pub db: DbV,
    pub found: bool,
}

pub open spec fn initial_state() -> StateV {
    StateV {
        db: DbV { title: Seq::empty(), nodes: Seq::empty(), edges: Seq::empty(), legend: false },
        found: false,
    }
}

/// An edge line `from OP to [: label]`, with the operator at `pos`.
pub open spec fn edge_line(db: DbV, line: Seq<char>, pos: nat, kind: EdgeKind) -> Result<DbV, Seq<char>> {
    let from = trim(line.take(pos as int));
    let rest = trim(line.skip(pos + 3 as int));
    let (to, label) = match find_char(rest, ':') {
        Some(c) => (trim(rest.take(c as int)), trim(rest.skip(c + 1 as int))),
        None => (rest, Seq::empty()),
    };
    if from.len() == 0 || to.len() == 0 {
        Err("bad edge line "@ + debug_quoted(line))
    } else {
        Ok(DbV { edges: db.edges.push(EdgeV { from, to, label, kind }), ..db })
    }
}

/// A node line `id: symbol "Title" ["Subtitle"]`.
pub open spec fn node_line(db: DbV, line: Seq<char>) -> Result<DbV, Seq<char>> {
    match find_char(line, ':') {
        None => Err("expected node or edge line, got "@ + debug_quoted(line)),
        Some(c) => {
            let id = line.take(c as int);
            let rest = trim_start(line.skip(c + 1 as int));
            let p = first_ws_from(rest, 0);
            let kind = rest.take(p as int);
            let after = rest.skip(p as int);
            if kind.len() == 0 {
                Err("node "@ + debug_quoted(id) + " is missing a symbol kind"@)
            } else {
                match take_quoted(after) {
                    None => Err("node "@ + debug_quoted(id) + " needs a quoted title"@),
                    Some((title, rest2)) => {
                        let subtitle = match take_quoted(rest2) {
                            Some((sub, _)) => sub,
                            None => Seq::empty(),
                        };
                        Ok(
                            DbV {
                                nodes: db.nodes.push(NodeV { id: trim(id), kind, title, subtitle }),
                                ..db
                            },
                        )
                    },
                }
            }
        },
    }
}

/// One source line.
pub open spec fn step(st: StateV, raw: Seq<char>) -> Result<StateV, Seq<char>> {
    let line = trim(raw);
    if line.len() == 0 || starts_with(line, "%%"@) || starts_with(line, "#"@) {
        Ok(st)
    } else if !st.found {
        if line == "system_chart"@ || starts_with(line, "system_chart "@) {
            Ok(StateV { found: true, ..st })
        } else {
            Err("expected system_chart header, got "@ + debug_quoted(line))
        }
    } else if let Some(rest) = strip_prefix(line, "title "@) {
        Ok(StateV { db: DbV { title: trim(rest), ..st.db }, ..st })
    } else if line == "legend"@ {
        Ok(StateV { db: DbV { legend: true, ..st.db }, ..st })
    } else if let Some((pos, kind)) = edge_op_from(line, 0) {
        match edge_line(st.db, line, pos, kind) {
            Ok(db) => Ok(StateV { db, ..st }),
            Err(e) => Err(e),
        }
    } else {
        match node_line(st.db, line) {
            Ok(db) => Ok(StateV { db, ..st }),
            Err(e) => Err(e),
        }
    }
}

/// The lines of `ls` applied in order from `st`; the first error stops.
pub open spec fn run(st: StateV, ls: Seq<Seq<char>>) -> Result<StateV, Seq<char>>
    decreases ls.len(),
{
    if ls.len() == 0 {
        Ok(st)
    } else {
        match step(st, ls[0]) {
            Ok(st1) => run(st1, ls.drop_first()),
            Err(e) => Err(e),
        }
    }
}

/// What [`parse`] gives for `source`.
pub open spec fn parse_result(source: Seq<char>) -> Result<DbV, Seq<char>> {
    match run(initial_state(), lines(source)) {
        Ok(st) => if st.found {
            Ok(st.db)
        } else {
            Err("missing system_chart header"@)
        },
        Err(e) => Err(e),
    }
}

fn edge_op_entry(k: usize) -> (r: (&'static str, EdgeKind))
    requires
        k < 4,
    ensures
        (r.0@, r.1) == edge_ops()[k as int],
{
    match k {
        0 => ("-->", EdgeKind::Call),
        1 => ("..>", EdgeKind::Event),
        2 => ("==>", EdgeKind::Message),
        _ => ("---", EdgeKind::Assoc),
    }
}

/// [`edge_op_from`] from the first operator, executable.
pub fn edge_op_exec(line: &[char]) -> (r: Option<(usize, EdgeKind)>)
    ensures
        match r {
            Some((pos, kind)) => edge_op_from(line@, 0) == Some((pos as nat, kind)) && pos + 3
                <= line.len(),
            None => edge_op_from(line@, 0) is None,
        },
{
    let mut k: usize = 0;
    while k < 4
        invariant
            k <= 4,
            edge_op_from(line@, 0) == edge_op_from(line@, k as nat),
        decreases 4 - k,
    {
        let (op, kind) = edge_op_entry(k);
        proof {
            reveal_strlit("-->");
            reveal_strlit("..>");
            reveal_strlit("==>");
            reveal_strlit("---");
        }
        match find_str(line, op) {
            Some(pos) => {
                return Some((pos, kind));
            },
            None => {},
        }
        k += 1;
    }
    None
}

fn quoted(s: &[char]) -> (r: String)
    ensures
        r@ == debug_quoted(s@),
{
    let st = string_of(s);
    debug_quote(st.as_str())
}

impl Db {
    /// [`edge_line`], executable.
    pub fn edge_line(&mut self, line: &[char], pos: usize, kind: EdgeKind) -> (r: Result<(), String>)
        requires
            pos + 3 <= line.len(),
        ensures
            match (r, edge_line(old(self)@, line@, pos as nat, kind)) {
                (Ok(()), Ok(db)) => final(self)@ == db,
                (Err(m), Err(e)) => m@ == e,
                _ => false,
            },
    {
        let h = copy_range(line, 0, pos);
        let from = trim_vec(&h);
        let t = copy_range(line, pos + 3, line.len());
        let rest = trim_vec(&t);
        let found = find_char_exec(&rest, ':');
        let (to, label) = match found {
            Some(c) => {
                let a = copy_range(&rest, 0, c);
                let b = copy_range(&rest, c + 1, rest.len());
                (trim_vec(&a), trim_vec(&b))
            },
            None => (rest, Vec::new()),
        };
        if from.len() == 0 || to.len() == 0 {
            let mut m = String::from_str("bad edge line ");
            let q = quoted(line);
            m.append(q.as_str());
            return Err(m);
        }
        let e = EdgeDef { from: string_of(&from), to: string_of(&to), label: string_of(&label), kind };
        self.edges.push(e);
        proof {
            assert(self@.edges =~= old(self)@.edges.push(e@));
        }
        Ok(())
    }

    /// [`node_line`], executable.
    pub fn node_line(&mut self, line: &[char]) -> (r: Result<(), String>)
        ensures
            match (r, node_line(old(self)@, line@)) {
                (Ok(()), Ok(db)) => final(self)@ == db,
                (Err(m), Err(e)) => m@ == e,
                _ => false,
            },
    {
        let found = find_char_exec(line, ':');
        let c = match found {
            Some(c) => c,
            None => {
                let mut m = String::from_str("expected node or edge line, got ");
                let q = quoted(line);
                m.append(q.as_str());
                return Err(m);
            },
        };
        let id = copy_range(line, 0, c);
        let t = copy_range(line, c + 1, line.len());
        let rest = trim_start_vec(&t);
        let mut p: usize = 0;
        while p < rest.len() && !is_ws_char(rest[p])
            invariant
                p <= rest@.len(),
                first_ws_from(rest@, 0) == first_ws_from(rest@, p as nat),
            decreases rest@.len() - p,
        {
            p += 1;
        }
        let kind = copy_range(&rest, 0, p);
        let after = copy_range(&rest, p, rest.len());
        if kind.len() == 0 {
            let mut m = String::from_str("node ");
            let q = quoted(&id);
            m.append(q.as_str());
            m.append(" is missing a symbol kind");
            return Err(m);
        }
        let (title, rest2) = match take_quoted_exec(&after) {
            Some(x) => x,
            None => {
                let mut m = String::from_str("node ");
                let q = quoted(&id);
                m.append(q.as_str());
                m.append(" needs a quoted title");
                return Err(m);
            },
        };
        let subtitle = match take_quoted_exec(&rest2) {
            Some((sub, _)) => sub,
            None => Vec::new(),
        };
        let idt = trim_vec(&id);
        let n = Node {
            id: string_of(&idt),
            kind: string_of(&kind),
            title: string_of(&title),
            subtitle: string_of(&subtitle),
        };
        self.nodes.push(n);
        proof {
            assert(self@.nodes =~= old(self)@.nodes.push(n@));
        }
        Ok(())
    }
}

/// The parser's state between lines.
pub struct State {
    pub db: Db,
    pub found: bool,
}

impl View for State {
    type V = StateV;

    open spec fn view(&self) -> StateV {
        StateV { db: self.db@, found: self.found }
    }
}

impl State {
    /// [`step`], executable.
    pub fn step(&mut self, raw: &[char]) -> (r: Result<(), String>)
        ensures
            match (r, step(old(self)@, raw@)) {
                (Ok(()), Ok(st)) => final(self)@ == st,
                (Err(m), Err(e)) => m@ == e,
                _ => false,
            },
    {
        let line = trim_vec(raw);
        if line.len() == 0 || starts_with_str(&line, "%%") || starts_with_str(&line, "#") {
            return Ok(());
        }
        if !self.found {
            if eq_str(&line, "system_chart") || starts_with_str(&line, "system_chart ") {
                self.found = true;
                return Ok(());
            }
            let mut m = String::from_str("expected system_chart header, got ");
            let q = quoted(&line);
            m.append(q.as_str());
            return Err(m);
        }
        if let Some(rest) = strip_prefix_str(&line, "title ") {
            let t = trim_vec(&rest);
            self.db.title = string_of(&t);
            return Ok(());
        }
        if eq_str(&line, "legend") {
            self.db.legend = true;
            return Ok(());
        }
        if let Some((pos, kind)) = edge_op_exec(&line) {
            return self.db.edge_line(&line, pos, kind);
        }
        self.db.node_line(&line)
    }
}

/// Parses system_chart source.
pub fn parse(source: &str) -> (r: Result<Db, SystemChartParseError>)
    ensures
        match (r, parse_result(source@)) {
            (Ok(db), Ok(v)) => db@ == v,
            (Err(e), Err(m)) => e.0@ == m,
            _ => false,
        },
{
    let src = chars_of(source);
    let ls = lines_of(&src);
    let mut st = State {
        db: Db { title: String::new(), nodes: Vec::new(), edges: Vec::new(), legend: false },
        found: false,
    };
    let ghost all = lines(source@);
    proof {
        assert(st@.db.nodes =~= Seq::<NodeV>::empty());
        assert(st@.db.edges =~= Seq::<EdgeV>::empty());
        assert(st@ == initial_state());
        assert(all.skip(0) =~= all);
    }
    let mut i: usize = 0;
    while i < ls.len()
        invariant
            i <= ls@.len(),
            ls@.len() == all.len(),
            all == lines(source@),
            forall|j: int| 0 <= j < ls@.len() ==> #[trigger] ls@[j]@ == all[j],
            run(initial_state(), all) == run(st@, all.skip(i as int)),
        decreases ls@.len() - i,
    {
        proof {
            assert(all.skip(i as int)[0] == all[i as int]);
            assert(all.skip(i as int).drop_first() =~= all.skip(i + 1));
        }
        match st.step(&ls[i]) {
            Ok(()) => {},
            Err(m) => {
                return Err(SystemChartParseError(m));
            },
        }
        i += 1;
    }
    proof {
        assert(all.skip(i as int) =~= Seq::<Seq<char>>::empty());
    }
    if !st.found {
        return Err(SystemChartParseError(String::from_str("missing system_chart header")));
    }
    Ok(st.db)
}

/// The position a node id maps to: the last node declared with that id.
pub open spec fn node_index(nodes: Seq<NodeV>, id: Seq<char>) -> Option<nat>
    decreases nodes.len(),
{
    if nodes.len() == 0 {
        None
    } else if nodes.last().id == id {
        Some((nodes.len() - 1) as nat)
    } else {
        node_index(nodes.drop_last(), id)
    }
}

pub proof fn lemma_node_index(nodes: Seq<NodeV>, id: Seq<char>)
    ensures
        node_index(nodes, id) matches Some(i) ==> i < nodes.len() && nodes[i as int].id == id,
    decreases nodes.len(),
{
    if nodes.len() > 0 && nodes.last().id != id {
        lemma_node_index(nodes.drop_last(), id);
    }
}

/// The first edge end, in edge order and `from` before `to`, that names no
/// declared node.
pub open spec fn first_undeclared(nodes: Seq<NodeV>, edges: Seq<EdgeV>) -> Option<Seq<char>>
    decreases edges.len(),
{
    if edges.len() == 0 {
        None
    } else if node_index(nodes, edges[0].from) is None {
        Some(edges[0].from)
    } else if node_index(nodes, edges[0].to) is None {
        Some(edges[0].to)
    } else {
        first_undeclared(nodes, edges.drop_first())
    }
}

/// [`node_index`], executable.
pub fn node_index_exec(nodes: &Vec<Node>, id: &str) -> (r: Option<usize>)
    ensures
        match r {
            Some(i) => node_index(nodes@.map_values(|n: Node| n@), id@) == Some(i as nat) && i
                < nodes@.len(),
            None => node_index(nodes@.map_values(|n: Node| n@), id@) is None,
        },
{
    let ghost nv = nodes@.map_values(|n: Node| n@);
    let mut j = nodes.len();
    assert(nv.take(j as int) =~= nv);
    while j > 0
        invariant
            j <= nodes@.len(),
            nv == nodes@.map_values(|n: Node| n@),
            node_index(nv, id@) == node_index(nv.take(j as int), id@),
        decreases j,
    {
        let ghost t = nv.take(j as int);
        assert(t.drop_last() =~= nv.take(j - 1));
        let c = chars_of(nodes[j - 1].id.as_str());
        if eq_str(&c, id) {
            return Some(j - 1);
        }
        j -= 1;
    }
    None
}

/// Checks that every edge end names a declared node.
pub fn validate_edges(db: &Db) -> (r: Result<(), SystemChartParseError>)
    ensures
        match r {
            Ok(()) => first_undeclared(db@.nodes, db@.edges) is None,
            Err(e) => first_undeclared(db@.nodes, db@.edges) matches Some(end) && e.0@
                == "edge references undeclared node "@ + debug_quoted(end),
        },
{
    let ghost ev = db@.edges;
    let mut i: usize = 0;
    assert(ev.skip(0) =~= ev);
    while i < db.edges.len()
        invariant
            i <= ev.len(),
            ev == db@.edges,
            first_undeclared(db@.nodes, ev) == first_undeclared(db@.nodes, ev.skip(i as int)),
        decreases ev.len() - i,
    {
        proof {
            assert(ev.skip(i as int)[0] == ev[i as int]);
            assert(ev.skip(i as int).drop_first() =~= ev.skip(i + 1));
        }
        let e = &db.edges[i];
        if node_index_exec(&db.nodes, e.from.as_str()).is_none() {
            let mut m = String::from_str("edge references undeclared node ");
            let q = debug_quote(e.from.as_str());
            m.append(q.as_str());
            return Err(SystemChartParseError(m));
        }
        if node_index_exec(&db.nodes, e.to.as_str()).is_none() {
            let mut m = String::from_str("edge references undeclared node ");
            let q = debug_quote(e.to.as_str());
            m.append(q.as_str());
            return Err(SystemChartParseError(m));
        }
        i += 1;
    }
    proof {
        assert(ev.skip(i as int) =~= Seq::<EdgeV>::empty());
    }
    Ok(())
}

/// The node positions an edge joins.
pub open spec fn edge_ends(nodes: Seq<NodeV>, edges: Seq<EdgeV>) -> Seq<(Option<nat>, Option<nat>)> {
    edges.map_values(|e: EdgeV| (node_index(nodes, e.from), node_index(nodes, e.to)))
}

/// One relaxation: the target of an edge moves one rank below its source
/// when that is lower than where it is and stays under `n`.
pub open spec fn relax(rank: Seq<usize>, a: Option<nat>, b: Option<nat>, n: nat) -> (Seq<usize>, bool) {
    match (a, b) {
        (Some(a), Some(b)) => if a != b && rank[b as int] < rank[a as int] + 1 && rank[a as int] + 1
            < n {
            (rank.update(b as int, (rank[a as int] + 1) as usize), true)
        } else {
            (rank, false)
        },
        _ => (rank, false),
    }
}

/// The first `k` edges relaxed in order; whether any rank changed.
pub open spec fn relax_pass(rank: Seq<usize>, ends: Seq<(Option<nat>, Option<nat>)>, k: nat, n: nat) -> (
    Seq<usize>,
    bool,
)
    decreases k,
{
    if k == 0 {
        (rank, false)
    } else {
        let (r1, c1) = relax_pass(rank, ends, (k - 1) as nat, n);
        let (r2, c2) = relax(r1, ends[k - 1].0, ends[k - 1].1, n);
        (r2, c1 || c2)
    }
}

/// At most `m` passes, stopping after a pass that changed nothing.
pub open spec fn relax_rounds(rank: Seq<usize>, ends: Seq<(Option<nat>, Option<nat>)>, n: nat, m: nat) -> Seq<usize>
    decreases m,
{
    if m == 0 {
        rank
    } else {
        let (r1, c) = relax_pass(rank, ends, ends.len(), n);
        if c {
            relax_rounds(r1, ends, n, (m - 1) as nat)
        } else {
            r1
        }
    }
}

/// The rank of each node, computed by relaxing every edge between
/// declared, distinct nodes in passes (at most one per node, stopping when
/// a pass changes nothing), each rank kept below the node count. On edges
/// without a cycle this is the longest path ending at the node
/// ([`ranks_are_longest_paths`]); on any edges, one rank per node, each
/// below the node count ([`ranks_below_node_count`]).
pub open spec fn ranks(db: DbV) -> Seq<usize> {
    let n = db.nodes.len();
    relax_rounds(Seq::new(n, |i: int| 0usize), edge_ends(db.nodes, db.edges), n, n)
}

/// [`ranks`], executable.
pub fn ranks_exec(db: &Db) -> (r: Vec<usize>)
    ensures
        r@ == ranks(db@),
{
    let n = db.nodes.len();
    let ghost nv = db@.nodes;
    let mut ends: Vec<(Option<usize>, Option<usize>)> = Vec::new();
    let mut i: usize = 0;
    while i < db.edges.len()
        invariant
            i <= db@.edges.len(),
            nv == db@.nodes,
            nv.len() == n,
            ends@.len() == i,
            forall|j: int| #![trigger ends@[j]] 0 <= j < i ==> {
                let ex = edge_ends(nv, db@.edges)[j];
                &&& ends@[j].0 matches Some(a) ==> ex.0 == Some(a as nat) && a < n
                &&& ends@[j].0 is None ==> ex.0 is None
                &&& ends@[j].1 matches Some(b) ==> ex.1 == Some(b as nat) && b < n
                &&& ends@[j].1 is None ==> ex.1 is None
            },
        decreases db@.edges.len() - i,
    {
        let a = node_index_exec(&db.nodes, db.edges[i].from.as_str());
        let b = node_index_exec(&db.nodes, db.edges[i].to.as_str());
        ends.push((a, b));
        i += 1;
    }
    let ghost ev = edge_ends(nv, db@.edges);
    let mut rank: Vec<usize> = Vec::new();
    let mut k: usize = 0;
    while k < n
        invariant
            k <= n,
            rank@.len() == k,
            forall|j: int| 0 <= j < k ==> rank@[j] == 0usize,
        decreases n - k,
    {
        rank.push(0);
        k += 1;
    }
    assert(rank@ =~= Seq::new(n as nat, |i: int| 0usize));
    let mut round: usize = 0;
    while round < n
        invariant
            round <= n,
            rank@.len() == n,
            ends@.len() == ev.len(),
            forall|j: int| #![trigger ends@[j]] 0 <= j < ends@.len() ==> {
                &&& ends@[j].0 matches Some(a) ==> ev[j].0 == Some(a as nat) && a < n
                &&& ends@[j].0 is None ==> ev[j].0 is None
                &&& ends@[j].1 matches Some(b) ==> ev[j].1 == Some(b as nat) && b < n
                &&& ends@[j].1 is None ==> ev[j].1 is None
            },
            ranks(db@) == relax_rounds(rank@, ev, n as nat, (n - round) as nat),
            forall|j: int| 0 <= j < rank@.len() ==> rank@[j] < n,
        decreases n - round,
    {
        let ghost start = rank@;
        let mut changed = false;
        let mut e: usize = 0;
        while e < ends.len()
            invariant
                e <= ends@.len(),
                rank@.len() == n,
                ends@.len() == ev.len(),
                forall|j: int| #![trigger ends@[j]] 0 <= j < ends@.len() ==> {
                    &&& ends@[j].0 matches Some(a) ==> ev[j].0 == Some(a as nat) && a < n
                    &&& ends@[j].0 is None ==> ev[j].0 is None
                    &&& ends@[j].1 matches Some(b) ==> ev[j].1 == Some(b as nat) && b < n
                    &&& ends@[j].1 is None ==> ev[j].1 is None
                },
                relax_pass(start, ev, e as nat, n as nat) == (rank@, changed),
                forall|j: int| 0 <= j < rank@.len() ==> rank@[j] < n,
            decreases ends@.len() - e,
        {
            let (a, b) = ends[e];
            match (a, b) {
                (Some(a), Some(b)) => {
                    if a != b && rank[b] < rank[a] + 1 && rank[a] + 1 < n {
                        let v = rank[a] + 1;
                        rank.set(b, v);
                        changed = true;
                    }
                },
                _ => {},
            }
            e += 1;
        }
        if !changed {
            proof {
                assert(relax_rounds(start, ev, n as nat, (n - round) as nat) == rank@);
            }
            return rank;
        }
        round += 1;
    }
    rank
}

/// All ranks below `n`, for a rank list of length `len`.
pub open spec fn ranks_below(rank: Seq<usize>, len: nat, n: nat) -> bool {
    rank.len() == len && forall|j: int| 0 <= j < rank.len() ==> rank[j] < n
}

proof fn lemma_relax_pass_bounded(rank: Seq<usize>, ends: Seq<(Option<nat>, Option<nat>)>, k: nat, n: nat)
    requires
        ranks_below(rank, n, n),
        k <= ends.len(),
        forall|j: int| #![trigger ends[j]] 0 <= j < ends.len() ==> (ends[j].0 matches Some(a) ==> a < n) && (
        ends[j].1 matches Some(b) ==> b < n),
    ensures
        ranks_below(relax_pass(rank, ends, k, n).0, n, n),
    decreases k,
{
    if k > 0 {
        lemma_relax_pass_bounded(rank, ends, (k - 1) as nat, n);
    }
}

proof fn lemma_relax_rounds_bounded(rank: Seq<usize>, ends: Seq<(Option<nat>, Option<nat>)>, n: nat, m: nat)
    requires
        ranks_below(rank, n, n),
        forall|j: int| #![trigger ends[j]] 0 <= j < ends.len() ==> (ends[j].0 matches Some(a) ==> a < n) && (
        ends[j].1 matches Some(b) ==> b < n),
    ensures
        ranks_below(relax_rounds(rank, ends, n, m), n, n),
    decreases m,
{
    if m > 0 {
        lemma_relax_pass_bounded(rank, ends, ends.len(), n);
        let (r1, c) = relax_pass(rank, ends, ends.len(), n);
        if c {
            lemma_relax_rounds_bounded(r1, ends, n, (m - 1) as nat);
        }
    }
}

/// Law: there is one rank per node, and every rank is below the number of
/// nodes, whatever the edges (cycles included).
pub proof fn ranks_below_node_count(db: DbV)
    ensures
        ranks(db).len() == db.nodes.len(),
        forall|j: int| 0 <= j < ranks(db).len() ==> ranks(db)[j] < db.nodes.len(),
{
    let n = db.nodes.len();
    let ends = edge_ends(db.nodes, db.edges);
    assert forall|j: int| #![trigger ends[j]] 0 <= j < ends.len() implies (ends[j].0 matches Some(a) ==> a < n) && (
    ends[j].1 matches Some(b) ==> b < n) by {
        lemma_node_index(db.nodes, db.edges[j].from);
        lemma_node_index(db.nodes, db.edges[j].to);
    }
    lemma_relax_rounds_bounded(Seq::new(n, |i: int| 0usize), ends, n, n);
}

/// The positions `i < k` whose rank is `r`, in order.
pub open spec fn members(rank: Seq<usize>, r: nat, k: nat) -> Seq<nat>
    decreases k,
{
    if k == 0 {
        Seq::empty()
    } else if rank[k - 1] == r {
        members(rank, r, (k - 1) as nat).push((k - 1) as nat)
    } else {
        members(rank, r, (k - 1) as nat)
    }
}

/// The largest rank (zero when there are none).
pub open spec fn max_rank(rank: Seq<usize>) -> nat
    decreases rank.len(),
{
    if rank.len() == 0 {
        0
    } else {
        let m = max_rank(rank.drop_last());
        if rank.last() > m {
            rank.last() as nat
        } else {
            m
        }
    }
}

/// Nodes grouped by rank: one row per rank up to the largest, each listing
/// its nodes in declaration order.
pub open spec fn rank_rows(rank: Seq<usize>) -> Seq<Seq<nat>> {
    Seq::new(max_rank(rank) + 1, |r: int| members(rank, r as nat, rank.len()))
}

/// [`rank_rows`], executable.
pub fn rank_rows_exec(rank: &Vec<usize>) -> (rows: Vec<Vec<usize>>)
    ensures
        rows@.len() == rank_rows(rank@).len(),
        forall|r: int| 0 <= r < rows@.len() ==> (#[trigger] rows@[r])@.map_values(|x: usize| x as nat)
            == rank_rows(rank@)[r],
{
    let mut m: usize = 0;
    let mut i: usize = 0;
    while i < rank.len()
        invariant
            i <= rank@.len(),
            m == max_rank(rank@.take(i as int)),
        decreases rank@.len() - i,
    {
        proof {
            assert(rank@.take(i + 1).drop_last() =~= rank@.take(i as int));
        }
        if rank[i] > m {
            m = rank[i];
        }
        i += 1;
    }
    assert(rank@.take(i as int) =~= rank@);
    let mut rows: Vec<Vec<usize>> = Vec::new();
    let mut r: usize = 0;
    while r <= m
        invariant_except_break
            r <= m,
            rows@.len() == r,
        invariant
            m == max_rank(rank@),
            forall|q: int| 0 <= q < rows@.len() ==> (#[trigger] rows@[q])@.map_values(
                |x: usize| x as nat,
            ) == members(rank@, q as nat, rank@.len()),
        ensures
            rows@.len() == m + 1,
        decreases m + 1 - r,
    {
        let mut row: Vec<usize> = Vec::new();
        let mut k: usize = 0;
        while k < rank.len()
            invariant
                k <= rank@.len(),
                row@.map_values(|x: usize| x as nat) == members(rank@, r as nat, k as nat),
            decreases rank@.len() - k,
        {
            if rank[k] == r {
                let ghost before = row@;
                row.push(k);
                proof {
                    assert(row@.map_values(|x: usize| x as nat) =~= before.map_values(
                        |x: usize| x as nat,
                    ).push(k as nat));
                }
            }
            k += 1;
        }
        rows.push(row);
        if r == m {
            break;
        }
        r += 1;
    }
    rows
}

impl SystemChartParseError {
    /// The error as a message.
    pub fn display(&self) -> (s: String)
        ensures
            s@ == "system_chart parse error: "@ + self.0@,
    {
        let mut s = String::from_str("system_chart parse error: ");
        s.append(self.0.as_str());
        s
    }
}


/// The markup of a system chart with nothing to draw.
pub open spec fn empty_svg_spec(id: Seq<char>) -> Seq<char> {
    xml_of(
        ElementV {
            tag: "svg"@,
            attrs: seq![
                ("id"@, id),
                ("xmlns"@, "http://www.w3.org/2000/svg"@),
                ("aria-roledescription"@, "system_chart"@),
            ],
            children: Seq::empty(),
            xhtml: false,
        },
    )
}

/// An empty `<svg>` with the diagram's id, the SVG namespace and the
/// system chart role.
pub fn empty_svg(id: &str) -> (r: String)
    ensures
        r@ == empty_svg_spec(id@),
{
    let mut a: Vec<(String, String)> = Vec::new();
    a.push(attr_pair("id", id));
    a.push(attr_pair("xmlns", "http://www.w3.org/2000/svg"));
    a.push(attr_pair("aria-roledescription", "system_chart"));
    let svg = element_with("svg", a);
    assert(svg@.attrs =~= seq![
        ("id"@, id@),
        ("xmlns"@, "http://www.w3.org/2000/svg"@),
        ("aria-roledescription"@, "system_chart"@),
    ]);
    let mut out = String::new();
    serialize(&svg, &mut out);
    assert(out@ =~= empty_svg_spec(id@));
    out
}

/// One rule of the system chart stylesheet: `#id` and the rest.
pub open spec fn id_rule(id: Seq<char>, rest: Seq<char>) -> Seq<char> {
    "#"@ + id + rest
}

/// The system chart stylesheet for diagram `id`: the theme's font and text
/// colour, with `title_stroke` and `node_title_stroke` the declarations
/// that embolden the chart title and the node titles.
pub open spec fn system_chart_css_text(
    id: Seq<char>,
    font: Seq<char>,
    text_color: Seq<char>,
    title_stroke: Seq<char>,
    node_title_stroke: Seq<char>,
) -> Seq<char> {
    id_rule(id, "{font-family:"@ + font + ";}"@) + id_rule(
        id,
        " .system-chart-title{font-size:20px;font-weight:bold;fill:"@ + text_color + ";"@
            + title_stroke + "}"@,
    ) + id_rule(id, " .system-chart-node-rect{stroke-width:1.5px;}"@) + id_rule(
        id,
        " .system-chart-node-title{font-size:16px;font-weight:bold;fill:#1a1a1a;"@ + node_title_stroke
            + "}"@,
    ) + id_rule(id, " .system-chart-node-sub{font-size:13px;fill:#52525B;}"@) + id_rule(
        id,
        " .system-chart-edge{fill:none;stroke-width:2px;}"@,
    ) + id_rule(id, " .system-chart-edge-event{stroke-dasharray:6 5;}"@) + id_rule(
        id,
        " .system-chart-edge-message{stroke-width:3px;}"@,
    ) + id_rule(id, " .system-chart-edge-assoc{stroke-width:1.5px;}"@) + id_rule(
        id,
        " .system-chart-envelope{fill:white;stroke-width:1.5px;stroke-linejoin:round;}"@,
    ) + id_rule(id, " .system-chart-envelope path{fill:none;}"@) + id_rule(
        id,
        " .system-chart-edge-label{font-size:13px;font-weight:bold;paint-order:stroke;stroke:white;stroke-width:4px;stroke-linejoin:round;}"@,
    ) + id_rule(id, " .system-chart-legend-box{fill:#FFFFFF;stroke:#64748B;stroke-width:1px;}"@)
        + id_rule(id, " .system-chart-legend-label{font-size:12px;fill:#3F3F46;}"@) + id_rule(
        id,
        " .system-chart-icon-stroke{fill:none;stroke-width:1.7px;stroke-linecap:round;stroke-linejoin:round;}"@,
    ) + id_rule(id, " .system-chart-icon-fill{stroke:none;}"@)
}

fn push_id_rule(o: &mut String, id: &str, rest: &str)
    ensures
        final(o)@ == old(o)@ + id_rule(id@, rest@),
{
    let mut r = String::from_str("#");
    r.append(id);
    r.append(rest);
    o.append(r.as_str());
}

/// The system chart stylesheet (see [`system_chart_css_text`]): font and
/// text colour from the theme; the two emboldening declaration lists are
/// handed in.
pub fn system_chart_css(id: &str, vars: &ThemeVars, title_stroke: &str, node_title_stroke: &str) -> (r:
    String)
    ensures
        r@ == system_chart_css_text(
            id@,
            tv(vars@, "fontFamily"@),
            tv(vars@, "textColor"@),
            title_stroke@,
            node_title_stroke@,
        ),
{
    let font = theme_get(vars, "fontFamily");
    let text_color = theme_get(vars, "textColor");
    let mut o = String::new();
    let mut b = String::from_str("{font-family:");
    b.append(font.as_str());
    b.append(";}");
    push_id_rule(&mut o, id, b.as_str());
    let mut b = String::from_str(" .system-chart-title{font-size:20px;font-weight:bold;fill:");
    b.append(text_color.as_str());
    b.append(";");
    b.append(title_stroke);
    b.append("}");
    push_id_rule(&mut o, id, b.as_str());
    push_id_rule(&mut o, id, " .system-chart-node-rect{stroke-width:1.5px;}");
    let mut b = String::from_str(" .system-chart-node-title{font-size:16px;font-weight:bold;fill:#1a1a1a;");
    b.append(node_title_stroke);
    b.append("}");
    push_id_rule(&mut o, id, b.as_str());
    push_id_rule(&mut o, id, " .system-chart-node-sub{font-size:13px;fill:#52525B;}");
    push_id_rule(&mut o, id, " .system-chart-edge{fill:none;stroke-width:2px;}");
    push_id_rule(&mut o, id, " .system-chart-edge-event{stroke-dasharray:6 5;}");
    push_id_rule(&mut o, id, " .system-chart-edge-message{stroke-width:3px;}");
    push_id_rule(&mut o, id, " .system-chart-edge-assoc{stroke-width:1.5px;}");
    push_id_rule(
        &mut o,
        id,
        " .system-chart-envelope{fill:white;stroke-width:1.5px;stroke-linejoin:round;}",
    );
    push_id_rule(&mut o, id, " .system-chart-envelope path{fill:none;}");
    push_id_rule(
        &mut o,
        id,
        " .system-chart-edge-label{font-size:13px;font-weight:bold;paint-order:stroke;stroke:white;stroke-width:4px;stroke-linejoin:round;}",
    );
    push_id_rule(&mut o, id, " .system-chart-legend-box{fill:#FFFFFF;stroke:#64748B;stroke-width:1px;}");
    push_id_rule(&mut o, id, " .system-chart-legend-label{font-size:12px;fill:#3F3F46;}");
    push_id_rule(
        &mut o,
        id,
        " .system-chart-icon-stroke{fill:none;stroke-width:1.7px;stroke-linecap:round;stroke-linejoin:round;}",
    );
    push_id_rule(&mut o, id, " .system-chart-icon-fill{stroke:none;}");
    proof {
        let e = Seq::<char>::empty();
        assert(e + id_rule(id@, "{font-family:"@ + font@ + ";}"@) =~= id_rule(
            id@,
            "{font-family:"@ + font@ + ";}"@,
        ));
    }
    o
}

/// The accent colour of the node an edge leaves.
pub open spec fn edge_accent(db: DbV, e: EdgeV) -> Seq<char> {
    match node_index(db.nodes, e.from) {
        Some(i) => symbol_colors(db.nodes[i as int].kind).0,
        None => Seq::empty(),
    }
}

/// The distinct accent colours of the directed edges among the first `k`,
/// in order of first use.
pub open spec fn marker_colors_upto(db: DbV, k: nat) -> Seq<Seq<char>>
    decreases k,
{
    if k == 0 {
        Seq::empty()
    } else {
        let prev = marker_colors_upto(db, (k - 1) as nat);
        let e = db.edges[k - 1];
        let c = edge_accent(db, e);
        if e.kind != EdgeKind::Assoc && !prev.contains(c) {
            prev.push(c)
        } else {
            prev
        }
    }
}

/// The colours that get an arrowhead marker: one per accent colour that a
/// directed edge uses.
pub open spec fn marker_colors(db: DbV) -> Seq<Seq<char>> {
    marker_colors_upto(db, db.edges.len())
}

proof fn lemma_first_undeclared(nodes: Seq<NodeV>, edges: Seq<EdgeV>, i: int)
    requires
        first_undeclared(nodes, edges) is None,
        0 <= i < edges.len(),
    ensures
        node_index(nodes, edges[i].from) is Some,
    decreases edges.len(),
{
    if i > 0 {
        assert(edges.drop_first()[i - 1] == edges[i]);
        lemma_first_undeclared(nodes, edges.drop_first(), i - 1);
    }
}

fn contains_string(v: &Vec<String>, s: &str) -> (b: bool)
    ensures
        b == v@.map_values(|x: String| x@).contains(s@),
{
    let sv = chars_of(s);
    let ghost vv = v@.map_values(|x: String| x@);
    let mut i: usize = 0;
    while i < v.len()
        invariant
            i <= v@.len(),
            vv == v@.map_values(|x: String| x@),
            sv@ == s@,
            forall|j: int| 0 <= j < i ==> vv[j] != s@,
        decreases v@.len() - i,
    {
        let c = chars_of(v[i].as_str());
        if crate::sequence::eq_slices(&c, &sv) {
            proof {
                assert(vv[i as int] == s@);
            }
            return true;
        }
        i += 1;
    }
    false
}

/// [`marker_colors`], executable; every edge must leave a declared node
/// (see [`validate_edges`]).
pub fn marker_colors_exec(db: &Db) -> (r: Vec<String>)
    requires
        first_undeclared(db@.nodes, db@.edges) is None,
    ensures
        r@.map_values(|x: String| x@) == marker_colors(db@),
{
    let mut r: Vec<String> = Vec::new();
    let mut k: usize = 0;
    while k < db.edges.len()
        invariant
            k <= db@.edges.len(),
            first_undeclared(db@.nodes, db@.edges) is None,
            r@.map_values(|x: String| x@) == marker_colors_upto(db@, k as nat),
        decreases db@.edges.len() - k,
    {
        let e = &db.edges[k];
        proof {
            assert(db@.edges[k as int] == e@);
            lemma_first_undeclared(db@.nodes, db@.edges, k as int);
        }
        let i = match node_index_exec(&db.nodes, e.from.as_str()) {
            Some(i) => i,
            None => {
                return r;
            },
        };
        proof {
            assert(db@.nodes[i as int] == db.nodes@[i as int]@);
        }
        let (accent, _) = symbol_colors_exec(db.nodes[i].kind.as_str());
        let directed = match e.kind {
            EdgeKind::Assoc => false,
            _ => true,
        };
        if directed && !contains_string(&r, accent) {
            let ghost before = r@;
            r.push(String::from_str(accent));
            proof {
                assert(r@.map_values(|x: String| x@) =~= before.map_values(|x: String| x@).push(
                    accent@,
                ));
            }
        }
        k += 1;
    }
    r
}

/// Some edge has kind `k`.
pub open spec fn has_kind(edges: Seq<EdgeV>, k: EdgeKind) -> bool {
    exists|i: int| 0 <= i < edges.len() && edges[i].kind == k
}

/// The connection types the legend lists: with a `legend` line, those that
/// some edge has, in the order call, event, message, association.
pub open spec fn legend_kinds(db: DbV) -> Seq<EdgeKind> {
    if db.legend {
        (if has_kind(db.edges, EdgeKind::Call) {
            seq![EdgeKind::Call]
        } else {
            Seq::empty()
        }) + (if has_kind(db.edges, EdgeKind::Event) {
            seq![EdgeKind::Event]
        } else {
            Seq::empty()
        }) + (if has_kind(db.edges, EdgeKind::Message) {
            seq![EdgeKind::Message]
        } else {
            Seq::empty()
        }) + (if has_kind(db.edges, EdgeKind::Assoc) {
            seq![EdgeKind::Assoc]
        } else {
            Seq::empty()
        })
    } else {
        Seq::empty()
    }
}

fn has_kind_exec(edges: &Vec<EdgeDef>, k: EdgeKind) -> (b: bool)
    ensures
        b == has_kind(edges@.map_values(|e: EdgeDef| e@), k),
{
    let ghost ev = edges@.map_values(|e: EdgeDef| e@);
    let mut i: usize = 0;
    while i < edges.len()
        invariant
            i <= edges@.len(),
            ev == edges@.map_values(|e: EdgeDef| e@),
            forall|j: int| 0 <= j < i ==> ev[j].kind != k,
        decreases edges@.len() - i,
    {
        if edges[i].kind == k {
            proof {
                assert(ev[i as int].kind == k);
            }
            return true;
        }
        i += 1;
    }
    false
}

/// [`legend_kinds`], executable.
pub fn legend_kinds_exec(db: &Db) -> (r: Vec<EdgeKind>)
    ensures
        r@ == legend_kinds(db@),
{
    let mut r: Vec<EdgeKind> = Vec::new();
    if db.legend {
        if has_kind_exec(&db.edges, EdgeKind::Call) {
            r.push(EdgeKind::Call);
        }
        if has_kind_exec(&db.edges, EdgeKind::Event) {
            r.push(EdgeKind::Event);
        }
        if has_kind_exec(&db.edges, EdgeKind::Message) {
            r.push(EdgeKind::Message);
        }
        if has_kind_exec(&db.edges, EdgeKind::Assoc) {
            r.push(EdgeKind::Assoc);
        }
    }
    proof {
        assert(r@ =~= legend_kinds(db@));
    }
    r
}

/// An arrowhead marker with id `marker_id`, filled with `fill`.
pub open spec fn arrow_marker(marker_id: Seq<char>, fill: Seq<char>) -> ElementV {
    ElementV {
        tag: "marker"@,
        attrs: seq![
            ("id"@, marker_id),
            ("viewBox"@, "0 0 10 10"@),
            ("refX"@, "9"@),
            ("refY"@, "5"@),
            ("markerWidth"@, "7"@),
            ("markerHeight"@, "7"@),
            ("orient"@, "auto-start-reverse"@),
        ],
        children: seq![
            crate::svg::NodeV::Element(
                ElementV {
                    tag: "path"@,
                    attrs: seq![("d"@, "M 0 0 L 10 5 L 0 10 z"@), ("fill"@, fill)],
                    children: Seq::empty(),
                    xhtml: false,
                },
            ),
        ],
        xhtml: false,
    }
}

/// The chart's `<defs>`: the legend's arrowhead when the legend lists a
/// directed connection type, then marker `k` for the `k`-th colour.
pub open spec fn defs_spec(id: Seq<char>, kinds: Seq<EdgeKind>, colors: Seq<Seq<char>>) -> ElementV {
    let legend = if exists|i: int| 0 <= i < kinds.len() && kinds[i] != EdgeKind::Assoc {
        seq![crate::svg::NodeV::Element(arrow_marker(id + "-arrow-legend"@, "#64748B"@))]
    } else {
        Seq::empty()
    };
    let colored = Seq::new(
        colors.len(),
        |k: int| crate::svg::NodeV::Element(arrow_marker(id + "-arrow-"@ + decimal(k as nat), colors[k])),
    );
    ElementV { tag: "defs"@, attrs: Seq::empty(), children: legend + colored, xhtml: false }
}

fn arrow_marker_exec(marker_id: &str, fill: &str) -> (m: Element)
    ensures
        m@ == arrow_marker(marker_id@, fill@),
{
    let mut a: Vec<(String, String)> = Vec::new();
    a.push(attr_pair("id", marker_id));
    a.push(attr_pair("viewBox", "0 0 10 10"));
    a.push(attr_pair("refX", "9"));
    a.push(attr_pair("refY", "5"));
    a.push(attr_pair("markerWidth", "7"));
    a.push(attr_pair("markerHeight", "7"));
    a.push(attr_pair("orient", "auto-start-reverse"));
    let mut m = element_with("marker", a);
    let mut pa: Vec<(String, String)> = Vec::new();
    pa.push(attr_pair("d", "M 0 0 L 10 5 L 0 10 z"));
    pa.push(attr_pair("fill", fill));
    let p = element_with("path", pa);
    let ghost m0 = m@;
    append_element(&mut m, p);
    proof {
        assert(m0.attrs =~= arrow_marker(marker_id@, fill@).attrs);
        assert(p@.attrs =~= seq![("d"@, "M 0 0 L 10 5 L 0 10 z"@), ("fill"@, fill@)]);
        assert(m@.children =~= arrow_marker(marker_id@, fill@).children);
    }
    m
}

/// [`defs_spec`], executable: the arrowhead markers of a system chart.
pub fn system_chart_defs(id: &str, kinds: &Vec<EdgeKind>, colors: &Vec<String>) -> (d: Element)
    ensures
        d@ == defs_spec(id@, kinds@, colors@.map_values(|c: String| c@)),
{
    let ghost cv = colors@.map_values(|c: String| c@);
    let mut defs = new_element("defs");
    let mut any_directed = false;
    let mut i: usize = 0;
    while i < kinds.len()
        invariant
            i <= kinds@.len(),
            any_directed == exists|j: int| 0 <= j < i && kinds@[j] != EdgeKind::Assoc,
        decreases kinds@.len() - i,
    {
        if kinds[i] != EdgeKind::Assoc {
            any_directed = true;
        }
        i += 1;
    }
    if any_directed {
        let mut mid = String::from_str(id);
        mid.append("-arrow-legend");
        let m = arrow_marker_exec(mid.as_str(), "#64748B");
        append_element(&mut defs, m);
    }
    let ghost legend = defs@.children;
    proof {
        assert(legend =~= (if exists|j: int| 0 <= j < kinds@.len() && kinds@[j] != EdgeKind::Assoc {
            seq![crate::svg::NodeV::Element(arrow_marker(id@ + "-arrow-legend"@, "#64748B"@))]
        } else {
            Seq::empty()
        }));
    }
    let mut k: usize = 0;
    while k < colors.len()
        invariant
            k <= colors@.len(),
            cv == colors@.map_values(|c: String| c@),
            defs@.tag == "defs"@,
            defs@.attrs == Seq::<(Seq<char>, Seq<char>)>::empty(),
            !defs@.xhtml,
            defs@.children == legend + Seq::new(
                k as nat,
                |j: int| crate::svg::NodeV::Element(arrow_marker(id@ + "-arrow-"@ + decimal(j as nat), cv[j])),
            ),
        decreases colors@.len() - k,
    {
        let mut mid = String::from_str(id);
        mid.append("-arrow-");
        let num = decimal_string(k);
        mid.append(num.as_str());
        let m = arrow_marker_exec(mid.as_str(), colors[k].as_str());
        let ghost before = defs@.children;
        append_element(&mut defs, m);
        proof {
            assert(cv[k as int] == colors@[k as int]@);
            assert(defs@.children =~= legend + Seq::new(
                (k + 1) as nat,
                |j: int| crate::svg::NodeV::Element(arrow_marker(id@ + "-arrow-"@ + decimal(j as nat), cv[j])),
            ));
        }
        k += 1;
    }
    proof {
        assert(defs@ =~= defs_spec(id@, kinds@, cv));
    }
    defs
}

proof fn lemma_marker_colors_upto(db: DbV, k: nat)
    requires
        k <= db.edges.len(),
    ensures
        marker_colors_upto(db, k).no_duplicates(),
        forall|i: int|
            0 <= i < k && (#[trigger] db.edges[i]).kind != EdgeKind::Assoc ==> marker_colors_upto(
                db,
                k,
            ).contains(edge_accent(db, db.edges[i])),
    decreases k,
{
    if k > 0 {
        lemma_marker_colors_upto(db, (k - 1) as nat);
        let prev = marker_colors_upto(db, (k - 1) as nat);
        let e = db.edges[k - 1];
        let c = edge_accent(db, e);
        if e.kind != EdgeKind::Assoc && !prev.contains(c) {
            assert forall|a: int, b: int|
                0 <= a < b < prev.push(c).len() implies prev.push(c)[a] != prev.push(c)[b] by {
                if b == prev.len() {
                    assert(prev.contains(prev[a]));
                }
            }
            assert forall|i: int|
                0 <= i < k && (#[trigger] db.edges[i]).kind != EdgeKind::Assoc implies prev.push(
                    c,
                ).contains(edge_accent(db, db.edges[i])) by {
                if i < k - 1 {
                    let w = choose|w: int| 0 <= w < prev.len() && prev[w] == edge_accent(db, db.edges[i]);
                    assert(prev.push(c)[w] == prev[w]);
                } else {
                    assert(prev.push(c)[prev.len() as int] == c);
                }
            }
        }
    }
}

/// Law: each accent colour gets one arrowhead marker, and every directed
/// edge's accent colour has one.
pub proof fn marker_colors_cover_directed_edges(db: DbV)
    ensures
        marker_colors(db).no_duplicates(),
        forall|i: int|
            0 <= i < db.edges.len() && (#[trigger] db.edges[i]).kind != EdgeKind::Assoc
                ==> marker_colors(db).contains(edge_accent(db, db.edges[i])),
{
    lemma_marker_colors_upto(db, db.edges.len());
}

/// An edge joining two declared, distinct nodes.
pub open spec fn usable(e: (Option<nat>, Option<nat>)) -> bool {
    e.0 is Some && e.1 is Some && e.0.unwrap() != e.1.unwrap()
}

/// Some walk of `y` usable edges ends at node `v` (of `n`).
pub open spec fn walk_to(ends: Seq<(Option<nat>, Option<nat>)>, n: nat, y: nat, v: nat) -> bool
    decreases y,
{
    if y == 0 {
        v < n
    } else {
        exists|k: int|
            0 <= k < ends.len() && usable(#[trigger] ends[k]) && ends[k].1.unwrap() == v && walk_to(
                ends,
                n,
                (y - 1) as nat,
                ends[k].0.unwrap(),
            )
    }
}

/// The edges between declared, distinct nodes form no cycle: no walk has
/// as many edges as there are nodes.
pub open spec fn acyclic_edges(ends: Seq<(Option<nat>, Option<nat>)>, n: nat) -> bool {
    forall|v: nat| !#[trigger] walk_to(ends, n, n, v)
}

pub open spec fn ends_within(ends: Seq<(Option<nat>, Option<nat>)>, n: nat) -> bool {
    forall|j: int| #![trigger ends[j]] 0 <= j < ends.len() ==> (ends[j].0 matches Some(a) ==> a < n) && (
    ends[j].1 matches Some(b) ==> b < n)
}

/// Every rank is the length of some walk to its node.
pub open spec fn sound_ranks(rank: Seq<usize>, ends: Seq<(Option<nat>, Option<nat>)>, n: nat) -> bool {
    &&& ranks_below(rank, n, n)
    &&& forall|v: int| 0 <= v < n ==> walk_to(ends, n, #[trigger] rank[v] as nat, v as nat)
}

/// Every walk of at most `p` edges is no longer than its end's rank.
pub open spec fn dominated(rank: Seq<usize>, ends: Seq<(Option<nat>, Option<nat>)>, n: nat, p: nat) -> bool {
    forall|y: nat, v: nat| y <= p && #[trigger] walk_to(ends, n, y, v) ==> v < n && y <= rank[v as int]
}

proof fn lemma_walk_end(ends: Seq<(Option<nat>, Option<nat>)>, n: nat, y: nat, v: nat)
    requires
        ends_within(ends, n),
        walk_to(ends, n, y, v),
    ensures
        v < n,
{
    if y > 0 {
        let k = choose|k: int|
            0 <= k < ends.len() && usable(#[trigger] ends[k]) && ends[k].1.unwrap() == v && walk_to(
                ends,
                n,
                (y - 1) as nat,
                ends[k].0.unwrap(),
            );
        assert(ends[k].1 matches Some(b) ==> b < n);
    }
}

proof fn lemma_walk_shorter(ends: Seq<(Option<nat>, Option<nat>)>, n: nat, y: nat, v: nat)
    requires
        ends_within(ends, n),
        walk_to(ends, n, y, v),
        y > 0,
    ensures
        walk_to(ends, n, (y - 1) as nat, v),
    decreases y,
{
    lemma_walk_end(ends, n, y, v);
    let k = choose|k: int|
        0 <= k < ends.len() && usable(#[trigger] ends[k]) && ends[k].1.unwrap() == v && walk_to(
            ends,
            n,
            (y - 1) as nat,
            ends[k].0.unwrap(),
        );
    if y > 1 {
        lemma_walk_shorter(ends, n, (y - 1) as nat, ends[k].0.unwrap());
    }
}

proof fn lemma_walk_long(ends: Seq<(Option<nat>, Option<nat>)>, n: nat, y: nat, v: nat)
    requires
        ends_within(ends, n),
        walk_to(ends, n, y, v),
        y >= n,
    ensures
        walk_to(ends, n, n, v),
    decreases y,
{
    if y > n {
        lemma_walk_shorter(ends, n, y, v);
        lemma_walk_long(ends, n, (y - 1) as nat, v);
    }
}

/// One relaxation of edge `k`: ranks only grow, stay sound, the flag tells
/// a change, and afterwards the edge's target is past its source.
proof fn lemma_relax_facts(rank: Seq<usize>, ends: Seq<(Option<nat>, Option<nat>)>, n: nat, k: int)
    requires
        0 <= k < ends.len(),
        n <= usize::MAX,
        ends_within(ends, n),
        acyclic_edges(ends, n),
        sound_ranks(rank, ends, n),
    ensures
        ({
            let r = relax(rank, ends[k].0, ends[k].1, n).0;
            let c = relax(rank, ends[k].0, ends[k].1, n).1;
            &&& sound_ranks(r, ends, n)
            &&& forall|v: int| 0 <= v < n ==> #[trigger] r[v] >= rank[v]
            &&& !c ==> r == rank
            &&& usable(ends[k]) ==> r[ends[k].1.unwrap() as int] >= rank[ends[k].0.unwrap() as int] + 1
        }),
{
    let (r, c) = relax(rank, ends[k].0, ends[k].1, n);
    assert(ends[k].0 matches Some(a) ==> a < n);
    assert(ends[k].1 matches Some(b) ==> b < n);
    if usable(ends[k]) {
        let a = ends[k].0.unwrap();
        let b = ends[k].1.unwrap();
        assert(walk_to(ends, n, rank[a as int] as nat, a));
        if rank[a as int] + 1 >= n {
            assert(rank[a as int] + 1 == n);
            assert(walk_to(ends, n, n, b));
        }
        if c {
            assert(r == rank.update(b as int, (rank[a as int] + 1) as usize));
            assert(usable(ends[k]) && ends[k].1.unwrap() == b && walk_to(
                ends,
                n,
                ((rank[a as int] + 1) - 1) as nat,
                ends[k].0.unwrap(),
            ));
            assert(walk_to(ends, n, (rank[a as int] + 1) as nat, b));
            assert forall|v: int| 0 <= v < n implies walk_to(ends, n, #[trigger] r[v] as nat, v as nat) by {
                if v == b {
                    assert(r[v] as nat == (rank[a as int] + 1) as nat);
                } else {
                    assert(r[v] == rank[v]);
                }
            }
            assert(ranks_below(r, n, n));
        }
    } else {
        assert(!c);
    }
}

proof fn lemma_pass_facts(rank: Seq<usize>, ends: Seq<(Option<nat>, Option<nat>)>, n: nat, k: nat)
    requires
        k <= ends.len(),
        n <= usize::MAX,
        ends_within(ends, n),
        acyclic_edges(ends, n),
        sound_ranks(rank, ends, n),
    ensures
        ({
            let r = relax_pass(rank, ends, k, n).0;
            let c = relax_pass(rank, ends, k, n).1;
            &&& sound_ranks(r, ends, n)
            &&& forall|v: int| 0 <= v < n ==> #[trigger] r[v] >= rank[v]
            &&& !c ==> r == rank
            &&& forall|j: int|
                0 <= j < k && usable(#[trigger] ends[j]) ==> r[ends[j].1.unwrap() as int]
                    >= rank[ends[j].0.unwrap() as int] + 1
        }),
    decreases k,
{
    if k > 0 {
        lemma_pass_facts(rank, ends, n, (k - 1) as nat);
        let (r1, c1) = relax_pass(rank, ends, (k - 1) as nat, n);
        lemma_relax_facts(r1, ends, n, k - 1);
        let (r2, c2) = relax(r1, ends[k - 1].0, ends[k - 1].1, n);
        assert forall|j: int|
            0 <= j < k && usable(#[trigger] ends[j]) implies r2[ends[j].1.unwrap() as int] >= rank[ends[j].0.unwrap() as int]
                + 1 by {
            assert(ends[j].0 matches Some(a) ==> a < n);
            assert(ends[j].1 matches Some(b) ==> b < n);
            let b = ends[j].1.unwrap() as int;
            assert(r2[b] >= r1[b]);
        }
    }
}

#[verifier::rlimit(40)]
proof fn lemma_pass_dominates(rank: Seq<usize>, ends: Seq<(Option<nat>, Option<nat>)>, n: nat, p: nat)
    requires
        n <= usize::MAX,
        ends_within(ends, n),
        acyclic_edges(ends, n),
        sound_ranks(rank, ends, n),
        dominated(rank, ends, n, p),
    ensures
        dominated(relax_pass(rank, ends, ends.len(), n).0, ends, n, p + 1),
{
    lemma_pass_facts(rank, ends, n, ends.len());
    let r = relax_pass(rank, ends, ends.len(), n).0;
    assert forall|y: nat, v: nat| y <= p + 1 && #[trigger] walk_to(ends, n, y, v) implies v < n && y
        <= r[v as int] by {
        lemma_walk_end(ends, n, y, v);
        if y <= p {
            assert(y <= rank[v as int]);
            assert(r[v as int] >= rank[v as int]);
        } else {
            let k = choose|k: int|
                0 <= k < ends.len() && usable(#[trigger] ends[k]) && ends[k].1.unwrap() == v && walk_to(
                    ends,
                    n,
                    (y - 1) as nat,
                    ends[k].0.unwrap(),
                );
            let u = ends[k].0.unwrap();
            assert(y - 1 == p);
            assert(walk_to(ends, n, p, u));
            assert(p <= rank[u as int]);
            assert(r[ends[k].1.unwrap() as int] >= rank[ends[k].0.unwrap() as int] + 1);
        }
    }
}

proof fn lemma_fixpoint_dominates(rank: Seq<usize>, ends: Seq<(Option<nat>, Option<nat>)>, n: nat, y: nat)
    requires
        ends_within(ends, n),
        ranks_below(rank, n, n),
        forall|j: int|
            0 <= j < ends.len() && usable(#[trigger] ends[j]) ==> rank[ends[j].1.unwrap() as int]
                >= rank[ends[j].0.unwrap() as int] + 1,
    ensures
        dominated(rank, ends, n, y),
    decreases y,
{
    if y > 0 {
        lemma_fixpoint_dominates(rank, ends, n, (y - 1) as nat);
    }
    assert forall|z: nat, v: nat| z <= y && #[trigger] walk_to(ends, n, z, v) implies v < n && z
        <= rank[v as int] by {
        lemma_walk_end(ends, n, z, v);
        if z == y && y > 0 {
            let k = choose|k: int|
                0 <= k < ends.len() && usable(#[trigger] ends[k]) && ends[k].1.unwrap() == v && walk_to(
                    ends,
                    n,
                    (z - 1) as nat,
                    ends[k].0.unwrap(),
                );
            let u = ends[k].0.unwrap();
            assert(walk_to(ends, n, (y - 1) as nat, u));
        }
    }
}

proof fn lemma_rounds_longest(
    rank: Seq<usize>,
    ends: Seq<(Option<nat>, Option<nat>)>,
    n: nat,
    m: nat,
    p: nat,
)
    requires
        n <= usize::MAX,
        ends_within(ends, n),
        acyclic_edges(ends, n),
        sound_ranks(rank, ends, n),
        dominated(rank, ends, n, p),
        p + m >= n,
    ensures
        sound_ranks(relax_rounds(rank, ends, n, m), ends, n),
        dominated(relax_rounds(rank, ends, n, m), ends, n, n),
    decreases m,
{
    if m > 0 {
        lemma_pass_facts(rank, ends, n, ends.len());
        lemma_pass_dominates(rank, ends, n, p);
        let (r1, c) = relax_pass(rank, ends, ends.len(), n);
        if c {
            lemma_rounds_longest(r1, ends, n, (m - 1) as nat, p + 1);
        } else {
            lemma_fixpoint_dominates(rank, ends, n, n);
        }
    }
}

/// Law: on edges without a cycle, each node's rank is the longest path that
/// ends at it, counted in edges between declared, distinct nodes (0 for a
/// source).
pub proof fn ranks_are_longest_paths(db: DbV)
    requires
        db.nodes.len() <= usize::MAX,
        acyclic_edges(edge_ends(db.nodes, db.edges), db.nodes.len()),
    ensures
        forall|v: int|
            0 <= v < db.nodes.len() ==> {
                &&& walk_to(edge_ends(db.nodes, db.edges), db.nodes.len(), #[trigger] ranks(db)[v] as nat, v as nat)
                &&& forall|y: nat|
                    y > ranks(db)[v] ==> !#[trigger] walk_to(
                        edge_ends(db.nodes, db.edges),
                        db.nodes.len(),
                        y,
                        v as nat,
                    )
            },
{
    let n = db.nodes.len();
    let ends = edge_ends(db.nodes, db.edges);
    assert forall|j: int| #![trigger ends[j]] 0 <= j < ends.len() implies (ends[j].0 matches Some(a) ==> a < n) && (
    ends[j].1 matches Some(b) ==> b < n) by {
        lemma_node_index(db.nodes, db.edges[j].from);
        lemma_node_index(db.nodes, db.edges[j].to);
    }
    let zero = Seq::new(n, |i: int| 0usize);
    assert(sound_ranks(zero, ends, n));
    assert forall|y: nat, v: nat| y <= 0 && #[trigger] walk_to(ends, n, y, v) implies v < n && y
        <= zero[v as int] by {}
    lemma_rounds_longest(zero, ends, n, n, 0);
    let r = ranks(db);
    assert forall|v: int| 0 <= v < n implies #[trigger] r[v] == r[v] && forall|y: nat|
        y > r[v] ==> !#[trigger] walk_to(ends, n, y, v as nat) by {
        assert forall|y: nat| y > r[v] implies !#[trigger] walk_to(ends, n, y, v as nat) by {
            if walk_to(ends, n, y, v as nat) && y >= n {
                lemma_walk_long(ends, n, y, v as nat);
            }
        }
    }
}


/// The first whitespace at or after `i` is at `k` when none comes before.
proof fn lemma_first_ws_at(s: Seq<char>, i: nat, k: nat)
    requires
        i <= k < s.len(),
        is_ws(s[k as int]),
        forall|j: int| i <= j < k ==> !is_ws(s[j]),
    ensures
        first_ws_from(s, i) == k,
    decreases k - i,
{
    if i < k {
        lemma_first_ws_at(s, i + 1, k);
    }
}

/// A double-quoted string with no quote inside, after any whitespace, is
/// taken whole, and what follows its closing quote is left.
proof fn lemma_take_quoted(w: Seq<char>, text: Seq<char>, more: Seq<char>)
    requires
        forall|i: int| 0 <= i < w.len() ==> is_ws(w[i]),
        forall|i: int| 0 <= i < text.len() ==> text[i] != '"',
    ensures
        take_quoted(w + seq!['"'] + text + seq!['"'] + more) == Some((text, more)),
{
    reveal_strlit("\"");
    let q = seq!['"'] + text + seq!['"'] + more;
    assert(w + seq!['"'] + text + seq!['"'] + more =~= w + q);
    lemma_trim_start_ws(w, q);
    assert(q[0] == '"');
    assert(trim_start(q) == q);
    assert(q.take(1) =~= "\""@);
    let rest = text + seq!['"'] + more;
    assert(q.skip(1) =~= rest);
    assert(rest[text.len() as int] == '"');
    lemma_find_char_is(rest, '"', text.len());
    assert(rest.take(text.len() as int) =~= text);
    assert(rest.skip(text.len() + 1 as int) =~= more);
}

/// Text with no double quote in it holds no quoted string.
proof fn lemma_take_quoted_none(tail: Seq<char>)
    requires
        forall|i: int| 0 <= i < tail.len() ==> tail[i] != '"',
    ensures
        take_quoted(tail) is None,
{
    reveal_strlit("\"");
    lemma_trim_start_suffix(tail);
    let t = trim_start(tail);
    if t.len() >= 1 {
        assert(t[0] == tail[tail.len() - t.len()]);
        assert(t.take(1) != "\""@) by {
            assert(t.take(1)[0] != "\""@[0]);
        }
    }
}

/// A node line `id:` `kind` `"title"` followed by `tail`, spelled out.
proof fn lemma_node_line_parts(
    db: DbV,
    id: Seq<char>,
    w1: Seq<char>,
    kind: Seq<char>,
    w2: Seq<char>,
    title: Seq<char>,
    tail: Seq<char>,
)
    requires
        forall|i: int| 0 <= i < id.len() ==> id[i] != ':',
        forall|i: int| 0 <= i < w1.len() ==> is_ws(w1[i]),
        kind.len() > 0,
        forall|i: int| 0 <= i < kind.len() ==> !is_ws(kind[i]),
        w2.len() > 0,
        forall|i: int| 0 <= i < w2.len() ==> is_ws(w2[i]),
        forall|i: int| 0 <= i < title.len() ==> title[i] != '"',
    ensures
        node_line(
            db,
            id + seq![':'] + w1 + kind + w2 + seq!['"'] + title + seq!['"'] + tail,
        ) == Ok::<DbV, Seq<char>>(
            DbV {
                nodes: db.nodes.push(
                    NodeV {
                        id: trim(id),
                        kind,
                        title,
                        subtitle: match take_quoted(tail) {
                            Some((sub, _)) => sub,
                            None => Seq::empty(),
                        },
                    },
                ),
                ..db
            },
        ),
{
    let quoted = seq!['"'] + title + seq!['"'] + tail;
    let after = w2 + quoted;
    let rest = kind + after;
    let r1 = w1 + rest;
    let line = id + seq![':'] + r1;
    assert(id + seq![':'] + w1 + kind + w2 + seq!['"'] + title + seq!['"'] + tail =~= line);
    assert(line[id.len() as int] == ':');
    assert forall|j: int| 0 <= j < id.len() implies line[j] != ':' by {
        assert(line[j] == id[j]);
    }
    lemma_find_char_is(line, ':', id.len());
    assert(line.take(id.len() as int) =~= id);
    assert(line.skip(id.len() + 1 as int) =~= r1);
    lemma_trim_start_ws(w1, rest);
    assert(rest[0] == kind[0]);
    assert(trim_start(rest) == rest);
    assert(rest[kind.len() as int] == w2[0]);
    assert forall|j: int| 0 <= j < kind.len() implies !is_ws(rest[j]) by {
        assert(rest[j] == kind[j]);
    }
    lemma_first_ws_at(rest, 0, kind.len());
    assert(rest.take(kind.len() as int) =~= kind);
    assert(rest.skip(kind.len() as int) =~= after);
    assert(after =~= w2 + seq!['"'] + title + seq!['"'] + tail);
    lemma_take_quoted(w2, title, tail);
}

/// Law: the subtitle of a node line is its second quoted string, and empty
/// without one. For a node line `id:` `kind` `"title"` followed by `tail`,
/// the node added has the trimmed id, the kind and the title; its subtitle
/// is empty when `tail` holds no double quote, and is exactly `sub` when
/// `tail` is whitespace, `"sub"` and any further text.
pub proof fn node_subtitle_is_second_quoted_string(
    db: DbV,
    id: Seq<char>,
    w1: Seq<char>,
    kind: Seq<char>,
    w2: Seq<char>,
    title: Seq<char>,
    tail: Seq<char>,
)
    requires
        forall|i: int| 0 <= i < id.len() ==> id[i] != ':',
        forall|i: int| 0 <= i < w1.len() ==> is_ws(w1[i]),
        kind.len() > 0,
        forall|i: int| 0 <= i < kind.len() ==> !is_ws(kind[i]),
        w2.len() > 0,
        forall|i: int| 0 <= i < w2.len() ==> is_ws(w2[i]),
        forall|i: int| 0 <= i < title.len() ==> title[i] != '"',
    ensures
        node_line(db, id + seq![':'] + w1 + kind + w2 + seq!['"'] + title + seq!['"'] + tail)
            matches Ok(d) && d.nodes.len() == db.nodes.len() + 1 && d.nodes.last().title == title
            && d.nodes.last().kind == kind && d.nodes.last().id == trim(id),
        (forall|i: int| 0 <= i < tail.len() ==> tail[i] != '"') ==> node_line(
            db,
            id + seq![':'] + w1 + kind + w2 + seq!['"'] + title + seq!['"'] + tail,
        ) == Ok::<DbV, Seq<char>>(
            DbV {
                nodes: db.nodes.push(
                    NodeV { id: trim(id), kind, title, subtitle: Seq::empty() },
                ),
                ..db
            },
        ),
        forall|w3: Seq<char>, sub: Seq<char>, more: Seq<char>|
            #![trigger w3 + seq!['"'] + sub + seq!['"'] + more]
            (forall|i: int| 0 <= i < w3.len() ==> is_ws(w3[i])) && (forall|i: int|
                0 <= i < sub.len() ==> sub[i] != '"') && tail == w3 + seq!['"'] + sub + seq!['"']
                + more ==> node_line(
                db,
                id + seq![':'] + w1 + kind + w2 + seq!['"'] + title + seq!['"'] + tail,
            ) == Ok::<DbV, Seq<char>>(
                DbV {
                    nodes: db.nodes.push(NodeV { id: trim(id), kind, title, subtitle: sub }),
                    ..db
                },
            ),
{
    lemma_node_line_parts(db, id, w1, kind, w2, title, tail);
    if forall|i: int| 0 <= i < tail.len() ==> tail[i] != '"' {
        lemma_take_quoted_none(tail);
    }
    assert forall|w3: Seq<char>, sub: Seq<char>, more: Seq<char>|
        (forall|i: int| 0 <= i < w3.len() ==> is_ws(w3[i])) && (forall|i: int|
            0 <= i < sub.len() ==> sub[i] != '"') && tail == #[trigger] (w3 + seq!['"'] + sub
            + seq!['"'] + more) implies node_line(
        db,
        id + seq![':'] + w1 + kind + w2 + seq!['"'] + title + seq!['"'] + tail,
    ) == Ok::<DbV, Seq<char>>(
        DbV { nodes: db.nodes.push(NodeV { id: trim(id), kind, title, subtitle: sub }), ..db },
    ) by {
        lemma_take_quoted(w3, sub, more);
    }
}

/// Law: a node line needs a symbol kind and a quoted title. After `id:`,
/// nothing but whitespace is refused as missing its kind; a kind followed by
/// text with no double quote is refused as missing its title.
pub proof fn node_lines_need_kind_and_title(
    db: DbV,
    id: Seq<char>,
    w1: Seq<char>,
    kind: Seq<char>,
    tail: Seq<char>,
)
    requires
        forall|i: int| 0 <= i < id.len() ==> id[i] != ':',
        forall|i: int| 0 <= i < w1.len() ==> is_ws(w1[i]),
        kind.len() > 0,
        forall|i: int| 0 <= i < kind.len() ==> !is_ws(kind[i]),
        tail.len() > 0 ==> is_ws(tail[0]),
        forall|i: int| 0 <= i < tail.len() ==> tail[i] != '"',
    ensures
        node_line(db, id + seq![':'] + w1) == Err::<DbV, Seq<char>>(
            "node "@ + debug_quoted(id) + " is missing a symbol kind"@,
        ),
        node_line(db, id + seq![':'] + w1 + kind + tail) == Err::<DbV, Seq<char>>(
            "node "@ + debug_quoted(id) + " needs a quoted title"@,
        ),
{
    let l1 = id + seq![':'] + w1;
    assert(l1[id.len() as int] == ':');
    assert forall|j: int| 0 <= j < id.len() implies l1[j] != ':' by {
        assert(l1[j] == id[j]);
    }
    lemma_find_char_is(l1, ':', id.len());
    assert(l1.take(id.len() as int) =~= id);
    assert(l1.skip(id.len() + 1 as int) =~= w1);
    lemma_trim_start_ws(w1, Seq::<char>::empty());
    assert(w1 + Seq::<char>::empty() =~= w1);
    assert(Seq::<char>::empty().take(0) =~= Seq::<char>::empty());
    let rest = kind + tail;
    let l2 = id + seq![':'] + (w1 + rest);
    assert(id + seq![':'] + w1 + kind + tail =~= l2);
    assert(l2[id.len() as int] == ':');
    assert forall|j: int| 0 <= j < id.len() implies l2[j] != ':' by {
        assert(l2[j] == id[j]);
    }
    lemma_find_char_is(l2, ':', id.len());
    assert(l2.take(id.len() as int) =~= id);
    assert(l2.skip(id.len() + 1 as int) =~= w1 + rest);
    lemma_trim_start_ws(w1, rest);
    assert(rest[0] == kind[0]);
    assert(trim_start(rest) == rest);
    assert forall|j: int| 0 <= j < kind.len() implies !is_ws(rest[j]) by {
        assert(rest[j] == kind[j]);
    }
    if tail.len() > 0 {
        assert(rest[kind.len() as int] == tail[0]);
        lemma_first_ws_at(rest, 0, kind.len());
    } else {
        assert(rest =~= kind);
        lemma_first_ws_none(rest, 0);
    }
    assert(rest.take(kind.len() as int) =~= kind);
    assert(rest.skip(kind.len() as int) =~= tail);
    lemma_take_quoted_none(tail);
}

/// With no whitespace at or after `i`, the search runs to the end.
proof fn lemma_first_ws_none(s: Seq<char>, i: nat)
    requires
        i <= s.len(),
        forall|j: int| i <= j < s.len() ==> !is_ws(s[j]),
    ensures
        first_ws_from(s, i) == s.len(),
    decreases s.len() - i,
{
    if i < s.len() {
        lemma_first_ws_none(s, i + 1);
    }
}

} // verus!
