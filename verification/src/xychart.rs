//! The xychart-beta parser: the statements of a chart, its axes and its
//! plots, with every number kept as the literal text that the renderer
//! later reads as a float.

use crate::strs::{
    chars_of, copy_range, debug_quote, debug_quoted, decimal, decimal_string, eq_str, find, find_char, find_char_exec, find_str, is_float_literal, is_float_literal_exec, lines, lines_of, split_on, split_on_str, starts_with, starts_with_str, string_of, strip_prefix, strip_prefix_str, strip_set, strip_set_vec, trim, trim_vec,
};
use vstd::prelude::*;

verus! {

/// A parse error for xychart source.
pub struct XyParseError {
    pub message: String,
}

impl XyParseError {
    /// The error as a message.
    pub fn display(&self) -> (s: String)
        ensures
            s@ == "xychart parse error: "@ + self.message@,
    {
        let mut s = String::from_str("xychart parse error: ");
        s.append(self.message.as_str());
        s
    }
}

/// Trimmed, without surrounding double quotes.
pub open spec fn unquote(s: Seq<char>) -> Seq<char> {
    strip_set(trim(s), seq!['"'])
}

/// [`unquote`], executable.
pub fn unquote_exec(s: &[char]) -> (r: String)
    ensures
        r@ == unquote(s@),
{
    let t = trim_vec(s);
    let q: Vec<char> = vec!['"'];
    assert(q@ =~= seq!['"']);
    let u = strip_set_vec(&t, &q);
    string_of(&u)
}

/// A leading `"title"` and the trimmed rest; else no title and the whole
/// (trimmed) text.
pub open spec fn take_text(s: Seq<char>) -> (Seq<char>, Seq<char>) {
    let t = trim(s);
    match strip_prefix(t, "\""@) {
        Some(r) => match find_char(r, '"') {
            Some(end) => (r.take(end as int), trim(r.skip(end + 1 as int))),
            None => (Seq::empty(), t),
        },
        None => (Seq::empty(), t),
    }
}

/// [`take_text`], executable.
pub fn take_text_exec(s: &[char]) -> (r: (String, Vec<char>))
    ensures
        (r.0@, r.1@) == take_text(s@),
{
    let t = trim_vec(s);
    if let Some(r) = strip_prefix_str(&t, "\"") {
        if let Some(end) = find_char_exec(&r, '"') {
            let title = copy_range(&r, 0, end);
            let rest = copy_range(&r, end + 1, r.len());
            return (string_of(&title), trim_vec(&rest));
        }
    }
    (String::new(), t)
}

/// `[a, "b", ...]`: the unquoted comma-separated items between the brackets.
pub open spec fn parse_category_list(s: Seq<char>) -> Option<Seq<Seq<char>>> {
    let t = trim(s);
    if t.len() >= 2 && t[0] == '[' && t.last() == ']' {
        Some(split_on(t.subrange(1, t.len() - 1), ","@).map_values(|p: Seq<char>| unquote(p)))
    } else {
        None
    }
}

/// [`parse_category_list`], executable.
pub fn parse_category_list_exec(s: &[char]) -> (r: Option<Vec<String>>)
    ensures
        match r {
            Some(v) => parse_category_list(s@) == Some(v@.map_values(|x: String| x@)),
            None => parse_category_list(s@) is None,
        },
{
    let t = trim_vec(s);
    if t.len() >= 2 && t[0] == '[' && t[t.len() - 1] == ']' {
        let inner = copy_range(&t, 1, t.len() - 1);
        let parts = split_on_str(&inner, ",");
        let ghost pv = parts@.map_values(|v: Vec<char>| v@);
        let mut out: Vec<String> = Vec::new();
        let mut i: usize = 0;
        while i < parts.len()
            invariant
                i <= parts@.len(),
                pv == parts@.map_values(|v: Vec<char>| v@),
                out@.map_values(|x: String| x@) == pv.take(i as int).map_values(
                    |p: Seq<char>| unquote(p),
                ),
            decreases parts@.len() - i,
        {
            let u = unquote_exec(&parts[i]);
            let ghost before = out@;
            out.push(u);
            proof {
                assert(pv[i as int] == parts@[i as int]@);
                assert(out@.map_values(|x: String| x@) =~= before.map_values(|x: String| x@).push(
                    u@,
                ));
                assert(pv.take(i + 1).map_values(|p: Seq<char>| unquote(p)) =~= pv.take(
                    i as int,
                ).map_values(|p: Seq<char>| unquote(p)).push(unquote(pv[i as int])));
            }
            i += 1;
        }
        proof {
            assert(pv.take(i as int) =~= pv);
        }
        Some(out)
    } else {
        None
    }
}

/// `a --> b` with both sides float literals: the two trimmed sides.
pub open spec fn parse_range(s: Seq<char>) -> Option<(Seq<char>, Seq<char>)> {
    match find(s, "-->"@) {
        Some(i) => {
            let a = trim(s.take(i as int));
            let b = trim(s.skip(i + 3 as int));
            if is_float_literal(a) && is_float_literal(b) {
                Some((a, b))
            } else {
                None
            }
        },
        None => None,
    }
}

/// [`parse_range`], executable.
pub fn parse_range_exec(s: &[char]) -> (r: Option<(String, String)>)
    ensures
        match r {
            Some((a, b)) => parse_range(s@) == Some((a@, b@)),
            None => parse_range(s@) is None,
        },
{
    match find_str(s, "-->") {
        Some(i) => {
            proof {
                reveal_strlit("-->");
            }
            let a = trim_vec(&copy_range(s, 0, i));
            let b = trim_vec(&copy_range(s, i + 3, s.len()));
            proof {
                assert(s@.subrange(0, i as int) =~= s@.take(i as int));
                assert(s@.subrange(i + 3, s@.len() as int) =~= s@.skip(i + 3));
            }
            if is_float_literal_exec(&a) && is_float_literal_exec(&b) {
                Some((string_of(&a), string_of(&b)))
            } else {
                None
            }
        },
        None => None,
    }
}

/// `[n, ...]` whose comma-separated items are all float literals: the
/// trimmed items.
pub open spec fn parse_number_list(s: Seq<char>) -> Option<Seq<Seq<char>>> {
    let t = trim(s);
    if t.len() >= 2 && t[0] == '[' && t.last() == ']' {
        let items = split_on(t.subrange(1, t.len() - 1), ","@).map_values(|p: Seq<char>| trim(p));
        if forall|i: int| 0 <= i < items.len() ==> is_float_literal(#[trigger] items[i]) {
            Some(items)
        } else {
            None
        }
    } else {
        None
    }
}

/// [`parse_number_list`], executable.
pub fn parse_number_list_exec(s: &[char]) -> (r: Option<Vec<String>>)
    ensures
        match r {
            Some(v) => parse_number_list(s@) == Some(v@.map_values(|x: String| x@)),
            None => parse_number_list(s@) is None,
        },
{
    let t = trim_vec(s);
    if t.len() >= 2 && t[0] == '[' && t[t.len() - 1] == ']' {
        let inner = copy_range(&t, 1, t.len() - 1);
        let parts = split_on_str(&inner, ",");
        let ghost pv = parts@.map_values(|v: Vec<char>| v@);
        let ghost items = pv.map_values(|p: Seq<char>| trim(p));
        proof {
            assert(inner@ =~= t@.subrange(1, t@.len() - 1));
            assert(items == split_on(trim(s@).subrange(1, trim(s@).len() - 1), ","@).map_values(
                |p: Seq<char>| trim(p),
            ));
        }
        let mut out: Vec<String> = Vec::new();
        let mut i: usize = 0;
        while i < parts.len()
            invariant
                i <= parts@.len(),
                pv == parts@.map_values(|v: Vec<char>| v@),
                items == pv.map_values(|p: Seq<char>| trim(p)),
                items == split_on(trim(s@).subrange(1, trim(s@).len() - 1), ","@).map_values(
                    |p: Seq<char>| trim(p),
                ),
                trim(s@).len() >= 2 && trim(s@)[0] == '[' && trim(s@).last() == ']',
                out@.map_values(|x: String| x@) == items.take(i as int),
                forall|j: int| 0 <= j < i ==> is_float_literal(#[trigger] items[j]),
            decreases parts@.len() - i,
        {
            let u = trim_vec(&parts[i]);
            proof {
                assert(pv[i as int] == parts@[i as int]@);
                assert(items[i as int] == u@);
            }
            if !is_float_literal_exec(&u) {
                proof {
                    assert(!is_float_literal(items[i as int]));
                }
                return None;
            }
            let ghost before = out@;
            out.push(string_of(&u));
            proof {
                assert(out@.map_values(|x: String| x@) =~= before.map_values(|x: String| x@).push(
                    u@,
                ));
                assert(items.take(i + 1) =~= items.take(i as int).push(items[i as int]));
            }
            i += 1;
        }
        proof {
            assert(items.take(i as int) =~= items);
        }
        Some(out)
    } else {
        None
    }
}

/// Whether a plot draws bars or a line.
#[derive(Clone, Copy, PartialEq, Eq, Structural)]
pub enum PlotKind {
    Line,
    Bar,
}

/// The x axis: named categories, or a numeric range given by its two
/// float literals.
pub enum XAxisData {
    Band(Vec<String>),
    Linear { min: String, max: String },
}

pub ghost enum XAxisDataV {
    Band(Seq<Seq<char>>),
    Linear { min: Seq<char>, max: Seq<char> },
}

impl View for XAxisData {
    type V = XAxisDataV;

    open spec fn view(&self) -> XAxisDataV {
        match self {
            XAxisData::Band(c) => XAxisDataV::Band(c@.map_values(|x: String| x@)),
            XAxisData::Linear { min, max } => XAxisDataV::Linear { min: min@, max: max@ },
        }
    }
}

/// One `bar` or `line` statement: its colour, its values as float
/// literals, and the x axis in force when it was read.
pub struct Plot {
    pub kind: PlotKind,
    pub color: String,
    pub values: Vec<String>,
    pub x_axis: XAxisData,
}

pub ghost struct PlotV {
    pub kind: PlotKind,
    pub color: Seq<char>,
    pub values: Seq<Seq<char>>,
    pub x_axis: XAxisDataV,
}

impl View for Plot {
    type V = PlotV;

    open spec fn view(&self) -> PlotV {
        PlotV {
            kind: self.kind,
            color: self.color@,
            values: self.values@.map_values(|x: String| x@),
            x_axis: self.x_axis@,
        }
    }
}

/// A parsed chart. `y_range` is the last explicit `y-axis` range; without
/// one the renderer spans the plotted values.
pub struct XyDb {
    pub title: String,
    pub horizontal: bool,
    pub x_title: String,
    pub x_axis: XAxisData,
    pub has_set_x: bool,
    pub y_title: String,
    pub y_range: Option<(String, String)>,
    pub plots: Vec<Plot>,
}

pub ghost struct DbV {
    pub title: Seq<char>,
    pub horizontal: bool,
    pub x_title: Seq<char>,
    pub x_axis: XAxisDataV,
    pub has_set_x: bool,
    pub y_title: Seq<char>,
    pub y_range: Option<(Seq<char>, Seq<char>)>,
    pub plots: Seq<PlotV>,
}

impl View for XyDb {
    type V = DbV;

    open spec fn view(&self) -> DbV {
        DbV {
            title: self.title@,
            horizontal: self.horizontal,
            x_title: self.x_title@,
            x_axis: self.x_axis@,
            has_set_x: self.has_set_x,
            y_title: self.y_title@,
            y_range: match self.y_range {
                Some((a, b)) => Some((a@, b@)),
                None => None,
            },
            plots: self.plots@.map_values(|p: Plot| p@),
        }
    }
}

/// The ten plot colours, in the order plots take them.
pub open spec fn palette(i: nat) -> Seq<char> {
    if i == 0 {
        "#ECECFF"@
    } else if i == 1 {
        "#8493A6"@
    } else if i == 2 {
        "#FFC3A0"@
    } else if i == 3 {
        "#DCDDE1"@
    } else if i == 4 {
        "#B8E994"@
    } else if i == 5 {
        "#D1A36F"@
    } else if i == 6 {
        "#C3CDE6"@
    } else if i == 7 {
        "#FFB6C1"@
    } else if i == 8 {
        "#496078"@
    } else {
        "#F8F3E3"@
    }
}

/// The colour of the plot with index `n`: the palette, over and over.
pub open spec fn plot_color(n: nat) -> Seq<char> {
    palette(n % 10)
}

/// The chart before any statement.
pub open spec fn empty_db() -> DbV {
    DbV {
        title: Seq::empty(),
        horizontal: false,
        x_title: Seq::empty(),
        x_axis: XAxisDataV::Band(Seq::empty()),
        has_set_x: false,
        y_title: Seq::empty(),
        y_range: None,
        plots: Seq::empty(),
    }
}

/// An `x-axis` statement with the text after the keyword.
pub open spec fn x_axis_statement(db: DbV, rest: Seq<char>) -> DbV {
    let (t, rest2) = take_text(rest);
    let has_title = t.len() > 0;
    let db1 = if has_title {
        DbV { x_title: t, ..db }
    } else {
        db
    };
    match parse_category_list(rest2) {
        Some(c) => DbV { x_axis: XAxisDataV::Band(c), has_set_x: true, ..db1 },
        None => match parse_range(rest2) {
            Some((a, b)) => DbV { x_axis: XAxisDataV::Linear { min: a, max: b }, has_set_x: true, ..db1 },
            None => if rest2.len() > 0 && !has_title {
                DbV { x_title: rest2, ..db1 }
            } else {
                db1
            },
        },
    }
}

/// A `y-axis` statement with the text after the keyword.
pub open spec fn y_axis_statement(db: DbV, rest: Seq<char>) -> DbV {
    let (t, rest2) = take_text(rest);
    let has_title = t.len() > 0;
    let db1 = if has_title {
        DbV { y_title: t, ..db }
    } else {
        db
    };
    match parse_range(rest2) {
        Some((a, b)) => DbV { y_range: Some((a, b)), ..db1 },
        None => if rest2.len() > 0 && !has_title {
            DbV { y_title: rest2, ..db1 }
        } else {
            db1
        },
    }
}

/// A `bar` or `line` statement (`line` is the whole statement, `rest` the
/// text after the keyword). The first plot of a chart without an x axis
/// gives it the range from 1 to the number of values.
pub open spec fn plot_statement(db: DbV, line: Seq<char>, rest: Seq<char>) -> Result<DbV, Seq<char>> {
    let kind = if starts_with(line, "bar"@) {
        PlotKind::Bar
    } else {
        PlotKind::Line
    };
    match parse_number_list(take_text(rest).1) {
        None => Err("bad plot data: "@ + line),
        Some(vals) => {
            let db1 = if vals.len() > 0 && !db.has_set_x {
                DbV {
                    x_axis: XAxisDataV::Linear { min: "1"@, max: decimal(vals.len()) },
                    has_set_x: true,
                    ..db
                }
            } else {
                db
            };
            let plot = PlotV {
                kind,
                color: plot_color(db1.plots.len()),
                values: vals,
                x_axis: db1.x_axis,
            };
            Ok(DbV { plots: db1.plots.push(plot), ..db1 })
        },
    }
}

/// The parser's state between lines.
pub ghost struct StateV {
    pub db: DbV,
    pub found: bool,
}

/// One source line.
pub open spec fn step(st: StateV, raw: Seq<char>) -> Result<StateV, Seq<char>> {
    let line = trim(raw);
    if line.len() == 0 || starts_with(line, "%%"@) {
        Ok(st)
    } else if !st.found {
        match strip_prefix(line, "xychart-beta"@) {
            Some(rest) => Ok(
                StateV {
                    db: DbV { horizontal: st.db.horizontal || trim(rest) == "horizontal"@, ..st.db },
                    found: true,
                },
            ),
            None => Err("expected xychart-beta header, got "@ + debug_quoted(line)),
        }
    } else if let Some(rest) = strip_prefix(line, "title"@) {
        Ok(StateV { db: DbV { title: unquote(rest), ..st.db }, ..st })
    } else if let Some(rest) = strip_prefix(line, "x-axis"@) {
        Ok(StateV { db: x_axis_statement(st.db, rest), ..st })
    } else if let Some(rest) = strip_prefix(line, "y-axis"@) {
        Ok(StateV { db: y_axis_statement(st.db, rest), ..st })
    } else if let Some(rest) = strip_prefix(line, "bar"@) {
        match plot_statement(st.db, line, rest) {
            Ok(db) => Ok(StateV { db, ..st }),
            Err(e) => Err(e),
        }
    } else if let Some(rest) = strip_prefix(line, "line"@) {
        match plot_statement(st.db, line, rest) {
            Ok(db) => Ok(StateV { db, ..st }),
            Err(e) => Err(e),
        }
    } else {
        Err("unsupported xychart statement: "@ + line)
    }
}

/// The lines of `ls` applied in order from `st`; the first error stops.
pub open spec fn run(st: StateV, ls: Seq<Seq<char>>) -> Result<StateV, Seq<char>>
    decreases ls.len(),
{
    if ls.len() == 0 {
        Ok(st)
    } else {
        match step(st, ls[0]) {
            Ok(st1) => run(st1, ls.drop_first()),
            Err(e) => Err(e),
        }
    }
}

/// What [`parse`] gives for `source`.
pub open spec fn parse_result(source: Seq<char>) -> Result<DbV, Seq<char>> {
    match run(StateV { db: empty_db(), found: false }, lines(source)) {
        Ok(st) => if !st.found {
            Err("missing xychart-beta header"@)
        } else if st.db.plots.len() == 0 {
            Err("No Plot to render"@)
        } else {
            Ok(st.db)
        },
        Err(e) => Err(e),
    }
}

fn clone_strings(v: &Vec<String>) -> (r: Vec<String>)
    ensures
        r@.map_values(|x: String| x@) == v@.map_values(|x: String| x@),
{
    let mut r: Vec<String> = Vec::new();
    let mut i: usize = 0;
    while i < v.len()
        invariant
            i <= v@.len(),
            r@.map_values(|x: String| x@) == v@.map_values(|x: String| x@).take(i as int),
        decreases v@.len() - i,
    {
        let ghost before = r@;
        r.push(v[i].clone());
        proof {
            assert(r@.map_values(|x: String| x@) =~= before.map_values(|x: String| x@).push(
                v@[i as int]@,
            ));
            assert(v@.map_values(|x: String| x@).take(i + 1) =~= v@.map_values(|x: String| x@).take(
                i as int,
            ).push(v@[i as int]@));
        }
        i += 1;
    }
    proof {
        assert(v@.map_values(|x: String| x@).take(i as int) =~= v@.map_values(|x: String| x@));
    }
    r
}

impl XAxisData {
    /// A copy of the axis.
    pub fn copy(&self) -> (r: XAxisData)
        ensures
            r@ == self@,
    {
        match self {
            XAxisData::Band(c) => XAxisData::Band(clone_strings(c)),
            XAxisData::Linear { min, max } => XAxisData::Linear { min: min.clone(), max: max.clone() },
        }
    }
}

impl XyDb {
    /// The colour the next plot takes.
    pub fn plot_color(&self) -> (r: String)
        ensures
            r@ == plot_color(self.plots@.len()),
    {
        let n = self.plots.len();
        let idx = if n == 0 {
            0
        } else {
            n % 10
        };
        if idx == 0 {
            String::from_str("#ECECFF")
        } else if idx == 1 {
            String::from_str("#8493A6")
        } else if idx == 2 {
            String::from_str("#FFC3A0")
        } else if idx == 3 {
            String::from_str("#DCDDE1")
        } else if idx == 4 {
            String::from_str("#B8E994")
        } else if idx == 5 {
            String::from_str("#D1A36F")
        } else if idx == 6 {
            String::from_str("#C3CDE6")
        } else if idx == 7 {
            String::from_str("#FFB6C1")
        } else if idx == 8 {
            String::from_str("#496078")
        } else {
            String::from_str("#F8F3E3")
        }
    }

    /// [`x_axis_statement`], executable.
    pub fn x_axis_statement(&mut self, rest: &[char])
        ensures
            final(self)@ == x_axis_statement(old(self)@, rest@),
    {
        let (t, rest2) = take_text_exec(rest);
        let has_title = chars_of(t.as_str()).len() > 0;
        if has_title {
            self.x_title = t;
        }
        match parse_category_list_exec(&rest2) {
            Some(c) => {
                self.x_axis = XAxisData::Band(c);
                self.has_set_x = true;
            },
            None => match parse_range_exec(&rest2) {
                Some((a, b)) => {
                    self.x_axis = XAxisData::Linear { min: a, max: b };
                    self.has_set_x = true;
                },
                None => {
                    if rest2.len() > 0 && !has_title {
                        self.x_title = string_of(&rest2);
                    }
                },
            },
        }
    }

    /// [`y_axis_statement`], executable.
    pub fn y_axis_statement(&mut self, rest: &[char])
        ensures
            final(self)@ == y_axis_statement(old(self)@, rest@),
    {
        let (t, rest2) = take_text_exec(rest);
        let has_title = chars_of(t.as_str()).len() > 0;
        if has_title {
            self.y_title = t;
        }
        match parse_range_exec(&rest2) {
            Some((a, b)) => {
                self.y_range = Some((a, b));
            },
            None => {
                if rest2.len() > 0 && !has_title {
                    self.y_title = string_of(&rest2);
                }
            },
        }
    }

    /// [`plot_statement`], executable.
    pub fn plot_statement(&mut self, line: &[char], rest: &[char]) -> (r: Result<(), String>)
        ensures
            match (r, plot_statement(old(self)@, line@, rest@)) {
                (Ok(()), Ok(db)) => final(self)@ == db,
                (Err(m), Err(e)) => m@ == e,
                _ => false,
            },
    {
        let kind = if starts_with_str(line, "bar") {
            PlotKind::Bar
        } else {
            PlotKind::Line
        };
        let (_title, rest2) = take_text_exec(rest);
        match parse_number_list_exec(&rest2) {
            None => {
                let mut m = String::from_str("bad plot data: ");
                let l = string_of(line);
                m.append(l.as_str());
                Err(m)
            },
            Some(vals) => {
                if vals.len() > 0 && !self.has_set_x {
                    self.x_axis = XAxisData::Linear {
                        min: String::from_str("1"),
                        max: decimal_string(vals.len()),
                    };
                    self.has_set_x = true;
                }
                let color = self.plot_color();
                let x_axis = self.x_axis.copy();
                let plot = Plot { kind, color, values: vals, x_axis };
                let ghost before = self.plots@;
                self.plots.push(plot);
                proof {
                    assert(self.plots@.map_values(|p: Plot| p@) =~= before.map_values(|p: Plot| p@).push(
                        plot@,
                    ));
                }
                Ok(())
            },
        }
    }
}

/// The parser's state between lines.
pub struct State {
    pub db: XyDb,
    pub found: bool,
}

impl View for State {
    type V = StateV;

    open spec fn view(&self) -> StateV {
        StateV { db: self.db@, found: self.found }
    }
}

impl State {
    /// [`step`], executable.
    pub fn step(&mut self, raw: &[char]) -> (r: Result<(), String>)
        ensures
            match (r, step(old(self)@, raw@)) {
                (Ok(()), Ok(st)) => final(self)@ == st,
                (Err(m), Err(e)) => m@ == e,
                _ => false,
            },
    {
        let line = trim_vec(raw);
        if line.len() == 0 || starts_with_str(&line, "%%") {
            return Ok(());
        }
        if !self.found {
            match strip_prefix_str(&line, "xychart-beta") {
                Some(rest) => {
                    let t = trim_vec(&rest);
                    if eq_str(&t, "horizontal") {
                        self.db.horizontal = true;
                    }
                    self.found = true;
                    return Ok(());
                },
                None => {
                    let mut m = String::from_str("expected xychart-beta header, got ");
                    let ls = string_of(&line);
                    let q = debug_quote(ls.as_str());
                    m.append(q.as_str());
                    return Err(m);
                },
            }
        }
        if let Some(rest) = strip_prefix_str(&line, "title") {
            self.db.title = unquote_exec(&rest);
            return Ok(());
        }
        if let Some(rest) = strip_prefix_str(&line, "x-axis") {
            self.db.x_axis_statement(&rest);
            return Ok(());
        }
        if let Some(rest) = strip_prefix_str(&line, "y-axis") {
            self.db.y_axis_statement(&rest);
            return Ok(());
        }
        if let Some(rest) = strip_prefix_str(&line, "bar") {
            return self.db.plot_statement(&line, &rest);
        }
        if let Some(rest) = strip_prefix_str(&line, "line") {
            return self.db.plot_statement(&line, &rest);
        }
        let mut m = String::from_str("unsupported xychart statement: ");
        let ls = string_of(&line);
        m.append(ls.as_str());
        Err(m)
    }
}

/// Parses xychart-beta source: the header, then `title`, `x-axis`,
/// `y-axis`, `bar` and `line` statements; `%%` lines are comments.
pub fn parse(source: &str) -> (r: Result<XyDb, XyParseError>)
    ensures
        match (r, parse_result(source@)) {
            (Ok(db), Ok(v)) => db@ == v,
            (Err(e), Err(m)) => e.message@ == m,
            _ => false,
        },
{
    let src = chars_of(source);
    let ls = lines_of(&src);
    let mut st = State {
        db: XyDb {
            title: String::new(),
            horizontal: false,
            x_title: String::new(),
            x_axis: XAxisData::Band(Vec::new()),
            has_set_x: false,
            y_title: String::new(),
            y_range: None,
            plots: Vec::new(),
        },
        found: false,
    };
    let ghost all = lines(source@);
    let ghost init = StateV { db: empty_db(), found: false };
    proof {
        assert(st@.db.plots =~= Seq::<PlotV>::empty());
        if let XAxisData::Band(c) = &st.db.x_axis {
            assert(c@.map_values(|x: String| x@) =~= Seq::<Seq<char>>::empty());
        }
        assert(st@ == init);
        assert(all.skip(0) =~= all);
    }
    let mut i: usize = 0;
    while i < ls.len()
        invariant
            i <= ls@.len(),
            ls@.len() == all.len(),
            all == lines(source@),
            init == (StateV { db: empty_db(), found: false }),
            forall|j: int| 0 <= j < ls@.len() ==> #[trigger] ls@[j]@ == all[j],
            run(init, all) == run(st@, all.skip(i as int)),
        decreases ls@.len() - i,
    {
        proof {
            assert(all.skip(i as int)[0] == all[i as int]);
            assert(all.skip(i as int).drop_first() =~= all.skip(i + 1));
        }
        match st.step(&ls[i]) {
            Ok(()) => {},
            Err(m) => {
                return Err(XyParseError { message: m });
            },
        }
        i += 1;
    }
    proof {
        assert(all.skip(i as int) =~= Seq::<Seq<char>>::empty());
    }
    if !st.found {
        return Err(XyParseError { message: String::from_str("missing xychart-beta header") });
    }
    if st.db.plots.len() == 0 {
        return Err(XyParseError { message: String::from_str("No Plot to render") });
    }
    Ok(st.db)
}

/// The plots of `db` carry the palette colour of their index and at least
/// one float literal each, and once there is a plot the x axis is set.
pub open spec fn plots_ok(db: DbV) -> bool {
    &&& (db.plots.len() > 0 ==> db.has_set_x)
    &&& forall|i: int|
        0 <= i < db.plots.len() ==> {
            &&& (#[trigger] db.plots[i]).color == plot_color(i as nat)
            &&& db.plots[i].values.len() > 0
            &&& forall|j: int|
                0 <= j < db.plots[i].values.len() ==> is_float_literal(
                    #[trigger] db.plots[i].values[j],
                )
        }
}

proof fn lemma_split_on_nonempty(s: Seq<char>, sep: Seq<char>)
    ensures
        split_on(s, sep).len() > 0,
{
    if sep.len() > 0 {
        if let Some(i) = find(s, sep) {
            crate::strs::lemma_find_bounds(s, sep);
        }
    }
}

proof fn lemma_step_plots(st: StateV, raw: Seq<char>)
    requires
        plots_ok(st.db),
    ensures
        step(st, raw) matches Ok(st2) ==> plots_ok(st2.db),
{
    let line = trim(raw);
    let rest = if let Some(r) = strip_prefix(line, "bar"@) {
        r
    } else {
        strip_prefix(line, "line"@).unwrap_or(Seq::empty())
    };
    let t = trim(take_text(rest).1);
    if t.len() >= 2 {
        lemma_split_on_nonempty(t.subrange(1, t.len() - 1), ","@);
    }
    if let Ok(st2) = step(st, raw) {
        if st2.db.plots.len() > st.db.plots.len() {
            assert forall|i: int| 0 <= i < st2.db.plots.len() implies {
                &&& (#[trigger] st2.db.plots[i]).color == plot_color(i as nat)
                &&& st2.db.plots[i].values.len() > 0
                &&& forall|j: int|
                    0 <= j < st2.db.plots[i].values.len() ==> is_float_literal(
                        #[trigger] st2.db.plots[i].values[j],
                    )
            } by {
                if i < st.db.plots.len() {
                    assert(st2.db.plots[i] == st.db.plots[i]);
                }
            }
        }
    }
}

proof fn lemma_run_plots(st: StateV, ls: Seq<Seq<char>>)
    requires
        plots_ok(st.db),
    ensures
        run(st, ls) matches Ok(st2) ==> plots_ok(st2.db),
    decreases ls.len(),
{
    if ls.len() > 0 {
        lemma_step_plots(st, ls[0]);
        if let Ok(st1) = step(st, ls[0]) {
            lemma_run_plots(st1, ls.drop_first());
        }
    }
}

/// Law: a parsed chart has plots and an x axis; the plot with index `i`
/// takes colour `i` of the palette, cyclically, and holds at least one
/// value, each a float literal.
pub proof fn parsed_plots_well_formed(source: Seq<char>)
    ensures
        parse_result(source) matches Ok(db) ==> db.plots.len() > 0 && plots_ok(db),
{
    lemma_run_plots(StateV { db: empty_db(), found: false }, lines(source));
}

} // verus!
