//! timeline diagrams: sections, periods and their events, plus the text
//! tokenizing that the renderer wraps node labels with.

use crate::strs::{
    chars_of, copy_range, debug_quote, debug_quoted, eq_str, find, find_from_exec, is_ws, is_ws_char, join, join_exec, lines, lines_of, push_char, split_on, split_on_str, starts_with, starts_with_str, string_of, strip_prefix, strip_prefix_str, trim, trim_vec,
};
use vstd::prelude::*;

verus! {

/// A parse error for timeline source.
pub struct TimelineParseError {
    pub message: String,
}

pub struct Task {
    pub section: String,
    pub label: String,
    pub events: Vec<String>,
}

pub struct TimelineDb {
    pub title: String,
    pub sections: Vec<String>,
    pub tasks: Vec<Task>,
}

pub ghost struct TaskV {
    pub section: Seq<char>,
    pub label: Seq<char>,
    pub events: Seq<Seq<char>>,
}

pub ghost struct DbV {
    pub title: Seq<char>,
    pub sections: Seq<Seq<char>>,
    pub tasks: Seq<TaskV>,
}

impl View for Task {
    type V = TaskV;

    open spec fn view(&self) -> TaskV {
        TaskV {
            section: self.section@,
            label: self.label@,
            events: self.events@.map_values(|e: String| e@),
        }
    }
}

impl View for TimelineDb {
    type V = DbV;

    open spec fn view(&self) -> DbV {
        DbV {
            title: self.title@,
            sections: self.sections@.map_values(|s: String| s@),
            tasks: self.tasks@.map_values(|t: Task| t@),
        }
    }
}

/// The parser's state between lines.
pub ghost struct StateV {
    pub db: DbV,
    pub found: bool,
    pub section: Seq<char>,
}

pub open spec fn initial_state() -> StateV {
    StateV {
        db: DbV { title: Seq::empty(), sections: Seq::empty(), tasks: Seq::empty() },
        found: false,
        section: Seq::empty(),
    }
}

/// One source line.
pub open spec fn step(st: StateV, raw: Seq<char>) -> Result<StateV, Seq<char>> {
    let line = trim(raw);
    let db = st.db;
    if line.len() == 0 || starts_with(line, "%%"@) || starts_with(line, "#"@) {
        Ok(st)
    } else if !st.found {
        if line == "timeline"@ {
            Ok(StateV { found: true, ..st })
        } else {
            Err("expected timeline header, got "@ + debug_quoted(line))
        }
    } else if let Some(rest) = strip_prefix(line, "title "@) {
        Ok(StateV { db: DbV { title: trim(rest), ..db }, ..st })
    } else if let Some(rest) = strip_prefix(line, "section "@) {
        Ok(
            StateV {
                db: DbV { sections: db.sections.push(trim(rest)), ..db },
                section: trim(rest),
                ..st
            },
        )
    } else if let Some(rest) = strip_prefix(line, ":"@) {
        if db.tasks.len() > 0 {
            let last = db.tasks.last();
            Ok(
                StateV {
                    db: DbV {
                        tasks: db.tasks.update(
                            db.tasks.len() - 1,
                            TaskV { events: last.events.push(trim(rest)), ..last },
                        ),
                        ..db
                    },
                    ..st
                },
            )
        } else {
            Ok(st)
        }
    } else {
        let parts = split_on(line, " : "@);
        let task = TaskV {
            section: st.section,
            label: trim(parts[0]),
            events: parts.drop_first().map_values(|p: Seq<char>| trim(p)),
        };
        Ok(StateV { db: DbV { tasks: db.tasks.push(task), ..db }, ..st })
    }
}

/// The lines of `ls` applied in order from `st`; the first error stops.
pub open spec fn run(st: StateV, ls: Seq<Seq<char>>) -> Result<StateV, Seq<char>>
    decreases ls.len(),
{
    if ls.len() == 0 {
        Ok(st)
    } else {
        match step(st, ls[0]) {
            Ok(st1) => run(st1, ls.drop_first()),
            Err(e) => Err(e),
        }
    }
}

/// What [`parse`] gives for `source`.
pub open spec fn parse_result(source: Seq<char>) -> Result<DbV, Seq<char>> {
    match run(initial_state(), lines(source)) {
        Ok(st) => if st.found {
            Ok(st.db)
        } else {
            Err("missing timeline header"@)
        },
        Err(e) => Err(e),
    }
}

/// The parser's state between lines.
pub struct State {
    pub db: TimelineDb,
    pub found: bool,
    pub section: String,
}

impl View for State {
    type V = StateV;

    open spec fn view(&self) -> StateV {
        StateV { db: self.db@, found: self.found, section: self.section@ }
    }
}

fn trimmed_strings(parts: &Vec<Vec<char>>, from: usize) -> (r: Vec<String>)
    requires
        from <= parts@.len(),
    ensures
        r@.map_values(|s: String| s@) == parts@.map_values(|v: Vec<char>| v@).skip(
            from as int,
        ).map_values(|p: Seq<char>| trim(p)),
{
    let ghost pv = parts@.map_values(|v: Vec<char>| v@).skip(from as int);
    let mut r: Vec<String> = Vec::new();
    let mut i = from;
    while i < parts.len()
        invariant
            from <= i <= parts@.len(),
            pv == parts@.map_values(|v: Vec<char>| v@).skip(from as int),
            r@.map_values(|s: String| s@) == pv.take(i - from).map_values(
                |p: Seq<char>| trim(p),
            ),
        decreases parts@.len() - i,
    {
        let t = trim_vec(&parts[i]);
        let ghost before = r@;
        r.push(string_of(&t));
        proof {
            assert(pv[i - from] == parts@[i as int]@);
            assert(pv.take(i + 1 - from) =~= pv.take(i - from).push(pv[i - from]));
            assert(r@.map_values(|s: String| s@) =~= before.map_values(|s: String| s@).push(
                t@,
            ));
        }
        i += 1;
    }
    proof {
        assert(pv.take(i - from) =~= pv);
    }
    r
}

impl State {
    /// [`step`], executable.
    pub fn step(&mut self, raw: &[char]) -> (r: Result<(), String>)
        ensures
            match (r, step(old(self)@, raw@)) {
                (Ok(()), Ok(st)) => final(self)@ == st,
                (Err(m), Err(e)) => m@ == e,
                _ => false,
            },
    {
        let line = trim_vec(raw);
        if line.len() == 0 || starts_with_str(&line, "%%") || starts_with_str(&line, "#") {
            return Ok(());
        }
        if !self.found {
            if eq_str(&line, "timeline") {
                self.found = true;
                return Ok(());
            }
            let mut m = String::from_str("expected timeline header, got ");
            let ls = string_of(&line);
            let q = debug_quote(ls.as_str());
            m.append(q.as_str());
            return Err(m);
        }
        if let Some(rest) = strip_prefix_str(&line, "title ") {
            let t = trim_vec(&rest);
            self.db.title = string_of(&t);
            return Ok(());
        }
        if let Some(rest) = strip_prefix_str(&line, "section ") {
            let t = trim_vec(&rest);
            self.section = string_of(&t);
            let ghost before = self.db.sections@;
            self.db.sections.push(string_of(&t));
            proof {
                assert(self.db.sections@.map_values(|s: String| s@) =~= before.map_values(
                    |s: String| s@,
                ).push(t@));
            }
            return Ok(());
        }
        if let Some(rest) = strip_prefix_str(&line, ":") {
            let n = self.db.tasks.len();
            if n > 0 {
                let t = trim_vec(&rest);
                let ghost tasks0 = self.db@.tasks;
                let ghost ev0 = self.db.tasks@[n - 1].events@;
                self.db.tasks[n - 1].events.push(string_of(&t));
                proof {
                    assert(self.db.tasks@[n - 1].events@.map_values(|e: String| e@) =~= ev0.map_values(
                        |e: String| e@,
                    ).push(t@));
                    assert(self.db@.tasks =~= tasks0.update(
                        n - 1,
                        TaskV { events: tasks0[n - 1].events.push(t@), ..tasks0[n - 1] },
                    ));
                }
            }
            return Ok(());
        }
        let parts = split_on_str(&line, " : ");
        proof {
            assert(parts@.map_values(|v: Vec<char>| v@).len() > 0) by {
                reveal_strlit(" : ");
                crate::strs::lemma_find_bounds(line@, " : "@);
            }
        }
        let label = trim_vec(&parts[0]);
        let events = trimmed_strings(&parts, 1);
        let task = Task { section: self.section.clone(), label: string_of(&label), events };
        let ghost before = self.db@.tasks;
        self.db.tasks.push(task);
        proof {
            assert(self.db@.tasks =~= before.push(task@));
        }
        Ok(())
    }
}

/// Parses timeline source.
pub fn parse(source: &str) -> (r: Result<TimelineDb, TimelineParseError>)
    ensures
        match (r, parse_result(source@)) {
            (Ok(db), Ok(v)) => db@ == v,
            (Err(e), Err(m)) => e.message@ == m,
            _ => false,
        },
{
    let src = chars_of(source);
    let ls = lines_of(&src);
    let mut st = State {
        db: TimelineDb { title: String::new(), sections: Vec::new(), tasks: Vec::new() },
        found: false,
        section: String::new(),
    };
    let ghost all = lines(source@);
    proof {
        assert(st@.db.sections =~= Seq::<Seq<char>>::empty());
        assert(st@.db.tasks =~= Seq::<TaskV>::empty());
        assert(st@ == initial_state());
        assert(all.skip(0) =~= all);
    }
    let mut i: usize = 0;
    while i < ls.len()
        invariant
            i <= ls@.len(),
            ls@.len() == all.len(),
            all == lines(source@),
            forall|j: int| 0 <= j < ls@.len() ==> #[trigger] ls@[j]@ == all[j],
            run(initial_state(), all) == run(st@, all.skip(i as int)),
        decreases ls@.len() - i,
    {
        proof {
            assert(all.skip(i as int)[0] == all[i as int]);
            assert(all.skip(i as int).drop_first() =~= all.skip(i + 1));
        }
        match st.step(&ls[i]) {
            Ok(()) => {},
            Err(m) => {
                return Err(TimelineParseError { message: m });
            },
        }
        i += 1;
    }
    proof {
        assert(all.skip(i as int) =~= Seq::<Seq<char>>::empty());
    }
    if !st.found {
        return Err(TimelineParseError { message: String::from_str("missing timeline header") });
    }
    Ok(st.db)
}

/// Law: every task lies in no section or in a declared one.
pub proof fn parse_tasks_in_sections(source: Seq<char>)
    ensures
        parse_result(source) matches Ok(db) ==> forall|i: int|
            0 <= i < db.tasks.len() ==> #[trigger] db.tasks[i].section.len() == 0
                || db.sections.contains(db.tasks[i].section),
{
    lemma_run_sections(initial_state(), lines(source));
}

/// Tasks and the open section lie in no section or a declared one.
pub open spec fn sections_ok(st: StateV) -> bool {
    &&& (st.section.len() == 0 || st.db.sections.contains(st.section))
    &&& forall|i: int|
        0 <= i < st.db.tasks.len() ==> #[trigger] st.db.tasks[i].section.len() == 0
            || st.db.sections.contains(st.db.tasks[i].section)
}

proof fn lemma_step_sections(st: StateV, raw: Seq<char>)
    requires
        sections_ok(st),
    ensures
        step(st, raw) matches Ok(st2) ==> sections_ok(st2),
{
    if let Ok(st2) = step(st, raw) {
        assert forall|i: int| 0 <= i < st2.db.tasks.len() implies #[trigger] st2.db.tasks[i].section.len()
            == 0 || st2.db.sections.contains(st2.db.tasks[i].section) by {
            if i < st.db.tasks.len() {
                assert(st2.db.tasks[i].section == st.db.tasks[i].section);
                if st.db.sections.contains(st.db.tasks[i].section) {
                    let k = choose|k: int| 0 <= k < st.db.sections.len() && st.db.sections[k]
                        == st.db.tasks[i].section;
                    assert(st2.db.sections[k] == st.db.sections[k]);
                }
            } else {
                assert(st2.db.tasks[i].section == st.section);
                if st.db.sections.contains(st.section) {
                    let k = choose|k: int| 0 <= k < st.db.sections.len() && st.db.sections[k]
                        == st.section;
                    assert(st2.db.sections[k] == st.db.sections[k]);
                }
            }
        }
        if st2.section.len() > 0 {
            if st2.section == st.section {
                if st.db.sections.contains(st.section) {
                    let k = choose|k: int| 0 <= k < st.db.sections.len() && st.db.sections[k]
                        == st.section;
                    assert(st2.db.sections[k] == st.db.sections[k]);
                }
            } else {
                assert(st2.db.sections.last() == st2.section);
            }
        }
    }
}

proof fn lemma_run_sections(st: StateV, ls: Seq<Seq<char>>)
    requires
        sections_ok(st),
    ensures
        run(st, ls) matches Ok(st2) ==> sections_ok(st2),
    decreases ls.len(),
{
    if ls.len() > 0 {
        lemma_step_sections(st, ls[0]);
        if let Ok(st1) = step(st, ls[0]) {
            lemma_run_sections(st1, ls.drop_first());
        }
    }
}

/// End of the run of characters from `i` on whose whitespace-ness is `ws`.
pub open spec fn run_end(s: Seq<char>, i: nat, ws: bool) -> nat
    decreases s.len() - i,
{
    if i >= s.len() {
        s.len()
    } else if is_ws(s[i as int]) != ws {
        i
    } else {
        run_end(s, i + 1, ws)
    }
}

pub proof fn lemma_run_end(s: Seq<char>, i: nat, ws: bool)
    requires
        i <= s.len(),
    ensures
        i <= run_end(s, i, ws) <= s.len(),
    decreases s.len() - i,
{
    if i < s.len() && is_ws(s[i as int]) == ws {
        lemma_run_end(s, i + 1, ws);
    }
}

/// The maximal runs of whitespace and of other characters, in order.
pub open spec fn ws_runs(s: Seq<char>) -> Seq<Seq<char>>
    decreases s.len(),
{
    if s.len() == 0 {
        Seq::empty()
    } else {
        let e = run_end(s, 0, is_ws(s[0]));
        proof {
            lemma_run_end(s, 1, is_ws(s[0]));
        }
        seq![s.take(e as int)] + ws_runs(s.skip(e as int))
    }
}

/// Appends the whitespace and non-whitespace runs of `text` to `tokens`.
pub fn push_ws_tokens(text: &[char], tokens: &mut Vec<String>)
    ensures
        final(tokens)@.map_values(|t: String| t@) == old(tokens)@.map_values(|t: String| t@)
            + ws_runs(text@),
{
    let ghost base = tokens@.map_values(|t: String| t@);
    let mut start: usize = 0;
    assert(text@.skip(0) =~= text@);
    assert(base + Seq::<Seq<char>>::empty() =~= base);
    while start < text.len()
        invariant
            start <= text@.len(),
            base == old(tokens)@.map_values(|t: String| t@),
            base + ws_runs(text@) == tokens@.map_values(|t: String| t@) + ws_runs(
                text@.skip(start as int),
            ),
        decreases text@.len() - start,
    {
        let t = copy_range(text, start, text.len());
        assert(t@ =~= text@.skip(start as int));
        let w = is_ws_char(t[0]);
        let mut e: usize = 1;
        proof {
            lemma_run_end(t@, 1, w);
        }
        while e < t.len() && is_ws_char(t[e]) == w
            invariant
                1 <= e <= t@.len(),
                w == is_ws(t@[0]),
                run_end(t@, 0, w) == run_end(t@, e as nat, w),
            decreases t@.len() - e,
        {
            e += 1;
        }
        let piece = copy_range(&t, 0, e);
        let ghost before = tokens@;
        tokens.push(string_of(&piece));
        proof {
            assert(tokens@.map_values(|x: String| x@) =~= before.map_values(|x: String| x@).push(
                piece@,
            ));
            assert(t@.skip(e as int) =~= text@.skip(start + e));
            assert(ws_runs(t@) == seq![piece@] + ws_runs(t@.skip(e as int)));
            assert(before.map_values(|x: String| x@) + ws_runs(t@) =~= tokens@.map_values(
                |x: String| x@,
            ) + ws_runs(t@.skip(e as int)));
        }
        start = start + e;
    }
    proof {
        assert(text@.skip(start as int) =~= Seq::<char>::empty());
        assert(tokens@.map_values(|t: String| t@) + Seq::<Seq<char>>::empty() =~= tokens@.map_values(
            |t: String| t@,
        ));
    }
}

/// The words of a line joined by single spaces, trimmed.
pub fn join_trim(line: &[String]) -> (r: String)
    ensures
        r@ == trim(join(line@.map_values(|s: String| s@), " "@)),
{
    let j = join_exec(line, " ");
    let t = trim_vec(&j);
    string_of(&t)
}

/// Whitespace runs collapsed to one space; `prev_ws` tells whether a
/// whitespace run is already open.
pub open spec fn collapse(s: Seq<char>, prev_ws: bool) -> Seq<char>
    decreases s.len(),
{
    if s.len() == 0 {
        Seq::empty()
    } else if is_ws(s[0]) {
        (if prev_ws {
            Seq::empty()
        } else {
            seq![' ']
        }) + collapse(s.drop_first(), true)
    } else {
        seq![s[0]] + collapse(s.drop_first(), false)
    }
}

/// Collapses whitespace runs to single spaces (SVG default `xml:space`).
pub fn collapse_ws(text: &[char]) -> (r: String)
    ensures
        r@ == collapse(text@, false),
{
    let mut out = String::new();
    let mut prev_ws = false;
    let mut i: usize = 0;
    assert(text@.skip(0) =~= text@);
    while i < text.len()
        invariant
            i <= text@.len(),
            out@ + collapse(text@.skip(i as int), prev_ws) == collapse(text@, false),
        decreases text@.len() - i,
    {
        let ghost rest = text@.skip(i as int);
        proof {
            assert(rest.drop_first() =~= text@.skip(i + 1));
            assert(rest[0] == text@[i as int]);
        }
        let c = text[i];
        if is_ws_char(c) {
            if !prev_ws {
                push_char(&mut out, ' ');
            }
            prev_ws = true;
        } else {
            push_char(&mut out, c);
            prev_ws = false;
        }
        i += 1;
    }
    proof {
        assert(text@.skip(i as int) =~= Seq::<char>::empty());
        assert(out@ + Seq::<char>::empty() =~= out@);
    }
    out
}

/// The tokens a node label wraps over: `<br>` tags, and the whitespace and
/// word runs between them.
pub open spec fn wrap_tokens(s: Seq<char>) -> Seq<Seq<char>>
    decreases s.len(),
{
    if s.len() == 0 {
        Seq::empty()
    } else {
        match find(s, "<br>"@) {
            Some(i) => {
                proof {
                    crate::strs::lemma_find_bounds(s, "<br>"@);
                    reveal_strlit("<br>");
                }
                ws_runs(s.take(i as int)) + seq!["<br>"@] + wrap_tokens(s.skip(i + 4 as int))
            },
            None => ws_runs(s),
        }
    }
}

/// [`wrap_tokens`], executable.
pub fn wrap_tokens_exec(descr: &[char]) -> (r: Vec<String>)
    ensures
        r@.map_values(|t: String| t@) == wrap_tokens(descr@),
{
    let mut tokens: Vec<String> = Vec::new();
    let mut start: usize = 0;
    let pat = chars_of("<br>");
    proof {
        reveal_strlit("<br>");
        assert(descr@.skip(0) =~= descr@);
        assert(tokens@.map_values(|t: String| t@) =~= Seq::<Seq<char>>::empty());
    }
    while start < descr.len()
        invariant
            start <= descr@.len(),
            pat@ == "<br>"@,
            wrap_tokens(descr@) == tokens@.map_values(|t: String| t@) + wrap_tokens(
                descr@.skip(start as int),
            ),
        decreases descr@.len() - start,
    {
        let rest = copy_range(descr, start, descr.len());
        assert(rest@ =~= descr@.skip(start as int));
        proof {
            reveal_strlit("<br>");
        }
        let ghost before = tokens@.map_values(|t: String| t@);
        match find_from_exec(&rest, &pat, 0) {
            Some(idx) => {
                let rl = rest.len();
                assert(idx + 4 <= rl);
                let head = copy_range(&rest, 0, idx);
                push_ws_tokens(&head, &mut tokens);
                let ghost mid = tokens@;
                tokens.push(String::from_str("<br>"));
                proof {
                    assert(tokens@.map_values(|t: String| t@) =~= mid.map_values(|t: String| t@).push(
                        "<br>"@,
                    ));
                    assert(rest@.skip(idx + 4) =~= descr@.skip(start + idx + 4));
                    assert(wrap_tokens(rest@) == ws_runs(head@) + seq!["<br>"@] + wrap_tokens(
                        rest@.skip(idx + 4),
                    ));
                    assert(before + wrap_tokens(rest@) =~= tokens@.map_values(|t: String| t@)
                        + wrap_tokens(rest@.skip(idx + 4)));
                }
                start = start + idx + 4;
            },
            None => {
                push_ws_tokens(&rest, &mut tokens);
                proof {
                    assert(descr@.skip(descr@.len() as int) =~= Seq::<char>::empty());
                }
                start = descr.len();
            },
        }
    }
    proof {
        assert(descr@.skip(start as int) =~= Seq::<char>::empty());
        assert(tokens@.map_values(|t: String| t@) + Seq::<Seq<char>>::empty() =~= tokens@.map_values(
            |t: String| t@,
        ));
    }
    tokens
}

impl TimelineParseError {
    /// The error as a message.
    pub fn display(&self) -> (s: String)
        ensures
            s@ == "timeline parse error: "@ + self.message@,
    {
        let mut s = String::from_str("timeline parse error: ");
        s.append(self.message.as_str());
        s
    }
}


/// Where line wrapping stands: the finished lines, the words of the line
/// being filled, and that line as text.
pub struct WrapState {
    pub tspans: Vec<String>,
    pub line: Vec<String>,
    pub current: String,
}

/// The model of a [`WrapState`].
pub ghost struct WrapV {
    pub tspans: Seq<Seq<char>>,
    pub line: Seq<Seq<char>>,
    pub current: Seq<char>,
}

impl View for WrapState {
    type V = WrapV;

    open spec fn view(&self) -> WrapV {
        WrapV {
            tspans: self.tspans@.map_values(|t: String| t@),
            line: self.line@.map_values(|t: String| t@),
            current: self.current@,
        }
    }
}

/// A line's words joined by spaces and trimmed.
pub open spec fn joined(line: Seq<Seq<char>>) -> Seq<char> {
    trim(join(line, " "@))
}

/// The text to measure before adding `word`: the line with the word, its
/// whitespace collapsed.
pub open spec fn wrap_candidate_spec(st: WrapV, word: Seq<char>) -> Seq<char> {
    collapse(joined(st.line.push(word)), false)
}

/// One wrapping step for `word`, where `too_wide` says whether the
/// candidate line measured wider than the limit: a `<br>` or an overlong
/// line closes the line before the word, which then starts the next line
/// (a `<br>` starts an empty one); otherwise the word joins the line.
pub open spec fn wrap_step_spec(st: WrapV, word: Seq<char>, too_wide: bool) -> WrapV {
    if too_wide || word == "<br>"@ {
        WrapV {
            tspans: st.tspans.push(joined(st.line)),
            line: if word == "<br>"@ {
                seq![Seq::empty()]
            } else {
                seq![word]
            },
            current: if word == "<br>"@ {
                Seq::empty()
            } else {
                word
            },
        }
    } else {
        WrapV { tspans: st.tspans, line: st.line.push(word), current: joined(st.line.push(word)) }
    }
}

impl WrapState {
    /// Nothing wrapped yet.
    pub fn new() -> (st: Self)
        ensures
            st@ == (WrapV { tspans: Seq::empty(), line: Seq::empty(), current: Seq::empty() }),
    {
        let st = WrapState { tspans: Vec::new(), line: Vec::new(), current: String::new() };
        assert(st@.tspans =~= Seq::<Seq<char>>::empty());
        assert(st@.line =~= Seq::<Seq<char>>::empty());
        st
    }

    /// The text to measure before adding `word` (see
    /// [`wrap_candidate_spec`]).
    pub fn candidate(&self, word: &String) -> (r: String)
        ensures
            r@ == wrap_candidate_spec(self@, word@),
    {
        let mut l: Vec<String> = Vec::new();
        let mut i: usize = 0;
        while i < self.line.len()
            invariant
                i <= self.line@.len(),
                l@.map_values(|t: String| t@) == self@.line.take(i as int),
            decreases self.line@.len() - i,
        {
            let c = self.line[i].clone();
            let ghost before = l@;
            assert(c@ == self@.line[i as int]);
            l.push(c);
            proof {
                assert(l@.map_values(|t: String| t@) =~= before.map_values(|t: String| t@).push(c@));
                assert(self@.line.take(i + 1) =~= self@.line.take(i as int).push(c@));
            }
            i += 1;
        }
        l.push(word.clone());
        assert(self@.line.take(i as int) =~= self@.line);
        assert(l@.map_values(|t: String| t@) =~= self@.line.push(word@));
        let j = join_trim(&l);
        let jc = chars_of(j.as_str());
        collapse_ws(&jc)
    }

    /// One wrapping step (see [`wrap_step_spec`]).
    pub fn step(&mut self, word: String, too_wide: bool)
        ensures
            final(self)@ == wrap_step_spec(old(self)@, word@, too_wide),
    {
        let wv = chars_of(word.as_str());
        let is_br = eq_str(&wv, "<br>");
        if too_wide || is_br {
            let closed = join_trim(&self.line);
            let ghost t0 = self@.tspans;
            self.tspans.push(closed);
            assert(self@.tspans =~= t0.push(joined(old(self)@.line)));
            let mut l: Vec<String> = Vec::new();
            if is_br {
                l.push(String::new());
                self.current = String::new();
            } else {
                l.push(word.clone());
                self.current = word;
            }
            self.line = l;
            assert(self@.line =~= if is_br {
                seq![Seq::<char>::empty()]
            } else {
                seq![wv@]
            });
        } else {
            let ghost l0 = self@.line;
            self.line.push(word);
            assert(self@.line =~= l0.push(wv@));
            self.current = join_trim(&self.line);
        }
    }

    /// The wrapped lines: the finished ones, then the current one.
    pub fn finish(self) -> (r: Vec<String>)
        ensures
            r@.map_values(|t: String| t@) == self@.tspans.push(self@.current),
    {
        let ghost t0 = self@.tspans;
        let mut t = self.tspans;
        t.push(self.current);
        assert(t@.map_values(|x: String| x@) =~= t0.push(self@.current));
        t
    }
}

/// What a drawn timeline node stands for.
#[derive(Clone, Copy, PartialEq, Eq, Structural)]
pub enum NodeRole {
    Section,
    Task,
    Event,
}

/// A node the renderer draws: its role, its text, and the number of its
/// `section-N` class. Its position in the plan is the number in its id.
pub struct PlannedNode {
    pub role: NodeRole,
    pub text: String,
    pub section: i64,
}

pub ghost struct PlannedV {
    pub role: NodeRole,
    pub text: Seq<char>,
    pub section: int,
}

impl View for PlannedNode {
    type V = PlannedV;

    open spec fn view(&self) -> PlannedV {
        PlannedV { role: self.role, text: self.text@, section: self.section as int }
    }
}

/// The section class number of colour `c`: the colours cycle through
/// twelve classes, numbered from -1.
pub open spec fn section_class(c: nat) -> int {
    (c % 12) as int - 1
}

/// A task's node followed by its events' nodes, all in colour `c`.
pub open spec fn task_nodes(t: TaskV, c: nat) -> Seq<PlannedV> {
    seq![PlannedV { role: NodeRole::Task, text: t.label, section: section_class(c) }]
        + t.events.map_values(
        |e: Seq<char>| PlannedV { role: NodeRole::Event, text: e, section: section_class(c) },
    )
}

/// The nodes of the first `k` tasks that belong to section `name`.
pub open spec fn section_tasks_plan(tasks: Seq<TaskV>, name: Seq<char>, c: nat, k: nat) -> Seq<
    PlannedV,
>
    decreases k,
{
    if k == 0 {
        Seq::empty()
    } else {
        section_tasks_plan(tasks, name, c, (k - 1) as nat) + if tasks[k - 1].section == name {
            task_nodes(tasks[k - 1], c)
        } else {
            Seq::empty()
        }
    }
}

/// The nodes of the first `k` sections: each section's node, then the
/// nodes of its tasks, in the section's colour.
pub open spec fn sections_plan(db: DbV, k: nat) -> Seq<PlannedV>
    decreases k,
{
    if k == 0 {
        Seq::empty()
    } else {
        let c = (k - 1) as nat;
        sections_plan(db, c) + seq![
            PlannedV { role: NodeRole::Section, text: db.sections[c as int], section: section_class(c) },
        ] + section_tasks_plan(db.tasks, db.sections[c as int], c, db.tasks.len())
    }
}

/// The nodes of the first `k` tasks of a timeline without sections: task
/// `i` takes colour `i`.
pub open spec fn free_tasks_plan(tasks: Seq<TaskV>, k: nat) -> Seq<PlannedV>
    decreases k,
{
    if k == 0 {
        Seq::empty()
    } else {
        free_tasks_plan(tasks, (k - 1) as nat) + task_nodes(tasks[k - 1], (k - 1) as nat)
    }
}

/// The nodes a timeline draws, in drawing order. With sections, each
/// section and the tasks filed under its name (tasks outside every section
/// are not drawn); without, every task.
pub open spec fn timeline_plan(db: DbV) -> Seq<PlannedV> {
    if db.sections.len() > 0 {
        sections_plan(db, db.sections.len())
    } else {
        free_tasks_plan(db.tasks, db.tasks.len())
    }
}

fn section_class_exec(c: usize) -> (r: i64)
    ensures
        r == section_class(c as nat),
{
    ((c % 12) as i64) - 1
}

fn push_task_nodes(out: &mut Vec<PlannedNode>, t: &Task, c: usize)
    ensures
        final(out)@.map_values(|p: PlannedNode| p@) == old(out)@.map_values(|p: PlannedNode| p@)
            + task_nodes(t@, c as nat),
{
    let cls = section_class_exec(c);
    let ghost base = out@.map_values(|p: PlannedNode| p@);
    out.push(PlannedNode { role: NodeRole::Task, text: t.label.clone(), section: cls });
    let ghost ev = t@.events;
    let ghost mapped = ev.map_values(
        |e: Seq<char>| PlannedV { role: NodeRole::Event, text: e, section: section_class(c as nat) },
    );
    proof {
        assert(out@.map_values(|p: PlannedNode| p@) =~= base + seq![
            PlannedV { role: NodeRole::Task, text: t@.label, section: section_class(c as nat) },
        ] + mapped.take(0));
    }
    let mut j: usize = 0;
    while j < t.events.len()
        invariant
            j <= t.events@.len(),
            ev == t@.events,
            ev.len() == t.events@.len(),
            mapped == ev.map_values(
                |e: Seq<char>| PlannedV { role: NodeRole::Event, text: e, section: section_class(c as nat) },
            ),
            cls == section_class(c as nat),
            out@.map_values(|p: PlannedNode| p@) == base + seq![
                PlannedV { role: NodeRole::Task, text: t@.label, section: section_class(c as nat) },
            ] + mapped.take(j as int),
        decreases t.events@.len() - j,
    {
        let ghost before = out@.map_values(|p: PlannedNode| p@);
        let p = PlannedNode { role: NodeRole::Event, text: t.events[j].clone(), section: cls };
        out.push(p);
        proof {
            assert(ev[j as int] == t.events@[j as int]@);
            assert(out@.map_values(|p: PlannedNode| p@) =~= before.push(p@));
            assert(mapped.take(j + 1) =~= mapped.take(j as int).push(mapped[j as int]));
        }
        j += 1;
    }
    proof {
        assert(mapped.take(j as int) =~= mapped);
        assert(out@.map_values(|p: PlannedNode| p@) =~= base + task_nodes(t@, c as nat));
    }
}

/// [`timeline_plan`], executable.
pub fn timeline_plan_exec(db: &TimelineDb) -> (r: Vec<PlannedNode>)
    ensures
        r@.map_values(|p: PlannedNode| p@) == timeline_plan(db@),
{
    let mut out: Vec<PlannedNode> = Vec::new();
    proof {
        assert(out@.map_values(|p: PlannedNode| p@) =~= Seq::<PlannedV>::empty());
    }
    if db.sections.len() > 0 {
        let mut k: usize = 0;
        while k < db.sections.len()
            invariant
                k <= db@.sections.len(),
                out@.map_values(|p: PlannedNode| p@) == sections_plan(db@, k as nat),
            decreases db@.sections.len() - k,
        {
            let name = &db.sections[k];
            proof {
                assert(db@.sections[k as int] == name@);
            }
            let ghost before = out@.map_values(|p: PlannedNode| p@);
            let cls = section_class_exec(k);
            let sp = PlannedNode { role: NodeRole::Section, text: name.clone(), section: cls };
            out.push(sp);
            proof {
                assert(out@.map_values(|p: PlannedNode| p@) =~= before.push(sp@));
            }
            let ghost mid = out@.map_values(|p: PlannedNode| p@);
            let nv = chars_of(name.as_str());
            let mut i: usize = 0;
            while i < db.tasks.len()
                invariant
                    k < db@.sections.len(),
                    i <= db@.tasks.len(),
                    nv@ == db@.sections[k as int],
                    out@.map_values(|p: PlannedNode| p@) == mid + section_tasks_plan(
                        db@.tasks,
                        db@.sections[k as int],
                        k as nat,
                        i as nat,
                    ),
                decreases db@.tasks.len() - i,
            {
                let t = &db.tasks[i];
                proof {
                    assert(db@.tasks[i as int] == t@);
                }
                let tv = chars_of(t.section.as_str());
                let ghost before = out@.map_values(|p: PlannedNode| p@);
                if crate::sequence::eq_slices(&tv, &nv) {
                    push_task_nodes(&mut out, t, k);
                } else {
                    proof {
                        assert(before + Seq::<PlannedV>::empty() =~= before);
                    }
                }
                proof {
                    assert(out@.map_values(|p: PlannedNode| p@) =~= mid + section_tasks_plan(
                        db@.tasks,
                        db@.sections[k as int],
                        k as nat,
                        (i + 1) as nat,
                    ));
                }
                i += 1;
            }
            k += 1;
        }
    } else {
        let mut i: usize = 0;
        while i < db.tasks.len()
            invariant
                i <= db@.tasks.len(),
                out@.map_values(|p: PlannedNode| p@) == free_tasks_plan(db@.tasks, i as nat),
            decreases db@.tasks.len() - i,
        {
            let t = &db.tasks[i];
            proof {
                assert(db@.tasks[i as int] == t@);
            }
            push_task_nodes(&mut out, t, i);
            i += 1;
        }
    }
    out
}

} // verus!
