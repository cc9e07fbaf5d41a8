//! treemap diagrams: the indentation-based item list, the hierarchy built
//! from it, and the lazy ordinal colour scale the renderer paints with.
//!
//! Item values stay as the numeric text they were written with (digit
//! group separators removed); the layout reads them as numbers.

use crate::keyed::{
    index_entries, index_insert, index_new, index_position, key_position,
};
use crate::strs::{
    before_first, chars_of, copy_range, debug_quote, debug_quoted, eq_str, find_char, find_char_exec, find_str, is_float_literal, is_float_literal_exec, lines, lines_of, starts_with, starts_with_str, string_of, strip_prefix, strip_prefix_str, trim, trim_start, trim_start_vec, trim_vec,
};
use indexmap::IndexMap;
use vstd::prelude::*;

verus! {

/// Parse error for treemap diagrams.
pub struct TreemapParseError(pub String);

/// One item line: its indentation, name, whether it carries a value (a
/// leaf), and the value's numeric text when it reads as a number.
pub struct FlatItem {
    pub level: usize,
    pub name: String,
    pub is_leaf: bool,
    pub value: Option<String>,
}

pub ghost struct ItemV {
    pub level: nat,
    pub name: Seq<char>,
    pub is_leaf: bool,
    pub value: Option<Seq<char>>,
}

impl View for FlatItem {
    type V = ItemV;

    open spec fn view(&self) -> ItemV {
        ItemV {
            level: self.level as nat,
            name: self.name@,
            is_leaf: self.is_leaf,
            value: match self.value {
                Some(v) => Some(v@),
                None => None,
            },
        }
    }
}

/// Number of leading whitespace characters.
pub open spec fn indent(raw: Seq<char>) -> nat {
    (raw.len() - trim_start(raw).len()) as nat
}

/// `s` without `_` and `,` characters.
pub open spec fn drop_separators(s: Seq<char>) -> Seq<char> {
    s.filter(|c: char| c != '_' && c != ',')
}

/// The item an indented line describes, if it is an item line:
/// `"name"` (a section) or `"name": value` / `"name", value` (a leaf),
/// with `'` quotes accepted too and a trailing `:::class` ignored.
pub open spec fn item_of(raw: Seq<char>, trimmed: Seq<char>) -> Option<ItemV> {
    let quoted = match strip_prefix(trimmed, "\""@) {
        Some(r) => Some(r),
        None => strip_prefix(trimmed, "'"@),
    };
    match quoted {
        None => None,
        Some(rest) => {
            let quote = trimmed[0];
            match find_char(rest, quote) {
                None => None,
                Some(end) => {
                    let name = rest.take(end as int);
                    let after = trim(before_first(trim_start(rest.skip(end + 1 as int)), ":::"@));
                    let v = match strip_prefix(after, ":"@) {
                        Some(v) => Some(v),
                        None => strip_prefix(after, ","@),
                    };
                    let (is_leaf, value) = match v {
                        Some(v) => {
                            let num = drop_separators(trim(v));
                            (true, if is_float_literal(num) {
                                Some(num)
                            } else {
                                None
                            })
                        },
                        None => (false, None),
                    };
                    Some(ItemV { level: indent(raw), name, is_leaf, value })
                },
            }
        },
    }
}

/// The parser's state between lines.
pub ghost struct StateV {
    pub items: Seq<ItemV>,
    pub found: bool,
}

/// One source line.
pub open spec fn step(st: StateV, raw: Seq<char>) -> Result<StateV, Seq<char>> {
    let trimmed = trim(raw);
    if trimmed.len() == 0 || starts_with(trimmed, "%%"@) {
        Ok(st)
    } else if !st.found {
        if trimmed == "treemap-beta"@ || trimmed == "treemap"@ {
            Ok(StateV { found: true, ..st })
        } else {
            Err("expected treemap header, got "@ + debug_quoted(trimmed))
        }
    } else if starts_with(trimmed, "title"@) || starts_with(trimmed, "accTitle"@) || starts_with(
        trimmed,
        "accDescr"@,
    ) || starts_with(trimmed, "classDef"@) {
        Ok(st)
    } else {
        match item_of(raw, trimmed) {
            Some(item) => Ok(StateV { items: st.items.push(item), ..st }),
            None => Ok(st),
        }
    }
}

/// The lines of `ls` applied in order from `st`; the first error stops.
pub open spec fn run(st: StateV, ls: Seq<Seq<char>>) -> Result<StateV, Seq<char>>
    decreases ls.len(),
{
    if ls.len() == 0 {
        Ok(st)
    } else {
        match step(st, ls[0]) {
            Ok(st1) => run(st1, ls.drop_first()),
            Err(e) => Err(e),
        }
    }
}

/// What [`parse`] gives for `source`: the items, or the error message. A
/// source without a `treemap` header is no treemap.
pub open spec fn parse_result(source: Seq<char>) -> Result<Seq<ItemV>, Seq<char>> {
    match run(StateV { items: Seq::empty(), found: false }, lines(source)) {
        Ok(st) => if st.found {
            Ok(st.items)
        } else {
            Err("missing treemap header"@)
        },
        Err(e) => Err(e),
    }
}

fn drop_separators_exec(s: &[char]) -> (r: Vec<char>)
    ensures
        r@ == drop_separators(s@),
{
    let ghost pred = |c: char| c != '_' && c != ',';
    let mut r: Vec<char> = Vec::new();
    let mut i: usize = 0;
    while i < s.len()
        invariant
            i <= s@.len(),
            pred == (|c: char| c != '_' && c != ','),
            r@ == s@.take(i as int).filter(pred),
        decreases s@.len() - i,
    {
        let c = s[i];
        if c != '_' && c != ',' {
            r.push(c);
        }
        proof {
            reveal(Seq::filter);
            assert(s@.take(i + 1).drop_last() =~= s@.take(i as int));
            assert(s@.take(i + 1).last() == c);
        }
        i += 1;
    }
    assert(s@.take(i as int) =~= s@);
    r
}

fn before_first_exec(s: &[char], sep: &str) -> (r: Vec<char>)
    ensures
        r@ == before_first(s@, sep@),
{
    match find_str(s, sep) {
        Some(i) => copy_range(s, 0, i),
        None => copy_range(s, 0, s.len()),
    }
}

/// [`item_of`], executable.
pub fn item_of_exec(raw: &[char], trimmed: &[char]) -> (r: Option<FlatItem>)
    requires
        trimmed@ == trim(raw@),
    ensures
        match r {
            Some(it) => item_of(raw@, trimmed@) == Some(it@),
            None => item_of(raw@, trimmed@) is None,
        },
{
    let quoted = match strip_prefix_str(trimmed, "\"") {
        Some(r) => Some(r),
        None => strip_prefix_str(trimmed, "'"),
    };
    let rest = quoted?;
    proof {
        reveal_strlit("\"");
        reveal_strlit("'");
    }
    let quote = trimmed[0];
    let found = find_char_exec(&rest, quote);
    let end = found?;
    let name = copy_range(&rest, 0, end);
    let t = copy_range(&rest, end + 1, rest.len());
    let ts = trim_start_vec(&t);
    let bf = before_first_exec(&ts, ":::");
    let after = trim_vec(&bf);
    let v = match strip_prefix_str(&after, ":") {
        Some(v) => Some(v),
        None => strip_prefix_str(&after, ","),
    };
    let (is_leaf, value) = match v {
        Some(v) => {
            let tv = trim_vec(&v);
            let num = drop_separators_exec(&tv);
            if is_float_literal_exec(&num) {
                (true, Some(string_of(&num)))
            } else {
                (true, None)
            }
        },
        None => (false, None),
    };
    let st = trim_start_vec(raw);
    proof {
        crate::strs::lemma_trim_start_len(raw@);
    }
    let level = raw.len() - st.len();
    Some(FlatItem { level, name: string_of(&name), is_leaf, value })
}

/// Parses treemap source into its item lines.
pub fn parse(source: &str) -> (r: Result<Vec<FlatItem>, TreemapParseError>)
    ensures
        match (r, parse_result(source@)) {
            (Ok(items), Ok(v)) => items@.map_values(|i: FlatItem| i@) == v,
            (Err(e), Err(m)) => e.0@ == m,
            _ => false,
        },
{
    let src = chars_of(source);
    let ls = lines_of(&src);
    let mut items: Vec<FlatItem> = Vec::new();
    let mut found = false;
    let ghost all = lines(source@);
    let ghost init = StateV { items: Seq::empty(), found: false };
    proof {
        assert(items@.map_values(|i: FlatItem| i@) =~= Seq::<ItemV>::empty());
        assert(all.skip(0) =~= all);
    }
    let mut i: usize = 0;
    while i < ls.len()
        invariant
            i <= ls@.len(),
            ls@.len() == all.len(),
            all == lines(source@),
            init == (StateV { items: Seq::empty(), found: false }),
            forall|j: int| 0 <= j < ls@.len() ==> #[trigger] ls@[j]@ == all[j],
            run(init, all) == run(
                StateV { items: items@.map_values(|i: FlatItem| i@), found },
                all.skip(i as int),
            ),
        decreases ls@.len() - i,
    {
        proof {
            assert(all.skip(i as int)[0] == all[i as int]);
            assert(all.skip(i as int).drop_first() =~= all.skip(i + 1));
        }
        let raw = &ls[i];
        let trimmed = trim_vec(raw);
        if trimmed.len() == 0 || starts_with_str(&trimmed, "%%") {
        } else if !found {
            if eq_str(&trimmed, "treemap-beta") || eq_str(&trimmed, "treemap") {
                found = true;
            } else {
                let mut m = String::from_str("expected treemap header, got ");
                let ts = string_of(&trimmed);
                let q = debug_quote(ts.as_str());
                m.append(q.as_str());
                return Err(TreemapParseError(m));
            }
        } else if starts_with_str(&trimmed, "title") || starts_with_str(&trimmed, "accTitle")
            || starts_with_str(&trimmed, "accDescr") || starts_with_str(&trimmed, "classDef") {
        } else {
            match item_of_exec(raw, &trimmed) {
                Some(item) => {
                    let ghost before = items@;
                    items.push(item);
                    proof {
                        assert(items@.map_values(|i: FlatItem| i@) =~= before.map_values(
                            |i: FlatItem| i@,
                        ).push(item@));
                    }
                },
                None => {},
            }
        }
        i += 1;
    }
    proof {
        assert(all.skip(i as int) =~= Seq::<Seq<char>>::empty());
    }
    if !found {
        return Err(TreemapParseError(String::from_str("missing treemap header")));
    }
    Ok(items)
}

/// A hierarchy node of the layout arena.
pub struct HNode {
    pub name: String,
    /// The leaf value's numeric text, if any.
    pub value: Option<String>,
    pub children: Vec<usize>,
    pub depth: usize,
    pub parent: Option<usize>,
}

pub ghost struct HNodeV {
    pub name: Seq<char>,
    pub value: Option<Seq<char>>,
    pub children: Seq<usize>,
    pub depth: nat,
    pub parent: Option<usize>,
}

impl View for HNode {
    type V = HNodeV;

    open spec fn view(&self) -> HNodeV {
        HNodeV {
            name: self.name@,
            value: match self.value {
                Some(v) => Some(v@),
                None => None,
            },
            children: self.children@,
            depth: self.depth as nat,
            parent: self.parent,
        }
    }
}

/// Drops the open parents whose level is at least `level`.
pub open spec fn pop_until(stack: Seq<(usize, nat)>, level: nat) -> Seq<(usize, nat)>
    decreases stack.len(),
{
    if stack.len() > 0 && stack.last().1 >= level {
        pop_until(stack.drop_last(), level)
    } else {
        stack
    }
}

/// The arena and the stack of open parents after adding one item: its
/// parent is the nearest open item of a smaller level (else the root), and
/// a section item opens for children of its own.
pub open spec fn arena_step(arena: Seq<HNodeV>, stack: Seq<(usize, nat)>, item: ItemV) -> (
    Seq<HNodeV>,
    Seq<(usize, nat)>,
) {
    let idx = arena.len();
    let st1 = pop_until(stack, item.level);
    let parent: usize = if st1.len() > 0 {
        st1.last().0
    } else {
        0
    };
    let node = HNodeV {
        name: item.name,
        value: item.value,
        children: Seq::empty(),
        depth: arena[parent as int].depth + 1,
        parent: Some(parent),
    };
    let arena1 = arena.update(
        parent as int,
        HNodeV { children: arena[parent as int].children.push(idx as usize), ..arena[parent as int] },
    ).push(node);
    (arena1, if item.is_leaf {
        st1
    } else {
        st1.push((idx as usize, item.level))
    })
}

/// The root alone: no name, depth 0, no parent.
pub open spec fn root_node() -> HNodeV {
    HNodeV { name: Seq::empty(), value: None, children: Seq::empty(), depth: 0, parent: None }
}

/// The arena after the first `k` items.
pub open spec fn arena_after(items: Seq<ItemV>, k: nat) -> (Seq<HNodeV>, Seq<(usize, nat)>)
    decreases k,
{
    if k == 0 {
        (seq![root_node()], Seq::empty())
    } else {
        let (a, st) = arena_after(items, (k - 1) as nat);
        arena_step(a, st, items[k - 1])
    }
}

/// `buildHierarchy`: the arena for all items; node 0 is the root.
pub open spec fn build_arena(items: Seq<ItemV>) -> Seq<HNodeV> {
    arena_after(items, items.len()).0
}

/// The tree shape every arena keeps: a root at 0; every other node's parent
/// comes before it, is one level shallower, and lists it as a child; every
/// child listed is a later node whose parent is that node.
pub open spec fn tree_shaped(arena: Seq<HNodeV>) -> bool {
    &&& arena.len() >= 1
    &&& arena[0].parent is None
    &&& arena[0].depth == 0
    &&& forall|i: int|
        #![trigger arena[i]]
        1 <= i < arena.len() ==> {
            &&& arena[i].parent matches Some(p) && p < i && arena[i].depth == arena[p as int].depth
                + 1 && arena[p as int].children.contains(i as usize)
        }
    &&& forall|p: int, j: int|
        #![trigger arena[p].children[j]]
        0 <= p < arena.len() && 0 <= j < arena[p].children.len() ==> {
            let c = arena[p].children[j] as int;
            p < c < arena.len() && arena[c].parent == Some(p as usize)
        }
}

/// The stack holds open nodes of the arena, in increasing position.
pub open spec fn stack_ok(arena: Seq<HNodeV>, stack: Seq<(usize, nat)>) -> bool {
    forall|j: int| 0 <= j < stack.len() ==> #[trigger] stack[j].0 < arena.len()
}

proof fn lemma_pop_until(stack: Seq<(usize, nat)>, level: nat)
    ensures
        pop_until(stack, level).len() <= stack.len(),
        forall|j: int|
            0 <= j < pop_until(stack, level).len() ==> #[trigger] pop_until(stack, level)[j]
                == stack[j],
    decreases stack.len(),
{
    if stack.len() > 0 && stack.last().1 >= level {
        lemma_pop_until(stack.drop_last(), level);
    }
}

proof fn lemma_arena_step(arena: Seq<HNodeV>, stack: Seq<(usize, nat)>, item: ItemV)
    requires
        tree_shaped(arena),
        stack_ok(arena, stack),
        arena.len() < usize::MAX,
    ensures
        tree_shaped(arena_step(arena, stack, item).0),
        stack_ok(arena_step(arena, stack, item).0, arena_step(arena, stack, item).1),
        arena_step(arena, stack, item).0.len() == arena.len() + 1,
{
    lemma_pop_until(stack, item.level);
    let idx = arena.len() as int;
    let st1 = pop_until(stack, item.level);
    let parent: usize = if st1.len() > 0 {
        st1.last().0
    } else {
        0
    };
    if st1.len() > 0 {
        assert(st1.last() == stack[st1.len() - 1]);
    }
    assert(parent < arena.len());
    let (a2, s2) = arena_step(arena, stack, item);
    assert forall|i: int| #![trigger a2[i]] 1 <= i < a2.len() implies {
        &&& a2[i].parent matches Some(p) && p < i && a2[i].depth == a2[p as int].depth + 1
            && a2[p as int].children.contains(i as usize)
    } by {
        if i < idx {
            let p = arena[i].parent->0 as int;
            assert(arena[p].children.contains(i as usize));
            if p == parent {
                let k = choose|k: int| 0 <= k < arena[p].children.len() && arena[p].children[k]
                    == i as usize;
                assert(a2[p].children[k] == i as usize);
            }
        } else {
            assert(a2[parent as int].children.last() == idx as usize);
        }
    }
    assert forall|p: int, j: int| #![trigger a2[p].children[j]]
        0 <= p < a2.len() && 0 <= j < a2[p].children.len() implies {
        let c = a2[p].children[j] as int;
        p < c < a2.len() && a2[c].parent == Some(p as usize)
    } by {
        if p == parent && j == arena[p].children.len() {
            assert(a2[p].children[j] == idx as usize);
            assert(a2[idx].parent == Some(parent));
        } else if p < idx {
            assert(a2[p].children[j] == arena[p].children[j]);
            let c = arena[p].children[j] as int;
            assert(p < c < arena.len());
            assert(a2[c].parent == arena[c].parent);
        }
    }
}

proof fn lemma_arena_after(items: Seq<ItemV>, k: nat)
    requires
        k <= items.len(),
        items.len() < usize::MAX,
    ensures
        tree_shaped(arena_after(items, k).0),
        stack_ok(arena_after(items, k).0, arena_after(items, k).1),
        arena_after(items, k).0.len() == k + 1,
    decreases k,
{
    if k > 0 {
        lemma_arena_after(items, (k - 1) as nat);
        let (a, st) = arena_after(items, (k - 1) as nat);
        lemma_arena_step(a, st, items[k - 1]);
    }
}

/// Law: the arena built from any item list is a tree rooted at node 0, one
/// node per item after the root, each node one level below its parent,
/// parents before children, and parent and child lists agreeing.
pub proof fn build_arena_is_tree(items: Seq<ItemV>)
    requires
        items.len() < usize::MAX,
    ensures
        tree_shaped(build_arena(items)),
        build_arena(items).len() == items.len() + 1,
{
    lemma_arena_after(items, items.len());
}

/// [`build_arena`], executable.
pub fn build_arena_exec(items: &[FlatItem]) -> (r: Vec<HNode>)
    requires
        items@.len() < usize::MAX,
    ensures
        r@.map_values(|n: HNode| n@) == build_arena(items@.map_values(|i: FlatItem| i@)),
{
    let ghost iv = items@.map_values(|i: FlatItem| i@);
    let mut arena: Vec<HNode> = Vec::new();
    arena.push(
        HNode { name: String::new(), value: None, children: Vec::new(), depth: 0, parent: None },
    );
    let mut stack: Vec<(usize, usize)> = Vec::new();
    proof {
        assert(arena@.map_values(|n: HNode| n@) =~= seq![root_node()]);
        assert(stack@.map_values(|p: (usize, usize)| (p.0, p.1 as nat)) =~= Seq::<
            (usize, nat),
        >::empty());
        lemma_arena_after(iv, 0);
    }
    let mut k: usize = 0;
    while k < items.len()
        invariant
            k <= items@.len(),
            items@.len() < usize::MAX,
            iv == items@.map_values(|i: FlatItem| i@),
            arena_after(iv, k as nat) == (
                arena@.map_values(|n: HNode| n@),
                stack@.map_values(|p: (usize, usize)| (p.0, p.1 as nat)),
            ),
            arena@.len() == k + 1,
            tree_shaped(arena@.map_values(|n: HNode| n@)),
            stack_ok(
                arena@.map_values(|n: HNode| n@),
                stack@.map_values(|p: (usize, usize)| (p.0, p.1 as nat)),
            ),
            forall|i: int| 0 <= i < arena@.len() ==> arena@[i].depth <= i,
        decreases items@.len() - k,
    {
        let ghost av = arena@.map_values(|n: HNode| n@);
        let ghost sv = stack@.map_values(|p: (usize, usize)| (p.0, p.1 as nat));
        let item = &items[k];
        let idx = arena.len();
        let ghost s_before = stack@;
        while stack.len() > 0 && stack[stack.len() - 1].1 >= item.level
            invariant
                pop_until(sv, item.level as nat) == pop_until(
                    stack@.map_values(|p: (usize, usize)| (p.0, p.1 as nat)),
                    item.level as nat,
                ),
                forall|j: int|
                    0 <= j < stack@.len() ==> #[trigger] stack@[j] == s_before[j],
                stack@.len() <= s_before.len(),
                sv == s_before.map_values(|p: (usize, usize)| (p.0, p.1 as nat)),
            decreases stack@.len(),
        {
            let ghost cur = stack@.map_values(|p: (usize, usize)| (p.0, p.1 as nat));
            stack.pop();
            proof {
                assert(cur.drop_last() =~= stack@.map_values(|p: (usize, usize)| (p.0, p.1 as nat)));
            }
        }
        proof {
            let cur = stack@.map_values(|p: (usize, usize)| (p.0, p.1 as nat));
            assert(pop_until(cur, item.level as nat) == cur);
        }
        let parent: usize = if stack.len() > 0 {
            stack[stack.len() - 1].0
        } else {
            0
        };
        proof {
            if stack@.len() > 0 {
                assert(sv[stack@.len() - 1] == (stack@[stack@.len() - 1].0, stack@[stack@.len()
                    - 1].1 as nat));
            }
        }
        assert(parent < arena@.len());
        let depth = arena[parent].depth + 1;
        let node = HNode {
            name: item.name.clone(),
            value: match &item.value {
                Some(v) => Some(v.clone()),
                None => None,
            },
            children: Vec::new(),
            depth,
            parent: Some(parent),
        };
        let ghost st1 = stack@.map_values(|p: (usize, usize)| (p.0, p.1 as nat));
        arena[parent].children.push(idx);
        arena.push(node);
        if !item.is_leaf {
            stack.push((idx, item.level));
        }
        proof {
            let (a2, s2) = arena_step(av, sv, iv[k as int]);
            assert(iv[k as int] == item@);
            assert(node@.children =~= Seq::<usize>::empty());
            assert(arena@.map_values(|n: HNode| n@) =~= a2);
            assert(stack@.map_values(|p: (usize, usize)| (p.0, p.1 as nat)) =~= s2);
            lemma_arena_step(av, sv, iv[k as int]);
        }
        k += 1;
    }
    arena
}

/// A lazy ordinal scale: each new name takes the next position, and a name
/// maps to the range entry at its position, cycling through the range.
pub struct Ordinal {
    pub range: Vec<String>,
    pub domain: IndexMap<String, usize>,
    pub next: usize,
}

pub ghost struct OrdinalV {
    pub range: Seq<Seq<char>>,
    pub domain: Seq<(Seq<char>, usize)>,
}

impl View for Ordinal {
    type V = OrdinalV;

    open spec fn view(&self) -> OrdinalV {
        OrdinalV {
            range: self.range@.map_values(|s: String| s@),
            domain: index_entries(self.domain),
        }
    }
}


/// The positions of the names seen so far are their order of arrival.
pub open spec fn domain_numbered(d: Seq<(Seq<char>, usize)>) -> bool {
    forall|i: int| 0 <= i < d.len() ==> #[trigger] d[i].1 == i
}

/// What `get` does: a new name joins the domain at the next position; the
/// result is the range entry at the name's position modulo the range size.
pub open spec fn ordinal_get(o: OrdinalV, name: Seq<char>) -> (OrdinalV, Seq<char>) {
    let d = match key_position(o.domain, name) {
        Some(_) => o.domain,
        None => o.domain.push((name, o.domain.len() as usize)),
    };
    let idx = match key_position(d, name) {
        Some(i) => d[i as int].1,
        None => 0,
    };
    (OrdinalV { domain: d, ..o }, o.range[(idx as int) % (o.range.len() as int)])
}

impl Ordinal {
    pub open spec fn wf(&self) -> bool {
        &&& domain_numbered(index_entries(self.domain))
        &&& self.next == index_entries(self.domain).len()
    }

    /// An empty scale over `range`.
    pub fn new(range: Vec<String>) -> (o: Self)
        ensures
            o.wf(),
            o@.range == range@.map_values(|s: String| s@),
            o@.domain == Seq::<(Seq<char>, usize)>::empty(),
    {
        Ordinal { range, domain: index_new(), next: 0 }
    }

    /// The colour for `name`, assigning the next position to a new name.
    pub fn get(&mut self, name: &str) -> (c: String)
        requires
            old(self).wf(),
            old(self)@.range.len() > 0,
            old(self)@.domain.len() < usize::MAX,
        ensures
            final(self).wf(),
            (final(self)@, c@) == ordinal_get(old(self)@, name@),
    {
        let ghost d0 = index_entries(self.domain);
        let found = index_position(&self.domain, name);
        let idx = match found {
            Some(i) => {
                proof {
                    crate::keyed::lemma_key_position(d0, name@);
                }
                let (_, old_v) = index_insert(&mut self.domain, name.to_owned(), i);
                proof {
                    assert(index_entries(self.domain) =~= d0);
                }
                i
            },
            None => {
                let i = self.next;
                let _ = index_insert(&mut self.domain, name.to_owned(), i);
                self.next = self.next + 1;
                proof {
                    let d1 = index_entries(self.domain);
                    crate::keyed::lemma_key_position(d0, name@);
                    assert forall|j: int| 0 <= j < d0.len() implies d1[j].0 != name@ by {
                        assert(d1[j] == d0[j]);
                    }
                    crate::keyed::lemma_key_position_is(d1, name@, Some(d0.len()));
                }
                i
            },
        };
        proof {
            let d1 = index_entries(self.domain);
            crate::keyed::lemma_key_position(d1, name@);
        }
        let n = self.range.len();
        self.range[idx % n].clone()
    }
}

/// Positions are stable: looking a name up again after more names arrived
/// finds the same position.
/// The colours `get` returns for each name of `names` in turn, from `o`.
pub open spec fn ordinal_gets(o: OrdinalV, names: Seq<Seq<char>>) -> Seq<Seq<char>>
    decreases names.len(),
{
    if names.len() == 0 {
        Seq::empty()
    } else {
        let (o2, c) = ordinal_get(o, names[0]);
        seq![c] + ordinal_gets(o2, names.drop_first())
    }
}

proof fn lemma_get_step(o: OrdinalV, name: Seq<char>)
    requires
        domain_numbered(o.domain),
        o.domain.len() < usize::MAX,
    ensures
        domain_numbered(ordinal_get(o, name).0.domain),
        ordinal_get(o, name).0.range == o.range,
        ordinal_get(o, name).0.domain.len() <= o.domain.len() + 1,
        key_position(ordinal_get(o, name).0.domain, name) matches Some(p) && ordinal_get(o, name).1
            == o.range[(p as int) % (o.range.len() as int)],
        forall|m: Seq<char>|
            key_position(o.domain, m) is Some ==> #[trigger] key_position(
                ordinal_get(o, name).0.domain,
                m,
            ) == key_position(o.domain, m),
{
    let d = o.domain;
    crate::keyed::lemma_key_position(d, name);
    let d2 = ordinal_get(o, name).0.domain;
    if key_position(d, name) is None {
        assert forall|j: int| 0 <= j < d.len() implies d2[j].0 != name by {
            assert(d2[j] == d[j]);
        }
        crate::keyed::lemma_key_position_is(d2, name, Some(d.len()));
    }
    crate::keyed::lemma_key_position(d2, name);
    assert forall|m: Seq<char>| key_position(d, m) is Some implies #[trigger] key_position(
        d2,
        m,
    ) == key_position(d, m) by {
        let q = key_position(d, m)->0;
        crate::keyed::lemma_key_position(d, m);
        assert forall|j: int| 0 <= j < q implies d2[j].0 != m by {
            assert(d2[j] == d[j]);
        }
        assert(d2[q as int] == d[q as int]);
        crate::keyed::lemma_key_position_is(d2, m, Some(q));
    }
}

proof fn lemma_gets_len(o: OrdinalV, names: Seq<Seq<char>>)
    ensures
        ordinal_gets(o, names).len() == names.len(),
    decreases names.len(),
{
    if names.len() > 0 {
        lemma_gets_len(ordinal_get(o, names[0]).0, names.drop_first());
    }
}

proof fn lemma_gets_known(o: OrdinalV, names: Seq<Seq<char>>, name: Seq<char>, p: nat, k: int)
    requires
        domain_numbered(o.domain),
        o.domain.len() + names.len() < usize::MAX,
        key_position(o.domain, name) == Some(p),
        0 <= k < names.len(),
        names[k] == name,
    ensures
        ordinal_gets(o, names)[k] == o.range[(p as int) % (o.range.len() as int)],
    decreases names.len(),
{
    lemma_get_step(o, names[0]);
    let (o2, c) = ordinal_get(o, names[0]);
    let rest = ordinal_gets(o2, names.drop_first());
    assert(ordinal_gets(o, names) == seq![c] + rest);
    lemma_gets_len(o2, names.drop_first());
    assert(key_position(o2.domain, name) == Some(p));
    if k == 0 {
        assert(ordinal_gets(o, names)[0] == c);
    } else {
        assert(ordinal_gets(o, names)[k] == rest[k - 1]);
        lemma_gets_known(o2, names.drop_first(), name, p, k - 1);
    }
}

/// Law: the scale gives a name the same colour every time — in any run of
/// `get` calls, two calls with the same name return the same colour.
pub proof fn ordinal_same_name_same_color(o: OrdinalV, names: Seq<Seq<char>>, i: int, j: int)
    requires
        domain_numbered(o.domain),
        o.domain.len() + names.len() < usize::MAX,
        0 <= i < j < names.len(),
        names[i] == names[j],
    ensures
        ordinal_gets(o, names)[i] == ordinal_gets(o, names)[j],
    decreases names.len(),
{
    lemma_get_step(o, names[0]);
    let (o2, c) = ordinal_get(o, names[0]);
    let rest = ordinal_gets(o2, names.drop_first());
    assert(ordinal_gets(o, names) == seq![c] + rest);
    lemma_gets_len(o2, names.drop_first());
    assert(ordinal_gets(o, names)[j] == rest[j - 1]);
    if i == 0 {
        let p = key_position(o2.domain, names[0])->0;
        lemma_gets_known(o2, names.drop_first(), names[0], p, j - 1);
    } else {
        assert(ordinal_gets(o, names)[i] == rest[i - 1]);
        ordinal_same_name_same_color(o2, names.drop_first(), i - 1, j - 1);
    }
}

impl TreemapParseError {
    /// The error as a message.
    pub fn display(&self) -> (s: String)
        ensures
            s@ == "treemap parse error: "@ + self.0@,
    {
        let mut s = String::from_str("treemap parse error: ");
        s.append(self.0.as_str());
        s
    }
}

} // verus!
