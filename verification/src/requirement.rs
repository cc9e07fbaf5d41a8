//! requirementDiagram source: requirements, elements and the relations
//! between them, and the stacked labels their boxes show.

use crate::keyed::{
    index_entries, index_insert, index_new, index_position, lemma_key_position,
};
use crate::strs::{
    ascii_lower_seq, chars_of, copy_range, debug_quote, debug_quoted, eq_str, find, find_char, find_char_exec, find_str, is_ws_char, lines, lines_of, lower_vec, rfind_char, rfind_char_exec, starts_with, starts_with_str, string_of, strip_prefix, strip_prefix_str, strip_set, strip_set_vec, trim, trim_vec, first_ws_from, chars_of_string, decimal, decimal_string,
};
use indexmap::IndexMap;
use vstd::prelude::*;

verus! {

/// A parse error for requirementDiagram source.
pub struct RequirementParseError {
    pub message: String,
}

pub struct Requirement {
    pub name: String,
    pub ty: String,
    pub id: String,
    pub text: String,
    pub risk: String,
    pub verify: String,
}

pub struct ElementDef {
    pub name: String,
    pub ty: String,
    pub doc_ref: String,
}

pub struct Relation {
    pub ty: String,
    pub src: String,
    pub dst: String,
    pub contains: bool,
}

pub ghost struct RequirementV {
    pub name: Seq<char>,
    pub ty: Seq<char>,
    pub id: Seq<char>,
    pub text: Seq<char>,
    pub risk: Seq<char>,
    pub verify: Seq<char>,
}

pub ghost struct ElementV {
    pub name: Seq<char>,
    pub ty: Seq<char>,
    pub doc_ref: Seq<char>,
}

pub ghost struct RelationV {
    pub ty: Seq<char>,
    pub src: Seq<char>,
    pub dst: Seq<char>,
    pub contains: bool,
}

impl View for Requirement {
    type V = RequirementV;

    open spec fn view(&self) -> RequirementV {
        RequirementV {
            name: self.name@,
            ty: self.ty@,
            id: self.id@,
            text: self.text@,
            risk: self.risk@,
            verify: self.verify@,
        }
    }
}

impl View for ElementDef {
    type V = ElementV;

    open spec fn view(&self) -> ElementV {
        ElementV { name: self.name@, ty: self.ty@, doc_ref: self.doc_ref@ }
    }
}

impl View for Relation {
    type V = RelationV;

    open spec fn view(&self) -> RelationV {
        RelationV { ty: self.ty@, src: self.src@, dst: self.dst@, contains: self.contains }
    }
}

/// The display name of a requirement type keyword.
pub open spec fn req_type_name(kw: Seq<char>) -> Option<Seq<char>> {
    if kw == "requirement"@ {
        Some("Requirement"@)
    } else if kw == "functionalRequirement"@ {
        Some("Functional Requirement"@)
    } else if kw == "interfaceRequirement"@ {
        Some("Interface Requirement"@)
    } else if kw == "performanceRequirement"@ {
        Some("Performance Requirement"@)
    } else if kw == "physicalRequirement"@ {
        Some("Physical Requirement"@)
    } else if kw == "designConstraint"@ {
        Some("Design Constraint"@)
    } else {
        None
    }
}

/// The display name of a risk keyword (any case); others pass through.
pub open spec fn risk_name(kw: Seq<char>) -> Seq<char> {
    let l = ascii_lower_seq(kw);
    if l == "low"@ {
        "Low"@
    } else if l == "medium"@ {
        "Medium"@
    } else if l == "high"@ {
        "High"@
    } else {
        kw
    }
}

/// The display name of a verify method keyword (any case); others pass
/// through.
pub open spec fn verify_name(kw: Seq<char>) -> Seq<char> {
    let l = ascii_lower_seq(kw);
    if l == "analysis"@ {
        "Analysis"@
    } else if l == "demonstration"@ {
        "Demonstration"@
    } else if l == "inspection"@ {
        "Inspection"@
    } else if l == "test"@ {
        "Test"@
    } else {
        kw
    }
}

/// Trimmed, without surrounding double quotes, trimmed again.
pub open spec fn strip_quotes(s: Seq<char>) -> Seq<char> {
    trim(strip_set(trim(s), seq!['"']))
}

/// The relationship words.
pub open spec fn is_relation_word(w: Seq<char>) -> bool {
    w == "contains"@ || w == "copies"@ || w == "derives"@ || w == "satisfies"@ || w
        == "verifies"@ || w == "refines"@ || w == "traces"@
}

/// A relation with its ends, when the word and both ends are valid.
pub open spec fn relation_of(rel: Seq<char>, src: Seq<char>, dst: Seq<char>) -> Option<RelationV> {
    if !is_relation_word(rel) || src.len() == 0 || dst.len() == 0 {
        None
    } else {
        Some(
            RelationV {
                ty: rel,
                src: strip_quotes(src),
                dst: strip_quotes(dst),
                contains: rel == "contains"@,
            },
        )
    }
}

/// `A - rel -> B` (A rel B) or `A <- rel - B` (B rel A).
pub open spec fn parse_relation(line: Seq<char>) -> Option<RelationV> {
    match find(line, "->"@) {
        Some(arrow) => {
            let left = line.take(arrow as int);
            let right = line.skip(arrow + 2 as int);
            match rfind_char(left, '-') {
                Some(dash) => relation_of(
                    trim(left.skip(dash + 1 as int)),
                    trim(left.take(dash as int)),
                    trim(right),
                ),
                None => None,
            }
        },
        None => match find(line, "<-"@) {
            Some(arrow) => {
                let left = line.take(arrow as int);
                let right = line.skip(arrow + 2 as int);
                match find_char(right, '-') {
                    Some(dash) => relation_of(
                        trim(right.take(dash as int)),
                        trim(right.skip(dash + 1 as int)),
                        trim(left),
                    ),
                    None => None,
                }
            },
            None => None,
        },
    }
}

/// The `key: value` pairs of a block body (keys lower-cased) and the lines
/// after its closing `}`.
pub open spec fn body(ls: Seq<Seq<char>>) -> (Seq<(Seq<char>, Seq<char>)>, Seq<Seq<char>>)
    decreases ls.len(),
{
    if ls.len() == 0 {
        (Seq::empty(), Seq::empty())
    } else {
        let l = trim(ls[0]);
        if l == "}"@ {
            (Seq::empty(), ls.drop_first())
        } else if l.len() == 0 || starts_with(l, "%%"@) {
            body(ls.drop_first())
        } else {
            match find_char(l, ':') {
                Some(c) => {
                    let (kv, rest) = body(ls.drop_first());
                    (
                        seq![(ascii_lower_seq(trim(l.take(c as int))), trim(l.skip(c + 1 as int)))] + kv,
                        rest,
                    )
                },
                None => body(ls.drop_first()),
            }
        }
    }
}

/// An element with its body's fields applied in order.
pub open spec fn apply_element(e: ElementV, kv: Seq<(Seq<char>, Seq<char>)>) -> ElementV
    decreases kv.len(),
{
    if kv.len() == 0 {
        e
    } else {
        let (k, v) = kv[0];
        let e1 = if k == "type"@ {
            ElementV { ty: strip_quotes(v), ..e }
        } else if k == "docref"@ {
            ElementV { doc_ref: strip_quotes(v), ..e }
        } else {
            e
        };
        apply_element(e1, kv.drop_first())
    }
}

/// A requirement with its body's fields applied in order.
pub open spec fn apply_requirement(r: RequirementV, kv: Seq<(Seq<char>, Seq<char>)>) -> RequirementV
    decreases kv.len(),
{
    if kv.len() == 0 {
        r
    } else {
        let (k, v) = kv[0];
        let r1 = if k == "id"@ {
            RequirementV { id: strip_quotes(v), ..r }
        } else if k == "text"@ {
            RequirementV { text: strip_quotes(v), ..r }
        } else if k == "risk"@ {
            RequirementV { risk: risk_name(v), ..r }
        } else if k == "verifymethod"@ {
            RequirementV { verify: verify_name(v), ..r }
        } else {
            r
        };
        apply_requirement(r1, kv.drop_first())
    }
}

pub ghost struct DbV {
    pub requirements: Seq<RequirementV>,
    pub elements: Seq<ElementV>,
    pub relations: Seq<RelationV>,
    pub direction: Seq<char>,
}

/// The block header `kw name {`: the keyword and the (unquoted) name.
pub open spec fn block_head(head: Seq<char>) -> (Seq<char>, Seq<char>) {
    let h = trim(head);
    let p = first_ws_from(h, 0);
    let kw = trim(h.take(p as int));
    let name = if p < h.len() {
        strip_quotes(trim(h.skip(p + 1 as int)))
    } else {
        strip_quotes(Seq::empty())
    };
    (kw, name)
}

/// Adds a definition unless one of that name exists (`entry().or_insert`).
pub open spec fn insert_element(list: Seq<ElementV>, e: ElementV) -> Seq<ElementV> {
    if exists|i: int| 0 <= i < list.len() && #[trigger] list[i].name == e.name {
        list
    } else {
        list.push(e)
    }
}

/// Adds a definition unless one of that name exists (`entry().or_insert`).
pub open spec fn insert_requirement(list: Seq<RequirementV>, r: RequirementV) -> Seq<RequirementV> {
    if exists|i: int| 0 <= i < list.len() && #[trigger] list[i].name == r.name {
        list
    } else {
        list.push(r)
    }
}

/// The statements of `ls` applied in order to `db` (after the header).
pub open spec fn run_body(db: DbV, ls: Seq<Seq<char>>) -> Result<DbV, Seq<char>>
    decreases ls.len(),
{
    if ls.len() == 0 {
        Ok(db)
    } else {
        let line = trim(ls[0]);
        let rest = ls.drop_first();
        if line.len() == 0 || starts_with(line, "%%"@) || starts_with(line, "#"@) {
            run_body(db, rest)
        } else if let Some(d) = strip_prefix(line, "direction "@) {
            run_body(DbV { direction: trim(d), ..db }, rest)
        } else if starts_with(line, "title "@) || starts_with(line, "accTitle"@) || starts_with(
            line,
            "accDescr"@,
        ) {
            run_body(db, rest)
        } else if line.len() > 0 && line.last() == '{' {
            let (kw, name) = block_head(line.drop_last());
            if kw == "element"@ {
                let (kv, after) = body(rest);
                proof {
                    lemma_body_len(rest);
                }
                let e = apply_element(
                    ElementV { name, ty: Seq::empty(), doc_ref: Seq::empty() },
                    kv,
                );
                run_body(DbV { elements: insert_element(db.elements, e), ..db }, after)
            } else if let Some(tyname) = req_type_name(kw) {
                let (kv, after) = body(rest);
                proof {
                    lemma_body_len(rest);
                }
                let r = apply_requirement(
                    RequirementV {
                        name,
                        ty: tyname,
                        id: Seq::empty(),
                        text: Seq::empty(),
                        risk: Seq::empty(),
                        verify: Seq::empty(),
                    },
                    kv,
                );
                run_body(DbV { requirements: insert_requirement(db.requirements, r), ..db }, after)
            } else {
                Err("unknown requirement statement: "@ + line)
            }
        } else if let Some(rel) = parse_relation(line) {
            run_body(DbV { relations: db.relations.push(rel), ..db }, rest)
        } else {
            run_body(db, rest)
        }
    }
}

/// The lines after a block head are no more than before it.
pub proof fn lemma_body_len(ls: Seq<Seq<char>>)
    ensures
        body(ls).1.len() <= ls.len(),
    decreases ls.len(),
{
    if ls.len() > 0 {
        lemma_body_len(ls.drop_first());
    }
}

/// Skips blank and comment lines up to the header; the statements after it.
pub open spec fn parse_lines(ls: Seq<Seq<char>>) -> Result<DbV, Seq<char>>
    decreases ls.len(),
{
    if ls.len() == 0 {
        Err("missing requirementDiagram header"@)
    } else {
        let line = trim(ls[0]);
        if line.len() == 0 || starts_with(line, "%%"@) || starts_with(line, "#"@) {
            parse_lines(ls.drop_first())
        } else if starts_with(line, "requirementDiagram"@) {
            run_body(
                DbV {
                    requirements: Seq::empty(),
                    elements: Seq::empty(),
                    relations: Seq::empty(),
                    direction: "TB"@,
                },
                ls.drop_first(),
            )
        } else {
            Err("expected requirementDiagram header, got "@ + debug_quoted(line))
        }
    }
}

/// What [`parse`] gives for `source`.
pub open spec fn parse_result(source: Seq<char>) -> Result<DbV, Seq<char>> {
    parse_lines(lines(source))
}

/// The stacked label of a requirement box.
pub open spec fn requirement_label(r: RequirementV) -> Seq<char> {
    let base = "<<"@ + r.ty + ">>"@ + "\n"@ + r.name;
    let a = if r.id.len() > 0 {
        base + "\n"@ + "ID: "@ + r.id
    } else {
        base
    };
    let b = if r.text.len() > 0 {
        a + "\n"@ + "Text: "@ + r.text
    } else {
        a
    };
    let c = if r.risk.len() > 0 {
        b + "\n"@ + "Risk: "@ + r.risk
    } else {
        b
    };
    if r.verify.len() > 0 {
        c + "\n"@ + "Verification: "@ + r.verify
    } else {
        c
    }
}

/// The stacked label of an element box.
pub open spec fn element_label(e: ElementV) -> Seq<char> {
    let base = "<<Element>>"@ + "\n"@ + e.name;
    let a = if e.ty.len() > 0 {
        base + "\n"@ + "Type: "@ + e.ty
    } else {
        base
    };
    if e.doc_ref.len() > 0 {
        a + "\n"@ + "Doc Ref: "@ + e.doc_ref
    } else {
        a
    }
}

/// [`req_type_name`], executable.
pub fn req_type_name_exec(kw: &[char]) -> (r: Option<&'static str>)
    ensures
        match r {
            Some(t) => req_type_name(kw@) == Some(t@),
            None => req_type_name(kw@) is None,
        },
{
    if eq_str(kw, "requirement") {
        Some("Requirement")
    } else if eq_str(kw, "functionalRequirement") {
        Some("Functional Requirement")
    } else if eq_str(kw, "interfaceRequirement") {
        Some("Interface Requirement")
    } else if eq_str(kw, "performanceRequirement") {
        Some("Performance Requirement")
    } else if eq_str(kw, "physicalRequirement") {
        Some("Physical Requirement")
    } else if eq_str(kw, "designConstraint") {
        Some("Design Constraint")
    } else {
        None
    }
}

/// [`risk_name`], executable.
pub fn risk_name_exec(kw: &[char]) -> (r: String)
    ensures
        r@ == risk_name(kw@),
{
    let l = lower_vec(kw);
    if eq_str(&l, "low") {
        String::from_str("Low")
    } else if eq_str(&l, "medium") {
        String::from_str("Medium")
    } else if eq_str(&l, "high") {
        String::from_str("High")
    } else {
        string_of(kw)
    }
}

/// [`verify_name`], executable.
pub fn verify_name_exec(kw: &[char]) -> (r: String)
    ensures
        r@ == verify_name(kw@),
{
    let l = lower_vec(kw);
    if eq_str(&l, "analysis") {
        String::from_str("Analysis")
    } else if eq_str(&l, "demonstration") {
        String::from_str("Demonstration")
    } else if eq_str(&l, "inspection") {
        String::from_str("Inspection")
    } else if eq_str(&l, "test") {
        String::from_str("Test")
    } else {
        string_of(kw)
    }
}

/// [`strip_quotes`], executable.
pub fn strip_quotes_exec(s: &[char]) -> (r: Vec<char>)
    ensures
        r@ == strip_quotes(s@),
{
    let t = trim_vec(s);
    let q: Vec<char> = vec!['"'];
    assert(q@ =~= seq!['"']);
    let u = strip_set_vec(&t, &q);
    trim_vec(&u)
}

fn is_relation_word_exec(w: &[char]) -> (b: bool)
    ensures
        b == is_relation_word(w@),
{
    eq_str(w, "contains") || eq_str(w, "copies") || eq_str(w, "derives") || eq_str(w, "satisfies")
        || eq_str(w, "verifies") || eq_str(w, "refines") || eq_str(w, "traces")
}

fn relation_of_exec(rel: &[char], src: &[char], dst: &[char]) -> (r: Option<Relation>)
    ensures
        match r {
            Some(x) => relation_of(rel@, src@, dst@) == Some(x@),
            None => relation_of(rel@, src@, dst@) is None,
        },
{
    if !is_relation_word_exec(rel) || src.len() == 0 || dst.len() == 0 {
        return None;
    }
    let s = strip_quotes_exec(src);
    let d = strip_quotes_exec(dst);
    Some(
        Relation {
            ty: string_of(rel),
            src: string_of(&s),
            dst: string_of(&d),
            contains: eq_str(rel, "contains"),
        },
    )
}

/// [`parse_relation`], executable.
pub fn parse_relation_exec(line: &[char]) -> (r: Option<Relation>)
    ensures
        match r {
            Some(x) => parse_relation(line@) == Some(x@),
            None => parse_relation(line@) is None,
        },
{
    proof {
        reveal_strlit("->");
        reveal_strlit("<-");
    }
    match find_str(line, "->") {
        Some(arrow) => {
            let left = copy_range(line, 0, arrow);
            let right = copy_range(line, arrow + 2, line.len());
            match rfind_char_exec(&left, '-') {
                Some(dash) => {
                    let rl = copy_range(&left, dash + 1, left.len());
                    let sl = copy_range(&left, 0, dash);
                    let rel = trim_vec(&rl);
                    let src = trim_vec(&sl);
                    let dst = trim_vec(&right);
                    relation_of_exec(&rel, &src, &dst)
                },
                None => None,
            }
        },
        None => match find_str(line, "<-") {
            Some(arrow) => {
                let left = copy_range(line, 0, arrow);
                let right = copy_range(line, arrow + 2, line.len());
                match find_char_exec(&right, '-') {
                    Some(dash) => {
                        let rl = copy_range(&right, 0, dash);
                        let sl = copy_range(&right, dash + 1, right.len());
                        let rel = trim_vec(&rl);
                        let src = trim_vec(&sl);
                        let dst = trim_vec(&left);
                        relation_of_exec(&rel, &src, &dst)
                    },
                    None => None,
                }
            },
            None => None,
        },
    }
}

/// The view of a list of key/value string pairs.
pub open spec fn kv_view(v: Seq<(String, String)>) -> Seq<(Seq<char>, Seq<char>)> {
    v.map_values(|p: (String, String)| (p.0@, p.1@))
}

/// [`body`] over the lines from `from` on: the pairs and where the lines
/// after the block start.
pub fn consume_body(ls: &Vec<Vec<char>>, from: usize) -> (r: (Vec<(String, String)>, usize))
    requires
        from <= ls@.len(),
    ensures
        from <= r.1 <= ls@.len(),
        (kv_view(r.0@), ls@.map_values(|v: Vec<char>| v@).skip(r.1 as int)) == body(
            ls@.map_values(|v: Vec<char>| v@).skip(from as int),
        ),
{
    let ghost all = ls@.map_values(|v: Vec<char>| v@);
    let mut kv: Vec<(String, String)> = Vec::new();
    let mut i = from;
    let ghost b0 = body(all.skip(from as int));
    proof {
        assert(kv_view(kv@) =~= Seq::<(Seq<char>, Seq<char>)>::empty());
        assert(Seq::<(Seq<char>, Seq<char>)>::empty() + b0.0 =~= b0.0);
    }
    while i < ls.len()
        invariant_except_break
            from <= i <= ls@.len(),
            all == ls@.map_values(|v: Vec<char>| v@),
            b0 == body(all.skip(from as int)),
            b0.0 == kv_view(kv@) + body(all.skip(i as int)).0,
            b0.1 == body(all.skip(i as int)).1,
        ensures
            from <= i <= ls@.len(),
            b0 == (kv_view(kv@), all.skip(i as int)),
        decreases ls@.len() - i,
    {
        let ghost t = all.skip(i as int);
        proof {
            assert(t[0] == ls@[i as int]@);
            assert(t.drop_first() =~= all.skip(i + 1));
        }
        let l = trim_vec(&ls[i]);
        if eq_str(&l, "}") {
            i += 1;
            proof {
                assert(body(t) == (Seq::<(Seq<char>, Seq<char>)>::empty(), all.skip(i as int)));
                assert(kv_view(kv@) + Seq::<(Seq<char>, Seq<char>)>::empty() =~= kv_view(kv@));
            }
            break;
        }
        if l.len() == 0 || starts_with_str(&l, "%%") {
        } else {
            let found = find_char_exec(&l, ':');
            match found {
                Some(c) => {
                    let kh = copy_range(&l, 0, c);
                    let kt = trim_vec(&kh);
                    let key = lower_vec(&kt);
                    let vh = copy_range(&l, c + 1, l.len());
                    let val = trim_vec(&vh);
                    let ghost before = kv@;
                    kv.push((string_of(&key), string_of(&val)));
                    proof {
                        assert(kv_view(kv@) =~= kv_view(before).push((key@, val@)));
                        let rest = body(all.skip(i + 1));
                        assert(body(t).0 == seq![(key@, val@)] + rest.0);
                        assert(kv_view(before) + (seq![(key@, val@)] + rest.0) =~= kv_view(kv@)
                            + rest.0);
                    }
                },
                None => {},
            }
        }
        i += 1;
    }
    proof {
        if i == ls@.len() && b0.1 != all.skip(i as int) {
            assert(all.skip(i as int) =~= Seq::<Seq<char>>::empty());
            assert(kv_view(kv@) + Seq::<(Seq<char>, Seq<char>)>::empty() =~= kv_view(kv@));
        }
    }
    (kv, i)
}

/// [`apply_element`], executable.
pub fn apply_element_exec(e: &mut ElementDef, kv: &Vec<(String, String)>)
    ensures
        final(e)@ == apply_element(old(e)@, kv_view(kv@)),
{
    let ghost all = kv_view(kv@);
    let mut i: usize = 0;
    assert(all.skip(0) =~= all);
    while i < kv.len()
        invariant
            i <= kv@.len(),
            all == kv_view(kv@),
            apply_element(old(e)@, all) == apply_element(e@, all.skip(i as int)),
        decreases kv@.len() - i,
    {
        proof {
            assert(all.skip(i as int)[0] == all[i as int]);
            assert(all.skip(i as int).drop_first() =~= all.skip(i + 1));
        }
        let k = chars_of_string(&kv[i].0);
        let v = chars_of_string(&kv[i].1);
        if eq_str(&k, "type") {
            let q = strip_quotes_exec(&v);
            e.ty = string_of(&q);
        } else if eq_str(&k, "docref") {
            let q = strip_quotes_exec(&v);
            e.doc_ref = string_of(&q);
        }
        i += 1;
    }
    assert(all.skip(i as int) =~= Seq::<(Seq<char>, Seq<char>)>::empty());
}

/// [`apply_requirement`], executable.
pub fn apply_requirement_exec(r: &mut Requirement, kv: &Vec<(String, String)>)
    ensures
        final(r)@ == apply_requirement(old(r)@, kv_view(kv@)),
{
    let ghost all = kv_view(kv@);
    let mut i: usize = 0;
    assert(all.skip(0) =~= all);
    while i < kv.len()
        invariant
            i <= kv@.len(),
            all == kv_view(kv@),
            apply_requirement(old(r)@, all) == apply_requirement(r@, all.skip(i as int)),
        decreases kv@.len() - i,
    {
        proof {
            assert(all.skip(i as int)[0] == all[i as int]);
            assert(all.skip(i as int).drop_first() =~= all.skip(i + 1));
        }
        let k = chars_of_string(&kv[i].0);
        let v = chars_of_string(&kv[i].1);
        if eq_str(&k, "id") {
            let q = strip_quotes_exec(&v);
            r.id = string_of(&q);
        } else if eq_str(&k, "text") {
            let q = strip_quotes_exec(&v);
            r.text = string_of(&q);
        } else if eq_str(&k, "risk") {
            r.risk = risk_name_exec(&v);
        } else if eq_str(&k, "verifymethod") {
            r.verify = verify_name_exec(&v);
        }
        i += 1;
    }
    assert(all.skip(i as int) =~= Seq::<(Seq<char>, Seq<char>)>::empty());
}

/// [`block_head`], executable.
pub fn block_head_exec(head: &[char]) -> (r: (Vec<char>, Vec<char>))
    ensures
        (r.0@, r.1@) == block_head(head@),
{
    let h = trim_vec(head);
    let mut p: usize = 0;
    while p < h.len() && !is_ws_char(h[p])
        invariant
            p <= h@.len(),
            first_ws_from(h@, 0) == first_ws_from(h@, p as nat),
        decreases h@.len() - p,
    {
        p += 1;
    }
    let k = copy_range(&h, 0, p);
    let kw = trim_vec(&k);
    let name = if p < h.len() {
        let t = copy_range(&h, p + 1, h.len());
        let tt = trim_vec(&t);
        strip_quotes_exec(&tt)
    } else {
        let e: Vec<char> = Vec::new();
        strip_quotes_exec(&e)
    };
    (kw, name)
}

/// The parsed database: definitions in first-declaration order, found by
/// name through their indexes.
pub struct ReqDb {
    pub requirements: Vec<Requirement>,
    pub req_index: IndexMap<String, usize>,
    pub elements: Vec<ElementDef>,
    pub el_index: IndexMap<String, usize>,
    pub relations: Vec<Relation>,
    pub direction: String,
}

impl View for ReqDb {
    type V = DbV;

    open spec fn view(&self) -> DbV {
        DbV {
            requirements: self.requirements@.map_values(|r: Requirement| r@),
            elements: self.elements@.map_values(|e: ElementDef| e@),
            relations: self.relations@.map_values(|r: Relation| r@),
            direction: self.direction@,
        }
    }
}


impl ReqDb {
    /// Each index lists its definitions' names with their positions.
    pub open spec fn wf(&self) -> bool {
        &&& index_entries(self.req_index) == Seq::new(
            self.requirements@.len(),
            |i: int| (self.requirements@[i].name@, i as usize),
        )
        &&& index_entries(self.el_index) == Seq::new(
            self.elements@.len(),
            |i: int| (self.elements@[i].name@, i as usize),
        )
    }

    fn insert_element(&mut self, e: ElementDef)
        requires
            old(self).wf(),
        ensures
            final(self).wf(),
            final(self)@ == (DbV { elements: insert_element(old(self)@.elements, e@), ..old(self)@ }),
    {
        let ghost ev = self@.elements;
        let ghost entries = index_entries(self.el_index);
        let found = index_position(&self.el_index, e.name.as_str());
        proof {
            lemma_key_position(entries, e.name@);
        }
        match found {
            Some(p) => {
                proof {
                    assert(ev[p as int].name == e.name@);
                }
            },
            None => {
                proof {
                    assert forall|i: int| 0 <= i < ev.len() implies #[trigger] ev[i].name != e@.name by {
                        assert(entries[i].0 == ev[i].name);
                    }
                }
                let n = self.elements.len();
                let _ = index_insert(&mut self.el_index, e.name.clone(), n);
                self.elements.push(e);
                proof {
                    assert(self@.elements =~= ev.push(e@));
                    assert(index_entries(self.el_index) =~= Seq::new(
                        self.elements@.len(),
                        |i: int| (self.elements@[i].name@, i as usize),
                    ));
                }
            },
        }
    }

    fn insert_requirement(&mut self, r: Requirement)
        requires
            old(self).wf(),
        ensures
            final(self).wf(),
            final(self)@ == (DbV {
                requirements: insert_requirement(old(self)@.requirements, r@),
                ..old(self)@
            }),
    {
        let ghost rv = self@.requirements;
        let ghost entries = index_entries(self.req_index);
        let found = index_position(&self.req_index, r.name.as_str());
        proof {
            lemma_key_position(entries, r.name@);
        }
        match found {
            Some(p) => {
                proof {
                    assert(rv[p as int].name == r.name@);
                }
            },
            None => {
                proof {
                    assert forall|i: int| 0 <= i < rv.len() implies #[trigger] rv[i].name != r@.name by {
                        assert(entries[i].0 == rv[i].name);
                    }
                }
                let n = self.requirements.len();
                let _ = index_insert(&mut self.req_index, r.name.clone(), n);
                self.requirements.push(r);
                proof {
                    assert(self@.requirements =~= rv.push(r@));
                    assert(index_entries(self.req_index) =~= Seq::new(
                        self.requirements@.len(),
                        |i: int| (self.requirements@[i].name@, i as usize),
                    ));
                }
            },
        }
    }
}

/// Parses requirementDiagram source.
#[verifier::rlimit(40)]
pub fn parse(source: &str) -> (r: Result<ReqDb, RequirementParseError>)
    ensures
        match (r, parse_result(source@)) {
            (Ok(db), Ok(v)) => db@ == v && db.wf(),
            (Err(e), Err(m)) => e.message@ == m,
            _ => false,
        },
{
    let src = chars_of(source);
    let ls = lines_of(&src);
    let ghost all = lines(source@);
    proof {
        assert(ls@.map_values(|v: Vec<char>| v@) =~= all);
        assert(all.skip(0) =~= all);
    }
    let mut i: usize = 0;
    let mut found = false;
    while i < ls.len() && !found
        invariant
            i <= ls@.len(),
            ls@.map_values(|v: Vec<char>| v@) == all,
            all == lines(source@),
            !found ==> parse_lines(all) == parse_lines(all.skip(i as int)),
            found ==> parse_lines(all) == run_body(
                (DbV {
                    requirements: Seq::empty(),
                    elements: Seq::empty(),
                    relations: Seq::empty(),
                    direction: "TB"@,
                }),
                all.skip(i as int),
            ),
        decreases ls@.len() - i,
    {
        proof {
            assert(all.skip(i as int)[0] == all[i as int]);
            assert(all[i as int] == ls@[i as int]@);
            assert(all.skip(i as int).drop_first() =~= all.skip(i + 1));
        }
        let line = trim_vec(&ls[i]);
        if line.len() == 0 || starts_with_str(&line, "%%") || starts_with_str(&line, "#") {
        } else if starts_with_str(&line, "requirementDiagram") {
            found = true;
        } else {
            let mut m = String::from_str("expected requirementDiagram header, got ");
            let st = string_of(&line);
            let q = debug_quote(st.as_str());
            m.append(q.as_str());
            return Err(RequirementParseError { message: m });
        }
        i += 1;
    }
    if !found {
        proof {
            assert(all.skip(i as int) =~= Seq::<Seq<char>>::empty());
        }
        return Err(
            RequirementParseError { message: String::from_str("missing requirementDiagram header") },
        );
    }
    let mut db = ReqDb {
        requirements: Vec::new(),
        req_index: index_new(),
        elements: Vec::new(),
        el_index: index_new(),
        relations: Vec::new(),
        direction: String::from_str("TB"),
    };
    proof {
        assert(db@.requirements =~= Seq::<RequirementV>::empty());
        assert(db@.elements =~= Seq::<ElementV>::empty());
        assert(db@.relations =~= Seq::<RelationV>::empty());
        assert(index_entries(db.req_index) =~= Seq::new(
            db.requirements@.len(),
            |i: int| (db.requirements@[i].name@, i as usize),
        ));
        assert(index_entries(db.el_index) =~= Seq::new(
            db.elements@.len(),
            |i: int| (db.elements@[i].name@, i as usize),
        ));
    }
    while i < ls.len()
        invariant
            i <= ls@.len(),
            ls@.map_values(|v: Vec<char>| v@) == all,
            all == lines(source@),
            db.wf(),
            parse_lines(all) == run_body(db@, all.skip(i as int)),
        decreases ls@.len() - i,
    {
        let ghost t = all.skip(i as int);
        proof {
            assert(t[0] == all[i as int]);
            assert(all[i as int] == ls@[i as int]@);
            assert(t.drop_first() =~= all.skip(i + 1));
        }
        let line = trim_vec(&ls[i]);
        if line.len() == 0 || starts_with_str(&line, "%%") || starts_with_str(&line, "#") {
            i += 1;
        } else if let Some(d) = strip_prefix_str(&line, "direction ") {
            let dt = trim_vec(&d);
            db.direction = string_of(&dt);
            i += 1;
        } else if starts_with_str(&line, "title ") || starts_with_str(&line, "accTitle")
            || starts_with_str(&line, "accDescr") {
            i += 1;
        } else if line.len() > 0 && line[line.len() - 1] == '{' {
            let head = copy_range(&line, 0, line.len() - 1);
            proof {
                assert(head@ =~= line@.drop_last());
            }
            let (kw, name) = block_head_exec(&head);
            if eq_str(&kw, "element") {
                let (kv, next) = consume_body(&ls, i + 1);
                let mut el = ElementDef {
                    name: string_of(&name),
                    ty: String::new(),
                    doc_ref: String::new(),
                };
                apply_element_exec(&mut el, &kv);
                db.insert_element(el);
                i = next;
            } else if let Some(tyname) = req_type_name_exec(&kw) {
                let (kv, next) = consume_body(&ls, i + 1);
                let mut rq = Requirement {
                    name: string_of(&name),
                    ty: String::from_str(tyname),
                    id: String::new(),
                    text: String::new(),
                    risk: String::new(),
                    verify: String::new(),
                };
                apply_requirement_exec(&mut rq, &kv);
                db.insert_requirement(rq);
                i = next;
            } else {
                let mut m = String::from_str("unknown requirement statement: ");
                let st = string_of(&line);
                m.append(st.as_str());
                return Err(RequirementParseError { message: m });
            }
        } else {
            match parse_relation_exec(&line) {
                Some(rel) => {
                    let ghost before = db@;
                    db.relations.push(rel);
                    proof {
                        assert(db@.relations =~= before.relations.push(rel@));
                    }
                },
                None => {},
            }
            i += 1;
        }
    }
    proof {
        assert(all.skip(i as int) =~= Seq::<Seq<char>>::empty());
    }
    Ok(db)
}

/// [`requirement_label`], executable.
pub fn requirement_label_exec(r: &Requirement) -> (s: String)
    ensures
        s@ == requirement_label(r@),
{
    let mut s = String::from_str("<<");
    s.append(r.ty.as_str());
    s.append(">>");
    s.append("\n");
    s.append(r.name.as_str());
    if !r.id.as_str().is_empty() {
        s.append("\n");
        s.append("ID: ");
        s.append(r.id.as_str());
    }
    if !r.text.as_str().is_empty() {
        s.append("\n");
        s.append("Text: ");
        s.append(r.text.as_str());
    }
    if !r.risk.as_str().is_empty() {
        s.append("\n");
        s.append("Risk: ");
        s.append(r.risk.as_str());
    }
    if !r.verify.as_str().is_empty() {
        s.append("\n");
        s.append("Verification: ");
        s.append(r.verify.as_str());
    }
    s
}

/// [`element_label`], executable.
pub fn element_label_exec(e: &ElementDef) -> (s: String)
    ensures
        s@ == element_label(e@),
{
    let mut s = String::from_str("<<Element>>");
    s.append("\n");
    s.append(e.name.as_str());
    if !e.ty.as_str().is_empty() {
        s.append("\n");
        s.append("Type: ");
        s.append(e.ty.as_str());
    }
    if !e.doc_ref.as_str().is_empty() {
        s.append("\n");
        s.append("Doc Ref: ");
        s.append(e.doc_ref.as_str());
    }
    s
}

/// No two definitions share a name.
pub open spec fn names_distinct(db: DbV) -> bool {
    &&& forall|i: int, j: int|
        0 <= i < j < db.requirements.len() ==> #[trigger] db.requirements[i].name
            != #[trigger] db.requirements[j].name
    &&& forall|i: int, j: int|
        0 <= i < j < db.elements.len() ==> #[trigger] db.elements[i].name
            != #[trigger] db.elements[j].name
}

proof fn lemma_run_body_distinct(db: DbV, ls: Seq<Seq<char>>)
    requires
        names_distinct(db),
    ensures
        run_body(db, ls) matches Ok(d2) ==> names_distinct(d2),
    decreases ls.len(),
{
    if ls.len() > 0 {
        let line = trim(ls[0]);
        let rest = ls.drop_first();
        if line.len() == 0 || starts_with(line, "%%"@) || starts_with(line, "#"@) {
            lemma_run_body_distinct(db, rest);
        } else if let Some(d) = strip_prefix(line, "direction "@) {
            lemma_run_body_distinct(DbV { direction: trim(d), ..db }, rest);
        } else if starts_with(line, "title "@) || starts_with(line, "accTitle"@) || starts_with(
            line,
            "accDescr"@,
        ) {
            lemma_run_body_distinct(db, rest);
        } else if line.len() > 0 && line.last() == '{' {
            let (kw, name) = block_head(line.drop_last());
            let (kv, after) = body(rest);
            lemma_body_len(rest);
            if kw == "element"@ {
                let e = apply_element(
                    ElementV { name, ty: Seq::empty(), doc_ref: Seq::empty() },
                    kv,
                );
                let d2 = DbV { elements: insert_element(db.elements, e), ..db };
                assert(names_distinct(d2));
                lemma_run_body_distinct(d2, after);
            } else if let Some(tyname) = req_type_name(kw) {
                let r = apply_requirement(
                    RequirementV {
                        name,
                        ty: tyname,
                        id: Seq::empty(),
                        text: Seq::empty(),
                        risk: Seq::empty(),
                        verify: Seq::empty(),
                    },
                    kv,
                );
                let d2 = DbV { requirements: insert_requirement(db.requirements, r), ..db };
                assert(names_distinct(d2));
                lemma_run_body_distinct(d2, after);
            }
        } else if let Some(rel) = parse_relation(line) {
            lemma_run_body_distinct(DbV { relations: db.relations.push(rel), ..db }, rest);
        } else {
            lemma_run_body_distinct(db, rest);
        }
    }
}

proof fn lemma_parse_lines_distinct(ls: Seq<Seq<char>>)
    ensures
        parse_lines(ls) matches Ok(db) ==> names_distinct(db),
    decreases ls.len(),
{
    if ls.len() > 0 {
        let line = trim(ls[0]);
        if line.len() == 0 || starts_with(line, "%%"@) || starts_with(line, "#"@) {
            lemma_parse_lines_distinct(ls.drop_first());
        } else if starts_with(line, "requirementDiagram"@) {
            lemma_run_body_distinct(
                DbV {
                    requirements: Seq::empty(),
                    elements: Seq::empty(),
                    relations: Seq::empty(),
                    direction: "TB"@,
                },
                ls.drop_first(),
            );
        }
    }
}

/// Law: a name is defined at most once — a later requirement (or element)
/// block with the same name leaves the first definition in place, so the
/// parsed requirements, and the parsed elements, have distinct names.
pub proof fn parse_names_distinct(source: Seq<char>)
    ensures
        parse_result(source) matches Ok(db) ==> names_distinct(db),
{
    lemma_parse_lines_distinct(lines(source));
}

impl RequirementParseError {
    /// The error as a message.
    pub fn display(&self) -> (s: String)
        ensures
            s@ == "requirement diagram parse error: "@ + self.message@,
    {
        let mut s = String::from_str("requirement diagram parse error: ");
        s.append(self.message.as_str());
        s
    }
}


/// A box of the diagram as the layout takes it (its padding is 20).
pub struct LayoutNode {
    pub id: String,
    pub label: String,
    pub label_raw: String,
    pub label_type: String,
    pub shape: String,
    pub dom_id: String,
    pub css_classes: String,
    pub look: String,
}

/// A relation as the layout takes it (its minimum length is 1).
pub struct LayoutEdge {
    pub id: String,
    pub start: String,
    pub end: String,
    pub label: String,
    pub label_raw: String,
    pub label_type: String,
    pub labelpos: String,
    pub thickness: String,
    pub classes: String,
    pub arrow_type_start: String,
    pub arrow_type_end: String,
    pub pattern: String,
    pub style: Vec<String>,
    pub look: String,
    pub curve: String,
}

/// The boxes and relations of a requirement diagram, ready for layout.
pub struct LayoutData {
    pub nodes: Vec<LayoutNode>,
    pub edges: Vec<LayoutEdge>,
    pub direction: String,
    pub diagram_id: String,
}

/// `n` is the box of a definition named `name` showing `label`.
pub open spec fn node_is(n: LayoutNode, name: Seq<char>, label: Seq<char>) -> bool {
    &&& n.id@ == name
    &&& n.label@ == label
    &&& n.label_raw@ == label
    &&& n.label_type@ == "text"@
    &&& n.shape@ == "squareRect"@
    &&& n.dom_id@ == name
    &&& n.css_classes@ == "requirementBox default"@
    &&& n.look@ == "classic"@
}

/// `e` is the edge of relation `rel`, the `k`th relation: `contains` draws
/// a solid line with a cross at the source, every other relation a dashed
/// line with an arrowhead at the target.
pub open spec fn edge_is(e: LayoutEdge, rel: RelationV, k: nat) -> bool {
    &&& e.id@ == rel.src + "-"@ + rel.dst + "-"@ + decimal(k)
    &&& e.start@ == rel.src
    &&& e.end@ == rel.dst
    &&& e.label@ == "<<"@ + rel.ty + ">>"@
    &&& e.label_raw@ == "<<"@ + rel.ty + ">>"@
    &&& e.label_type@ == "text"@
    &&& e.labelpos@ == "c"@
    &&& e.thickness@ == "normal"@
    &&& e.classes@ == "relationshipLine"@
    &&& e.arrow_type_start@ == if rel.contains {
        "arrow_cross"@
    } else {
        Seq::empty()
    }
    &&& e.arrow_type_end@ == if rel.contains {
        Seq::empty()
    } else {
        "arrow_point"@
    }
    &&& e.pattern@ == if rel.contains {
        "solid"@
    } else {
        "dashed"@
    }
    &&& e.style@.map_values(|s: String| s@) == seq![
        "fill:none"@,
        if rel.contains {
            Seq::empty()
        } else {
            "stroke-dasharray: 10,7"@
        },
    ]
    &&& e.look@ == "classic"@
    &&& e.curve@ == "basis"@
}

/// `l` lays out `db` for the diagram `id`: a box per requirement, then a
/// box per element, then an edge per relation, all in declaration order.
pub open spec fn layout_is(l: LayoutData, db: DbV, id: Seq<char>) -> bool {
    let nr = db.requirements.len();
    &&& l.nodes@.len() == nr + db.elements.len()
    &&& forall|k: int|
        0 <= k < nr ==> node_is(
            #[trigger] l.nodes@[k],
            db.requirements[k].name,
            requirement_label(db.requirements[k]),
        )
    &&& forall|k: int|
        0 <= k < db.elements.len() ==> node_is(
            #[trigger] l.nodes@[nr + k],
            db.elements[k].name,
            element_label(db.elements[k]),
        )
    &&& l.edges@.len() == db.relations.len()
    &&& forall|k: int|
        0 <= k < db.relations.len() ==> edge_is(#[trigger] l.edges@[k], db.relations[k], k as nat)
    &&& l.direction@ == db.direction
    &&& l.diagram_id@ == id
}

fn cat(s: String, t: &str) -> (r: String)
    ensures
        r@ == s@ + t@,
{
    let mut s = s;
    s.append(t);
    s
}

fn layout_node(name: &String, label: String) -> (n: LayoutNode)
    ensures
        node_is(n, name@, label@),
{
    LayoutNode {
        id: name.clone(),
        label_raw: label.clone(),
        label,
        label_type: String::from_str("text"),
        shape: String::from_str("squareRect"),
        dom_id: name.clone(),
        css_classes: String::from_str("requirementBox default"),
        look: String::from_str("classic"),
    }
}

fn layout_edge(rel: &Relation, k: usize) -> (e: LayoutEdge)
    ensures
        edge_is(e, rel@, k as nat),
{
    let id = cat(
        cat(cat(cat(rel.src.clone(), "-"), rel.dst.as_str()), "-"),
        decimal_string(k).as_str(),
    );
    let label = cat(cat(String::from_str("<<"), rel.ty.as_str()), ">>");
    let mut style: Vec<String> = Vec::new();
    style.push(String::from_str("fill:none"));
    style.push(
        if rel.contains {
            String::new()
        } else {
            String::from_str("stroke-dasharray: 10,7")
        },
    );
    let ghost sv = style@.map_values(|s: String| s@);
    assert(sv =~= seq![
        "fill:none"@,
        if rel.contains {
            Seq::empty()
        } else {
            "stroke-dasharray: 10,7"@
        },
    ]);
    LayoutEdge {
        id,
        start: rel.src.clone(),
        end: rel.dst.clone(),
        label_raw: label.clone(),
        label,
        label_type: String::from_str("text"),
        labelpos: String::from_str("c"),
        thickness: String::from_str("normal"),
        classes: String::from_str("relationshipLine"),
        arrow_type_start: if rel.contains {
            String::from_str("arrow_cross")
        } else {
            String::new()
        },
        arrow_type_end: if rel.contains {
            String::new()
        } else {
            String::from_str("arrow_point")
        },
        pattern: if rel.contains {
            String::from_str("solid")
        } else {
            String::from_str("dashed")
        },
        style,
        look: String::from_str("classic"),
        curve: String::from_str("basis"),
    }
}

/// The layout input for a parsed diagram (see [`layout_is`]).
pub fn layout_data(db: &ReqDb, id: &str) -> (l: LayoutData)
    ensures
        layout_is(l, db@, id@),
{
    let ghost v = db@;
    let mut nodes: Vec<LayoutNode> = Vec::new();
    let mut k: usize = 0;
    while k < db.requirements.len()
        invariant
            v == db@,
            k <= db.requirements@.len(),
            nodes@.len() == k,
            forall|j: int|
                0 <= j < k ==> node_is(
                    #[trigger] nodes@[j],
                    v.requirements[j].name,
                    requirement_label(v.requirements[j]),
                ),
        decreases db.requirements@.len() - k,
    {
        let r = &db.requirements[k];
        assert(v.requirements[k as int] == r@);
        let label = requirement_label_exec(r);
        nodes.push(layout_node(&r.name, label));
        k += 1;
    }
    let nr = k;
    let mut j: usize = 0;
    while j < db.elements.len()
        invariant
            v == db@,
            nr == v.requirements.len(),
            j <= db.elements@.len(),
            nodes@.len() == nr + j,
            forall|q: int|
                0 <= q < nr ==> node_is(
                    #[trigger] nodes@[q],
                    v.requirements[q].name,
                    requirement_label(v.requirements[q]),
                ),
            forall|q: int|
                0 <= q < j ==> node_is(
                    #[trigger] nodes@[nr + q],
                    v.elements[q].name,
                    element_label(v.elements[q]),
                ),
        decreases db.elements@.len() - j,
    {
        let e = &db.elements[j];
        assert(v.elements[j as int] == e@);
        let label = element_label_exec(e);
        nodes.push(layout_node(&e.name, label));
        assert(nodes@[nr + j as int] == nodes@.last());
        j += 1;
    }
    let mut edges: Vec<LayoutEdge> = Vec::new();
    let mut c: usize = 0;
    while c < db.relations.len()
        invariant
            v == db@,
            c <= db.relations@.len(),
            edges@.len() == c,
            forall|q: int| 0 <= q < c ==> edge_is(#[trigger] edges@[q], v.relations[q], q as nat),
        decreases db.relations@.len() - c,
    {
        let rel = &db.relations[c];
        assert(v.relations[c as int] == rel@);
        edges.push(layout_edge(rel, c));
        c += 1;
    }
    LayoutData {
        nodes,
        edges,
        direction: db.direction.clone(),
        diagram_id: String::from_str(id),
    }
}

/// Parses `source` and lays it out for the diagram `id`; parse errors are
/// passed on.
pub fn get_layout_data(source: &str, id: &str) -> (r: Result<LayoutData, RequirementParseError>)
    ensures
        match (r, parse_result(source@)) {
            (Ok(l), Ok(db)) => layout_is(l, db, id@),
            (Err(e), Err(m)) => e.message@ == m,
            _ => false,
        },
{
    match parse(source) {
        Ok(db) => Ok(layout_data(&db, id)),
        Err(e) => Err(e),
    }
}


/// A character's ASCII upper case (`char::to_ascii_uppercase`).
pub open spec fn ascii_upper(c: char) -> char {
    if 'a' <= c <= 'z' {
        ((c as u32) - 32) as char
    } else {
        c
    }
}

/// Camel-case text split into words: a space before every ASCII capital.
pub open spec fn spaced_words(s: Seq<char>) -> Seq<char>
    decreases s.len(),
{
    if s.len() == 0 {
        s
    } else if 'A' <= s.last() <= 'Z' {
        spaced_words(s.drop_last()) + seq![' ', s.last()]
    } else {
        spaced_words(s.drop_last()).push(s.last())
    }
}

/// A camel-case keyword as words: the first letter capitalised and a space
/// before each capital after it.
pub open spec fn title_words(kw: Seq<char>) -> Seq<char> {
    if kw.len() == 0 {
        kw
    } else {
        seq![ascii_upper(kw[0])] + spaced_words(kw.drop_first())
    }
}

/// [`spaced_words`] of a concatenation, part by part.
proof fn lemma_spaced_concat(a: Seq<char>, b: Seq<char>)
    ensures
        spaced_words(a + b) == spaced_words(a) + spaced_words(b),
    decreases b.len(),
{
    if b.len() == 0 {
        assert(a + b =~= a);
        assert(spaced_words(a) + spaced_words(b) =~= spaced_words(a));
    } else {
        assert((a + b).drop_last() =~= a + b.drop_last());
        assert((a + b).last() == b.last());
        lemma_spaced_concat(a, b.drop_last());
        if 'A' <= b.last() <= 'Z' {
            assert(spaced_words(a) + (spaced_words(b.drop_last()) + seq![' ', b.last()]) =~= (
            spaced_words(a) + spaced_words(b.drop_last())) + seq![' ', b.last()]);
        } else {
            assert(spaced_words(a) + spaced_words(b.drop_last()).push(b.last()) =~= (spaced_words(
                a,
            ) + spaced_words(b.drop_last())).push(b.last()));
        }
    }
}

/// Text without capitals is one word.
proof fn lemma_spaced_lower(a: Seq<char>)
    requires
        forall|i: int| 0 <= i < a.len() ==> !('A' <= #[trigger] a[i] <= 'Z'),
    ensures
        spaced_words(a) == a,
    decreases a.len(),
{
    if a.len() > 0 {
        lemma_spaced_lower(a.drop_last());
        assert(a.drop_last().push(a.last()) =~= a);
    }
}

/// A capital followed by a lower-case word is that word set off by a space.
proof fn lemma_spaced_capital(c: char, a: Seq<char>)
    requires
        'A' <= c <= 'Z',
        forall|i: int| 0 <= i < a.len() ==> !('A' <= #[trigger] a[i] <= 'Z'),
    ensures
        spaced_words(seq![c] + a) == seq![' ', c] + a,
{
    lemma_spaced_concat(seq![c], a);
    lemma_spaced_lower(a);
    assert(seq![c].drop_last() =~= Seq::<char>::empty());
    assert(spaced_words(Seq::<char>::empty()) =~= Seq::<char>::empty());
    assert(spaced_words(seq![c]) =~= seq![' ', c]);
}

/// Two camel-case words `xy` and `Zw`, split.
proof fn lemma_two_words(x: char, y: Seq<char>, z: char, w: Seq<char>)
    requires
        'a' <= x <= 'z',
        'A' <= z <= 'Z',
        forall|i: int| 0 <= i < y.len() ==> !('A' <= #[trigger] y[i] <= 'Z'),
        forall|i: int| 0 <= i < w.len() ==> !('A' <= #[trigger] w[i] <= 'Z'),
    ensures
        title_words(seq![x] + y + seq![z] + w) == seq![ascii_upper(x)] + y + seq![' ', z] + w,
{
    let kw = seq![x] + y + seq![z] + w;
    assert(kw.drop_first() =~= y + (seq![z] + w));
    lemma_spaced_concat(y, seq![z] + w);
    lemma_spaced_lower(y);
    lemma_spaced_capital(z, w);
    assert(seq![ascii_upper(x)] + (y + (seq![' ', z] + w)) =~= seq![ascii_upper(x)] + y + seq![' ', z] + w);
}

/// Law: the display name of a requirement keyword is the camel-case keyword
/// split into capitalised words (`interfaceRequirement` shows as
/// `Interface Requirement`, `designConstraint` as `Design Constraint`).
pub proof fn type_names_are_title_words(kw: Seq<char>)
    requires
        req_type_name(kw) is Some,
    ensures
        req_type_name(kw) == Some(title_words(kw)),
{
    reveal_strlit("requirement");
    reveal_strlit("Requirement");
    reveal_strlit("equirement");
    reveal_strlit("functionalRequirement");
    reveal_strlit("Functional Requirement");
    reveal_strlit("unctional");
    reveal_strlit("interfaceRequirement");
    reveal_strlit("Interface Requirement");
    reveal_strlit("nterface");
    reveal_strlit("performanceRequirement");
    reveal_strlit("Performance Requirement");
    reveal_strlit("erformance");
    reveal_strlit("physicalRequirement");
    reveal_strlit("Physical Requirement");
    reveal_strlit("hysical");
    reveal_strlit("designConstraint");
    reveal_strlit("Design Constraint");
    reveal_strlit("esign");
    reveal_strlit("onstraint");
    let e = "equirement"@;
    if kw == "requirement"@ {
        assert(kw.drop_first() =~= e);
        lemma_spaced_lower(e);
        assert(title_words(kw) =~= "Requirement"@);
    } else if kw == "functionalRequirement"@ {
        assert(kw =~= seq!['f'] + "unctional"@ + seq!['R'] + e);
        lemma_two_words('f', "unctional"@, 'R', e);
        assert(title_words(kw) =~= "Functional Requirement"@);
    } else if kw == "interfaceRequirement"@ {
        assert(kw =~= seq!['i'] + "nterface"@ + seq!['R'] + e);
        lemma_two_words('i', "nterface"@, 'R', e);
        assert(title_words(kw) =~= "Interface Requirement"@);
    } else if kw == "performanceRequirement"@ {
        assert(kw =~= seq!['p'] + "erformance"@ + seq!['R'] + e);
        lemma_two_words('p', "erformance"@, 'R', e);
        assert(title_words(kw) =~= "Performance Requirement"@);
    } else if kw == "physicalRequirement"@ {
        assert(kw =~= seq!['p'] + "hysical"@ + seq!['R'] + e);
        lemma_two_words('p', "hysical"@, 'R', e);
        assert(title_words(kw) =~= "Physical Requirement"@);
    } else {
        assert(kw =~= seq!['d'] + "esign"@ + seq!['C'] + "onstraint"@);
        lemma_two_words('d', "esign"@, 'C', "onstraint"@);
        assert(title_words(kw) =~= "Design Constraint"@);
    }
}

/// Law: distinct requirement keywords get distinct display names.
pub proof fn type_names_distinct(a: Seq<char>, b: Seq<char>)
    requires
        req_type_name(a) is Some,
        req_type_name(a) == req_type_name(b),
    ensures
        a == b,
{
    lemma_name_letters(a);
    lemma_name_letters(b);
}

/// The first two letters of a requirement type name, which tell the names
/// apart.
proof fn lemma_name_letters(kw: Seq<char>)
    requires
        req_type_name(kw) is Some,
    ensures
        ({
            let n = req_type_name(kw).unwrap();
            &&& n.len() >= 2
            &&& (kw == "requirement"@ <==> n[0] == 'R')
            &&& (kw == "functionalRequirement"@ <==> n[0] == 'F')
            &&& (kw == "interfaceRequirement"@ <==> n[0] == 'I')
            &&& (kw == "performanceRequirement"@ <==> n[0] == 'P' && n[1] == 'e')
            &&& (kw == "physicalRequirement"@ <==> n[0] == 'P' && n[1] == 'h')
            &&& (kw == "designConstraint"@ <==> n[0] == 'D')
        }),
{
    reveal_strlit("requirement");
    reveal_strlit("functionalRequirement");
    reveal_strlit("interfaceRequirement");
    reveal_strlit("performanceRequirement");
    reveal_strlit("physicalRequirement");
    reveal_strlit("designConstraint");
    reveal_strlit("Requirement");
    reveal_strlit("Functional Requirement");
    reveal_strlit("Interface Requirement");
    reveal_strlit("Performance Requirement");
    reveal_strlit("Physical Requirement");
    reveal_strlit("Design Constraint");
    let n = req_type_name(kw).unwrap();
    assert("requirement"@.len() == 11);
    assert("functionalRequirement"@.len() == 21);
    assert("interfaceRequirement"@.len() == 20);
    assert("performanceRequirement"@.len() == 22);
    assert("physicalRequirement"@.len() == 19);
    assert("designConstraint"@.len() == 16);
    if kw == "requirement"@ {
        assert(n[0] == 'R');
    } else if kw == "functionalRequirement"@ {
        assert(n[0] == 'F');
    } else if kw == "interfaceRequirement"@ {
        assert(n[0] == 'I');
    } else if kw == "performanceRequirement"@ {
        assert(n[0] == 'P' && n[1] == 'e');
    } else if kw == "physicalRequirement"@ {
        assert(n[0] == 'P' && n[1] == 'h');
    } else {
        assert(n[0] == 'D');
    }
}

} // verus!
