//! Label text handling for node shapes: `<br>` line splitting, soft break
//! opportunities, style-string rewriting and the HTML label div style.

use crate::css::{
    replace_all, replace_first,
};
use crate::svg::{
    append_element, new_xhtml_element, nodes_view, node_view, set_attr, set_text_append, with_attr, Element, ElementV, Node, NodeV,
};
use crate::strs::{
    eq_str, is_float_literal, is_float_literal_exec, lemma_find_char, split_on, strip_prefix, trim, trim_vec, strip_set_end, strip_set_end_vec, chars_of, concat, copy_range, find, find_char, find_char_exec, find_from_exec, find_str, join_exec, split_on_str, string_of,
};
use crate::themed_css::{theme_get_default, tv_default, ThemeVars};
use vstd::prelude::*;

verus! {

/// The hand-drawn look's node colours: the theme's `mainBkg` and
/// `nodeBorder`, each the default theme's colour where the theme leaves it
/// empty.
pub fn hd_theme_colors(vars: &ThemeVars) -> (r: (String, String))
    ensures
        r.0@ == tv_default(vars@, "mainBkg"@, "#ECECFF"@),
        r.1@ == tv_default(vars@, "nodeBorder"@, "#9370DB"@),
{
    (theme_get_default(vars, "mainBkg", "#ECECFF"), theme_get_default(vars, "nodeBorder", "#9370DB"))
}

/// Splits a label on `<br...>` tags: each `<br` up to the next `>` ends a
/// line.
pub open spec fn split_lines(label: Seq<char>) -> Seq<Seq<char>>
    decreases label.len(),
{
    match find(label, "<br"@) {
        Some(idx) => {
            let after = label.skip(idx as int);
            match find_char(after, '>') {
                Some(close) => {
                    proof {
                        crate::strs::lemma_find_bounds(label, "<br"@);
                        crate::strs::lemma_find_char(after, '>');
                    }
                    seq![label.take(idx as int)] + split_lines(after.skip(close + 1 as int))
                },
                None => seq![label],
            }
        },
        None => seq![label],
    }
}

/// [`split_lines`], executable.
pub fn split_lines_exec(label: &[char]) -> (r: Vec<String>)
    ensures
        r@.map_values(|s: String| s@) == split_lines(label@),
{
    let mut lines: Vec<String> = Vec::new();
    let mut rest = copy_range(label, 0, label.len());
    proof {
        assert(rest@ =~= label@);
        assert(lines@.map_values(|s: String| s@) + split_lines(rest@) =~= split_lines(label@));
    }
    loop
        invariant_except_break
            lines@.map_values(|s: String| s@) + split_lines(rest@) == split_lines(label@),
        ensures
            lines@.map_values(|s: String| s@) == split_lines(label@),
        decreases rest@.len(),
    {
        let found = find_str(&rest, "<br");
        if let Some(idx) = found {
            let after = copy_range(&rest, idx, rest.len());
            let fc = find_char_exec(&after, '>');
            if let Some(close) = fc {
                let piece = copy_range(&rest, 0, idx);
                let next = copy_range(&after, close + 1, after.len());
                let ghost before = lines@;
                proof {
                    assert(split_lines(rest@) == seq![piece@] + split_lines(next@));
                }
                lines.push(string_of(&piece));
                proof {
                    assert(lines@.map_values(|s: String| s@) =~= before.map_values(|s: String| s@).push(
                        piece@,
                    ));
                    assert(before.map_values(|s: String| s@) + (seq![piece@] + split_lines(next@))
                        =~= lines@.map_values(|s: String| s@) + split_lines(next@));
                    crate::strs::lemma_find_char(after@, '>');
                }
                rest = next;
                continue;
            }
        }
        let ghost before = lines@;
        lines.push(string_of(&rest));
        proof {
            assert(split_lines(rest@) == seq![rest@]);
            assert(lines@.map_values(|s: String| s@) =~= before.map_values(|s: String| s@).push(
                rest@,
            ));
            assert(before.map_values(|s: String| s@) + seq![rest@] =~= lines@.map_values(
                |s: String| s@,
            ));
        }
        break;
    }
    lines
}

/// Whether `char::is_alphanumeric` holds of `c` (Unicode `Alphabetic` or
/// `Numeric`).
pub uninterp spec fn alphanumeric(c: char) -> bool;

/// `char::is_alphanumeric`.
#[verifier::external_body]
fn is_alphanumeric(c: char) -> (b: bool)
    ensures
        b == alphanumeric(c),
{
    c.is_alphanumeric()
}

/// An opening bracket.
pub open spec fn is_opener(c: char) -> bool {
    c == '(' || c == '[' || c == '{'
}

/// A break opportunity before `s[i]`: an opening bracket after a character
/// that is not alphanumeric, a space, a no-break space or another opener.
pub open spec fn break_before(s: Seq<char>, i: int) -> bool {
    is_opener(s[i]) && i > 0 && !alphanumeric(s[i - 1]) && s[i - 1] != ' ' && s[i - 1] != '\u{a0}'
        && !is_opener(s[i - 1])
}

/// A break opportunity after `s[i]`: after a space, or after a hyphen
/// followed by something other than a digit or a space.
pub open spec fn break_after(s: Seq<char>, i: int) -> bool {
    s[i] == ' ' || (s[i] == '-' && i + 1 < s.len() && !('0' <= s[i + 1] <= '9') && s[i + 1]
        != ' ')
}

/// The atoms of `s` from position `i` on, given those so far and the atom
/// being built.
pub open spec fn atoms_from(s: Seq<char>, i: nat, atoms: Seq<Seq<char>>, cur: Seq<char>) -> Seq<
    Seq<char>,
>
    decreases s.len() - i,
{
    if i >= s.len() {
        if cur.len() > 0 {
            atoms.push(cur)
        } else {
            atoms
        }
    } else {
        let (atoms1, cur1) = if break_before(s, i as int) && cur.len() > 0 {
            (atoms.push(cur), Seq::empty())
        } else {
            (atoms, cur)
        };
        let cur2 = cur1.push(s[i as int]);
        if break_after(s, i as int) {
            atoms_from(s, i + 1, atoms1.push(cur2), Seq::empty())
        } else {
            atoms_from(s, i + 1, atoms1, cur2)
        }
    }
}

/// Splits a line into atoms at soft break opportunities.
pub open spec fn break_atoms(line: Seq<char>) -> Seq<Seq<char>> {
    atoms_from(line, 0, Seq::empty(), Seq::empty())
}

/// [`break_atoms`], executable.
pub fn break_atoms_exec(line: &str) -> (r: Vec<String>)
    ensures
        r@.map_values(|s: String| s@) == break_atoms(line@),
{
    let chars = chars_of(line);
    let mut atoms: Vec<String> = Vec::new();
    let mut cur: Vec<char> = Vec::new();
    let mut i: usize = 0;
    proof {
        assert(atoms@.map_values(|s: String| s@) =~= Seq::<Seq<char>>::empty());
        assert(cur@ =~= Seq::<char>::empty());
    }
    while i < chars.len()
        invariant
            i <= chars@.len(),
            chars@ == line@,
            atoms_from(chars@, i as nat, atoms@.map_values(|s: String| s@), cur@) == break_atoms(
                line@,
            ),
        decreases chars@.len() - i,
    {
        let c = chars[i];
        let ghost a0 = atoms@.map_values(|s: String| s@);
        let ghost c0 = cur@;
        if (c == '(' || c == '[' || c == '{') && i > 0 && cur.len() > 0 {
            let prev = chars[i - 1];
            if !is_alphanumeric(prev) && prev != ' ' && prev != '\u{a0}' && !(prev == '('
                || prev == '[' || prev == '{') {
                let ghost before = atoms@;
                atoms.push(string_of(&cur));
                cur = Vec::new();
                proof {
                    assert(atoms@.map_values(|s: String| s@) =~= before.map_values(|s: String| s@).push(
                        c0,
                    ));
                }
            }
        }
        cur.push(c);
        let brk = c == ' ' || (c == '-' && i + 1 < chars.len() && !('0' <= chars[i + 1]
            && chars[i + 1] <= '9') && chars[i + 1] != ' ');
        if brk {
            let ghost before = atoms@;
            let ghost cv = cur@;
            atoms.push(string_of(&cur));
            cur = Vec::new();
            proof {
                assert(atoms@.map_values(|s: String| s@) =~= before.map_values(|s: String| s@).push(
                    cv,
                ));
                assert(cur@ =~= Seq::<char>::empty());
            }
        }
        i += 1;
    }
    if cur.len() > 0 {
        let ghost before = atoms@;
        atoms.push(string_of(&cur));
        proof {
            assert(atoms@.map_values(|s: String| s@) =~= before.map_values(|s: String| s@).push(
                cur@,
            ));
        }
    }
    atoms
}

/// Every `prop value` declaration removed from a style string (the regex
/// `/prop[^;]+;?/g`: at least one value character is needed).
pub open spec fn remove_decl(rest: Seq<char>, prop: Seq<char>) -> Seq<char>
    decreases rest.len(),
{
    if prop.len() == 0 {
        rest
    } else {
        match find(rest, prop) {
            None => rest,
            Some(pos) => {
                proof {
                    crate::strs::lemma_find_bounds(rest, prop);
                }
                let after = rest.skip(pos + prop.len() as int);
                let val_len = match find_char(after, ';') {
                    Some(k) => k,
                    None => after.len(),
                };
                if val_len == 0 {
                    rest.take(pos + prop.len() as int) + remove_decl(after, prop)
                } else {
                    proof {
                        crate::strs::lemma_find_char(after, ';');
                    }
                    let skip = pos + prop.len() + val_len;
                    let skip2 = if skip < rest.len() && rest[skip as int] == ';' {
                        skip + 1
                    } else {
                        skip
                    };
                    rest.take(pos as int) + remove_decl(rest.skip(skip2 as int), prop)
                }
            },
        }
    }
}

/// [`remove_decl`], executable: every `prop value;` declaration removed.
/// The property must be non-empty: an empty one matches at every position
/// and the scan would never advance.
pub fn remove_style_decl(style: &[char], prop: &str) -> (r: Vec<char>)
    requires
        prop@.len() > 0,
    ensures
        r@ == remove_decl(style@, prop@),
{
    let pv = chars_of(prop);
    let mut out: Vec<char> = Vec::new();
    let mut rest = copy_range(style, 0, style.len());
    proof {
        assert(rest@ =~= style@);
        assert(out@ + remove_decl(rest@, prop@) =~= remove_decl(style@, prop@));
    }
    loop
        invariant
            pv@ == prop@,
            prop@.len() > 0,
            out@ + remove_decl(rest@, prop@) == remove_decl(style@, prop@),
        decreases rest@.len(),
    {
        let found = find_from_exec(&rest, &pv, 0);
        match found {
            None => {
                let o = concat(&out, &rest);
                proof {
                    assert(remove_decl(rest@, prop@) == rest@);
                }
                return o;
            },
            Some(pos) => {
                let rl = rest.len();
                assert(pos + pv@.len() <= rl);
                let after = copy_range(&rest, pos + pv.len(), rest.len());
                let fc = find_char_exec(&after, ';');
                let val_len = match fc {
                    Some(k) => k,
                    None => after.len(),
                };
                proof {
                    crate::strs::lemma_find_char(after@, ';');
                }
                if val_len == 0 {
                    let head = copy_range(&rest, 0, pos + pv.len());
                    let o = concat(&out, &head);
                    proof {
                        assert(o@ + remove_decl(after@, prop@) =~= out@ + (head@ + remove_decl(
                            after@,
                            prop@,
                        )));
                    }
                    out = o;
                    rest = after;
                } else {
                    let head = copy_range(&rest, 0, pos);
                    let o = concat(&out, &head);
                    let mut skip = pos + pv.len() + val_len;
                    if skip < rest.len() && rest[skip] == ';' {
                        skip = skip + 1;
                    }
                    let next = copy_range(&rest, skip, rest.len());
                    proof {
                        assert(o@ + remove_decl(next@, prop@) =~= out@ + (head@ + remove_decl(
                            next@,
                            prop@,
                        )));
                    }
                    out = o;
                    rest = next;
                }
            },
        }
    }
}

/// createText's style transform for SVG node labels: the first `stroke:`
/// becomes `lineColor:`, stroke/stroke-width/fill declarations are removed
/// and `color:` becomes `fill:`.
pub open spec fn label_text_style(style: Seq<char>) -> Seq<char> {
    if style.len() == 0 {
        Seq::empty()
    } else {
        let s = if find(style, "stroke:"@) is Some {
            replace_first(style, "stroke:"@, "lineColor:"@)
        } else {
            style
        };
        let s = remove_decl(s, "stroke:"@);
        let s = remove_decl(s, "stroke-width:"@);
        let s = remove_decl(s, "fill:"@);
        replace_all(s, "color:"@, "fill:"@)
    }
}

/// [`label_text_style`], executable.
pub fn node_label_text_style(style: &str) -> (r: String)
    ensures
        r@ == label_text_style(style@),
{
    let st = chars_of(style);
    if st.len() == 0 {
        return String::new();
    }
    proof {
        reveal_strlit("stroke:");
        reveal_strlit("stroke-width:");
        reveal_strlit("fill:");
    }
    let s0 = match find_str(&st, "stroke:") {
        Some(i) => {
            let pv = chars_of("stroke:");
            let a = copy_range(&st, 0, i);
            let rv = chars_of("lineColor:");
            let b = copy_range(&st, i + pv.len(), st.len());
            let ab = concat(&a, &rv);
            concat(&ab, &b)
        },
        None => st,
    };
    let s1 = remove_style_decl(&s0, "stroke:");
    let s2 = remove_style_decl(&s1, "stroke-width:");
    let s3 = remove_style_decl(&s2, "fill:");
    let pieces = split_on_str(&s3, "color:");
    let mut strs: Vec<String> = Vec::new();
    let mut i: usize = 0;
    while i < pieces.len()
        invariant
            i <= pieces@.len(),
            strs@.map_values(|s: String| s@) == pieces@.map_values(|v: Vec<char>| v@).take(
                i as int,
            ),
        decreases pieces@.len() - i,
    {
        let ghost before = strs@;
        let piece = string_of(&pieces[i]);
        strs.push(piece);
        proof {
            assert(strs@.map_values(|s: String| s@) =~= before.map_values(|s: String| s@).push(
                piece@,
            ));
            assert(pieces@.map_values(|v: Vec<char>| v@).take(i + 1) =~= pieces@.map_values(
                |v: Vec<char>| v@,
            ).take(i as int).push(pieces@[i as int]@));
        }
        i += 1;
    }
    proof {
        assert(pieces@.map_values(|v: Vec<char>| v@).take(i as int) =~= pieces@.map_values(
            |v: Vec<char>| v@,
        ));
    }
    let j = join_exec(&strs, "fill:");
    string_of(&j)
}

/// `ClassMember.text`: a leading visibility marker is backslash-escaped.
pub open spec fn member_text(display: Seq<char>) -> Seq<char> {
    if display.len() > 0 && (display[0] == '+' || display[0] == '-' || display[0] == '#'
        || display[0] == '~') {
        seq!['\\'] + display
    } else {
        display
    }
}

/// [`member_text`], executable.
pub fn escape_member_text(display: &str) -> (r: String)
    ensures
        r@ == member_text(display@),
{
    let d = chars_of(display);
    if d.len() > 0 && (d[0] == '+' || d[0] == '-' || d[0] == '#' || d[0] == '~') {
        let mut v: Vec<char> = Vec::new();
        v.push('\\');
        let r = concat(&v, &d);
        proof {
            assert(v@ =~= seq!['\\']);
        }
        string_of(&r)
    } else {
        string_of(&d)
    }
}

/// The div style `addHtmlSpan` emits for wrapping width `w` (the width as
/// JavaScript prints it); it switches when the text wrapped.
pub open spec fn div_style_text(wrapped: bool, w: Seq<char>) -> Seq<char> {
    if wrapped {
        "display: table; white-space: break-spaces; line-height: 1.5; max-width: "@ + w
            + "px; text-align: center; width: "@ + w + "px;"@
    } else {
        "display: table-cell; white-space: nowrap; line-height: 1.5; max-width: "@ + w
            + "px; text-align: center;"@
    }
}

/// [`div_style_text`], executable.
pub fn div_style_w(wrapped: bool, w: &str) -> (r: String)
    ensures
        r@ == div_style_text(wrapped, w@),
{
    if wrapped {
        let mut r = String::from_str("display: table; white-space: break-spaces; line-height: 1.5; max-width: ");
        r.append(w);
        r.append("px; text-align: center; width: ");
        r.append(w);
        r.append("px;");
        r
    } else {
        let mut r = String::from_str("display: table-cell; white-space: nowrap; line-height: 1.5; max-width: ");
        r.append(w);
        r.append("px; text-align: center;");
        r
    }
}

/// The div style at the default 200px wrapping width.
pub fn div_style(wrapped: bool) -> (r: String)
    ensures
        r@ == div_style_text(wrapped, "200"@),
        wrapped ==> r@
            == "display: table; white-space: break-spaces; line-height: 1.5; max-width: 200px; text-align: center; width: 200px;"@,
        !wrapped ==> r@
            == "display: table-cell; white-space: nowrap; line-height: 1.5; max-width: 200px; text-align: center;"@,
{
    let r = div_style_w(wrapped, "200");
    proof {
        reveal_strlit("200");
        reveal_strlit("display: table; white-space: break-spaces; line-height: 1.5; max-width: ");
        reveal_strlit("px; text-align: center; width: ");
        reveal_strlit("px;");
        reveal_strlit("display: table-cell; white-space: nowrap; line-height: 1.5; max-width: ");
        reveal_strlit("px; text-align: center;");
        reveal_strlit(
            "display: table; white-space: break-spaces; line-height: 1.5; max-width: 200px; text-align: center; width: 200px;",
        );
        reveal_strlit(
            "display: table-cell; white-space: nowrap; line-height: 1.5; max-width: 200px; text-align: center;",
        );
        if wrapped {
            assert(r@ =~= "display: table; white-space: break-spaces; line-height: 1.5; max-width: 200px; text-align: center; width: 200px;"@);
        } else {
            assert(r@ =~= "display: table-cell; white-space: nowrap; line-height: 1.5; max-width: 200px; text-align: center;"@);
        }
    }
    r
}

/// The nodes with every descendant element named `tag` given the style
/// attribute `style`.
pub open spec fn styled_nodes(ns: Seq<NodeV>, tag: Seq<char>, style: Seq<char>) -> Seq<NodeV>
    decreases ns,
{
    if ns.len() == 0 {
        Seq::empty()
    } else {
        styled_nodes(ns.subrange(0, ns.len() - 1), tag, style).push(
            styled_node(ns[ns.len() - 1], tag, style),
        )
    }
}

/// A node with itself (if an element named `tag`) and its descendants
/// named `tag` given the style attribute `style`.
pub open spec fn styled_node(n: NodeV, tag: Seq<char>, style: Seq<char>) -> NodeV
    decreases n,
{
    match n {
        NodeV::Element(c) => NodeV::Element(
            ElementV {
                tag: c.tag,
                attrs: if c.tag == tag {
                    with_attr(c.attrs, "style"@, style)
                } else {
                    c.attrs
                },
                children: styled_nodes(c.children, tag, style),
                xhtml: c.xhtml,
            },
        ),
        NodeV::Text(t) => NodeV::Text(t),
    }
}

proof fn lemma_nodes_view_take(ns: Seq<Node>, i: int)
    requires
        0 <= i < ns.len(),
    ensures
        nodes_view(ns.take(i + 1)) == nodes_view(ns.take(i)).push(node_view(ns[i])),
{
    assert(ns.take(i + 1).subrange(0, i) =~= ns.take(i));
}

proof fn lemma_nodes_view_len(ns: Seq<Node>)
    ensures
        nodes_view(ns).len() == ns.len(),
    decreases ns.len(),
{
    if ns.len() > 0 {
        lemma_nodes_view_len(ns.subrange(0, ns.len() - 1));
    }
}

proof fn lemma_styled_push(ns: Seq<NodeV>, n: NodeV, tag: Seq<char>, style: Seq<char>)
    ensures
        styled_nodes(ns.push(n), tag, style) == styled_nodes(ns, tag, style).push(
            styled_node(n, tag, style),
        ),
{
    assert(ns.push(n).subrange(0, ns.len() as int) =~= ns);
}

/// Gives every descendant element of `el` named `tag` the style attribute
/// `style`.
pub fn style_descendants(el: &mut Element, tag: &str, style: &str)
    ensures
        final(el)@ == (ElementV {
            children: styled_nodes(old(el)@.children, tag@, style@),
            ..old(el)@
        }),
    decreases *old(el),
{
    let ghost orig = el.children@;
    assert(orig.len() == el.children.len());
    let mut kids: Vec<Node> = Vec::new();
    std::mem::swap(&mut kids, &mut el.children);
    let mut out: Vec<Node> = Vec::new();
    let mut i: usize = 0;
    proof {
        assert(kids@.subrange(0, kids@.len() as int) =~= orig);
    }
    while kids.len() > 0
        invariant
            i <= orig.len(),
            orig.len() <= usize::MAX,
            kids@ == orig.subrange(i as int, orig.len() as int),
            nodes_view(out@) == styled_nodes(nodes_view(orig.take(i as int)), tag@, style@),
            orig == old(el).children@,
            el.children@ == Seq::<Node>::empty(),
            el.tag == old(el).tag,
            el.attrs == old(el).attrs,
            el.xhtml == old(el).xhtml,
        decreases kids@.len(),
    {
        let ghost k = kids@[0];
        assert(k == orig[i as int]);
        let n = kids.remove(0);
        proof {
            lemma_nodes_view_take(orig, i as int);
            lemma_styled_push(nodes_view(orig.take(i as int)), node_view(k), tag@, style@);
        }
        let ghost prev = out@;
        match n {
            Node::Element(c) => {
                let mut c = c;
                let ghost c0 = c@;
                proof {
                    assert(decreases_to!(old(el).children => old(el).children@[i as int]));
                }
                style_descendants(&mut c, tag, style);
                let t = crate::strs::chars_of(c.tag.as_str());
                if crate::strs::eq_str(&t, tag) {
                    set_attr(&mut c, "style", style);
                }
                assert(NodeV::Element(c@) == styled_node(NodeV::Element(c0), tag@, style@));
                out.push(Node::Element(c));
            },
            Node::Text(t) => {
                out.push(Node::Text(t));
            },
        }
        proof {
            assert(out@.subrange(0, prev.len() as int) =~= prev);
            assert(nodes_view(out@) == nodes_view(prev).push(node_view(out@[prev.len() as int])));
            assert(node_view(out@[prev.len() as int]) == styled_node(node_view(k), tag@, style@));
        }
        i += 1;
        proof {
            assert(kids@ =~= orig.subrange(i as int, orig.len() as int));
        }
    }
    proof {
        assert(orig.take(i as int) =~= orig);
    }
    el.children = out;
}

/// Gives every descendant `<span>` of `el` the style attribute `style`.
pub fn set_span_styles(el: &mut Element, style: &str)
    ensures
        final(el)@ == (ElementV {
            children: styled_nodes(old(el)@.children, "span"@, style@),
            ..old(el)@
        }),
{
    style_descendants(el, "span", style);
}

/// Gives every descendant `<path>` of `el` the style attribute `style`.
pub fn set_path_styles(el: &mut Element, style: &str)
    ensures
        final(el)@ == (ElementV {
            children: styled_nodes(old(el)@.children, "path"@, style@),
            ..old(el)@
        }),
{
    style_descendants(el, "path", style);
}


/// An empty XHTML `<br>`.
pub open spec fn br_node() -> NodeV {
    NodeV::Element(ElementV { tag: "br"@, attrs: Seq::empty(), children: Seq::empty(), xhtml: true })
}

/// The content of a label paragraph: the lines, a `<br>` between each two,
/// empty lines without a text node.
pub open spec fn paragraph_nodes(ls: Seq<Seq<char>>) -> Seq<NodeV>
    decreases ls.len(),
{
    if ls.len() == 0 {
        Seq::empty()
    } else {
        let last = ls[ls.len() - 1];
        paragraph_nodes(ls.drop_last()) + (if ls.len() > 1 {
            seq![br_node()]
        } else {
            Seq::empty()
        }) + (if last.len() > 0 {
            seq![NodeV::Text(last)]
        } else {
            Seq::empty()
        })
    }
}

/// Appends the label as an XHTML paragraph to `span`: its `<br>`-separated
/// lines as text, a `<br>` between each two. An empty label adds nothing.
pub fn write_label_paragraph(span: &mut Element, label: &str)
    ensures
        label@.len() == 0 ==> final(span)@ == old(span)@,
        label@.len() > 0 ==> final(span)@ == (ElementV {
            children: old(span)@.children.push(
                NodeV::Element(
                    ElementV {
                        tag: "p"@,
                        attrs: Seq::empty(),
                        children: paragraph_nodes(split_lines(label@)),
                        xhtml: true,
                    },
                ),
            ),
            ..old(span)@
        }),
{
    if label.is_empty() {
        return;
    }
    let mut p = new_xhtml_element("p");
    let chars = chars_of(label);
    let lines = split_lines_exec(&chars);
    let ghost ls = split_lines(label@);
    let mut i: usize = 0;
    while i < lines.len()
        invariant
            i <= lines@.len(),
            lines@.map_values(|s: String| s@) == ls,
            p@ == (ElementV {
                tag: "p"@,
                attrs: Seq::empty(),
                children: paragraph_nodes(ls.take(i as int)),
                xhtml: true,
            }),
        decreases lines@.len() - i,
    {
        let ghost before = p@.children;
        if i > 0 {
            crate::svg::append_xhtml(&mut p, "br");
        }
        if !lines[i].as_str().is_empty() {
            set_text_append(&mut p, lines[i].as_str());
        }
        proof {
            let t = ls.take(i + 1);
            assert(t.drop_last() =~= ls.take(i as int));
            assert(t[t.len() - 1] == lines@[i as int]@);
            assert(p@.children =~= paragraph_nodes(t));
        }
        i += 1;
    }
    assert(ls.take(i as int) =~= ls);
    append_element(span, p);
}


/// `s` without trailing spaces (`trim_end_matches(' ')`).
pub open spec fn trim_end_spaces(s: Seq<char>) -> Seq<char> {
    strip_set_end(s, seq![' '])
}

/// Greedy wrapping of a label line over its break atoms: the finished
/// lines and the line being filled.
pub struct AtomWrap {
    pub result: Vec<String>,
    pub current: String,
}

/// The model of an [`AtomWrap`].
pub ghost struct AtomWrapV {
    pub result: Seq<Seq<char>>,
    pub current: Seq<char>,
}

impl View for AtomWrap {
    type V = AtomWrapV;

    open spec fn view(&self) -> AtomWrapV {
        AtomWrapV { result: self.result@.map_values(|t: String| t@), current: self.current@ }
    }
}

/// The text measured before adding `atom`: the line with the atom, without
/// a trailing breakable space.
pub open spec fn atom_candidate_spec(st: AtomWrapV, atom: Seq<char>) -> Seq<char> {
    trim_end_spaces(st.current + atom)
}

/// One wrapping step for `atom`, where `too_wide` says whether the
/// candidate measured wider than the wrapping width: an empty line takes
/// the atom; an overlong candidate closes the line (trailing spaces
/// dropped) and the atom starts the next; otherwise the atom joins the line.
pub open spec fn atom_step_spec(st: AtomWrapV, atom: Seq<char>, too_wide: bool) -> AtomWrapV {
    if st.current.len() == 0 {
        AtomWrapV { current: atom, ..st }
    } else if too_wide {
        AtomWrapV { result: st.result.push(trim_end_spaces(st.current)), current: atom }
    } else {
        AtomWrapV { current: st.current + atom, ..st }
    }
}

/// The wrapped lines: the finished ones, then the current one (trailing
/// spaces dropped) unless it is empty.
pub open spec fn atom_finish_spec(st: AtomWrapV) -> Seq<Seq<char>> {
    if st.current.len() == 0 {
        st.result
    } else {
        st.result.push(trim_end_spaces(st.current))
    }
}

fn trim_end_spaces_exec(s: &String) -> (r: String)
    ensures
        r@ == trim_end_spaces(s@),
{
    let v = chars_of(s.as_str());
    let sp: Vec<char> = vec![' '];
    assert(sp@ =~= seq![' ']);
    let t = strip_set_end_vec(&v, &sp);
    string_of(&t)
}

impl AtomWrap {
    /// Nothing wrapped yet.
    pub fn new() -> (st: Self)
        ensures
            st@ == (AtomWrapV { result: Seq::empty(), current: Seq::empty() }),
    {
        let st = AtomWrap { result: Vec::new(), current: String::new() };
        assert(st@.result =~= Seq::<Seq<char>>::empty());
        st
    }

    /// The text to measure before adding `atom` (see
    /// [`atom_candidate_spec`]).
    pub fn candidate(&self, atom: &String) -> (r: String)
        ensures
            r@ == atom_candidate_spec(self@, atom@),
    {
        let mut c = self.current.clone();
        c.append(atom.as_str());
        trim_end_spaces_exec(&c)
    }

    /// One wrapping step (see [`atom_step_spec`]).
    pub fn step(&mut self, atom: String, too_wide: bool)
        ensures
            final(self)@ == atom_step_spec(old(self)@, atom@, too_wide),
    {
        if self.current.as_str().is_empty() {
            self.current = atom;
        } else if too_wide {
            let closed = trim_end_spaces_exec(&self.current);
            let ghost r0 = self@.result;
            self.result.push(closed);
            assert(self@.result =~= r0.push(trim_end_spaces(old(self)@.current)));
            self.current = atom;
        } else {
            self.current.append(atom.as_str());
        }
    }

    /// The wrapped lines (see [`atom_finish_spec`]).
    pub fn finish(self) -> (r: Vec<String>)
        ensures
            r@.map_values(|t: String| t@) == atom_finish_spec(self@),
    {
        let ghost v = self@;
        let mut r = self.result;
        if !self.current.as_str().is_empty() {
            let last = trim_end_spaces_exec(&self.current);
            r.push(last);
            assert(r@.map_values(|t: String| t@) =~= v.result.push(trim_end_spaces(v.current)));
        }
        r
    }
}

/// `s` with `p` taken off its end as often as it ends with it.
pub open spec fn trim_end_matches(s: Seq<char>, p: Seq<char>) -> Seq<char>
    decreases s.len(),
{
    if p.len() > 0 && s.len() >= p.len() && s.skip(s.len() - p.len()) == p {
        trim_end_matches(s.take(s.len() - p.len()), p)
    } else {
        s
    }
}

/// `s` without the suffix `p`, where it ends with it.
pub open spec fn strip_suffix(s: Seq<char>, p: Seq<char>) -> Option<Seq<char>> {
    if s.len() >= p.len() && s.skip(s.len() - p.len()) == p {
        Some(s.take(s.len() - p.len()))
    } else {
        None
    }
}

/// A declaration split at its first `:`: the name, and the value (empty
/// without a colon).
pub open spec fn decl_parts(decl: Seq<char>) -> (Seq<char>, Seq<char>) {
    match find_char(decl, ':') {
        Some(i) => (decl.take(i as int), decl.skip(i + 1 as int)),
        None => (decl, Seq::empty()),
    }
}

/// The pixel size a `font-size` declaration gives, as its float literal:
/// the value without trailing `!important`s and without `px`, trimmed.
pub open spec fn font_size_of_decl(decl: Seq<char>) -> Option<Seq<char>> {
    let (name, value) = decl_parts(decl);
    if trim(name) == "font-size"@ {
        match strip_suffix(trim(trim_end_matches(trim(value), "!important"@)), "px"@) {
            Some(px) => if is_float_literal(trim(px)) {
                Some(trim(px))
            } else {
                None
            },
            None => None,
        }
    } else {
        None
    }
}

/// The first declaration of `decls` that gives a font size.
pub open spec fn first_font_size(decls: Seq<Seq<char>>) -> Option<Seq<char>>
    decreases decls.len(),
{
    if decls.len() == 0 {
        None
    } else {
        match font_size_of_decl(decls[0]) {
            Some(v) => Some(v),
            None => first_font_size(decls.drop_first()),
        }
    }
}

pub(crate) fn trim_end_matches_exec(s: &[char], p: &str) -> (r: Vec<char>)
    ensures
        r@ == trim_end_matches(s@, p@),
{
    let pv = chars_of(p);
    let mut cur = copy_range(s, 0, s.len());
    proof {
        assert(s@.subrange(0, s@.len() as int) =~= s@);
    }
    while pv.len() > 0 && cur.len() >= pv.len() && ends_with_exec(&cur, &pv)
        invariant
            pv@ == p@,
            trim_end_matches(cur@, p@) == trim_end_matches(s@, p@),
        decreases cur@.len(),
    {
        cur = copy_range(&cur, 0, cur.len() - pv.len());
    }
    cur
}

fn ends_with_exec(s: &[char], p: &[char]) -> (b: bool)
    requires
        s@.len() >= p@.len(),
    ensures
        b == (s@.skip(s@.len() - p@.len()) == p@),
{
    let n = s.len();
    let off = n - p.len();
    let mut i: usize = 0;
    while i < p.len()
        invariant
            n == s@.len(),
            off == s@.len() - p@.len(),
            s@.len() >= p@.len(),
            i <= p@.len(),
            forall|j: int| 0 <= j < i ==> s@[off + j] == p@[j],
        decreases p@.len() - i,
    {
        if s[off + i] != p[i] {
            proof {
                assert(s@.skip(off as int)[i as int] != p@[i as int]);
            }
            return false;
        }
        i += 1;
    }
    proof {
        assert(s@.skip(off as int) =~= p@);
    }
    true
}

fn font_size_of_decl_exec(decl: &[char]) -> (r: Option<String>)
    ensures
        match r {
            Some(v) => font_size_of_decl(decl@) == Some(v@),
            None => font_size_of_decl(decl@) is None,
        },
{
    let (name, value) = match find_char_exec(decl, ':') {
        Some(i) => {
            proof {
                lemma_find_char(decl@, ':');
            }
            (copy_range(decl, 0, i), copy_range(decl, i + 1, decl.len()))
        },
        None => (copy_range(decl, 0, decl.len()), Vec::new()),
    };
    proof {
        assert(decl@.subrange(0, decl@.len() as int) =~= decl@);
        if let Some(i) = find_char(decl@, ':') {
            assert(decl@.subrange(0, i as int) =~= decl@.take(i as int));
            assert(decl@.subrange(i + 1 as int, decl@.len() as int) =~= decl@.skip(i + 1 as int));
        }
        assert((name@, value@) == decl_parts(decl@));
    }
    let n = trim_vec(&name);
    if !eq_str(&n, "font-size") {
        return None;
    }
    let v = trim_vec(&trim_end_matches_exec(&trim_vec(&value), "!important"));
    let px: Vec<char> = chars_of("px");
    proof {
        reveal_strlit("px");
    }
    if v.len() >= 2 && ends_with_exec(&v, &px) {
        let num = trim_vec(&copy_range(&v, 0, v.len() - 2));
        proof {
            assert(v@.subrange(0, v@.len() - 2) =~= v@.take(v@.len() - 2));
        }
        if is_float_literal_exec(&num) {
            Some(string_of(&num))
        } else {
            None
        }
    } else {
        proof {
            reveal_strlit("px");
        }
        None
    }
}

/// The float literal of the first `font-size: N px` declaration of a
/// label's styles, if any gives one.
pub fn font_size_literal(label_styles: &str) -> (r: Option<String>)
    ensures
        match r {
            Some(v) => first_font_size(split_on(label_styles@, ";"@)) == Some(v@),
            None => first_font_size(split_on(label_styles@, ";"@)) is None,
        },
{
    let src = chars_of(label_styles);
    let decls = split_on_str(&src, ";");
    let ghost dv = decls@.map_values(|v: Vec<char>| v@);
    let mut i: usize = 0;
    proof {
        assert(dv.skip(0) =~= dv);
    }
    while i < decls.len()
        invariant
            i <= decls@.len(),
            dv == decls@.map_values(|v: Vec<char>| v@),
            dv == split_on(label_styles@, ";"@),
            first_font_size(dv) == first_font_size(dv.skip(i as int)),
        decreases decls@.len() - i,
    {
        proof {
            assert(dv.skip(i as int)[0] == decls@[i as int]@);
            assert(dv.skip(i as int).drop_first() =~= dv.skip(i + 1));
        }
        match font_size_of_decl_exec(&decls[i]) {
            Some(v) => {
                return Some(v);
            },
            None => {},
        }
        i += 1;
    }
    proof {
        assert(dv.skip(i as int) =~= Seq::<Seq<char>>::empty());
    }
    None
}

/// The class attribute of a node's group: `rough-node` for the hand-drawn
/// look, else `node`, then the node's classes and a space.
pub open spec fn node_classes(look: Seq<char>, css_classes: Seq<char>) -> Seq<char> {
    (if look == "handDrawn"@ {
        "rough-node"@
    } else {
        "node"@
    }) + " "@ + css_classes + " "@
}

/// [`node_classes`], executable.
pub fn get_node_classes(look: &str, css_classes: &str) -> (r: String)
    ensures
        r@ == node_classes(look@, css_classes@),
{
    let lv = chars_of(look);
    let mut r = if eq_str(&lv, "handDrawn") {
        String::from_str("rough-node")
    } else {
        String::from_str("node")
    };
    r.append(" ");
    r.append(css_classes);
    r.append(" ");
    r
}

} // verus!
