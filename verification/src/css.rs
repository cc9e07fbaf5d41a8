//! Stylesheet text: the default flowchart stylesheet scoped to a diagram,
//! `classDef` rules, CSSOM colour serialization and stylis-style rule
//! minification.

use crate::strs::{
    chars_of, chars_of_string, concat, copy_range, decimal, decimal_chars, eq_str, find, find_char, find_char_exec, find_str, join, join_exec, split_on, split_on_str, string_of, strip_prefix, strip_prefix_str, trim, trim_vec,
};
use vstd::prelude::*;

verus! {

/// `str::replace`: every non-overlapping occurrence of `pat`, from the
/// left, replaced by `rep`.
pub open spec fn replace_all(s: Seq<char>, pat: Seq<char>, rep: Seq<char>) -> Seq<char> {
    join(split_on(s, pat), rep)
}

/// The flowchart stylesheet: `template` with every `{ID}` replaced by
/// `#` and the diagram id.
pub open spec fn flowchart_css_spec(template: Seq<char>, id: Seq<char>) -> Seq<char> {
    replace_all(template, "{ID}"@, seq!['#'] + id)
}

/// `str::replace` on strings.
pub fn replace_all_str(s: &str, pat: &str, rep: &str) -> (r: String)
    ensures
        r@ == replace_all(s@, pat@, rep@),
{
    let t = chars_of(s);
    let pieces = split_on_str(&t, pat);
    let mut strs: Vec<String> = Vec::new();
    let mut i: usize = 0;
    while i < pieces.len()
        invariant
            i <= pieces@.len(),
            strs@.map_values(|s: String| s@) == pieces@.map_values(|v: Vec<char>| v@).take(
                i as int,
            ),
        decreases pieces@.len() - i,
    {
        let ghost before = strs@;
        let piece = string_of(&pieces[i]);
        strs.push(piece);
        proof {
            assert(piece@ == pieces@[i as int]@);
            assert(strs@.map_values(|s: String| s@) =~= before.map_values(|s: String| s@).push(
                piece@,
            ));
            assert(pieces@.map_values(|v: Vec<char>| v@).take(i + 1) =~= pieces@.map_values(
                |v: Vec<char>| v@,
            ).take(i as int).push(pieces@[i as int]@));
        }
        i += 1;
    }
    proof {
        assert(pieces@.map_values(|v: Vec<char>| v@).take(i as int) =~= pieces@.map_values(
            |v: Vec<char>| v@,
        ));
    }
    let r = join_exec(&strs, rep);
    string_of(&r)
}

/// CSS for a flowchart with the default theme, scoped to `#{id}`: the
/// stylesheet template with its `{ID}` placeholders filled in.
pub fn flowchart_css(template: &str, id: &str) -> (r: String)
    ensures
        r@ == flowchart_css_spec(template@, id@),
{
    let mut sel = String::from_str("#");
    sel.append(id);
    proof {
        assert(sel@ =~= seq!['#'] + id@) by {
            reveal_strlit("#");
        }
    }
    replace_all_str(template, "{ID}", sel.as_str())
}

/// The value of a hexadecimal digit character.
pub open spec fn hex_value(c: char) -> Option<nat> {
    if '0' <= c <= '9' {
        Some((c as u32 - '0' as u32) as nat)
    } else if 'a' <= c <= 'f' {
        Some((c as u32 - 'a' as u32 + 10) as nat)
    } else if 'A' <= c <= 'F' {
        Some((c as u32 - 'A' as u32 + 10) as nat)
    } else {
        None
    }
}

/// Every character is a hexadecimal digit.
pub open spec fn all_hex(s: Seq<char>) -> bool {
    forall|i: int| 0 <= i < s.len() ==> (#[trigger] hex_value(s[i])) is Some
}

/// The digit value at `i`.
pub open spec fn hv(s: Seq<char>, i: int) -> nat {
    match hex_value(s[i]) {
        Some(v) => v,
        None => 0,
    }
}

/// `rgb(r, g, b)` as Chrome's CSSOM writes it.
pub open spec fn rgb_text(r: nat, g: nat, b: nat) -> Seq<char> {
    "rgb("@ + decimal(r) + ", "@ + decimal(g) + ", "@ + decimal(b) + ")"@
}

/// A `#rgb` or `#rrggbb` colour as `rgb(r, g, b)`.
pub open spec fn hex_to_rgb(value: Seq<char>) -> Option<Seq<char>> {
    match strip_prefix(value, "#"@) {
        Some(hex) => if !all_hex(hex) {
            None
        } else if hex.len() == 3 {
            Some(rgb_text(hv(hex, 0) * 17, hv(hex, 1) * 17, hv(hex, 2) * 17))
        } else if hex.len() == 6 {
            Some(
                rgb_text(
                    hv(hex, 0) * 16 + hv(hex, 1),
                    hv(hex, 2) * 16 + hv(hex, 3),
                    hv(hex, 4) * 16 + hv(hex, 5),
                ),
            )
        } else {
            None
        },
        None => None,
    }
}

fn hex_value_exec(c: char) -> (r: Option<usize>)
    ensures
        match r {
            Some(v) => hex_value(c) == Some(v as nat) && v < 16,
            None => hex_value(c) is None,
        },
{
    if '0' <= c && c <= '9' {
        Some((c as u32 - '0' as u32) as usize)
    } else if 'a' <= c && c <= 'f' {
        Some((c as u32 - 'a' as u32 + 10) as usize)
    } else if 'A' <= c && c <= 'F' {
        Some((c as u32 - 'A' as u32 + 10) as usize)
    } else {
        None
    }
}

fn rgb_text_exec(r: usize, g: usize, b: usize) -> (s: String)
    ensures
        s@ == rgb_text(r as nat, g as nat, b as nat),
{
    let mut s = String::from_str("rgb(");
    let rs = string_of(&decimal_chars(r));
    let gs = string_of(&decimal_chars(g));
    let bs = string_of(&decimal_chars(b));
    s.append(rs.as_str());
    s.append(", ");
    s.append(gs.as_str());
    s.append(", ");
    s.append(bs.as_str());
    s.append(")");
    s
}

/// [`hex_to_rgb`], executable.
pub fn hex_to_rgb_exec(value: &[char]) -> (r: Option<String>)
    ensures
        match r {
            Some(s) => hex_to_rgb(value@) == Some(s@),
            None => hex_to_rgb(value@) is None,
        },
{
    let hex = match strip_prefix_str(value, "#") {
        Some(h) => h,
        None => {
            return None;
        },
    };
    let mut digits: Vec<usize> = Vec::new();
    let mut i: usize = 0;
    while i < hex.len()
        invariant
            i <= hex@.len(),
            strip_prefix(value@, "#"@) == Some(hex@),
            digits@.len() == i,
            forall|j: int| 0 <= j < i ==> hex_value(#[trigger] hex@[j]) == Some(digits@[j] as nat)
                && digits@[j] < 16,
        decreases hex@.len() - i,
    {
        match hex_value_exec(hex[i]) {
            Some(v) => digits.push(v),
            None => {
                proof {
                    assert(hex_value(hex@[i as int]) is None);
                    assert(!all_hex(hex@));
                    assert(strip_prefix(value@, "#"@) == Some(hex@));
                    assert(hex_to_rgb(value@) is None);
                }
                return None;
            },
        }
        i += 1;
    }
    proof {
        assert(all_hex(hex@));
        assert forall|j: int| 0 <= j < hex@.len() implies hv(hex@, j) == digits@[j] by {}
    }
    if digits.len() == 3 {
        Some(rgb_text_exec(digits[0] * 17, digits[1] * 17, digits[2] * 17))
    } else if digits.len() == 6 {
        Some(
            rgb_text_exec(
                digits[0] * 16 + digits[1],
                digits[2] * 16 + digits[3],
                digits[4] * 16 + digits[5],
            ),
        )
    } else {
        None
    }
}

/// The properties whose values are colours.
pub open spec fn is_color_prop(prop: Seq<char>) -> bool {
    prop == "fill"@ || prop == "stroke"@ || prop == "color"@ || prop == "background-color"@ || prop
        == "bgFill"@
}

/// A declaration value as Chrome's CSSOM serializes it: hex colours of
/// colour properties become `rgb(...)`.
pub open spec fn cssom_value(prop: Seq<char>, value: Seq<char>) -> Seq<char> {
    if is_color_prop(prop) {
        match hex_to_rgb(value) {
            Some(rgb) => rgb,
            None => value,
        }
    } else {
        value
    }
}

/// [`cssom_value`], executable.
pub fn cssom_value_exec(prop: &[char], value: &[char]) -> (r: String)
    ensures
        r@ == cssom_value(prop@, value@),
{
    if eq_str(prop, "fill") || eq_str(prop, "stroke") || eq_str(prop, "color") || eq_str(
        prop,
        "background-color",
    ) || eq_str(prop, "bgFill") {
        if let Some(rgb) = hex_to_rgb_exec(value) {
            return rgb;
        }
    }
    string_of(value)
}

/// A declaration value for `prop` as CSSOM serializes it.
pub fn cssom_color_value(prop: &str, value: &str) -> (r: String)
    ensures
        r@ == cssom_value(prop@, value@),
{
    let p = chars_of(prop);
    let v = chars_of(value);
    cssom_value_exec(&p, &v)
}

/// `str::replacen(pat, rep, 1)`: the first occurrence replaced.
pub open spec fn replace_first(s: Seq<char>, pat: Seq<char>, rep: Seq<char>) -> Seq<char> {
    match find(s, pat) {
        Some(i) => s.take(i as int) + rep + s.skip(i + pat.len() as int),
        None => s,
    }
}

/// One `prop: value` style as a declaration: `prop:value!important;`, the
/// value as CSSOM serializes it.
pub open spec fn decl_of(style: Seq<char>) -> Seq<char> {
    let (prop, value) = match find_char(style, ':') {
        Some(c) => (trim(style.take(c as int)), trim(style.skip(c + 1 as int))),
        None => (trim(style), Seq::empty()),
    };
    prop + ":"@ + cssom_value(prop, value) + "!important;"@
}

/// The declarations of the non-blank styles, in order.
pub open spec fn format_decls(styles: Seq<Seq<char>>) -> Seq<char>
    decreases styles.len(),
{
    if styles.len() == 0 {
        Seq::empty()
    } else {
        let rest = format_decls(styles.drop_last());
        if trim(styles.last()).len() == 0 {
            rest
        } else {
            rest + decl_of(styles.last())
        }
    }
}

/// The rules of one `classDef`: its styles on the node's children and
/// spans, and its text styles (with `color` read as `fill`) on tspans.
pub open spec fn class_rule(
    id: Seq<char>,
    name: Seq<char>,
    styles: Seq<Seq<char>>,
    text_styles: Seq<Seq<char>>,
) -> Seq<char> {
    let sel = "#"@ + id + " ."@ + name;
    let a = if styles.len() > 0 {
        let d = format_decls(styles);
        sel + ">*"@ + "{"@ + d + "}"@ + sel + " span"@ + "{"@ + d + "}"@
    } else {
        Seq::empty()
    };
    let b = if text_styles.len() > 0 {
        let d = format_decls(text_styles.map_values(|t: Seq<char>| replace_first(t, "color"@, "fill"@)));
        sel + " tspan"@ + "{"@ + d + "}"@
    } else {
        Seq::empty()
    };
    a + b
}

/// The `classDef` stylesheet: each class's rules in order.
pub open spec fn class_defs(id: Seq<char>, classes: Seq<(Seq<char>, Seq<Seq<char>>, Seq<Seq<char>>)>) -> Seq<char>
    decreases classes.len(),
{
    if classes.len() == 0 {
        Seq::empty()
    } else {
        let c = classes.last();
        class_defs(id, classes.drop_last()) + class_rule(id, c.0, c.1, c.2)
    }
}

/// The view of a list of strings.
pub open spec fn strings_view(v: Seq<String>) -> Seq<Seq<char>> {
    v.map_values(|s: String| s@)
}

/// The view of a list of classes: name, styles, text styles.
pub open spec fn classes_view(v: Seq<(String, Vec<String>, Vec<String>)>) -> Seq<
    (Seq<char>, Seq<Seq<char>>, Seq<Seq<char>>),
> {
    v.map_values(
        |c: (String, Vec<String>, Vec<String>)| (c.0@, strings_view(c.1@), strings_view(c.2@)),
    )
}

fn replace_first_exec(s: &[char], pat: &str, rep: &str) -> (r: Vec<char>)
    ensures
        r@ == replace_first(s@, pat@, rep@),
{
    let pv = chars_of(pat);
    match find_str(s, pat) {
        Some(i) => {
            let a = copy_range(s, 0, i);
            let rv = chars_of(rep);
            let b = copy_range(s, i + pv.len(), s.len());
            let ab = concat(&a, &rv);
            concat(&ab, &b)
        },
        None => copy_range(s, 0, s.len()),
    }
}

fn decl_of_exec(style: &[char]) -> (r: String)
    ensures
        r@ == decl_of(style@),
{
    let found = find_char_exec(style, ':');
    let (prop, value) = match found {
        Some(c) => {
            let a = copy_range(style, 0, c);
            let b = copy_range(style, c + 1, style.len());
            (trim_vec(&a), trim_vec(&b))
        },
        None => (trim_vec(style), Vec::new()),
    };
    let mut r = string_of(&prop);
    r.append(":");
    let v = cssom_value_exec(&prop, &value);
    r.append(v.as_str());
    r.append("!important;");
    r
}

fn format_decls_exec(styles: &Vec<Vec<char>>) -> (r: String)
    ensures
        r@ == format_decls(styles@.map_values(|v: Vec<char>| v@)),
{
    let ghost sv = styles@.map_values(|v: Vec<char>| v@);
    let mut r = String::new();
    let mut i: usize = 0;
    while i < styles.len()
        invariant
            i <= styles@.len(),
            sv == styles@.map_values(|v: Vec<char>| v@),
            r@ == format_decls(sv.take(i as int)),
        decreases styles@.len() - i,
    {
        proof {
            assert(sv.take(i + 1).drop_last() =~= sv.take(i as int));
            assert(sv.take(i + 1).last() == styles@[i as int]@);
        }
        let t = trim_vec(&styles[i]);
        if t.len() > 0 {
            let d = decl_of_exec(&styles[i]);
            r.append(d.as_str());
        }
        i += 1;
    }
    assert(sv.take(i as int) =~= sv);
    r
}

fn chars_list(v: &Vec<String>) -> (r: Vec<Vec<char>>)
    ensures
        r@.map_values(|x: Vec<char>| x@) == strings_view(v@),
{
    let mut r: Vec<Vec<char>> = Vec::new();
    let mut i: usize = 0;
    while i < v.len()
        invariant
            i <= v@.len(),
            r@.map_values(|x: Vec<char>| x@) == strings_view(v@).take(i as int),
        decreases v@.len() - i,
    {
        let c = chars_of_string(&v[i]);
        let ghost before = r@;
        r.push(c);
        proof {
            assert(r@.map_values(|x: Vec<char>| x@) =~= before.map_values(|x: Vec<char>| x@).push(
                c@,
            ));
            assert(strings_view(v@).take(i + 1) =~= strings_view(v@).take(i as int).push(c@));
        }
        i += 1;
    }
    assert(strings_view(v@).take(i as int) =~= strings_view(v@));
    r
}

/// [`class_rule`], executable.
fn class_rule_exec(id: &str, name: &String, styles: &Vec<String>, text_styles: &Vec<String>) -> (r: String)
    ensures
        r@ == class_rule(id@, name@, strings_view(styles@), strings_view(text_styles@)),
{
    let mut sel = String::from_str("#");
    sel.append(id);
    sel.append(" .");
    sel.append(name.as_str());
    let mut r = String::new();
    if styles.len() > 0 {
        let sv = chars_list(styles);
        let d = format_decls_exec(&sv);
        r.append(sel.as_str());
        r.append(">*");
        r.append("{");
        r.append(d.as_str());
        r.append("}");
        r.append(sel.as_str());
        r.append(" span");
        r.append("{");
        r.append(d.as_str());
        r.append("}");
    }
    if text_styles.len() > 0 {
        let tv = chars_list(text_styles);
        let mut mapped: Vec<Vec<char>> = Vec::new();
        let mut i: usize = 0;
        let ghost tsv = strings_view(text_styles@);
        while i < tv.len()
            invariant
                i <= tv@.len(),
                tv@.map_values(|x: Vec<char>| x@) == tsv,
                mapped@.map_values(|x: Vec<char>| x@) == tsv.take(i as int).map_values(
                    |t: Seq<char>| replace_first(t, "color"@, "fill"@),
                ),
            decreases tv@.len() - i,
        {
            let m = replace_first_exec(&tv[i], "color", "fill");
            let ghost before = mapped@;
            mapped.push(m);
            proof {
                assert(tv@[i as int]@ == tsv[i as int]);
                assert(mapped@.map_values(|x: Vec<char>| x@) =~= before.map_values(
                    |x: Vec<char>| x@,
                ).push(m@));
                assert(tsv.take(i + 1).map_values(|t: Seq<char>| replace_first(t, "color"@, "fill"@))
                    =~= tsv.take(i as int).map_values(
                    |t: Seq<char>| replace_first(t, "color"@, "fill"@),
                ).push(m@));
            }
            i += 1;
        }
        proof {
            assert(tsv.take(i as int) =~= tsv);
        }
        let d = format_decls_exec(&mapped);
        r.append(sel.as_str());
        r.append(" tspan");
        r.append("{");
        r.append(d.as_str());
        r.append("}");
    }
    r
}

/// classDef CSS: for each class, its styles as `!important` declarations
/// on `>*` and ` span`, and its text styles on ` tspan`.
pub fn class_defs_css(id: &str, classes: &[(String, Vec<String>, Vec<String>)]) -> (r: String)
    ensures
        r@ == class_defs(id@, classes_view(classes@)),
{
    let ghost cv = classes_view(classes@);
    let mut out = String::new();
    let mut i: usize = 0;
    while i < classes.len()
        invariant
            i <= classes@.len(),
            cv == classes_view(classes@),
            out@ == class_defs(id@, cv.take(i as int)),
        decreases classes@.len() - i,
    {
        proof {
            assert(cv.take(i + 1).drop_last() =~= cv.take(i as int));
            assert(cv.take(i + 1).last() == cv[i as int]);
        }
        let rule = class_rule_exec(id, &classes[i].0, &classes[i].1, &classes[i].2);
        out.append(rule.as_str());
        i += 1;
    }
    assert(cv.take(i as int) =~= cv);
    out
}

/// Stylis minification: spaces right after a comma outside parentheses are
/// dropped. `depth` is the parenthesis depth so far (never below zero) and
/// `after_comma` whether the last kept character was a comma.
pub open spec fn minify(s: Seq<char>, depth: nat, after_comma: bool) -> Seq<char>
    decreases s.len(),
{
    if s.len() == 0 {
        Seq::empty()
    } else {
        let c = s[0];
        let d = if c == '(' {
            depth + 1
        } else if c == ')' {
            if depth > 0 {
                (depth - 1) as nat
            } else {
                0
            }
        } else {
            depth
        };
        if after_comma && c == ' ' && d == 0 {
            minify(s.drop_first(), d, after_comma)
        } else {
            seq![c] + minify(s.drop_first(), d, c == ',')
        }
    }
}

/// One compiled rule: the selectors (`i` followed by each suffix) joined by
/// commas, then the minified declarations in braces.
pub open spec fn rule_text(i: Seq<char>, suffixes: Seq<Seq<char>>, decls: Seq<char>) -> Seq<char> {
    join(suffixes.map_values(|s: Seq<char>| i + s), ","@) + "{"@ + minify(decls, 0, false) + "}"@
}

/// Emits one stylis-compiled rule.
pub fn rule(o: &mut String, i: &str, selector_suffixes: &[&str], decls: &str)
    ensures
        final(o)@ == old(o)@ + rule_text(i@, selector_suffixes@.map_values(|s: &str| s@), decls@),
{
    let d = chars_of(decls);
    let mut minified = String::new();
    let mut depth: usize = 0;
    let mut after_comma = false;
    let mut k: usize = 0;
    assert(d@.skip(0) =~= d@);
    while k < d.len()
        invariant
            k <= d@.len(),
            depth <= k,
            minified@ + minify(d@.skip(k as int), depth as nat, after_comma) == minify(d@, 0, false),
        decreases d@.len() - k,
    {
        let ghost rest = d@.skip(k as int);
        proof {
            assert(rest[0] == d@[k as int]);
            assert(rest.drop_first() =~= d@.skip(k + 1));
        }
        let c = d[k];
        if c == '(' {
            depth = depth + 1;
        } else if c == ')' {
            depth = if depth > 0 {
                depth - 1
            } else {
                0
            };
        }
        if after_comma && c == ' ' && depth == 0 {
        } else {
            after_comma = c == ',';
            crate::strs::push_char(&mut minified, c);
        }
        k += 1;
    }
    proof {
        assert(d@.skip(k as int) =~= Seq::<char>::empty());
        assert(minified@ + Seq::<char>::empty() =~= minified@);
    }
    let ghost sv = selector_suffixes@.map_values(|s: &str| s@);
    let mut sels: Vec<String> = Vec::new();
    let mut j: usize = 0;
    while j < selector_suffixes.len()
        invariant
            j <= selector_suffixes@.len(),
            sv == selector_suffixes@.map_values(|s: &str| s@),
            sels@.map_values(|s: String| s@) == sv.take(j as int).map_values(|s: Seq<char>| i@ + s),
        decreases selector_suffixes@.len() - j,
    {
        let mut x = String::from_str(i);
        x.append(selector_suffixes[j]);
        let ghost before = sels@;
        sels.push(x);
        proof {
            assert(sels@.map_values(|s: String| s@) =~= before.map_values(|s: String| s@).push(x@));
            assert(sv.take(j + 1).map_values(|s: Seq<char>| i@ + s) =~= sv.take(j as int).map_values(
                |s: Seq<char>| i@ + s,
            ).push(i@ + sv[j as int]));
        }
        j += 1;
    }
    proof {
        assert(sv.take(j as int) =~= sv);
    }
    let joined = join_exec(&sels, ",");
    let js = string_of(&joined);
    o.append(js.as_str());
    o.append("{");
    o.append(minified.as_str());
    o.append("}");
}

} // verus!
