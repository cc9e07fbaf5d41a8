//! Theme-driven stylesheets: the head and tail every diagram shares, and the
//! class, sequence, state and timeline stylesheets, each filled in from the
//! computed theme variables.

use crate::css::{replace_all, replace_all_str, rule, rule_text};
use crate::css::minify;
use crate::strs::{decimal, decimal_string, join, starts_with};
use vstd::prelude::*;

verus! {

/// A theme variable as the stylesheets read it: text, a flag, a number
/// (its JSON text and its JavaScript `String(number)` text), or anything
/// else (null, list, object).
pub enum ThemeValue {
    Str(String),
    Bool(bool),
    Num(String, String),
    Other,
}

/// The model of a [`ThemeValue`].
pub enum ThemeValueV {
    Str(Seq<char>),
    Bool(bool),
    Num(Seq<char>, Seq<char>),
    Other,
}

impl View for ThemeValue {
    type V = ThemeValueV;

    open spec fn view(&self) -> ThemeValueV {
        match self {
            ThemeValue::Str(s) => ThemeValueV::Str(s@),
            ThemeValue::Bool(b) => ThemeValueV::Bool(*b),
            ThemeValue::Num(t, j) => ThemeValueV::Num(t@, j@),
            ThemeValue::Other => ThemeValueV::Other,
        }
    }
}

/// The computed theme variables, by name.
pub struct ThemeVars {
    pub entries: Vec<(String, ThemeValue)>,
}

impl View for ThemeVars {
    type V = Seq<(Seq<char>, ThemeValueV)>;

    open spec fn view(&self) -> Seq<(Seq<char>, ThemeValueV)> {
        self.entries@.map_values(|e: (String, ThemeValue)| (e.0@, e.1@))
    }
}

/// The first variable named `key`, from position `k` on.
pub open spec fn lookup_from(vars: Seq<(Seq<char>, ThemeValueV)>, key: Seq<char>, k: nat) -> Option<
    ThemeValueV,
>
    decreases vars.len() - k,
{
    if k >= vars.len() {
        None
    } else if vars[k as int].0 == key {
        Some(vars[k as int].1)
    } else {
        lookup_from(vars, key, k + 1)
    }
}

/// The variable named `key`.
pub open spec fn lookup(vars: Seq<(Seq<char>, ThemeValueV)>, key: Seq<char>) -> Option<ThemeValueV> {
    lookup_from(vars, key, 0)
}

/// A theme variable as text: strings as they are, flags as `true` or
/// `false`, numbers as their JSON text, anything else or a missing
/// variable as the empty string.
pub open spec fn tv(vars: Seq<(Seq<char>, ThemeValueV)>, key: Seq<char>) -> Seq<char> {
    match lookup(vars, key) {
        Some(ThemeValueV::Str(s)) => s,
        Some(ThemeValueV::Bool(b)) => if b {
            "true"@
        } else {
            "false"@
        },
        Some(ThemeValueV::Num(t, _)) => t,
        _ => Seq::empty(),
    }
}

/// A theme variable as a flag: a flag as it is, a string when non-empty,
/// anything else false.
pub open spec fn tv_bool(vars: Seq<(Seq<char>, ThemeValueV)>, key: Seq<char>) -> bool {
    match lookup(vars, key) {
        Some(ThemeValueV::Bool(b)) => b,
        Some(ThemeValueV::Str(s)) => s.len() > 0,
        _ => false,
    }
}

/// A theme variable as text, `dflt` where that is empty.
pub open spec fn tv_default(vars: Seq<(Seq<char>, ThemeValueV)>, key: Seq<char>, dflt: Seq<char>) -> Seq<
    char,
> {
    if tv(vars, key).len() == 0 {
        dflt
    } else {
        tv(vars, key)
    }
}

/// Theme variable `primary` as text, variable `fallback` where that is
/// empty.
pub open spec fn tv_or(
    vars: Seq<(Seq<char>, ThemeValueV)>,
    primary: Seq<char>,
    fallback: Seq<char>,
) -> Seq<char> {
    if tv(vars, primary).len() == 0 {
        tv(vars, fallback)
    } else {
        tv(vars, primary)
    }
}

/// `strokeWidth || 1`: the number as JavaScript prints it, `1` when the
/// variable is missing or not a number.
pub open spec fn stroke_width_text(vars: Seq<(Seq<char>, ThemeValueV)>) -> Seq<char> {
    match lookup(vars, "strokeWidth"@) {
        Some(ThemeValueV::Num(_, js)) => js,
        _ => "1"@,
    }
}

fn lookup_exec<'a>(vars: &'a ThemeVars, key: &str) -> (r: Option<&'a ThemeValue>)
    ensures
        match r {
            Some(v) => lookup(vars@, key@) == Some(v@),
            None => lookup(vars@, key@) is None,
        },
{
    let k = String::from_str(key);
    let mut i: usize = 0;
    while i < vars.entries.len()
        invariant
            i <= vars.entries@.len(),
            k@ == key@,
            lookup(vars@, key@) == lookup_from(vars@, key@, i as nat),
        decreases vars.entries@.len() - i,
    {
        assert(vars@[i as int] == (vars.entries@[i as int].0@, vars.entries@[i as int].1@));
        if vars.entries[i].0 == k {
            return Some(&vars.entries[i].1);
        }
        i += 1;
    }
    None
}

/// A theme variable as text (see [`tv`]).
pub fn theme_get(vars: &ThemeVars, key: &str) -> (r: String)
    ensures
        r@ == tv(vars@, key@),
{
    match lookup_exec(vars, key) {
        Some(ThemeValue::Str(s)) => s.clone(),
        Some(ThemeValue::Bool(b)) => if *b {
            String::from_str("true")
        } else {
            String::from_str("false")
        },
        Some(ThemeValue::Num(t, _)) => t.clone(),
        _ => String::new(),
    }
}

/// A theme variable as a flag (see [`tv_bool`]).
pub fn theme_get_bool(vars: &ThemeVars, key: &str) -> (r: bool)
    ensures
        r == tv_bool(vars@, key@),
{
    match lookup_exec(vars, key) {
        Some(ThemeValue::Bool(b)) => *b,
        Some(ThemeValue::Str(s)) => !s.as_str().is_empty(),
        _ => false,
    }
}

pub(crate) fn theme_get_default(vars: &ThemeVars, key: &str, dflt: &str) -> (r: String)
    ensures
        r@ == tv_default(vars@, key@, dflt@),
{
    let v = theme_get(vars, key);
    if v.as_str().is_empty() {
        String::from_str(dflt)
    } else {
        v
    }
}

fn theme_get_or(vars: &ThemeVars, primary: &str, fallback: &str) -> (r: String)
    ensures
        r@ == tv_or(vars@, primary@, fallback@),
{
    let v = theme_get(vars, primary);
    if v.as_str().is_empty() {
        theme_get(vars, fallback)
    } else {
        v
    }
}

/// `strokeWidth || 1` (see [`stroke_width_text`]).
pub fn stroke_width(vars: &ThemeVars) -> (r: String)
    ensures
        r@ == stroke_width_text(vars@),
{
    match lookup_exec(vars, "strokeWidth") {
        Some(ThemeValue::Num(_, js)) => js.clone(),
        _ => String::from_str("1"),
    }
}

fn cat(s: String, t: &str) -> (r: String)
    ensures
        r@ == s@ + t@,
{
    let mut s = s;
    s.append(t);
    s
}

proof fn lemma_empty_plus(s: Seq<char>)
    ensures
        Seq::<char>::empty() + s == s,
{
    assert(Seq::<char>::empty() + s =~= s);
}

fn rule1(o: &mut String, i: &str, s1: &str, decls: &str)
    ensures
        final(o)@ == old(o)@ + rule_text(i@, seq![s1@], decls@),
{
    let sels = [s1];
    assert(sels@.map_values(|s: &str| s@) =~= seq![s1@]);
    rule(o, i, &sels, decls);
}

fn rule1_new(i: &str, s1: &str, decls: &str) -> (r: String)
    ensures
        r@ == rule_text(i@, seq![s1@], decls@),
{
    let mut o = String::new();
    rule1(&mut o, i, s1, decls);
    proof {
        lemma_empty_plus(rule_text(i@, seq![s1@], decls@));
    }
    o
}

fn rule2(o: &mut String, i: &str, s1: &str, s2: &str, decls: &str)
    ensures
        final(o)@ == old(o)@ + rule_text(i@, seq![s1@, s2@], decls@),
{
    let sels = [s1, s2];
    assert(sels@.map_values(|s: &str| s@) =~= seq![s1@, s2@]);
    rule(o, i, &sels, decls);
}

fn rule3(o: &mut String, i: &str, s1: &str, s2: &str, s3: &str, decls: &str)
    ensures
        final(o)@ == old(o)@ + rule_text(i@, seq![s1@, s2@, s3@], decls@),
{
    let sels = [s1, s2, s3];
    assert(sels@.map_values(|s: &str| s@) =~= seq![s1@, s2@, s3@]);
    rule(o, i, &sels, decls);
}

fn rule4(o: &mut String, i: &str, s1: &str, s2: &str, s3: &str, s4: &str, decls: &str)
    ensures
        final(o)@ == old(o)@ + rule_text(i@, seq![s1@, s2@, s3@, s4@], decls@),
{
    let sels = [s1, s2, s3, s4];
    assert(sels@.map_values(|s: &str| s@) =~= seq![s1@, s2@, s3@, s4@]);
    rule(o, i, &sels, decls);
}

fn rule5(o: &mut String, i: &str, s1: &str, s2: &str, s3: &str, s4: &str, s5: &str, decls: &str)
    ensures
        final(o)@ == old(o)@ + rule_text(i@, seq![s1@, s2@, s3@, s4@, s5@], decls@),
{
    let sels = [s1, s2, s3, s4, s5];
    assert(sels@.map_values(|s: &str| s@) =~= seq![s1@, s2@, s3@, s4@, s5@]);
    rule(o, i, &sels, decls);
}

/// The stylesheet head every diagram shares: font, error colors, edge
/// thickness and pattern, markers, and the `svg` and `p` resets.
pub open spec fn css_prefix_text(i: Seq<char>, vars: Seq<(Seq<char>, ThemeValueV)>) -> Seq<char> {
    let font_family = tv(vars, "fontFamily"@);
    let font_size = tv(vars, "fontSize"@);
    let text_color = tv(vars, "textColor"@);
    let error_bkg = tv(vars, "errorBkgColor"@);
    let error_text = tv(vars, "errorTextColor"@);
    let line_color = tv(vars, "lineColor"@);
    let sw = stroke_width_text(vars);
    rule_text(
        i,
        seq![""@],
        "font-family:"@ + font_family + ";font-size:"@ + font_size + ";fill:"@ + text_color + ";"@,
    )
        + "@keyframes edge-animation-frame{from{stroke-dashoffset:0;}}"@
        + "@keyframes dash{to{stroke-dashoffset:0;}}"@
        + rule_text(
            i,
            seq![" .edge-animation-slow"@],
            "stroke-dasharray:9,5!important;stroke-dashoffset:900;animation:dash 50s linear infinite;stroke-linecap:round;"@,
        )
        + rule_text(
            i,
            seq![" .edge-animation-fast"@],
            "stroke-dasharray:9,5!important;stroke-dashoffset:900;animation:dash 20s linear infinite;stroke-linecap:round;"@,
        )
        + rule_text(i, seq![" .error-icon"@], "fill:"@ + error_bkg + ";"@)
        + rule_text(
            i,
            seq![" .error-text"@],
            "fill:"@ + error_text + ";stroke:"@ + error_text + ";"@,
        )
        + rule_text(i, seq![" .edge-thickness-normal"@], "stroke-width:"@ + sw + "px;"@)
        + rule_text(i, seq![" .edge-thickness-thick"@], "stroke-width:3.5px;"@)
        + rule_text(i, seq![" .edge-pattern-solid"@], "stroke-dasharray:0;"@)
        + rule_text(i, seq![" .edge-thickness-invisible"@], "stroke-width:0;fill:none;"@)
        + rule_text(i, seq![" .edge-pattern-dashed"@], "stroke-dasharray:3;"@)
        + rule_text(i, seq![" .edge-pattern-dotted"@], "stroke-dasharray:2;"@)
        + rule_text(i, seq![" .marker"@], "fill:"@ + line_color + ";stroke:"@ + line_color + ";"@)
        + rule_text(i, seq![" .marker.cross"@], "stroke:"@ + line_color + ";"@)
        + rule_text(
            i,
            seq![" svg"@],
            "font-family:"@ + font_family + ";font-size:"@ + font_size + ";"@,
        )
        + rule_text(i, seq![" p"@], "margin:0;"@)
}

/// Appends the shared stylesheet head for the selector prefix `i`.
pub fn css_prefix(out: &mut String, i: &str, vars: &ThemeVars)
    ensures
        final(out)@ == old(out)@ + css_prefix_text(i@, vars@),
{
    let font_family = theme_get(vars, "fontFamily");
    let font_size = theme_get(vars, "fontSize");
    let text_color = theme_get(vars, "textColor");
    let error_bkg = theme_get(vars, "errorBkgColor");
    let error_text = theme_get(vars, "errorTextColor");
    let line_color = theme_get(vars, "lineColor");
    let sw = stroke_width(vars);
    let mut d0 = String::from_str("font-family:");
    d0.append(font_family.as_str());
    d0.append(";font-size:");
    d0.append(font_size.as_str());
    d0.append(";fill:");
    d0.append(text_color.as_str());
    d0.append(";");
    let mut o = rule1_new(i, "", d0.as_str());
    o.append("@keyframes edge-animation-frame{from{stroke-dashoffset:0;}}");
    o.append("@keyframes dash{to{stroke-dashoffset:0;}}");
    rule1(&mut o, i, " .edge-animation-slow", "stroke-dasharray:9,5!important;stroke-dashoffset:900;animation:dash 50s linear infinite;stroke-linecap:round;");
    rule1(&mut o, i, " .edge-animation-fast", "stroke-dasharray:9,5!important;stroke-dashoffset:900;animation:dash 20s linear infinite;stroke-linecap:round;");
    let mut d3 = String::from_str("fill:");
    d3.append(error_bkg.as_str());
    d3.append(";");
    rule1(&mut o, i, " .error-icon", d3.as_str());
    let mut d4 = String::from_str("fill:");
    d4.append(error_text.as_str());
    d4.append(";stroke:");
    d4.append(error_text.as_str());
    d4.append(";");
    rule1(&mut o, i, " .error-text", d4.as_str());
    let mut d5 = String::from_str("stroke-width:");
    d5.append(sw.as_str());
    d5.append("px;");
    rule1(&mut o, i, " .edge-thickness-normal", d5.as_str());
    rule1(&mut o, i, " .edge-thickness-thick", "stroke-width:3.5px;");
    rule1(&mut o, i, " .edge-pattern-solid", "stroke-dasharray:0;");
    rule1(&mut o, i, " .edge-thickness-invisible", "stroke-width:0;fill:none;");
    rule1(&mut o, i, " .edge-pattern-dashed", "stroke-dasharray:3;");
    rule1(&mut o, i, " .edge-pattern-dotted", "stroke-dasharray:2;");
    let mut d11 = String::from_str("fill:");
    d11.append(line_color.as_str());
    d11.append(";stroke:");
    d11.append(line_color.as_str());
    d11.append(";");
    rule1(&mut o, i, " .marker", d11.as_str());
    let mut d12 = String::from_str("stroke:");
    d12.append(line_color.as_str());
    d12.append(";");
    rule1(&mut o, i, " .marker.cross", d12.as_str());
    let mut d13 = String::from_str("font-family:");
    d13.append(font_family.as_str());
    d13.append(";font-size:");
    d13.append(font_size.as_str());
    d13.append(";");
    rule1(&mut o, i, " svg", d13.as_str());
    rule1(&mut o, i, " p", "margin:0;");
    out.append(o.as_str());
}

/// The stylesheet tail every diagram shares: the `neo` look rules and the
/// `:root` font variable.
pub open spec fn css_suffix_text(i: Seq<char>, id: Seq<char>, vars: Seq<(Seq<char>, ThemeValueV)>) -> Seq<char> {
    let font_family = tv(vars, "fontFamily"@);
    let node_border = tv(vars, "nodeBorder"@);
    let sw = stroke_width_text(vars);
    let neo_stroke = if tv_bool(vars, "useGradient"@) {
        "url(#"@ + id + "-gradient)"@
    } else {
        node_border
    };
    let drop_shadow = tv(vars, "dropShadow"@);
    let neo_filter = if drop_shadow.len() == 0 {
        "none"@
    } else {
        drop_shadow
    };
    rule_text(i, seq![" .node .neo-node"@], "stroke:"@ + node_border + ";"@)
        + rule_text(
            i,
            seq![
                " [data-look=\"neo\"].node rect"@,
                " [data-look=\"neo\"].cluster rect"@,
                " [data-look=\"neo\"].node polygon"@,
            ],
            "stroke:"@ + neo_stroke + ";filter:"@ + neo_filter + ";"@,
        )
        + rule_text(
            i,
            seq![" [data-look=\"neo\"].node path"@],
            "stroke:"@ + neo_stroke + ";stroke-width:"@ + sw + "px;"@,
        )
        + rule_text(
            i,
            seq![" [data-look=\"neo\"].node .outer-path"@],
            "filter:"@ + neo_filter + ";"@,
        )
        + rule_text(
            i,
            seq![" [data-look=\"neo\"].node .neo-line path"@],
            "stroke:"@ + node_border + ";filter:none;"@,
        )
        + rule_text(
            i,
            seq![" [data-look=\"neo\"].node circle"@],
            "stroke:"@ + neo_stroke + ";filter:"@ + neo_filter + ";"@,
        )
        + rule_text(i, seq![" [data-look=\"neo\"].node circle .state-start"@], "fill:#000000;"@)
        + rule_text(
            i,
            seq![" [data-look=\"neo\"].icon-shape .icon"@],
            "fill:"@ + neo_stroke + ";filter:"@ + neo_filter + ";"@,
        )
        + rule_text(
            i,
            seq![" [data-look=\"neo\"].icon-shape .icon-neo path"@],
            "stroke:"@ + neo_stroke + ";filter:"@ + neo_filter + ";"@,
        )
        + rule_text(i, seq![" :root"@], "--mermaid-font-family:"@ + font_family + ";"@)
}

/// Appends the shared stylesheet tail for the selector prefix `i` of the
/// diagram `id`.
pub fn css_suffix(out: &mut String, i: &str, id: &str, vars: &ThemeVars)
    ensures
        final(out)@ == old(out)@ + css_suffix_text(i@, id@, vars@),
{
    let font_family = theme_get(vars, "fontFamily");
    let node_border = theme_get(vars, "nodeBorder");
    let sw = stroke_width(vars);
    let node_border2 = node_border.clone();
    let neo_stroke = if theme_get_bool(vars, "useGradient") {
        cat(cat(String::from_str("url(#"), id), "-gradient)")
    } else {
        node_border2
    };
    let drop_shadow = theme_get(vars, "dropShadow");
    let neo_filter = if drop_shadow.as_str().is_empty() {
        String::from_str("none")
    } else {
        drop_shadow
    };
    let mut d0 = String::from_str("stroke:");
    d0.append(node_border.as_str());
    d0.append(";");
    let mut o = rule1_new(i, " .node .neo-node", d0.as_str());
    let mut d1 = String::from_str("stroke:");
    d1.append(neo_stroke.as_str());
    d1.append(";filter:");
    d1.append(neo_filter.as_str());
    d1.append(";");
    rule3(&mut o, i, " [data-look=\"neo\"].node rect", " [data-look=\"neo\"].cluster rect", " [data-look=\"neo\"].node polygon", d1.as_str());
    let mut d2 = String::from_str("stroke:");
    d2.append(neo_stroke.as_str());
    d2.append(";stroke-width:");
    d2.append(sw.as_str());
    d2.append("px;");
    rule1(&mut o, i, " [data-look=\"neo\"].node path", d2.as_str());
    let mut d3 = String::from_str("filter:");
    d3.append(neo_filter.as_str());
    d3.append(";");
    rule1(&mut o, i, " [data-look=\"neo\"].node .outer-path", d3.as_str());
    let mut d4 = String::from_str("stroke:");
    d4.append(node_border.as_str());
    d4.append(";filter:none;");
    rule1(&mut o, i, " [data-look=\"neo\"].node .neo-line path", d4.as_str());
    let mut d5 = String::from_str("stroke:");
    d5.append(neo_stroke.as_str());
    d5.append(";filter:");
    d5.append(neo_filter.as_str());
    d5.append(";");
    rule1(&mut o, i, " [data-look=\"neo\"].node circle", d5.as_str());
    rule1(&mut o, i, " [data-look=\"neo\"].node circle .state-start", "fill:#000000;");
    let mut d7 = String::from_str("fill:");
    d7.append(neo_stroke.as_str());
    d7.append(";filter:");
    d7.append(neo_filter.as_str());
    d7.append(";");
    rule1(&mut o, i, " [data-look=\"neo\"].icon-shape .icon", d7.as_str());
    let mut d8 = String::from_str("stroke:");
    d8.append(neo_stroke.as_str());
    d8.append(";filter:");
    d8.append(neo_filter.as_str());
    d8.append(";");
    rule1(&mut o, i, " [data-look=\"neo\"].icon-shape .icon-neo path", d8.as_str());
    let mut d9 = String::from_str("--mermaid-font-family:");
    d9.append(font_family.as_str());
    d9.append(";");
    rule1(&mut o, i, " :root", d9.as_str());
    out.append(o.as_str());
}

/// The markup of the class diagram stylesheet.
pub open spec fn class_css_text(id: Seq<char>, vars: Seq<(Seq<char>, ThemeValueV)>) -> Seq<char> {
    let font_family = tv(vars, "fontFamily"@);
    let node_border = tv(vars, "nodeBorder"@);
    let text_color = tv(vars, "textColor"@);
    let class_text = tv(vars, "classText"@);
    let main_bkg = tv(vars, "mainBkg"@);
    let cluster_bkg = tv(vars, "clusterBkg"@);
    let cluster_border = tv(vars, "clusterBorder"@);
    let line_color = tv(vars, "lineColor"@);
    let note_text = tv(vars, "noteTextColor"@);
    let edge_label_bg = tv(vars, "edgeLabelBackground"@);
    let i = "#"@ + id;
    css_prefix_text(i, vars)
        + rule_text(
            i,
            seq![" g.classGroup text"@],
            "fill:"@ + node_border + ";stroke:none;font-family:"@ + font_family + ";font-size:10px;"@,
        )
        + rule_text(i, seq![" g.classGroup text .title"@], "font-weight:bolder;"@)
        + rule_text(i, seq![" .cluster-label text"@], "fill:"@ + text_color + ";"@)
        + rule_text(i, seq![" .cluster-label span"@], "color:"@ + text_color + ";"@)
        + rule_text(i, seq![" .cluster-label span p"@], "background-color:transparent;"@)
        + rule_text(
            i,
            seq![" .cluster rect"@],
            "fill:"@ + cluster_bkg + ";stroke:"@ + cluster_border + ";stroke-width:1px;"@,
        )
        + rule_text(i, seq![" .cluster text"@], "fill:"@ + text_color + ";"@)
        + rule_text(i, seq![" .cluster span"@], "color:"@ + text_color + ";"@)
        + rule_text(i, seq![" .nodeLabel"@, " .edgeLabel"@], "color:"@ + class_text + ";"@)
        + rule_text(
            i,
            seq![" .noteLabel .nodeLabel"@, " .noteLabel .edgeLabel"@],
            "color:"@ + note_text + ";"@,
        )
        + rule_text(i, seq![" .edgeLabel .label rect"@], "fill:"@ + main_bkg + ";"@)
        + rule_text(i, seq![" .label text"@], "fill:"@ + class_text + ";"@)
        + rule_text(i, seq![" .labelBkg"@], "background:"@ + main_bkg + ";"@)
        + rule_text(i, seq![" .edgeLabel .label span"@], "background:"@ + main_bkg + ";"@)
        + rule_text(i, seq![" .classTitle"@], "font-weight:bolder;"@)
        + rule_text(
            i,
            seq![
                " .node rect"@,
                " .node circle"@,
                " .node ellipse"@,
                " .node polygon"@,
                " .node path"@,
            ],
            "fill:"@ + main_bkg + ";stroke:"@ + node_border + ";stroke-width:1;"@,
        )
        + rule_text(i, seq![" .divider"@], "stroke:"@ + node_border + ";stroke-width:1;"@)
        + rule_text(i, seq![" g.clickable"@], "cursor:pointer;"@)
        + rule_text(
            i,
            seq![" g.classGroup rect"@],
            "fill:"@ + main_bkg + ";stroke:"@ + node_border + ";"@,
        )
        + rule_text(i, seq![" g.classGroup line"@], "stroke:"@ + node_border + ";stroke-width:1;"@)
        + rule_text(
            i,
            seq![" .classLabel .box"@],
            "stroke:none;stroke-width:0;fill:"@ + main_bkg + ";opacity:0.5;"@,
        )
        + rule_text(i, seq![" .classLabel .label"@], "fill:"@ + node_border + ";font-size:10px;"@)
        + rule_text(i, seq![" .relation"@], "stroke:"@ + line_color + ";stroke-width:1;fill:none;"@)
        + rule_text(i, seq![" .dashed-line"@], "stroke-dasharray:3;"@)
        + rule_text(i, seq![" .dotted-line"@], "stroke-dasharray:1 2;"@)
        + rule_text(
            i,
            seq![" [id$=\"-compositionStart\"]"@, " .composition"@],
            "fill:"@ + line_color + "!important;stroke:"@ + line_color + "!important;stroke-width:1;"@,
        )
        + rule_text(
            i,
            seq![" [id$=\"-compositionEnd\"]"@, " .composition"@],
            "fill:"@ + line_color + "!important;stroke:"@ + line_color + "!important;stroke-width:1;"@,
        )
        + rule_text(
            i,
            seq![" [id$=\"-dependencyStart\"]"@, " .dependency"@],
            "fill:"@ + line_color + "!important;stroke:"@ + line_color + "!important;stroke-width:1;"@,
        )
        + rule_text(
            i,
            seq![" [id$=\"-dependencyEnd\"]"@, " .dependency"@],
            "fill:"@ + line_color + "!important;stroke:"@ + line_color + "!important;stroke-width:1;"@,
        )
        + rule_text(
            i,
            seq![" [id$=\"-extensionStart\"]"@, " .extension"@],
            "fill:transparent!important;stroke:"@ + line_color + "!important;stroke-width:1;"@,
        )
        + rule_text(
            i,
            seq![" [id$=\"-extensionEnd\"]"@, " .extension"@],
            "fill:transparent!important;stroke:"@ + line_color + "!important;stroke-width:1;"@,
        )
        + rule_text(
            i,
            seq![" [id$=\"-aggregationStart\"]"@, " .aggregation"@],
            "fill:transparent!important;stroke:"@ + line_color + "!important;stroke-width:1;"@,
        )
        + rule_text(
            i,
            seq![" [id$=\"-aggregationEnd\"]"@, " .aggregation"@],
            "fill:transparent!important;stroke:"@ + line_color + "!important;stroke-width:1;"@,
        )
        + rule_text(
            i,
            seq![" [id$=\"-lollipopStart\"]"@, " .lollipop"@],
            "fill:"@ + main_bkg + "!important;stroke:"@ + line_color + "!important;stroke-width:1;"@,
        )
        + rule_text(
            i,
            seq![" [id$=\"-lollipopEnd\"]"@, " .lollipop"@],
            "fill:"@ + main_bkg + "!important;stroke:"@ + line_color + "!important;stroke-width:1;"@,
        )
        + rule_text(i, seq![" .edgeTerminals"@], "font-size:11px;line-height:initial;"@)
        + rule_text(
            i,
            seq![" .classTitleText"@],
            "text-anchor:middle;font-size:18px;fill:"@ + text_color + ";"@,
        )
        + rule_text(
            i,
            seq![" .edgeLabel[data-look=\"neo\"]"@],
            "background-color:"@ + edge_label_bg + ";text-align:center;"@,
        )
        + rule_text(
            i,
            seq![" .edgeLabel[data-look=\"neo\"] p"@],
            "background-color:"@ + edge_label_bg + ";"@,
        )
        + rule_text(
            i,
            seq![" .edgeLabel[data-look=\"neo\"] rect"@],
            "opacity:0.5;background-color:"@ + edge_label_bg + ";fill:"@ + edge_label_bg + ";"@,
        )
        + rule_text(
            i,
            seq![" .label-icon"@],
            "display:inline-block;height:1em;overflow:visible;vertical-align:-0.125em;"@,
        )
        + rule_text(
            i,
            seq![" .node .label-icon path"@],
            "fill:currentColor;stroke:revert;stroke-width:revert;"@,
        )
        + css_suffix_text(i, id, vars)
}

/// The class diagram stylesheet, for the diagram `id` and the theme variables `vars`.
#[verifier::rlimit(50)]
pub fn themed_class_css(id: &str, vars: &ThemeVars) -> (r: String)
    ensures
        r@ == class_css_text(id@, vars@),
{
    let font_family = theme_get(vars, "fontFamily");
    let node_border = theme_get(vars, "nodeBorder");
    let text_color = theme_get(vars, "textColor");
    let class_text = theme_get(vars, "classText");
    let main_bkg = theme_get(vars, "mainBkg");
    let cluster_bkg = theme_get(vars, "clusterBkg");
    let cluster_border = theme_get(vars, "clusterBorder");
    let line_color = theme_get(vars, "lineColor");
    let note_text = theme_get(vars, "noteTextColor");
    let edge_label_bg = theme_get(vars, "edgeLabelBackground");
    let i = cat(String::from_str("#"), id);
    let mut o = String::new();
    css_prefix(&mut o, i.as_str(), vars);
    proof {
        lemma_empty_plus(css_prefix_text(i@, vars@));
    }
    let mut d0 = String::from_str("fill:");
    d0.append(node_border.as_str());
    d0.append(";stroke:none;font-family:");
    d0.append(font_family.as_str());
    d0.append(";font-size:10px;");
    rule1(&mut o, i.as_str(), " g.classGroup text", d0.as_str());
    rule1(&mut o, i.as_str(), " g.classGroup text .title", "font-weight:bolder;");
    let mut d2 = String::from_str("fill:");
    d2.append(text_color.as_str());
    d2.append(";");
    rule1(&mut o, i.as_str(), " .cluster-label text", d2.as_str());
    let mut d3 = String::from_str("color:");
    d3.append(text_color.as_str());
    d3.append(";");
    rule1(&mut o, i.as_str(), " .cluster-label span", d3.as_str());
    rule1(&mut o, i.as_str(), " .cluster-label span p", "background-color:transparent;");
    let mut d5 = String::from_str("fill:");
    d5.append(cluster_bkg.as_str());
    d5.append(";stroke:");
    d5.append(cluster_border.as_str());
    d5.append(";stroke-width:1px;");
    rule1(&mut o, i.as_str(), " .cluster rect", d5.as_str());
    let mut d6 = String::from_str("fill:");
    d6.append(text_color.as_str());
    d6.append(";");
    rule1(&mut o, i.as_str(), " .cluster text", d6.as_str());
    let mut d7 = String::from_str("color:");
    d7.append(text_color.as_str());
    d7.append(";");
    rule1(&mut o, i.as_str(), " .cluster span", d7.as_str());
    let mut d8 = String::from_str("color:");
    d8.append(class_text.as_str());
    d8.append(";");
    rule2(&mut o, i.as_str(), " .nodeLabel", " .edgeLabel", d8.as_str());
    let mut d9 = String::from_str("color:");
    d9.append(note_text.as_str());
    d9.append(";");
    rule2(&mut o, i.as_str(), " .noteLabel .nodeLabel", " .noteLabel .edgeLabel", d9.as_str());
    let mut d10 = String::from_str("fill:");
    d10.append(main_bkg.as_str());
    d10.append(";");
    rule1(&mut o, i.as_str(), " .edgeLabel .label rect", d10.as_str());
    let mut d11 = String::from_str("fill:");
    d11.append(class_text.as_str());
    d11.append(";");
    rule1(&mut o, i.as_str(), " .label text", d11.as_str());
    let mut d12 = String::from_str("background:");
    d12.append(main_bkg.as_str());
    d12.append(";");
    rule1(&mut o, i.as_str(), " .labelBkg", d12.as_str());
    let mut d13 = String::from_str("background:");
    d13.append(main_bkg.as_str());
    d13.append(";");
    rule1(&mut o, i.as_str(), " .edgeLabel .label span", d13.as_str());
    rule1(&mut o, i.as_str(), " .classTitle", "font-weight:bolder;");
    let mut d15 = String::from_str("fill:");
    d15.append(main_bkg.as_str());
    d15.append(";stroke:");
    d15.append(node_border.as_str());
    d15.append(";stroke-width:1;");
    rule5(&mut o, i.as_str(), " .node rect", " .node circle", " .node ellipse", " .node polygon", " .node path", d15.as_str());
    let mut d16 = String::from_str("stroke:");
    d16.append(node_border.as_str());
    d16.append(";stroke-width:1;");
    rule1(&mut o, i.as_str(), " .divider", d16.as_str());
    rule1(&mut o, i.as_str(), " g.clickable", "cursor:pointer;");
    let mut d18 = String::from_str("fill:");
    d18.append(main_bkg.as_str());
    d18.append(";stroke:");
    d18.append(node_border.as_str());
    d18.append(";");
    rule1(&mut o, i.as_str(), " g.classGroup rect", d18.as_str());
    let mut d19 = String::from_str("stroke:");
    d19.append(node_border.as_str());
    d19.append(";stroke-width:1;");
    rule1(&mut o, i.as_str(), " g.classGroup line", d19.as_str());
    let mut d20 = String::from_str("stroke:none;stroke-width:0;fill:");
    d20.append(main_bkg.as_str());
    d20.append(";opacity:0.5;");
    rule1(&mut o, i.as_str(), " .classLabel .box", d20.as_str());
    let mut d21 = String::from_str("fill:");
    d21.append(node_border.as_str());
    d21.append(";font-size:10px;");
    rule1(&mut o, i.as_str(), " .classLabel .label", d21.as_str());
    let mut d22 = String::from_str("stroke:");
    d22.append(line_color.as_str());
    d22.append(";stroke-width:1;fill:none;");
    rule1(&mut o, i.as_str(), " .relation", d22.as_str());
    rule1(&mut o, i.as_str(), " .dashed-line", "stroke-dasharray:3;");
    rule1(&mut o, i.as_str(), " .dotted-line", "stroke-dasharray:1 2;");
    let mut d25 = String::from_str("fill:");
    d25.append(line_color.as_str());
    d25.append("!important;stroke:");
    d25.append(line_color.as_str());
    d25.append("!important;stroke-width:1;");
    rule2(&mut o, i.as_str(), " [id$=\"-compositionStart\"]", " .composition", d25.as_str());
    let mut d26 = String::from_str("fill:");
    d26.append(line_color.as_str());
    d26.append("!important;stroke:");
    d26.append(line_color.as_str());
    d26.append("!important;stroke-width:1;");
    rule2(&mut o, i.as_str(), " [id$=\"-compositionEnd\"]", " .composition", d26.as_str());
    let mut d27 = String::from_str("fill:");
    d27.append(line_color.as_str());
    d27.append("!important;stroke:");
    d27.append(line_color.as_str());
    d27.append("!important;stroke-width:1;");
    rule2(&mut o, i.as_str(), " [id$=\"-dependencyStart\"]", " .dependency", d27.as_str());
    let mut d28 = String::from_str("fill:");
    d28.append(line_color.as_str());
    d28.append("!important;stroke:");
    d28.append(line_color.as_str());
    d28.append("!important;stroke-width:1;");
    rule2(&mut o, i.as_str(), " [id$=\"-dependencyEnd\"]", " .dependency", d28.as_str());
    let mut d29 = String::from_str("fill:transparent!important;stroke:");
    d29.append(line_color.as_str());
    d29.append("!important;stroke-width:1;");
    rule2(&mut o, i.as_str(), " [id$=\"-extensionStart\"]", " .extension", d29.as_str());
    let mut d30 = String::from_str("fill:transparent!important;stroke:");
    d30.append(line_color.as_str());
    d30.append("!important;stroke-width:1;");
    rule2(&mut o, i.as_str(), " [id$=\"-extensionEnd\"]", " .extension", d30.as_str());
    let mut d31 = String::from_str("fill:transparent!important;stroke:");
    d31.append(line_color.as_str());
    d31.append("!important;stroke-width:1;");
    rule2(&mut o, i.as_str(), " [id$=\"-aggregationStart\"]", " .aggregation", d31.as_str());
    let mut d32 = String::from_str("fill:transparent!important;stroke:");
    d32.append(line_color.as_str());
    d32.append("!important;stroke-width:1;");
    rule2(&mut o, i.as_str(), " [id$=\"-aggregationEnd\"]", " .aggregation", d32.as_str());
    let mut d33 = String::from_str("fill:");
    d33.append(main_bkg.as_str());
    d33.append("!important;stroke:");
    d33.append(line_color.as_str());
    d33.append("!important;stroke-width:1;");
    rule2(&mut o, i.as_str(), " [id$=\"-lollipopStart\"]", " .lollipop", d33.as_str());
    let mut d34 = String::from_str("fill:");
    d34.append(main_bkg.as_str());
    d34.append("!important;stroke:");
    d34.append(line_color.as_str());
    d34.append("!important;stroke-width:1;");
    rule2(&mut o, i.as_str(), " [id$=\"-lollipopEnd\"]", " .lollipop", d34.as_str());
    rule1(&mut o, i.as_str(), " .edgeTerminals", "font-size:11px;line-height:initial;");
    let mut d36 = String::from_str("text-anchor:middle;font-size:18px;fill:");
    d36.append(text_color.as_str());
    d36.append(";");
    rule1(&mut o, i.as_str(), " .classTitleText", d36.as_str());
    let mut d37 = String::from_str("background-color:");
    d37.append(edge_label_bg.as_str());
    d37.append(";text-align:center;");
    rule1(&mut o, i.as_str(), " .edgeLabel[data-look=\"neo\"]", d37.as_str());
    let mut d38 = String::from_str("background-color:");
    d38.append(edge_label_bg.as_str());
    d38.append(";");
    rule1(&mut o, i.as_str(), " .edgeLabel[data-look=\"neo\"] p", d38.as_str());
    let mut d39 = String::from_str("opacity:0.5;background-color:");
    d39.append(edge_label_bg.as_str());
    d39.append(";fill:");
    d39.append(edge_label_bg.as_str());
    d39.append(";");
    rule1(&mut o, i.as_str(), " .edgeLabel[data-look=\"neo\"] rect", d39.as_str());
    rule1(&mut o, i.as_str(), " .label-icon", "display:inline-block;height:1em;overflow:visible;vertical-align:-0.125em;");
    rule1(&mut o, i.as_str(), " .node .label-icon path", "fill:currentColor;stroke:revert;stroke-width:revert;");
    css_suffix(&mut o, i.as_str(), id, vars);
    o
}

/// The markup of the sequence diagram stylesheet.
pub open spec fn sequence_css_text(id: Seq<char>, vars: Seq<(Seq<char>, ThemeValueV)>) -> Seq<char> {
    let actor_border = tv(vars, "actorBorder"@);
    let actor_bkg = tv(vars, "actorBkg"@);
    let note_border = tv(vars, "noteBorderColor"@);
    let note_bkg = tv(vars, "noteBkgColor"@);
    let actor_text = tv(vars, "actorTextColor"@);
    let actor_line = tv(vars, "actorLineColor"@);
    let signal = tv(vars, "signalColor"@);
    let signal_text = tv(vars, "signalTextColor"@);
    let seq_num = tv(vars, "sequenceNumberColor"@);
    let label_box_border = tv(vars, "labelBoxBorderColor"@);
    let label_box_bkg = tv(vars, "labelBoxBkgColor"@);
    let label_text = tv(vars, "labelTextColor"@);
    let loop_text = tv(vars, "loopTextColor"@);
    let note_text = tv(vars, "noteTextColor"@);
    let activation_bkg = tv(vars, "activationBkgColor"@);
    let activation_border = tv(vars, "activationBorderColor"@);
    let node_border = tv(vars, "nodeBorder"@);
    let drop_shadow = tv_default(vars, "dropShadow"@, "none"@);
    let note_font_weight = tv_default(vars, "noteFontWeight"@, "normal"@);
    let sw = stroke_width_text(vars);
    let i = "#"@ + id;
    css_prefix_text(i, vars)
        + rule_text(
            i,
            seq![" .actor"@],
            "stroke:"@ + actor_border + ";fill:"@ + actor_bkg + ";stroke-width:"@ + sw + ";"@,
        )
        + rule_text(
            i,
            seq![" rect.actor.outer-path[data-look=\"neo\"]"@],
            "filter:"@ + drop_shadow + ";"@,
        )
        + rule_text(
            i,
            seq![" rect.note[data-look=\"neo\"]"@],
            "stroke:"@ + note_border + ";fill:"@ + note_bkg + ";filter:"@ + drop_shadow + ";"@,
        )
        + rule_text(i, seq![" text.actor>tspan"@], "fill:"@ + actor_text + ";stroke:none;"@)
        + rule_text(i, seq![" .actor-line"@], "stroke:"@ + actor_line + ";"@)
        + rule_text(i, seq![" .innerArc"@], "stroke-width:1.5;stroke-dasharray:none;"@)
        + rule_text(
            i,
            seq![" .messageLine0"@],
            "stroke-width:1.5;stroke-dasharray:none;stroke:"@ + signal + ";"@,
        )
        + rule_text(
            i,
            seq![" .messageLine1"@],
            "stroke-width:1.5;stroke-dasharray:2,2;stroke:"@ + signal + ";"@,
        )
        + rule_text(
            i,
            seq![" [id$=\"-arrowhead\"] path"@],
            "fill:"@ + signal + ";stroke:"@ + signal + ";"@,
        )
        + rule_text(i, seq![" .sequenceNumber"@], "fill:"@ + seq_num + ";"@)
        + rule_text(i, seq![" [id$=\"-sequencenumber\"]"@], "fill:"@ + signal + ";"@)
        + rule_text(
            i,
            seq![" [id$=\"-crosshead\"] path"@],
            "fill:"@ + signal + ";stroke:"@ + signal + ";"@,
        )
        + rule_text(i, seq![" .messageText"@], "fill:"@ + signal_text + ";stroke:none;"@)
        + rule_text(
            i,
            seq![" .labelBox"@],
            "stroke:"@ + label_box_border + ";fill:"@ + label_box_bkg + ";filter:none;"@,
        )
        + rule_text(
            i,
            seq![" .labelText"@, " .labelText>tspan"@],
            "fill:"@ + label_text + ";stroke:none;"@,
        )
        + rule_text(
            i,
            seq![" .loopText"@, " .loopText>tspan"@],
            "fill:"@ + loop_text + ";stroke:none;"@,
        )
        + rule_text(
            i,
            seq![" .sectionTitle"@, " .sectionTitle>tspan"@],
            "fill:"@ + loop_text + ";stroke:none;"@,
        )
        + rule_text(
            i,
            seq![" .loopLine"@],
            "stroke-width:2px;stroke-dasharray:2,2;stroke:"@ + label_box_border + ";fill:"@ + label_box_border + ";"@,
        )
        + rule_text(i, seq![" .note"@], "stroke:"@ + note_border + ";fill:"@ + note_bkg + ";"@)
        + rule_text(
            i,
            seq![" .noteText"@, " .noteText>tspan"@],
            "fill:"@ + note_text + ";stroke:none;font-weight:"@ + note_font_weight + ";"@,
        )
        + rule_text(
            i,
            seq![" .activation0"@],
            "fill:"@ + activation_bkg + ";stroke:"@ + activation_border + ";"@,
        )
        + rule_text(
            i,
            seq![" .activation1"@],
            "fill:"@ + activation_bkg + ";stroke:"@ + activation_border + ";"@,
        )
        + rule_text(
            i,
            seq![" .activation2"@],
            "fill:"@ + activation_bkg + ";stroke:"@ + activation_border + ";"@,
        )
        + rule_text(i, seq![" .actorPopupMenu"@], "position:absolute;"@)
        + rule_text(
            i,
            seq![" .actorPopupMenuPanel"@],
            "position:absolute;fill:"@ + actor_bkg + ";box-shadow:0px 8px 16px 0px rgba(0,0,0,0.2);filter:drop-shadow(3px 5px 2px rgb(0 0 0 / 0.4));"@,
        )
        + rule_text(
            i,
            seq![" .actor-man circle"@, " line"@],
            "fill:"@ + actor_bkg + ";stroke-width:2px;"@,
        )
        + rule_text(
            i,
            seq![" g rect.rect"@],
            "filter:"@ + drop_shadow + ";stroke:"@ + node_border + ";"@,
        )
        + css_suffix_text(i, id, vars)
}

/// The sequence diagram stylesheet, for the diagram `id` and the theme variables `vars`.
#[verifier::rlimit(50)]
pub fn themed_sequence_css(id: &str, vars: &ThemeVars) -> (r: String)
    ensures
        r@ == sequence_css_text(id@, vars@),
{
    let actor_border = theme_get(vars, "actorBorder");
    let actor_bkg = theme_get(vars, "actorBkg");
    let note_border = theme_get(vars, "noteBorderColor");
    let note_bkg = theme_get(vars, "noteBkgColor");
    let actor_text = theme_get(vars, "actorTextColor");
    let actor_line = theme_get(vars, "actorLineColor");
    let signal = theme_get(vars, "signalColor");
    let signal_text = theme_get(vars, "signalTextColor");
    let seq_num = theme_get(vars, "sequenceNumberColor");
    let label_box_border = theme_get(vars, "labelBoxBorderColor");
    let label_box_bkg = theme_get(vars, "labelBoxBkgColor");
    let label_text = theme_get(vars, "labelTextColor");
    let loop_text = theme_get(vars, "loopTextColor");
    let note_text = theme_get(vars, "noteTextColor");
    let activation_bkg = theme_get(vars, "activationBkgColor");
    let activation_border = theme_get(vars, "activationBorderColor");
    let node_border = theme_get(vars, "nodeBorder");
    let drop_shadow = theme_get_default(vars, "dropShadow", "none");
    let note_font_weight = theme_get_default(vars, "noteFontWeight", "normal");
    let sw = stroke_width(vars);
    let i = cat(String::from_str("#"), id);
    let mut o = String::new();
    css_prefix(&mut o, i.as_str(), vars);
    proof {
        lemma_empty_plus(css_prefix_text(i@, vars@));
    }
    let mut d0 = String::from_str("stroke:");
    d0.append(actor_border.as_str());
    d0.append(";fill:");
    d0.append(actor_bkg.as_str());
    d0.append(";stroke-width:");
    d0.append(sw.as_str());
    d0.append(";");
    rule1(&mut o, i.as_str(), " .actor", d0.as_str());
    let mut d1 = String::from_str("filter:");
    d1.append(drop_shadow.as_str());
    d1.append(";");
    rule1(&mut o, i.as_str(), " rect.actor.outer-path[data-look=\"neo\"]", d1.as_str());
    let mut d2 = String::from_str("stroke:");
    d2.append(note_border.as_str());
    d2.append(";fill:");
    d2.append(note_bkg.as_str());
    d2.append(";filter:");
    d2.append(drop_shadow.as_str());
    d2.append(";");
    rule1(&mut o, i.as_str(), " rect.note[data-look=\"neo\"]", d2.as_str());
    let mut d3 = String::from_str("fill:");
    d3.append(actor_text.as_str());
    d3.append(";stroke:none;");
    rule1(&mut o, i.as_str(), " text.actor>tspan", d3.as_str());
    let mut d4 = String::from_str("stroke:");
    d4.append(actor_line.as_str());
    d4.append(";");
    rule1(&mut o, i.as_str(), " .actor-line", d4.as_str());
    rule1(&mut o, i.as_str(), " .innerArc", "stroke-width:1.5;stroke-dasharray:none;");
    let mut d6 = String::from_str("stroke-width:1.5;stroke-dasharray:none;stroke:");
    d6.append(signal.as_str());
    d6.append(";");
    rule1(&mut o, i.as_str(), " .messageLine0", d6.as_str());
    let mut d7 = String::from_str("stroke-width:1.5;stroke-dasharray:2,2;stroke:");
    d7.append(signal.as_str());
    d7.append(";");
    rule1(&mut o, i.as_str(), " .messageLine1", d7.as_str());
    let mut d8 = String::from_str("fill:");
    d8.append(signal.as_str());
    d8.append(";stroke:");
    d8.append(signal.as_str());
    d8.append(";");
    rule1(&mut o, i.as_str(), " [id$=\"-arrowhead\"] path", d8.as_str());
    let mut d9 = String::from_str("fill:");
    d9.append(seq_num.as_str());
    d9.append(";");
    rule1(&mut o, i.as_str(), " .sequenceNumber", d9.as_str());
    let mut d10 = String::from_str("fill:");
    d10.append(signal.as_str());
    d10.append(";");
    rule1(&mut o, i.as_str(), " [id$=\"-sequencenumber\"]", d10.as_str());
    let mut d11 = String::from_str("fill:");
    d11.append(signal.as_str());
    d11.append(";stroke:");
    d11.append(signal.as_str());
    d11.append(";");
    rule1(&mut o, i.as_str(), " [id$=\"-crosshead\"] path", d11.as_str());
    let mut d12 = String::from_str("fill:");
    d12.append(signal_text.as_str());
    d12.append(";stroke:none;");
    rule1(&mut o, i.as_str(), " .messageText", d12.as_str());
    let mut d13 = String::from_str("stroke:");
    d13.append(label_box_border.as_str());
    d13.append(";fill:");
    d13.append(label_box_bkg.as_str());
    d13.append(";filter:none;");
    rule1(&mut o, i.as_str(), " .labelBox", d13.as_str());
    let mut d14 = String::from_str("fill:");
    d14.append(label_text.as_str());
    d14.append(";stroke:none;");
    rule2(&mut o, i.as_str(), " .labelText", " .labelText>tspan", d14.as_str());
    let mut d15 = String::from_str("fill:");
    d15.append(loop_text.as_str());
    d15.append(";stroke:none;");
    rule2(&mut o, i.as_str(), " .loopText", " .loopText>tspan", d15.as_str());
    let mut d16 = String::from_str("fill:");
    d16.append(loop_text.as_str());
    d16.append(";stroke:none;");
    rule2(&mut o, i.as_str(), " .sectionTitle", " .sectionTitle>tspan", d16.as_str());
    let mut d17 = String::from_str("stroke-width:2px;stroke-dasharray:2,2;stroke:");
    d17.append(label_box_border.as_str());
    d17.append(";fill:");
    d17.append(label_box_border.as_str());
    d17.append(";");
    rule1(&mut o, i.as_str(), " .loopLine", d17.as_str());
    let mut d18 = String::from_str("stroke:");
    d18.append(note_border.as_str());
    d18.append(";fill:");
    d18.append(note_bkg.as_str());
    d18.append(";");
    rule1(&mut o, i.as_str(), " .note", d18.as_str());
    let mut d19 = String::from_str("fill:");
    d19.append(note_text.as_str());
    d19.append(";stroke:none;font-weight:");
    d19.append(note_font_weight.as_str());
    d19.append(";");
    rule2(&mut o, i.as_str(), " .noteText", " .noteText>tspan", d19.as_str());
    let mut d20 = String::from_str("fill:");
    d20.append(activation_bkg.as_str());
    d20.append(";stroke:");
    d20.append(activation_border.as_str());
    d20.append(";");
    rule1(&mut o, i.as_str(), " .activation0", d20.as_str());
    let mut d21 = String::from_str("fill:");
    d21.append(activation_bkg.as_str());
    d21.append(";stroke:");
    d21.append(activation_border.as_str());
    d21.append(";");
    rule1(&mut o, i.as_str(), " .activation1", d21.as_str());
    let mut d22 = String::from_str("fill:");
    d22.append(activation_bkg.as_str());
    d22.append(";stroke:");
    d22.append(activation_border.as_str());
    d22.append(";");
    rule1(&mut o, i.as_str(), " .activation2", d22.as_str());
    rule1(&mut o, i.as_str(), " .actorPopupMenu", "position:absolute;");
    let mut d24 = String::from_str("position:absolute;fill:");
    d24.append(actor_bkg.as_str());
    d24.append(";box-shadow:0px 8px 16px 0px rgba(0,0,0,0.2);filter:drop-shadow(3px 5px 2px rgb(0 0 0 / 0.4));");
    rule1(&mut o, i.as_str(), " .actorPopupMenuPanel", d24.as_str());
    let mut d25 = String::from_str("fill:");
    d25.append(actor_bkg.as_str());
    d25.append(";stroke-width:2px;");
    rule2(&mut o, i.as_str(), " .actor-man circle", " line", d25.as_str());
    let mut d26 = String::from_str("filter:");
    d26.append(drop_shadow.as_str());
    d26.append(";stroke:");
    d26.append(node_border.as_str());
    d26.append(";");
    rule1(&mut o, i.as_str(), " g rect.rect", d26.as_str());
    css_suffix(&mut o, i.as_str(), id, vars);
    o
}

/// The markup of the state diagram stylesheet.
pub open spec fn statediagram_css_text(id: Seq<char>, vars: Seq<(Seq<char>, ThemeValueV)>) -> Seq<char> {
    let transition = tv(vars, "transitionColor"@);
    let node_border = tv(vars, "nodeBorder"@);
    let text_color = tv(vars, "textColor"@);
    let state_label = tv(vars, "stateLabelColor"@);
    let main_bkg = tv(vars, "mainBkg"@);
    let line_color = tv(vars, "lineColor"@);
    let background = tv(vars, "background"@);
    let note_border = tv(vars, "noteBorderColor"@);
    let note_bkg = tv(vars, "noteBkgColor"@);
    let note_text = tv(vars, "noteTextColor"@);
    let label_background = tv(vars, "labelBackgroundColor"@);
    let edge_label_bg = tv(vars, "edgeLabelBackground"@);
    let special = tv(vars, "specialStateColor"@);
    let inner_end = tv(vars, "innerEndBackground"@);
    let composite_title_bg = tv(vars, "compositeTitleBackground"@);
    let alt_background = tv_default(vars, "altBackground"@, "#efefef"@);
    let transition_label = tv_or(vars, "transitionLabelColor"@, "tertiaryTextColor"@);
    let composite_bg = tv_or(vars, "compositeBackground"@, "background"@);
    let state_bkg = tv_or(vars, "stateBkg"@, "mainBkg"@);
    let state_border = tv_or(vars, "stateBorder"@, "nodeBorder"@);
    let sw = stroke_width_text(vars);
    let radius = tv(vars, "radius"@);
    let neo_cluster_stroke = if tv_bool(vars, "useGradient"@) {
        "url("@ + id + "-gradient)"@
    } else {
        state_border
    };
    let drop_shadow = tv(vars, "dropShadow"@);
    let neo_filter = if drop_shadow.len() == 0 {
        "none"@
    } else {
        replace_all(drop_shadow, "url(#drop-shadow)"@, "url("@ + id + "-drop-shadow)"@)
    };
    let i = "#"@ + id;
    css_prefix_text(i, vars)
        + rule_text(
            i,
            seq![" defs [id$=\"-barbEnd\"]"@],
            "fill:"@ + transition + ";stroke:"@ + transition + ";"@,
        )
        + rule_text(
            i,
            seq![" g.stateGroup text"@],
            "fill:"@ + node_border + ";stroke:none;font-size:10px;"@,
        )
        + rule_text(
            i,
            seq![" g.stateGroup text"@],
            "fill:"@ + text_color + ";stroke:none;font-size:10px;"@,
        )
        + rule_text(
            i,
            seq![" g.stateGroup .state-title"@],
            "font-weight:bolder;fill:"@ + state_label + ";"@,
        )
        + rule_text(
            i,
            seq![" g.stateGroup rect"@],
            "fill:"@ + main_bkg + ";stroke:"@ + node_border + ";"@,
        )
        + rule_text(
            i,
            seq![" g.stateGroup line"@],
            "stroke:"@ + line_color + ";stroke-width:"@ + sw + ";"@,
        )
        + rule_text(
            i,
            seq![" .transition"@],
            "stroke:"@ + transition + ";stroke-width:"@ + sw + ";fill:none;"@,
        )
        + rule_text(
            i,
            seq![" .stateGroup .composit"@],
            "fill:"@ + background + ";border-bottom:1px;"@,
        )
        + rule_text(i, seq![" .stateGroup .alt-composit"@], "fill:#e0e0e0;border-bottom:1px;"@)
        + rule_text(
            i,
            seq![" .state-note"@],
            "stroke:"@ + note_border + ";fill:"@ + note_bkg + ";"@,
        )
        + rule_text(
            i,
            seq![" .state-note text"@],
            "fill:"@ + note_text + ";stroke:none;font-size:10px;"@,
        )
        + rule_text(
            i,
            seq![" .stateLabel .box"@],
            "stroke:none;stroke-width:0;fill:"@ + main_bkg + ";opacity:0.5;"@,
        )
        + rule_text(
            i,
            seq![" .edgeLabel .label rect"@],
            "fill:"@ + label_background + ";opacity:0.5;"@,
        )
        + rule_text(
            i,
            seq![" .edgeLabel"@],
            "background-color:"@ + edge_label_bg + ";text-align:center;"@,
        )
        + rule_text(i, seq![" .edgeLabel p"@], "background-color:"@ + edge_label_bg + ";"@)
        + rule_text(
            i,
            seq![" .edgeLabel rect"@],
            "opacity:0.5;background-color:"@ + edge_label_bg + ";fill:"@ + edge_label_bg + ";"@,
        )
        + rule_text(i, seq![" .edgeLabel .label text"@], "fill:"@ + transition_label + ";"@)
        + rule_text(i, seq![" .label div .edgeLabel"@], "color:"@ + transition_label + ";"@)
        + rule_text(
            i,
            seq![" .stateLabel text"@],
            "fill:"@ + state_label + ";font-size:10px;font-weight:bold;"@,
        )
        + rule_text(
            i,
            seq![" .node circle.state-start"@],
            "fill:"@ + special + ";stroke:"@ + special + ";"@,
        )
        + rule_text(
            i,
            seq![" .node .fork-join"@],
            "fill:"@ + special + ";stroke:"@ + special + ";"@,
        )
        + rule_text(
            i,
            seq![" .node circle.state-end"@],
            "fill:"@ + inner_end + ";stroke:"@ + background + ";stroke-width:1.5;"@,
        )
        + rule_text(i, seq![" .end-state-inner"@], "fill:"@ + composite_bg + ";stroke-width:1.5;"@)
        + rule_text(
            i,
            seq![" .node rect"@],
            "fill:"@ + state_bkg + ";stroke:"@ + state_border + ";stroke-width:"@ + sw + "px;"@,
        )
        + rule_text(
            i,
            seq![" .node polygon"@],
            "fill:"@ + main_bkg + ";stroke:"@ + state_border + ";stroke-width:"@ + sw + "px;"@,
        )
        + rule_text(i, seq![" [id$=\"-barbEnd\"]"@], "fill:"@ + line_color + ";"@)
        + rule_text(
            i,
            seq![" .statediagram-cluster rect"@],
            "fill:"@ + composite_title_bg + ";stroke:"@ + state_border + ";stroke-width:"@ + sw + "px;"@,
        )
        + rule_text(i, seq![" .cluster-label"@, " .nodeLabel"@], "color:"@ + state_label + ";"@)
        + rule_text(i, seq![" .statediagram-cluster rect.outer"@], "rx:5px;ry:5px;"@)
        + rule_text(i, seq![" .statediagram-state .divider"@], "stroke:"@ + state_border + ";"@)
        + rule_text(i, seq![" .statediagram-state .title-state"@], "rx:5px;ry:5px;"@)
        + rule_text(
            i,
            seq![" .statediagram-cluster.statediagram-cluster .inner"@],
            "fill:"@ + composite_bg + ";"@,
        )
        + rule_text(
            i,
            seq![" .statediagram-cluster.statediagram-cluster-alt .inner"@],
            "fill:"@ + alt_background + ";"@,
        )
        + rule_text(i, seq![" .statediagram-cluster .inner"@], "rx:0;ry:0;"@)
        + rule_text(i, seq![" .statediagram-state rect.basic"@], "rx:5px;ry:5px;"@)
        + rule_text(
            i,
            seq![" .statediagram-state rect.divider"@],
            "stroke-dasharray:10,10;fill:"@ + alt_background + ";"@,
        )
        + rule_text(i, seq![" .note-edge"@], "stroke-dasharray:5;"@)
        + rule_text(
            i,
            seq![" .statediagram-note rect"@],
            "fill:"@ + note_bkg + ";stroke:"@ + note_border + ";stroke-width:1px;rx:0;ry:0;"@,
        )
        + rule_text(
            i,
            seq![" .statediagram-note rect"@],
            "fill:"@ + note_bkg + ";stroke:"@ + note_border + ";stroke-width:1px;rx:0;ry:0;"@,
        )
        + rule_text(i, seq![" .statediagram-note text"@], "fill:"@ + note_text + ";"@)
        + rule_text(i, seq![" .statediagram-note .nodeLabel"@], "color:"@ + note_text + ";"@)
        + rule_text(i, seq![" .statediagram .edgeLabel"@], "color:red;"@)
        + rule_text(
            i,
            seq![" [id$=\"-dependencyStart\"]"@, " [id$=\"-dependencyEnd\"]"@],
            "fill:"@ + line_color + ";stroke:"@ + line_color + ";stroke-width:"@ + sw + ";"@,
        )
        + rule_text(
            i,
            seq![" .statediagramTitleText"@],
            "text-anchor:middle;font-size:18px;fill:"@ + text_color + ";"@,
        )
        + rule_text(
            i,
            seq![" [data-look=\"neo\"].statediagram-cluster rect"@],
            "fill:"@ + main_bkg + ";stroke:"@ + neo_cluster_stroke + ";stroke-width:"@ + sw + ";"@,
        )
        + rule_text(
            i,
            seq![" [data-look=\"neo\"].statediagram-cluster rect.outer"@],
            "rx:"@ + radius + "px;ry:"@ + radius + "px;filter:"@ + neo_filter + ";"@,
        )
        + css_suffix_text(i, id, vars)
}

/// The state diagram stylesheet, for the diagram `id` and the theme variables `vars`.
#[verifier::rlimit(50)]
pub fn themed_statediagram_css(id: &str, vars: &ThemeVars) -> (r: String)
    ensures
        r@ == statediagram_css_text(id@, vars@),
{
    let transition = theme_get(vars, "transitionColor");
    let node_border = theme_get(vars, "nodeBorder");
    let text_color = theme_get(vars, "textColor");
    let state_label = theme_get(vars, "stateLabelColor");
    let main_bkg = theme_get(vars, "mainBkg");
    let line_color = theme_get(vars, "lineColor");
    let background = theme_get(vars, "background");
    let note_border = theme_get(vars, "noteBorderColor");
    let note_bkg = theme_get(vars, "noteBkgColor");
    let note_text = theme_get(vars, "noteTextColor");
    let label_background = theme_get(vars, "labelBackgroundColor");
    let edge_label_bg = theme_get(vars, "edgeLabelBackground");
    let special = theme_get(vars, "specialStateColor");
    let inner_end = theme_get(vars, "innerEndBackground");
    let composite_title_bg = theme_get(vars, "compositeTitleBackground");
    let alt_background = theme_get_default(vars, "altBackground", "#efefef");
    let transition_label = theme_get_or(vars, "transitionLabelColor", "tertiaryTextColor");
    let composite_bg = theme_get_or(vars, "compositeBackground", "background");
    let state_bkg = theme_get_or(vars, "stateBkg", "mainBkg");
    let state_border = theme_get_or(vars, "stateBorder", "nodeBorder");
    let sw = stroke_width(vars);
    let state_border2 = state_border.clone();
    let radius = theme_get(vars, "radius");
    let neo_cluster_stroke = if theme_get_bool(vars, "useGradient") {
        cat(cat(String::from_str("url("), id), "-gradient)")
    } else {
        state_border2
    };
    let drop_shadow = theme_get(vars, "dropShadow");
    let neo_filter = if drop_shadow.as_str().is_empty() {
        String::from_str("none")
    } else {
        let target = cat(cat(String::from_str("url("), id), "-drop-shadow)");
        replace_all_str(drop_shadow.as_str(), "url(#drop-shadow)", target.as_str())
    };
    let i = cat(String::from_str("#"), id);
    let mut o = String::new();
    css_prefix(&mut o, i.as_str(), vars);
    proof {
        lemma_empty_plus(css_prefix_text(i@, vars@));
    }
    let mut d0 = String::from_str("fill:");
    d0.append(transition.as_str());
    d0.append(";stroke:");
    d0.append(transition.as_str());
    d0.append(";");
    rule1(&mut o, i.as_str(), " defs [id$=\"-barbEnd\"]", d0.as_str());
    let mut d1 = String::from_str("fill:");
    d1.append(node_border.as_str());
    d1.append(";stroke:none;font-size:10px;");
    rule1(&mut o, i.as_str(), " g.stateGroup text", d1.as_str());
    let mut d2 = String::from_str("fill:");
    d2.append(text_color.as_str());
    d2.append(";stroke:none;font-size:10px;");
    rule1(&mut o, i.as_str(), " g.stateGroup text", d2.as_str());
    let mut d3 = String::from_str("font-weight:bolder;fill:");
    d3.append(state_label.as_str());
    d3.append(";");
    rule1(&mut o, i.as_str(), " g.stateGroup .state-title", d3.as_str());
    let mut d4 = String::from_str("fill:");
    d4.append(main_bkg.as_str());
    d4.append(";stroke:");
    d4.append(node_border.as_str());
    d4.append(";");
    rule1(&mut o, i.as_str(), " g.stateGroup rect", d4.as_str());
    let mut d5 = String::from_str("stroke:");
    d5.append(line_color.as_str());
    d5.append(";stroke-width:");
    d5.append(sw.as_str());
    d5.append(";");
    rule1(&mut o, i.as_str(), " g.stateGroup line", d5.as_str());
    let mut d6 = String::from_str("stroke:");
    d6.append(transition.as_str());
    d6.append(";stroke-width:");
    d6.append(sw.as_str());
    d6.append(";fill:none;");
    rule1(&mut o, i.as_str(), " .transition", d6.as_str());
    let mut d7 = String::from_str("fill:");
    d7.append(background.as_str());
    d7.append(";border-bottom:1px;");
    rule1(&mut o, i.as_str(), " .stateGroup .composit", d7.as_str());
    rule1(&mut o, i.as_str(), " .stateGroup .alt-composit", "fill:#e0e0e0;border-bottom:1px;");
    let mut d9 = String::from_str("stroke:");
    d9.append(note_border.as_str());
    d9.append(";fill:");
    d9.append(note_bkg.as_str());
    d9.append(";");
    rule1(&mut o, i.as_str(), " .state-note", d9.as_str());
    let mut d10 = String::from_str("fill:");
    d10.append(note_text.as_str());
    d10.append(";stroke:none;font-size:10px;");
    rule1(&mut o, i.as_str(), " .state-note text", d10.as_str());
    let mut d11 = String::from_str("stroke:none;stroke-width:0;fill:");
    d11.append(main_bkg.as_str());
    d11.append(";opacity:0.5;");
    rule1(&mut o, i.as_str(), " .stateLabel .box", d11.as_str());
    let mut d12 = String::from_str("fill:");
    d12.append(label_background.as_str());
    d12.append(";opacity:0.5;");
    rule1(&mut o, i.as_str(), " .edgeLabel .label rect", d12.as_str());
    let mut d13 = String::from_str("background-color:");
    d13.append(edge_label_bg.as_str());
    d13.append(";text-align:center;");
    rule1(&mut o, i.as_str(), " .edgeLabel", d13.as_str());
    let mut d14 = String::from_str("background-color:");
    d14.append(edge_label_bg.as_str());
    d14.append(";");
    rule1(&mut o, i.as_str(), " .edgeLabel p", d14.as_str());
    let mut d15 = String::from_str("opacity:0.5;background-color:");
    d15.append(edge_label_bg.as_str());
    d15.append(";fill:");
    d15.append(edge_label_bg.as_str());
    d15.append(";");
    rule1(&mut o, i.as_str(), " .edgeLabel rect", d15.as_str());
    let mut d16 = String::from_str("fill:");
    d16.append(transition_label.as_str());
    d16.append(";");
    rule1(&mut o, i.as_str(), " .edgeLabel .label text", d16.as_str());
    let mut d17 = String::from_str("color:");
    d17.append(transition_label.as_str());
    d17.append(";");
    rule1(&mut o, i.as_str(), " .label div .edgeLabel", d17.as_str());
    let mut d18 = String::from_str("fill:");
    d18.append(state_label.as_str());
    d18.append(";font-size:10px;font-weight:bold;");
    rule1(&mut o, i.as_str(), " .stateLabel text", d18.as_str());
    let mut d19 = String::from_str("fill:");
    d19.append(special.as_str());
    d19.append(";stroke:");
    d19.append(special.as_str());
    d19.append(";");
    rule1(&mut o, i.as_str(), " .node circle.state-start", d19.as_str());
    let mut d20 = String::from_str("fill:");
    d20.append(special.as_str());
    d20.append(";stroke:");
    d20.append(special.as_str());
    d20.append(";");
    rule1(&mut o, i.as_str(), " .node .fork-join", d20.as_str());
    let mut d21 = String::from_str("fill:");
    d21.append(inner_end.as_str());
    d21.append(";stroke:");
    d21.append(background.as_str());
    d21.append(";stroke-width:1.5;");
    rule1(&mut o, i.as_str(), " .node circle.state-end", d21.as_str());
    let mut d22 = String::from_str("fill:");
    d22.append(composite_bg.as_str());
    d22.append(";stroke-width:1.5;");
    rule1(&mut o, i.as_str(), " .end-state-inner", d22.as_str());
    let mut d23 = String::from_str("fill:");
    d23.append(state_bkg.as_str());
    d23.append(";stroke:");
    d23.append(state_border.as_str());
    d23.append(";stroke-width:");
    d23.append(sw.as_str());
    d23.append("px;");
    rule1(&mut o, i.as_str(), " .node rect", d23.as_str());
    let mut d24 = String::from_str("fill:");
    d24.append(main_bkg.as_str());
    d24.append(";stroke:");
    d24.append(state_border.as_str());
    d24.append(";stroke-width:");
    d24.append(sw.as_str());
    d24.append("px;");
    rule1(&mut o, i.as_str(), " .node polygon", d24.as_str());
    let mut d25 = String::from_str("fill:");
    d25.append(line_color.as_str());
    d25.append(";");
    rule1(&mut o, i.as_str(), " [id$=\"-barbEnd\"]", d25.as_str());
    let mut d26 = String::from_str("fill:");
    d26.append(composite_title_bg.as_str());
    d26.append(";stroke:");
    d26.append(state_border.as_str());
    d26.append(";stroke-width:");
    d26.append(sw.as_str());
    d26.append("px;");
    rule1(&mut o, i.as_str(), " .statediagram-cluster rect", d26.as_str());
    let mut d27 = String::from_str("color:");
    d27.append(state_label.as_str());
    d27.append(";");
    rule2(&mut o, i.as_str(), " .cluster-label", " .nodeLabel", d27.as_str());
    rule1(&mut o, i.as_str(), " .statediagram-cluster rect.outer", "rx:5px;ry:5px;");
    let mut d29 = String::from_str("stroke:");
    d29.append(state_border.as_str());
    d29.append(";");
    rule1(&mut o, i.as_str(), " .statediagram-state .divider", d29.as_str());
    rule1(&mut o, i.as_str(), " .statediagram-state .title-state", "rx:5px;ry:5px;");
    let mut d31 = String::from_str("fill:");
    d31.append(composite_bg.as_str());
    d31.append(";");
    rule1(&mut o, i.as_str(), " .statediagram-cluster.statediagram-cluster .inner", d31.as_str());
    let mut d32 = String::from_str("fill:");
    d32.append(alt_background.as_str());
    d32.append(";");
    rule1(&mut o, i.as_str(), " .statediagram-cluster.statediagram-cluster-alt .inner", d32.as_str());
    rule1(&mut o, i.as_str(), " .statediagram-cluster .inner", "rx:0;ry:0;");
    rule1(&mut o, i.as_str(), " .statediagram-state rect.basic", "rx:5px;ry:5px;");
    let mut d35 = String::from_str("stroke-dasharray:10,10;fill:");
    d35.append(alt_background.as_str());
    d35.append(";");
    rule1(&mut o, i.as_str(), " .statediagram-state rect.divider", d35.as_str());
    rule1(&mut o, i.as_str(), " .note-edge", "stroke-dasharray:5;");
    let mut d37 = String::from_str("fill:");
    d37.append(note_bkg.as_str());
    d37.append(";stroke:");
    d37.append(note_border.as_str());
    d37.append(";stroke-width:1px;rx:0;ry:0;");
    rule1(&mut o, i.as_str(), " .statediagram-note rect", d37.as_str());
    let mut d38 = String::from_str("fill:");
    d38.append(note_bkg.as_str());
    d38.append(";stroke:");
    d38.append(note_border.as_str());
    d38.append(";stroke-width:1px;rx:0;ry:0;");
    rule1(&mut o, i.as_str(), " .statediagram-note rect", d38.as_str());
    let mut d39 = String::from_str("fill:");
    d39.append(note_text.as_str());
    d39.append(";");
    rule1(&mut o, i.as_str(), " .statediagram-note text", d39.as_str());
    let mut d40 = String::from_str("color:");
    d40.append(note_text.as_str());
    d40.append(";");
    rule1(&mut o, i.as_str(), " .statediagram-note .nodeLabel", d40.as_str());
    rule1(&mut o, i.as_str(), " .statediagram .edgeLabel", "color:red;");
    let mut d42 = String::from_str("fill:");
    d42.append(line_color.as_str());
    d42.append(";stroke:");
    d42.append(line_color.as_str());
    d42.append(";stroke-width:");
    d42.append(sw.as_str());
    d42.append(";");
    rule2(&mut o, i.as_str(), " [id$=\"-dependencyStart\"]", " [id$=\"-dependencyEnd\"]", d42.as_str());
    let mut d43 = String::from_str("text-anchor:middle;font-size:18px;fill:");
    d43.append(text_color.as_str());
    d43.append(";");
    rule1(&mut o, i.as_str(), " .statediagramTitleText", d43.as_str());
    let mut d44 = String::from_str("fill:");
    d44.append(main_bkg.as_str());
    d44.append(";stroke:");
    d44.append(neo_cluster_stroke.as_str());
    d44.append(";stroke-width:");
    d44.append(sw.as_str());
    d44.append(";");
    rule1(&mut o, i.as_str(), " [data-look=\"neo\"].statediagram-cluster rect", d44.as_str());
    let mut d45 = String::from_str("rx:");
    d45.append(radius.as_str());
    d45.append("px;ry:");
    d45.append(radius.as_str());
    d45.append("px;filter:");
    d45.append(neo_filter.as_str());
    d45.append(";");
    rule1(&mut o, i.as_str(), " [data-look=\"neo\"].statediagram-cluster rect.outer", d45.as_str());
    css_suffix(&mut o, i.as_str(), id, vars);
    o
}


/// An integer as `to_string` writes it.
pub open spec fn int_text(x: int) -> Seq<char> {
    if x < 0 {
        "-"@ + decimal((-x) as nat)
    } else {
        decimal(x as nat)
    }
}

fn int_string(x: i64) -> (r: String)
    requires
        -1000 <= x <= 1000,
    ensures
        r@ == int_text(x as int),
{
    if x < 0 {
        let d = decimal_string((-x) as usize);
        cat(String::from_str("-"), d.as_str())
    } else {
        decimal_string(x as usize)
    }
}

/// The rules of timeline section `n` (selectors numbered `n - 1`): fill,
/// label and line colors from the `n`th color scale entries, and an edge
/// width that shrinks with depth.
pub open spec fn timeline_section_css(i: Seq<char>, vars: Seq<(Seq<char>, ThemeValueV)>, n: nat) -> Seq<
    char,
> {
    let s = int_text(n - 1);
    let c_scale = tv(vars, "cScale"@ + decimal(n));
    let c_label = tv(vars, "cScaleLabel"@ + decimal(n));
    let c_inv = tv(vars, "cScaleInv"@ + decimal(n));
    let sw = int_text(17 - 3 * n);
    rule_text(
        i,
        seq![
            " .section-"@ + s + " rect"@,
            " .section-"@ + s + " path"@,
            " .section-"@ + s + " circle"@,
            " .section-"@ + s + " path"@,
        ],
        "fill:"@ + c_scale + ";"@,
    ) + rule_text(i, seq![" .section-"@ + s + " text"@], "fill:"@ + c_label + ";"@) + rule_text(
        i,
        seq![" .node-icon-"@ + s],
        "font-size:40px;color:"@ + c_label + ";"@,
    ) + rule_text(i, seq![" .section-edge-"@ + s], "stroke:"@ + c_scale + ";"@) + rule_text(
        i,
        seq![" .edge-depth-"@ + s],
        "stroke-width:"@ + sw + ";"@,
    ) + rule_text(i, seq![" .section-"@ + s + " line"@], "stroke:"@ + c_inv + ";stroke-width:3;"@)
        + rule_text(i, seq![" .lineWrapper line"@], "stroke:"@ + c_label + ";"@) + rule_text(
        i,
        seq![" .disabled"@, " .disabled circle"@, " .disabled text"@],
        "fill:"@ + tv_default(vars, "tertiaryColor"@, "lightgray"@) + ";"@,
    ) + rule_text(
        i,
        seq![" .disabled text"@],
        "fill:"@ + tv_default(vars, "clusterBorder"@, "#efefef"@) + ";"@,
    )
}

/// The rules of the first `k` timeline sections, in order.
pub open spec fn timeline_sections(i: Seq<char>, vars: Seq<(Seq<char>, ThemeValueV)>, k: nat) -> Seq<
    char,
>
    decreases k,
{
    if k == 0 {
        Seq::empty()
    } else {
        timeline_sections(i, vars, (k - 1) as nat) + timeline_section_css(i, vars, (k - 1) as nat)
    }
}

/// The markup of the timeline stylesheet.
pub open spec fn timeline_css_text(id: Seq<char>, vars: Seq<(Seq<char>, ThemeValueV)>) -> Seq<char> {
    let i = "#"@ + id;
    css_prefix_text(i, vars) + rule_text(i, seq![" .edge"@], "stroke-width:3;"@) + timeline_sections(
        i,
        vars,
        12,
    ) + rule_text(
        i,
        seq![" .section-root rect"@, " .section-root path"@, " .section-root circle"@],
        "fill:"@ + tv(vars, "git0"@) + ";"@,
    ) + rule_text(i, seq![" .section-root text"@], "fill:"@ + tv(vars, "gitBranchLabel0"@) + ";"@)
        + rule_text(
        i,
        seq![" .icon-container"@],
        "height:100%;display:flex;justify-content:center;align-items:center;"@,
    ) + rule_text(i, seq![" .edge"@], "fill:none;"@) + rule_text(
        i,
        seq![" .eventWrapper"@],
        "filter:brightness(120%);"@,
    ) + css_suffix_text(i, id, vars)
}

fn timeline_section(i: &str, vars: &ThemeVars, n: i64) -> (r: String)
    requires
        0 <= n < 12,
    ensures
        r@ == timeline_section_css(i@, vars@, n as nat),
{
    let s = int_string(n - 1);
    let k1 = cat(String::from_str("cScale"), decimal_string(n as usize).as_str());
    let k2 = cat(String::from_str("cScaleLabel"), decimal_string(n as usize).as_str());
    let k3 = cat(String::from_str("cScaleInv"), decimal_string(n as usize).as_str());
    let c_scale = theme_get(vars, k1.as_str());
    let c_label = theme_get(vars, k2.as_str());
    let c_inv = theme_get(vars, k3.as_str());
    let sw = int_string(17 - 3 * n);
    let a1 = cat(cat(String::from_str(" .section-"), s.as_str()), " rect");
    let a2 = cat(cat(String::from_str(" .section-"), s.as_str()), " path");
    let a3 = cat(cat(String::from_str(" .section-"), s.as_str()), " circle");
    let a4 = cat(cat(String::from_str(" .section-"), s.as_str()), " path");
    let mut d0 = String::from_str("fill:");
    d0.append(c_scale.as_str());
    d0.append(";");
    let mut o = String::new();
    rule4(&mut o, i, a1.as_str(), a2.as_str(), a3.as_str(), a4.as_str(), d0.as_str());
    proof {
        lemma_empty_plus(rule_text(i@, seq![a1@, a2@, a3@, a4@], d0@));
    }
    let b1 = cat(cat(String::from_str(" .section-"), s.as_str()), " text");
    let mut d1 = String::from_str("fill:");
    d1.append(c_label.as_str());
    d1.append(";");
    rule1(&mut o, i, b1.as_str(), d1.as_str());
    let b2 = cat(String::from_str(" .node-icon-"), s.as_str());
    let mut d2 = String::from_str("font-size:40px;color:");
    d2.append(c_label.as_str());
    d2.append(";");
    rule1(&mut o, i, b2.as_str(), d2.as_str());
    let b3 = cat(String::from_str(" .section-edge-"), s.as_str());
    let mut d3 = String::from_str("stroke:");
    d3.append(c_scale.as_str());
    d3.append(";");
    rule1(&mut o, i, b3.as_str(), d3.as_str());
    let b4 = cat(String::from_str(" .edge-depth-"), s.as_str());
    let mut d4 = String::from_str("stroke-width:");
    d4.append(sw.as_str());
    d4.append(";");
    rule1(&mut o, i, b4.as_str(), d4.as_str());
    let b5 = cat(cat(String::from_str(" .section-"), s.as_str()), " line");
    let mut d5 = String::from_str("stroke:");
    d5.append(c_inv.as_str());
    d5.append(";stroke-width:3;");
    rule1(&mut o, i, b5.as_str(), d5.as_str());
    let mut d6 = String::from_str("stroke:");
    d6.append(c_label.as_str());
    d6.append(";");
    rule1(&mut o, i, " .lineWrapper line", d6.as_str());
    let t = theme_get_default(vars, "tertiaryColor", "lightgray");
    let mut d7 = String::from_str("fill:");
    d7.append(t.as_str());
    d7.append(";");
    rule3(&mut o, i, " .disabled", " .disabled circle", " .disabled text", d7.as_str());
    let c = theme_get_default(vars, "clusterBorder", "#efefef");
    let mut d8 = String::from_str("fill:");
    d8.append(c.as_str());
    d8.append(";");
    rule1(&mut o, i, " .disabled text", d8.as_str());
    o
}

/// The timeline stylesheet, for the diagram `id` and the theme variables
/// `vars`.
#[verifier::rlimit(50)]
pub fn themed_timeline_css(id: &str, vars: &ThemeVars) -> (r: String)
    ensures
        r@ == timeline_css_text(id@, vars@),
{
    let i = cat(String::from_str("#"), id);
    let mut o = String::new();
    css_prefix(&mut o, i.as_str(), vars);
    proof {
        lemma_empty_plus(css_prefix_text(i@, vars@));
    }
    rule1(&mut o, i.as_str(), " .edge", "stroke-width:3;");
    let ghost base = o@;
    let mut n: i64 = 0;
    while n < 12
        invariant
            0 <= n <= 12,
            o@ == base + timeline_sections(i@, vars@, n as nat),
        decreases 12 - n,
    {
        let sec = timeline_section(i.as_str(), vars, n);
        let ghost before = o@;
        o.append(sec.as_str());
        proof {
            assert(before + sec@ =~= base + (timeline_sections(i@, vars@, n as nat) + sec@));
        }
        n += 1;
    }
    let g = theme_get(vars, "git0");
    let mut d0 = String::from_str("fill:");
    d0.append(g.as_str());
    d0.append(";");
    rule3(
        &mut o,
        i.as_str(),
        " .section-root rect",
        " .section-root path",
        " .section-root circle",
        d0.as_str(),
    );
    let gl = theme_get(vars, "gitBranchLabel0");
    let mut d1 = String::from_str("fill:");
    d1.append(gl.as_str());
    d1.append(";");
    rule1(&mut o, i.as_str(), " .section-root text", d1.as_str());
    rule1(
        &mut o,
        i.as_str(),
        " .icon-container",
        "height:100%;display:flex;justify-content:center;align-items:center;",
    );
    rule1(&mut o, i.as_str(), " .edge", "fill:none;");
    rule1(&mut o, i.as_str(), " .eventWrapper", "filter:brightness(120%);");
    css_suffix(&mut o, i.as_str(), id, vars);
    o
}


/// The markup of the flowchart stylesheet.
pub open spec fn flowchart_themed_css_text(
    id: Seq<char>,
    vars: Seq<(Seq<char>, ThemeValueV)>,
    label_bkg_faded: Seq<char>,
) -> Seq<char> {
    let font_family = tv(vars, "fontFamily"@);
    let text_color = tv(vars, "textColor"@);
    let line_color = tv(vars, "lineColor"@);
    let title_color = tv(vars, "titleColor"@);
    let main_bkg = tv(vars, "mainBkg"@);
    let node_border = tv(vars, "nodeBorder"@);
    let arrowhead = tv(vars, "arrowheadColor"@);
    let edge_label_bg = tv(vars, "edgeLabelBackground"@);
    let cluster_bkg = tv(vars, "clusterBkg"@);
    let cluster_border = tv(vars, "clusterBorder"@);
    let tertiary = tv(vars, "tertiaryColor"@);
    let border2 = tv(vars, "border2"@);
    let sw = stroke_width_text(vars);
    let node_text = tv_or(vars, "nodeTextColor"@, "textColor"@);
    let i = "#"@ + id;
    css_prefix_text(i, vars)
        + rule_text(
            i,
            seq![" .label"@],
            "font-family:"@ + font_family + ";color:"@ + node_text + ";"@,
        )
        + rule_text(i, seq![" .cluster-label text"@], "fill:"@ + title_color + ";"@)
        + rule_text(i, seq![" .cluster-label span"@], "color:"@ + title_color + ";"@)
        + rule_text(i, seq![" .cluster-label span p"@], "background-color:transparent;"@)
        + rule_text(
            i,
            seq![" .label text"@, " span"@],
            "fill:"@ + node_text + ";color:"@ + node_text + ";"@,
        )
        + rule_text(
            i,
            seq![
                " .node rect"@,
                " .node circle"@,
                " .node ellipse"@,
                " .node polygon"@,
                " .node path"@,
            ],
            "fill:"@ + main_bkg + ";stroke:"@ + node_border + ";stroke-width:"@ + sw + "px;"@,
        )
        + rule_text(
            i,
            seq![
                " .rough-node .label text"@,
                " .node .label text"@,
                " .image-shape .label"@,
                " .icon-shape .label"@,
            ],
            "text-anchor:middle;"@,
        )
        + rule_text(i, seq![" .node .katex path"@], "fill:#000;stroke:#000;stroke-width:1px;"@)
        + rule_text(
            i,
            seq![
                " .rough-node .label"@,
                " .node .label"@,
                " .image-shape .label"@,
                " .icon-shape .label"@,
            ],
            "text-align:center;"@,
        )
        + rule_text(i, seq![" .node.clickable"@], "cursor:pointer;"@)
        + rule_text(
            i,
            seq![" .root .anchor path"@],
            "fill:"@ + line_color + "!important;stroke-width:0;stroke:"@ + line_color + ";"@,
        )
        + rule_text(i, seq![" .arrowheadPath"@], "fill:"@ + arrowhead + ";"@)
        + rule_text(
            i,
            seq![" .edgePath .path"@],
            "stroke:"@ + line_color + ";stroke-width:"@ + sw + "px;"@,
        )
        + rule_text(i, seq![" .flowchart-link"@], "stroke:"@ + line_color + ";fill:none;"@)
        + rule_text(
            i,
            seq![" .edgeLabel"@],
            "background-color:"@ + edge_label_bg + ";text-align:center;"@,
        )
        + rule_text(i, seq![" .edgeLabel p"@], "background-color:"@ + edge_label_bg + ";"@)
        + rule_text(
            i,
            seq![" .edgeLabel rect"@],
            "opacity:0.5;background-color:"@ + edge_label_bg + ";fill:"@ + edge_label_bg + ";"@,
        )
        + rule_text(i, seq![" .labelBkg"@], "background-color:"@ + label_bkg_faded + ";"@)
        + rule_text(
            i,
            seq![" .cluster rect"@],
            "fill:"@ + cluster_bkg + ";stroke:"@ + cluster_border + ";stroke-width:1px;"@,
        )
        + rule_text(i, seq![" .cluster text"@], "fill:"@ + title_color + ";"@)
        + rule_text(i, seq![" .cluster span"@], "color:"@ + title_color + ";"@)
        + rule_text(
            i,
            seq![" div.mermaidTooltip"@],
            "position:absolute;text-align:center;max-width:200px;padding:2px;font-family:"@ + font_family + ";font-size:12px;background:"@ + tertiary + ";border:1px solid "@ + border2 + ";border-radius:2px;pointer-events:none;z-index:100;"@,
        )
        + rule_text(
            i,
            seq![" .flowchartTitleText"@],
            "text-anchor:middle;font-size:18px;fill:"@ + text_color + ";"@,
        )
        + rule_text(i, seq![" rect.text"@], "fill:none;stroke-width:0;"@)
        + rule_text(
            i,
            seq![" .icon-shape"@, " .image-shape"@],
            "background-color:"@ + edge_label_bg + ";text-align:center;"@,
        )
        + rule_text(
            i,
            seq![" .icon-shape p"@, " .image-shape p"@],
            "background-color:"@ + edge_label_bg + ";padding:2px;"@,
        )
        + rule_text(
            i,
            seq![" .icon-shape .label rect"@, " .image-shape .label rect"@],
            "opacity:0.5;background-color:"@ + edge_label_bg + ";fill:"@ + edge_label_bg + ";"@,
        )
        + rule_text(
            i,
            seq![" .label-icon"@],
            "display:inline-block;height:1em;overflow:visible;vertical-align:-0.125em;"@,
        )
        + rule_text(
            i,
            seq![" .node .label-icon path"@],
            "fill:currentColor;stroke:revert;stroke-width:revert;"@,
        )
        + css_suffix_text(i, id, vars)
}

/// The flowchart stylesheet, for the diagram `id` and the theme variables
/// `vars`; `label_bkg_faded` is the edge label background at half opacity.
#[verifier::rlimit(50)]
pub fn themed_flowchart_css(id: &str, vars: &ThemeVars, label_bkg_faded: &str) -> (r: String)
    ensures
        r@ == flowchart_themed_css_text(id@, vars@, label_bkg_faded@),
{
    let font_family = theme_get(vars, "fontFamily");
    let text_color = theme_get(vars, "textColor");
    let line_color = theme_get(vars, "lineColor");
    let title_color = theme_get(vars, "titleColor");
    let main_bkg = theme_get(vars, "mainBkg");
    let node_border = theme_get(vars, "nodeBorder");
    let arrowhead = theme_get(vars, "arrowheadColor");
    let edge_label_bg = theme_get(vars, "edgeLabelBackground");
    let cluster_bkg = theme_get(vars, "clusterBkg");
    let cluster_border = theme_get(vars, "clusterBorder");
    let tertiary = theme_get(vars, "tertiaryColor");
    let border2 = theme_get(vars, "border2");
    let sw = stroke_width(vars);
    let node_text = theme_get_or(vars, "nodeTextColor", "textColor");
    let i = cat(String::from_str("#"), id);
    let mut o = String::new();
    css_prefix(&mut o, i.as_str(), vars);
    proof {
        lemma_empty_plus(css_prefix_text(i@, vars@));
    }
    let mut d0 = String::from_str("font-family:");
    d0.append(font_family.as_str());
    d0.append(";color:");
    d0.append(node_text.as_str());
    d0.append(";");
    rule1(&mut o, i.as_str(), " .label", d0.as_str());
    let mut d1 = String::from_str("fill:");
    d1.append(title_color.as_str());
    d1.append(";");
    rule1(&mut o, i.as_str(), " .cluster-label text", d1.as_str());
    let mut d2 = String::from_str("color:");
    d2.append(title_color.as_str());
    d2.append(";");
    rule1(&mut o, i.as_str(), " .cluster-label span", d2.as_str());
    rule1(&mut o, i.as_str(), " .cluster-label span p", "background-color:transparent;");
    let mut d4 = String::from_str("fill:");
    d4.append(node_text.as_str());
    d4.append(";color:");
    d4.append(node_text.as_str());
    d4.append(";");
    rule2(&mut o, i.as_str(), " .label text", " span", d4.as_str());
    let mut d5 = String::from_str("fill:");
    d5.append(main_bkg.as_str());
    d5.append(";stroke:");
    d5.append(node_border.as_str());
    d5.append(";stroke-width:");
    d5.append(sw.as_str());
    d5.append("px;");
    rule5(&mut o, i.as_str(), " .node rect", " .node circle", " .node ellipse", " .node polygon", " .node path", d5.as_str());
    rule4(&mut o, i.as_str(), " .rough-node .label text", " .node .label text", " .image-shape .label", " .icon-shape .label", "text-anchor:middle;");
    rule1(&mut o, i.as_str(), " .node .katex path", "fill:#000;stroke:#000;stroke-width:1px;");
    rule4(&mut o, i.as_str(), " .rough-node .label", " .node .label", " .image-shape .label", " .icon-shape .label", "text-align:center;");
    rule1(&mut o, i.as_str(), " .node.clickable", "cursor:pointer;");
    let mut d10 = String::from_str("fill:");
    d10.append(line_color.as_str());
    d10.append("!important;stroke-width:0;stroke:");
    d10.append(line_color.as_str());
    d10.append(";");
    rule1(&mut o, i.as_str(), " .root .anchor path", d10.as_str());
    let mut d11 = String::from_str("fill:");
    d11.append(arrowhead.as_str());
    d11.append(";");
    rule1(&mut o, i.as_str(), " .arrowheadPath", d11.as_str());
    let mut d12 = String::from_str("stroke:");
    d12.append(line_color.as_str());
    d12.append(";stroke-width:");
    d12.append(sw.as_str());
    d12.append("px;");
    rule1(&mut o, i.as_str(), " .edgePath .path", d12.as_str());
    let mut d13 = String::from_str("stroke:");
    d13.append(line_color.as_str());
    d13.append(";fill:none;");
    rule1(&mut o, i.as_str(), " .flowchart-link", d13.as_str());
    let mut d14 = String::from_str("background-color:");
    d14.append(edge_label_bg.as_str());
    d14.append(";text-align:center;");
    rule1(&mut o, i.as_str(), " .edgeLabel", d14.as_str());
    let mut d15 = String::from_str("background-color:");
    d15.append(edge_label_bg.as_str());
    d15.append(";");
    rule1(&mut o, i.as_str(), " .edgeLabel p", d15.as_str());
    let mut d16 = String::from_str("opacity:0.5;background-color:");
    d16.append(edge_label_bg.as_str());
    d16.append(";fill:");
    d16.append(edge_label_bg.as_str());
    d16.append(";");
    rule1(&mut o, i.as_str(), " .edgeLabel rect", d16.as_str());
    let mut d17 = String::from_str("background-color:");
    d17.append(label_bkg_faded);
    d17.append(";");
    rule1(&mut o, i.as_str(), " .labelBkg", d17.as_str());
    let mut d18 = String::from_str("fill:");
    d18.append(cluster_bkg.as_str());
    d18.append(";stroke:");
    d18.append(cluster_border.as_str());
    d18.append(";stroke-width:1px;");
    rule1(&mut o, i.as_str(), " .cluster rect", d18.as_str());
    let mut d19 = String::from_str("fill:");
    d19.append(title_color.as_str());
    d19.append(";");
    rule1(&mut o, i.as_str(), " .cluster text", d19.as_str());
    let mut d20 = String::from_str("color:");
    d20.append(title_color.as_str());
    d20.append(";");
    rule1(&mut o, i.as_str(), " .cluster span", d20.as_str());
    let mut d21 = String::from_str("position:absolute;text-align:center;max-width:200px;padding:2px;font-family:");
    d21.append(font_family.as_str());
    d21.append(";font-size:12px;background:");
    d21.append(tertiary.as_str());
    d21.append(";border:1px solid ");
    d21.append(border2.as_str());
    d21.append(";border-radius:2px;pointer-events:none;z-index:100;");
    rule1(&mut o, i.as_str(), " div.mermaidTooltip", d21.as_str());
    let mut d22 = String::from_str("text-anchor:middle;font-size:18px;fill:");
    d22.append(text_color.as_str());
    d22.append(";");
    rule1(&mut o, i.as_str(), " .flowchartTitleText", d22.as_str());
    rule1(&mut o, i.as_str(), " rect.text", "fill:none;stroke-width:0;");
    let mut d24 = String::from_str("background-color:");
    d24.append(edge_label_bg.as_str());
    d24.append(";text-align:center;");
    rule2(&mut o, i.as_str(), " .icon-shape", " .image-shape", d24.as_str());
    let mut d25 = String::from_str("background-color:");
    d25.append(edge_label_bg.as_str());
    d25.append(";padding:2px;");
    rule2(&mut o, i.as_str(), " .icon-shape p", " .image-shape p", d25.as_str());
    let mut d26 = String::from_str("opacity:0.5;background-color:");
    d26.append(edge_label_bg.as_str());
    d26.append(";fill:");
    d26.append(edge_label_bg.as_str());
    d26.append(";");
    rule2(&mut o, i.as_str(), " .icon-shape .label rect", " .image-shape .label rect", d26.as_str());
    rule1(&mut o, i.as_str(), " .label-icon", "display:inline-block;height:1em;overflow:visible;vertical-align:-0.125em;");
    rule1(&mut o, i.as_str(), " .node .label-icon path", "fill:currentColor;stroke:revert;stroke-width:revert;");
    css_suffix(&mut o, i.as_str(), id, vars);
    o
}

/// `s` ends with `p`.
pub open spec fn ends_with(s: Seq<char>, p: Seq<char>) -> bool {
    p.len() <= s.len() && s.skip(s.len() - p.len()) == p
}

proof fn lemma_starts_with_append(a: Seq<char>, b: Seq<char>, p: Seq<char>)
    requires
        starts_with(a, p),
    ensures
        starts_with(a + b, p),
{
    assert((a + b).take(p.len() as int) =~= a.take(p.len() as int));
}

proof fn lemma_ends_with_prepend(a: Seq<char>, b: Seq<char>, p: Seq<char>)
    requires
        ends_with(b, p),
    ensures
        ends_with(a + b, p),
{
    assert((a + b).skip((a + b).len() - p.len()) =~= b.skip(b.len() - p.len()));
}

/// A rule with one selector suffix: `i`, the suffix, and the minified
/// declarations in braces.
proof fn lemma_rule_one(i: Seq<char>, suffix: Seq<char>, decls: Seq<char>)
    ensures
        rule_text(i, seq![suffix], decls) == i + suffix + "{"@ + minify(decls, 0, false) + "}"@,
{
    assert(seq![suffix].map_values(|s: Seq<char>| i + s) =~= seq![i + suffix]);
}

#[verifier::spinoff_prover]
#[verifier::rlimit(80)]
/// Law: the state-diagram stylesheet opens with the diagram's font rule
/// (font family, font size and text colour of the theme) followed by the
/// edge animation keyframes, and closes with the `:root` rule that exports
/// the font family.
pub proof fn statediagram_css_frame(id: Seq<char>, vars: Seq<(Seq<char>, ThemeValueV)>)
    ensures
        starts_with(
            statediagram_css_text(id, vars),
            "#"@ + id + "{"@ + minify(
                "font-family:"@ + tv(vars, "fontFamily"@) + ";font-size:"@ + tv(vars, "fontSize"@)
                    + ";fill:"@ + tv(vars, "textColor"@) + ";"@,
                0,
                false,
            ) + "}"@ + "@keyframes edge-animation-frame{"@,
        ),
        ends_with(
            statediagram_css_text(id, vars),
            "#"@ + id + " :root{"@ + minify("--mermaid-font-family:"@ + tv(vars, "fontFamily"@) + ";"@, 0, false)
                + "}"@,
        ),
{
    let i = "#"@ + id;
    let d1 = "font-family:"@ + tv(vars, "fontFamily"@) + ";font-size:"@ + tv(vars, "fontSize"@)
        + ";fill:"@ + tv(vars, "textColor"@) + ";"@;
    let d2 = "--mermaid-font-family:"@ + tv(vars, "fontFamily"@) + ";"@;
    lemma_rule_one(i, ""@, d1);
    lemma_rule_one(i, " :root"@, d2);
    reveal_strlit("");
    reveal_strlit(" :root");
    reveal_strlit("{");
    reveal_strlit(" :root{");
    reveal_strlit("@keyframes edge-animation-frame{");
    reveal_strlit("@keyframes edge-animation-frame{from{stroke-dashoffset:0;}}");
    let r1 = rule_text(i, seq![""@], d1);
    assert(r1 =~= i + "{"@ + minify(d1, 0, false) + "}"@);
    let p = r1 + "@keyframes edge-animation-frame{"@;
    let k1 = "@keyframes edge-animation-frame{from{stroke-dashoffset:0;}}"@;
    assert(starts_with(r1 + k1, p)) by {
        assert((r1 + k1).take(p.len() as int) =~= p);
    }
    assert forall|a: Seq<char>, b: Seq<char>| starts_with(a, p) implies #[trigger] starts_with(
        a + b,
        p,
    ) by {
        lemma_starts_with_append(a, b, p);
    }
    let rl = rule_text(i, seq![" :root"@], d2);
    assert(rl =~= i + " :root{"@ + minify(d2, 0, false) + "}"@);
    assert forall|a: Seq<char>, b: Seq<char>| ends_with(b, rl) implies #[trigger] ends_with(
        a + b,
        rl,
    ) by {
        lemma_ends_with_prepend(a, b, rl);
    }
    assert(ends_with(rl, rl)) by {
        assert(rl.skip(0) =~= rl);
    }
}

/// Where [`minify`] stands after `s`: the parenthesis depth and whether the
/// last kept character was a comma.
pub open spec fn minify_state(s: Seq<char>, depth: nat, after_comma: bool) -> (nat, bool)
    decreases s.len(),
{
    if s.len() == 0 {
        (depth, after_comma)
    } else {
        let c = s[0];
        let d = if c == '(' {
            depth + 1
        } else if c == ')' {
            if depth > 0 {
                (depth - 1) as nat
            } else {
                0
            }
        } else {
            depth
        };
        if after_comma && c == ' ' && d == 0 {
            minify_state(s.drop_first(), d, after_comma)
        } else {
            minify_state(s.drop_first(), d, c == ',')
        }
    }
}

/// The parentheses of `s` close again: minifying it from the top level
/// ends at the top level.
pub open spec fn closes_parens(s: Seq<char>) -> bool {
    minify_state(s, 0, false).0 == 0
}

proof fn lemma_minify_concat(a: Seq<char>, b: Seq<char>, depth: nat, ac: bool)
    ensures
        minify(a + b, depth, ac) == minify(a, depth, ac) + minify(
            b,
            minify_state(a, depth, ac).0,
            minify_state(a, depth, ac).1,
        ),
    decreases a.len(),
{
    if a.len() == 0 {
        assert(a + b =~= b);
        assert(Seq::<char>::empty() + minify(b, depth, ac) =~= minify(b, depth, ac));
    } else {
        let c = a[0];
        let d = if c == '(' {
            depth + 1
        } else if c == ')' {
            if depth > 0 {
                (depth - 1) as nat
            } else {
                0
            }
        } else {
            depth
        };
        assert((a + b)[0] == c);
        assert((a + b).drop_first() =~= a.drop_first() + b);
        if ac && c == ' ' && d == 0 {
            lemma_minify_concat(a.drop_first(), b, d, ac);
        } else {
            lemma_minify_concat(a.drop_first(), b, d, c == ',');
            let rest = minify(a.drop_first(), d, c == ',');
            let st = minify_state(a.drop_first(), d, c == ',');
            assert(seq![c] + (rest + minify(b, st.0, st.1)) =~= (seq![c] + rest) + minify(b, st.0, st.1));
        }
    }
}

/// Text without parentheses, spaces or commas passes minification as it is
/// and leaves it at the top level after a non-comma.
proof fn lemma_minify_plain(s: Seq<char>, ac: bool)
    requires
        forall|i: int| 0 <= i < s.len() ==> s[i] != '(' && s[i] != ')' && s[i] != ' ' && s[i] != ',',
    ensures
        minify(s, 0, ac) == s,
        minify_state(s, 0, ac) == (if s.len() == 0 {
            (0nat, ac)
        } else {
            (0nat, false)
        }),
    decreases s.len(),
{
    if s.len() > 0 {
        assert(s[0] != '(' && s[0] != ')' && s[0] != ' ' && s[0] != ',');
        lemma_minify_plain(s.drop_first(), false);
        assert(seq![s[0]] + s.drop_first() =~= s);
    }
}

proof fn lemma_plain_literals()
    ensures
        forall|i: int| 0 <= i < "font-family:"@.len() ==> "font-family:"@[i] != '(' && "font-family:"@[i] != ')' && "font-family:"@[i] != ' ' && "font-family:"@[i] != ',',
        forall|i: int| 0 <= i < ";font-size:"@.len() ==> ";font-size:"@[i] != '(' && ";font-size:"@[i] != ')' && ";font-size:"@[i] != ' ' && ";font-size:"@[i] != ',',
        forall|i: int| 0 <= i < ";fill:"@.len() ==> ";fill:"@[i] != '(' && ";fill:"@[i] != ')' && ";fill:"@[i] != ' ' && ";fill:"@[i] != ',',
        forall|i: int| 0 <= i < "--mermaid-font-family:"@.len() ==> "--mermaid-font-family:"@[i] != '(' && "--mermaid-font-family:"@[i] != ')' && "--mermaid-font-family:"@[i] != ' ' && "--mermaid-font-family:"@[i] != ',',
        ";"@ == seq![';'],
        "font-family:"@.len() > 0,
        ";font-size:"@.len() > 0,
        ";fill:"@.len() > 0,
        "--mermaid-font-family:"@.len() > 0,
{
    reveal_strlit("font-family:");
    reveal_strlit(";font-size:");
    reveal_strlit(";fill:");
    reveal_strlit(";");
    reveal_strlit("--mermaid-font-family:");
}

proof fn lemma_semicolon(d: nat, ac: bool)
    ensures
        minify(";"@, d, ac) == ";"@,
{
    reveal_strlit(";");
    let e = Seq::<char>::empty();
    assert(";"@.drop_first() =~= e);
    assert(minify(e, d, false) == e);
    assert(";"@[0] == ';');
    assert(minify(";"@, d, ac) == seq![';'] + minify(e, d, false));
    assert(seq![';'] + e =~= ";"@);
}

#[verifier::rlimit(40)]
proof fn lemma_head_decls(ff: Seq<char>, fs: Seq<char>, tc: Seq<char>)
    requires
        closes_parens(ff),
        closes_parens(fs),
    ensures
        minify(
            "font-family:"@ + ff + ";font-size:"@ + fs + ";fill:"@ + tc + ";"@,
            0,
            false,
        ) == "font-family:"@ + minify(ff, 0, false) + ";font-size:"@ + minify(fs, 0, false) + ";fill:"@
            + minify(tc, 0, false) + ";"@,
{
    lemma_plain_literals();
    let p1 = "font-family:"@;
    let p2 = ";font-size:"@;
    let p3 = ";fill:"@;
    let p4 = ";"@;
    let s6 = tc + p4;
    let s5 = p3 + s6;
    let s4 = fs + s5;
    let s3 = p2 + s4;
    let s2 = ff + s3;
    let s1 = p1 + s2;
    assert(s1 =~= p1 + ff + p2 + fs + p3 + tc + p4);
    lemma_minify_plain(p1, false);
    lemma_minify_concat(p1, s2, 0, false);
    assert(minify(s1, 0, false) == p1 + minify(s2, 0, false));
    lemma_minify_concat(ff, s3, 0, false);
    let st_ff = minify_state(ff, 0, false);
    assert(minify(s2, 0, false) == minify(ff, 0, false) + minify(s3, 0, st_ff.1));
    lemma_minify_plain(p2, st_ff.1);
    lemma_minify_concat(p2, s4, 0, st_ff.1);
    assert(minify(s3, 0, st_ff.1) == p2 + minify(s4, 0, false));
    lemma_minify_concat(fs, s5, 0, false);
    let st_fs = minify_state(fs, 0, false);
    assert(minify(s4, 0, false) == minify(fs, 0, false) + minify(s5, 0, st_fs.1));
    lemma_minify_plain(p3, st_fs.1);
    lemma_minify_concat(p3, s6, 0, st_fs.1);
    assert(minify(s5, 0, st_fs.1) == p3 + minify(s6, 0, false));
    lemma_minify_concat(tc, p4, 0, false);
    let st_tc = minify_state(tc, 0, false);
    lemma_semicolon(st_tc.0, st_tc.1);
    assert(minify(s6, 0, false) == minify(tc, 0, false) + p4);
    let (a, b, c) = (minify(ff, 0, false), minify(fs, 0, false), minify(tc, 0, false));
    assert(p1 + (a + (p2 + (b + (p3 + (c + p4))))) =~= p1 + a + p2 + b + p3 + c + p4);
}

proof fn lemma_tail_decls(ff: Seq<char>)
    ensures
        minify("--mermaid-font-family:"@ + ff + ";"@, 0, false) == "--mermaid-font-family:"@ + minify(
            ff,
            0,
            false,
        ) + ";"@,
{
    lemma_plain_literals();
    let q1 = "--mermaid-font-family:"@;
    let p4 = ";"@;
    let t2 = ff + p4;
    assert(q1 + ff + p4 =~= q1 + t2);
    lemma_minify_plain(q1, false);
    lemma_minify_concat(q1, t2, 0, false);
    lemma_minify_concat(ff, p4, 0, false);
    let st = minify_state(ff, 0, false);
    lemma_semicolon(st.0, st.1);
    assert(minify(q1 + t2, 0, false) =~= q1 + minify(ff, 0, false) + p4);
}

proof fn lemma_frame_texts(id: Seq<char>, mf: Seq<char>, mfs: Seq<char>, mtc: Seq<char>)
    ensures
        "#"@ + id + "{"@ + ("font-family:"@ + mf + ";font-size:"@ + mfs + ";fill:"@ + mtc + ";"@) + "}"@
            + "@keyframes edge-animation-frame{"@ == "#"@ + id + "{font-family:"@ + mf + ";font-size:"@ + mfs
            + ";fill:"@ + mtc + ";}"@ + "@keyframes edge-animation-frame{"@,
        "#"@ + id + " :root{"@ + ("--mermaid-font-family:"@ + mf + ";"@) + "}"@ == "#"@ + id
            + " :root{--mermaid-font-family:"@ + mf + ";}"@,
{
    reveal_strlit("{");
    reveal_strlit("}");
    reveal_strlit(";");
    reveal_strlit(";}");
    reveal_strlit("font-family:");
    reveal_strlit("{font-family:");
    reveal_strlit(" :root{");
    reveal_strlit("--mermaid-font-family:");
    reveal_strlit(" :root{--mermaid-font-family:");
    assert("#"@ + id + "{"@ + ("font-family:"@ + mf + ";font-size:"@ + mfs + ";fill:"@ + mtc + ";"@) + "}"@
        + "@keyframes edge-animation-frame{"@ =~= "#"@ + id + "{font-family:"@ + mf + ";font-size:"@ + mfs
        + ";fill:"@ + mtc + ";}"@ + "@keyframes edge-animation-frame{"@);
    assert("#"@ + id + " :root{"@ + ("--mermaid-font-family:"@ + mf + ";"@) + "}"@ =~= "#"@ + id
        + " :root{--mermaid-font-family:"@ + mf + ";}"@);
}

#[verifier::spinoff_prover]
#[verifier::rlimit(100)]
/// Law: the state-diagram stylesheet opens with the rule
/// `#id{font-family:F;font-size:S;fill:C;}` and then the edge animation
/// keyframes, and closes with `#id :root{--mermaid-font-family:F;}`, where
/// F, S and C are the theme's font family, font size and text colour, each
/// minified on its own (spaces after commas outside parentheses dropped),
/// when the parentheses of the font family and font size close again.
pub proof fn statediagram_css_frame_values(id: Seq<char>, vars: Seq<(Seq<char>, ThemeValueV)>)
    requires
        closes_parens(tv(vars, "fontFamily"@)),
        closes_parens(tv(vars, "fontSize"@)),
    ensures
        starts_with(
            statediagram_css_text(id, vars),
            "#"@ + id + "{font-family:"@ + minify(tv(vars, "fontFamily"@), 0, false) + ";font-size:"@
                + minify(tv(vars, "fontSize"@), 0, false) + ";fill:"@ + minify(tv(vars, "textColor"@), 0, false)
                + ";}"@ + "@keyframes edge-animation-frame{"@,
        ),
        ends_with(
            statediagram_css_text(id, vars),
            "#"@ + id + " :root{--mermaid-font-family:"@ + minify(tv(vars, "fontFamily"@), 0, false) + ";}"@,
        ),
{
    let ff = tv(vars, "fontFamily"@);
    let fs = tv(vars, "fontSize"@);
    let tc = tv(vars, "textColor"@);
    statediagram_css_frame(id, vars);
    lemma_head_decls(ff, fs, tc);
    lemma_tail_decls(ff);
    lemma_frame_texts(id, minify(ff, 0, false), minify(fs, 0, false), minify(tc, 0, false));
}

} // verus!
