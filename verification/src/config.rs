//! The render configuration that `%%{init: ...}%%` directives set: each
//! directive's argument is read as JSON and its known keys are applied in
//! turn over the defaults. Numbers stay the JSON text they were written as.

use crate::render::{init_directive_args, init_directive_args_spec};
use crate::shapes::{trim_end_matches, trim_end_matches_exec};
use crate::strs::{chars_of, eq_str, is_float_literal, is_float_literal_exec, string_of, trim, trim_vec};
use vstd::prelude::*;

verus! {

#[verifier::external_type_specification]
#[verifier::external_body]
pub struct ExJsonValue(serde_json::Value);

/// A JSON value: numbers as their JSON text, objects as their members in
/// the order the parser lists them.
pub enum Json {
    Null,
    Bool(bool),
    Number(String),
    Str(String),
    Array(Vec<Json>),
    Object(Vec<(String, Json)>),
}

pub ghost enum JsonV {
    Null,
    Bool(bool),
    Number(Seq<char>),
    Str(Seq<char>),
    Array(Seq<JsonV>),
    Object(Seq<(Seq<char>, JsonV)>),
}

/// The model of a JSON value.
pub open spec fn json_view(j: Json) -> JsonV
    decreases j,
{
    match j {
        Json::Null => JsonV::Null,
        Json::Bool(b) => JsonV::Bool(b),
        Json::Number(t) => JsonV::Number(t@),
        Json::Str(s) => JsonV::Str(s@),
        Json::Array(a) => JsonV::Array(items_view(a@)),
        Json::Object(m) => JsonV::Object(members_view(m@)),
    }
}

/// The models of array items.
pub open spec fn items_view(a: Seq<Json>) -> Seq<JsonV>
    decreases a,
{
    if a.len() == 0 {
        Seq::empty()
    } else {
        items_view(a.subrange(0, a.len() - 1)).push(json_view(a[a.len() - 1]))
    }
}

/// The models of object members.
pub open spec fn members_view(m: Seq<(String, Json)>) -> Seq<(Seq<char>, JsonV)>
    decreases m,
{
    if m.len() == 0 {
        Seq::empty()
    } else {
        members_view(m.subrange(0, m.len() - 1)).push((m[m.len() - 1].0@, json_view(m[m.len() - 1].1)))
    }
}

impl View for Json {
    type V = JsonV;

    open spec fn view(&self) -> JsonV {
        json_view(*self)
    }
}

/// Members read one by one.
pub open spec fn members_map(m: Seq<(String, Json)>) -> Seq<(Seq<char>, JsonV)> {
    m.map_values(|p: (String, Json)| (p.0@, json_view(p.1)))
}

pub proof fn lemma_members_view(m: Seq<(String, Json)>)
    ensures
        members_view(m) == members_map(m),
    decreases m.len(),
{
    if m.len() > 0 {
        let init = m.subrange(0, m.len() - 1);
        lemma_members_view(init);
        assert(members_view(m) =~= members_map(m));
    } else {
        assert(members_view(m) =~= members_map(m));
    }
}

/// The JSON value that a text holds, as `serde_json` reads it; `None` when
/// the text is no JSON.
pub uninterp spec fn json_parse(text: Seq<char>) -> Option<JsonV>;

/// `serde_json::from_str::<Value>` on `text`, converted to the library's
/// model: the value the text holds, or `None` where serde_json reports an
/// error. What the value is, is named by [`json_parse`] and not stated.
#[verifier::external_body]
fn parse_json(text: &str) -> (r: Option<Json>)
    ensures
        match r {
            Some(j) => json_parse(text@) == Some(j@),
            None => json_parse(text@) is None,
        },
{
    match serde_json::from_str::<serde_json::Value>(text) {
        Ok(v) => Some(json_model(&v)),
        Err(_) => None,
    }
}

/// A `serde_json::Value` converted variant by variant into a [`Json`]:
/// numbers by their `Display` text, arrays and objects member by member in
/// the value's own order.
#[verifier::external_body]
fn json_model(v: &serde_json::Value) -> Json {
    match v {
        serde_json::Value::Null => Json::Null,
        serde_json::Value::Bool(b) => Json::Bool(*b),
        serde_json::Value::Number(n) => Json::Number(n.to_string()),
        serde_json::Value::String(s) => Json::Str(s.clone()),
        serde_json::Value::Array(a) => Json::Array(a.iter().map(json_model).collect()),
        serde_json::Value::Object(m) => Json::Object(
            m.iter().map(|(k, x)| (k.clone(), json_model(x))).collect(),
        ),
    }
}

/// The effective configuration: theme and look names, the theme-variable
/// overrides (each key once, in order of first setting), the flowchart's
/// and the top-level `htmlLabels`, the flowchart spacings as JSON number
/// texts, the edge curve and the git graph's commit-label switch.
pub struct InitConfig {
    pub theme: String,
    pub look: String,
    pub theme_variables: Vec<(String, Json)>,
    pub flowchart_html_labels: Option<bool>,
    pub top_html_labels: Option<bool>,
    pub node_spacing: String,
    pub rank_spacing: String,
    pub padding: String,
    pub wrapping_width: String,
    pub curve: Option<String>,
    pub git_show_commit_label: Option<bool>,
}

pub ghost struct InitConfigV {
    pub theme: Seq<char>,
    pub look: Seq<char>,
    pub theme_variables: Seq<(Seq<char>, JsonV)>,
    pub flowchart_html_labels: Option<bool>,
    pub top_html_labels: Option<bool>,
    pub node_spacing: Seq<char>,
    pub rank_spacing: Seq<char>,
    pub padding: Seq<char>,
    pub wrapping_width: Seq<char>,
    pub curve: Option<Seq<char>>,
    pub git_show_commit_label: Option<bool>,
}

pub open spec fn opt_text(o: Option<String>) -> Option<Seq<char>> {
    match o {
        Some(s) => Some(s@),
        None => None,
    }
}

impl View for InitConfig {
    type V = InitConfigV;

    open spec fn view(&self) -> InitConfigV {
        InitConfigV {
            theme: self.theme@,
            look: self.look@,
            theme_variables: members_map(self.theme_variables@),
            flowchart_html_labels: self.flowchart_html_labels,
            top_html_labels: self.top_html_labels,
            node_spacing: self.node_spacing@,
            rank_spacing: self.rank_spacing@,
            padding: self.padding@,
            wrapping_width: self.wrapping_width@,
            curve: opt_text(self.curve),
            git_show_commit_label: self.git_show_commit_label,
        }
    }
}

/// The defaults: the `default` theme, the classic look, no overrides, 50px
/// node and rank spacing, 15px padding, a 200px wrapping width.
pub open spec fn default_config() -> InitConfigV {
    InitConfigV {
        theme: "default"@,
        look: "classic"@,
        theme_variables: Seq::empty(),
        flowchart_html_labels: None,
        top_html_labels: None,
        node_spacing: "50"@,
        rank_spacing: "50"@,
        padding: "15"@,
        wrapping_width: "200"@,
        curve: None,
        git_show_commit_label: None,
    }
}

/// The value of the first member named `k`.
pub open spec fn member(m: Seq<(Seq<char>, JsonV)>, k: Seq<char>) -> Option<JsonV>
    decreases m.len(),
{
    if m.len() == 0 {
        None
    } else if m[0].0 == k {
        Some(m[0].1)
    } else {
        member(m.drop_first(), k)
    }
}

/// Member `k` of the object member `outer`.
pub open spec fn nested(m: Seq<(Seq<char>, JsonV)>, outer: Seq<char>, k: Seq<char>) -> Option<JsonV> {
    match member(m, outer) {
        Some(JsonV::Object(f)) => member(f, k),
        _ => None,
    }
}

/// `as_str`.
pub open spec fn str_of(j: Option<JsonV>) -> Option<Seq<char>> {
    match j {
        Some(JsonV::Str(s)) => Some(s),
        _ => None,
    }
}

/// `as_bool`.
pub open spec fn bool_of(j: Option<JsonV>) -> Option<bool> {
    match j {
        Some(JsonV::Bool(b)) => Some(b),
        _ => None,
    }
}

/// `as_f64`, as the number's text.
pub open spec fn number_of(j: Option<JsonV>) -> Option<Seq<char>> {
    match j {
        Some(JsonV::Number(t)) => Some(t),
        _ => None,
    }
}

/// `Some` replaces, `None` keeps.
pub open spec fn or_keep<T>(new: Option<T>, old: T) -> T {
    match new {
        Some(v) => v,
        None => old,
    }
}

/// The first position of key `k`.
pub open spec fn key_index(vars: Seq<(Seq<char>, JsonV)>, k: Seq<char>, i: nat) -> Option<nat>
    decreases vars.len() - i,
{
    if i >= vars.len() {
        None
    } else if vars[i as int].0 == k {
        Some(i)
    } else {
        key_index(vars, k, i + 1)
    }
}

/// Map insertion: key `k` takes value `v` where it is, or is appended.
pub open spec fn set_var(vars: Seq<(Seq<char>, JsonV)>, k: Seq<char>, v: JsonV) -> Seq<(Seq<char>, JsonV)> {
    match key_index(vars, k, 0) {
        Some(i) => vars.update(i as int, (k, v)),
        None => vars.push((k, v)),
    }
}

/// The members of `add` inserted in order.
pub open spec fn merge_vars(vars: Seq<(Seq<char>, JsonV)>, add: Seq<(Seq<char>, JsonV)>) -> Seq<(Seq<char>, JsonV)>
    decreases add.len(),
{
    if add.len() == 0 {
        vars
    } else {
        merge_vars(set_var(vars, add[0].0, add[0].1), add.drop_first())
    }
}

/// One directive's object applied: `theme`, `look`, `themeVariables`,
/// `flowchart.{htmlLabels, nodeSpacing, rankSpacing, padding,
/// wrappingWidth, curve}`, `gitGraph.showCommitLabel` and `htmlLabels`,
/// each where it holds a value of the expected kind.
pub open spec fn apply_init(c: InitConfigV, m: Seq<(Seq<char>, JsonV)>) -> InitConfigV {
    InitConfigV {
        theme: or_keep(str_of(member(m, "theme"@)), c.theme),
        look: or_keep(str_of(member(m, "look"@)), c.look),
        theme_variables: match member(m, "themeVariables"@) {
            Some(JsonV::Object(v)) => merge_vars(c.theme_variables, v),
            _ => c.theme_variables,
        },
        flowchart_html_labels: match bool_of(nested(m, "flowchart"@, "htmlLabels"@)) {
            Some(b) => Some(b),
            None => c.flowchart_html_labels,
        },
        node_spacing: or_keep(number_of(nested(m, "flowchart"@, "nodeSpacing"@)), c.node_spacing),
        rank_spacing: or_keep(number_of(nested(m, "flowchart"@, "rankSpacing"@)), c.rank_spacing),
        padding: or_keep(number_of(nested(m, "flowchart"@, "padding"@)), c.padding),
        wrapping_width: or_keep(number_of(nested(m, "flowchart"@, "wrappingWidth"@)), c.wrapping_width),
        curve: match str_of(nested(m, "flowchart"@, "curve"@)) {
            Some(s) => Some(s),
            None => c.curve,
        },
        git_show_commit_label: match bool_of(nested(m, "gitGraph"@, "showCommitLabel"@)) {
            Some(b) => Some(b),
            None => c.git_show_commit_label,
        },
        top_html_labels: match bool_of(member(m, "htmlLabels"@)) {
            Some(b) => Some(b),
            None => c.top_html_labels,
        },
    }
}

/// The parsed directive arguments applied in order; those that are no
/// JSON object are skipped.
pub open spec fn apply_all(c: InitConfigV, parsed: Seq<Option<JsonV>>) -> InitConfigV
    decreases parsed.len(),
{
    if parsed.len() == 0 {
        c
    } else {
        let c1 = match parsed[0] {
            Some(JsonV::Object(m)) => apply_init(c, m),
            _ => c,
        };
        apply_all(c1, parsed.drop_first())
    }
}

fn member_pos(m: &Vec<(String, Json)>, k: &str) -> (r: Option<usize>)
    ensures
        match r {
            Some(i) => i < m@.len() && member(members_map(m@), k@) == Some(json_view(m@[i as int].1)),
            None => member(members_map(m@), k@) is None,
        },
{
    let ghost mv = members_map(m@);
    let kv = chars_of(k);
    let mut i: usize = 0;
    assert(mv.skip(0) =~= mv);
    while i < m.len()
        invariant
            i <= m@.len(),
            mv == members_map(m@),
            kv@ == k@,
            member(mv, k@) == member(mv.skip(i as int), k@),
        decreases m@.len() - i,
    {
        proof {
            assert(mv.skip(i as int)[0] == mv[i as int]);
            assert(mv.skip(i as int).drop_first() =~= mv.skip(i + 1));
        }
        let c = chars_of(m[i].0.as_str());
        if crate::sequence::eq_slices(&c, &kv) {
            return Some(i);
        }
        i += 1;
    }
    None
}

fn get_str(m: &Vec<(String, Json)>, k: &str) -> (r: Option<String>)
    ensures
        opt_text(r) == str_of(member(members_map(m@), k@)),
{
    match member_pos(m, k) {
        Some(i) => match &m[i].1 {
            Json::Str(s) => Some(s.clone()),
            _ => None,
        },
        None => None,
    }
}

fn get_bool(m: &Vec<(String, Json)>, k: &str) -> (r: Option<bool>)
    ensures
        r == bool_of(member(members_map(m@), k@)),
{
    match member_pos(m, k) {
        Some(i) => match &m[i].1 {
            Json::Bool(b) => Some(*b),
            _ => None,
        },
        None => None,
    }
}

fn get_number(m: &Vec<(String, Json)>, k: &str) -> (r: Option<String>)
    ensures
        opt_text(r) == number_of(member(members_map(m@), k@)),
{
    match member_pos(m, k) {
        Some(i) => match &m[i].1 {
            Json::Number(t) => Some(t.clone()),
            _ => None,
        },
        None => None,
    }
}

fn set_string(target: &mut String, v: Option<String>)
    ensures
        final(target)@ == or_keep(opt_text(v), old(target)@),
{
    match v {
        Some(s) => {
            *target = s;
        },
        None => {},
    }
}

fn set_flag(target: &mut Option<bool>, v: Option<bool>)
    ensures
        *final(target) == (match v {
            Some(b) => Some(b),
            None => *old(target),
        }),
{
    match v {
        Some(b) => {
            *target = Some(b);
        },
        None => {},
    }
}

fn set_var_exec(vars: &mut Vec<(String, Json)>, k: String, v: Json)
    ensures
        members_map(final(vars)@) == set_var(members_map(old(vars)@), k@, v@),
{
    let ghost vv = members_map(vars@);
    let kv = chars_of(k.as_str());
    let mut i: usize = 0;
    while i < vars.len()
        invariant
            i <= vars@.len(),
            vv == members_map(vars@),
            vv == members_map(old(vars)@),
            kv@ == k@,
            key_index(vv, k@, 0) == key_index(vv, k@, i as nat),
        decreases vars@.len() - i,
    {
        let c = chars_of(vars[i].0.as_str());
        if crate::sequence::eq_slices(&c, &kv) {
            proof {
                assert(vv[i as int].0 == vars@[i as int].0@);
                assert(vv[i as int].0 == k@);
                assert(key_index(vv, k@, i as nat) == Some(i as nat));
            }
            let ghost before = vars@;
            vars.set(i, (k, v));
            proof {
                assert(members_map(vars@) =~= vv.update(i as int, (k@, v@)));
            }
            return;
        }
        i += 1;
    }
    let ghost before = vars@;
    vars.push((k, v));
    proof {
        assert(members_map(vars@) =~= vv.push((k@, v@)));
    }
}

fn merge_vars_exec(vars: &mut Vec<(String, Json)>, add: Vec<(String, Json)>)
    ensures
        members_map(final(vars)@) == merge_vars(members_map(old(vars)@), members_map(add@)),
{
    let mut add = add;
    let ghost goal = merge_vars(members_map(vars@), members_map(add@));
    while add.len() > 0
        invariant
            goal == merge_vars(members_map(vars@), members_map(add@)),
        decreases add@.len(),
    {
        let ghost av = members_map(add@);
        let (k, v) = add.remove(0);
        proof {
            assert(av[0] == (k@, v@));
            assert(members_map(add@) =~= av.drop_first());
        }
        set_var_exec(vars, k, v);
    }
    proof {
        assert(members_map(add@) =~= Seq::<(Seq<char>, JsonV)>::empty());
    }
}

fn nested_member(m: &Vec<(String, Json)>, outer: &str, k: &str, kind: u8) -> (r: (Option<String>, Option<bool>))
    ensures
        kind == 0 ==> opt_text(r.0) == number_of(nested(members_map(m@), outer@, k@)),
        kind == 1 ==> opt_text(r.0) == str_of(nested(members_map(m@), outer@, k@)),
        kind == 2 ==> r.1 == bool_of(nested(members_map(m@), outer@, k@)),
{
    match member_pos(m, outer) {
        Some(i) => match &m[i].1 {
            Json::Object(f) => {
                proof {
                    lemma_members_view(f@);
                }
                if kind == 0 {
                    (get_number(f, k), None)
                } else if kind == 1 {
                    (get_str(f, k), None)
                } else {
                    (None, get_bool(f, k))
                }
            },
            _ => (None, None),
        },
        None => (None, None),
    }
}

impl InitConfig {
    /// The defaults ([`default_config`]).
    pub fn new() -> (c: Self)
        ensures
            c@ == default_config(),
    {
        let c = InitConfig {
            theme: String::from_str("default"),
            look: String::from_str("classic"),
            theme_variables: Vec::new(),
            flowchart_html_labels: None,
            top_html_labels: None,
            node_spacing: String::from_str("50"),
            rank_spacing: String::from_str("50"),
            padding: String::from_str("15"),
            wrapping_width: String::from_str("200"),
            curve: None,
            git_show_commit_label: None,
        };
        assert(members_map(c.theme_variables@) =~= Seq::<(Seq<char>, JsonV)>::empty());
        c
    }

    /// [`apply_init`]: one directive's object applied over the configuration.
    pub fn apply_init(&mut self, m: Vec<(String, Json)>)
        ensures
            final(self)@ == apply_init(old(self)@, members_map(m@)),
    {
        let ghost mv = members_map(m@);
        set_string(&mut self.theme, get_str(&m, "theme"));
        set_string(&mut self.look, get_str(&m, "look"));
        set_flag(&mut self.flowchart_html_labels, nested_member(&m, "flowchart", "htmlLabels", 2).1);
        set_string(&mut self.node_spacing, nested_member(&m, "flowchart", "nodeSpacing", 0).0);
        set_string(&mut self.rank_spacing, nested_member(&m, "flowchart", "rankSpacing", 0).0);
        set_string(&mut self.padding, nested_member(&m, "flowchart", "padding", 0).0);
        set_string(&mut self.wrapping_width, nested_member(&m, "flowchart", "wrappingWidth", 0).0);
        let curve = nested_member(&m, "flowchart", "curve", 1).0;
        if curve.is_some() {
            self.curve = curve;
        }
        set_flag(&mut self.git_show_commit_label, nested_member(&m, "gitGraph", "showCommitLabel", 2).1);
        set_flag(&mut self.top_html_labels, get_bool(&m, "htmlLabels"));
        match member_pos(&m, "themeVariables") {
            Some(p) => {
                let mut m2 = m;
                let (_, v) = m2.remove(p);
                match v {
                    Json::Object(add) => {
                        proof {
                            lemma_members_view(add@);
                        }
                        merge_vars_exec(&mut self.theme_variables, add);
                    },
                    _ => {},
                }
            },
            None => {},
        }
    }

    /// `flowchart.htmlLabels`, else the top-level `htmlLabels`, else on.
    pub fn effective_html_labels(&self) -> (b: bool)
        ensures
            b == match self.flowchart_html_labels {
                Some(f) => f,
                None => match self.top_html_labels {
                    Some(t) => t,
                    None => true,
                },
            },
    {
        match self.flowchart_html_labels {
            Some(f) => f,
            None => match self.top_html_labels {
                Some(t) => t,
                None => true,
            },
        }
    }

    /// Node labels read only the top-level `htmlLabels` (default on).
    pub fn node_html_labels(&self) -> (b: bool)
        ensures
            b == match self.top_html_labels {
                Some(t) => t,
                None => true,
            },
    {
        match self.top_html_labels {
            Some(t) => t,
            None => true,
        }
    }

    /// `look: handDrawn` selected.
    pub fn is_hand_drawn(&self) -> (b: bool)
        ensures
            b == (self.look@ == "handDrawn"@),
    {
        let l = chars_of(self.look.as_str());
        eq_str(&l, "handDrawn")
    }

    /// The label font size that theme variable `fontSize` sets: its text
    /// without trailing `px`s, trimmed, when that is a float literal (the
    /// caller's default applies otherwise).
    pub fn font_size_literal(&self) -> (r: Option<String>)
        ensures
            opt_text(r) == match str_of(member(members_map(self.theme_variables@), "fontSize"@)) {
                Some(s) => if is_float_literal(trim(trim_end_matches(s, "px"@))) {
                    Some(trim(trim_end_matches(s, "px"@)))
                } else {
                    None
                },
                None => None,
            },
    {
        match get_str(&self.theme_variables, "fontSize") {
            Some(s) => {
                let sv = chars_of(s.as_str());
                let t = trim_vec(&trim_end_matches_exec(&sv, "px"));
                if is_float_literal_exec(&t) {
                    Some(string_of(&t))
                } else {
                    None
                }
            },
            None => None,
        }
    }
}

/// The configuration that the `init`/`initialize` directives of `text`
/// give: their arguments ([`init_directive_args`]) read as JSON
/// ([`json_parse`]), each object applied in turn over the defaults.
pub fn detect_init(text: &str) -> (c: InitConfig)
    ensures
        c@ == apply_all(default_config(), init_directive_args_spec(text@).map_values(|a: Seq<char>| json_parse(a))),
{
    let args = init_directive_args(text);
    let ghost parsed = init_directive_args_spec(text@).map_values(|a: Seq<char>| json_parse(a));
    let mut c = InitConfig::new();
    let mut i: usize = 0;
    proof {
        assert(parsed.skip(0) =~= parsed);
    }
    while i < args.len()
        invariant
            i <= args@.len(),
            args@.map_values(|s: String| s@) == init_directive_args_spec(text@),
            parsed == init_directive_args_spec(text@).map_values(|a: Seq<char>| json_parse(a)),
            apply_all(default_config(), parsed) == apply_all(c@, parsed.skip(i as int)),
        decreases args@.len() - i,
    {
        proof {
            assert(parsed.skip(i as int)[0] == parsed[i as int]);
            assert(parsed[i as int] == json_parse(args@[i as int]@));
            assert(parsed.skip(i as int).drop_first() =~= parsed.skip(i + 1));
        }
        match parse_json(args[i].as_str()) {
            Some(Json::Object(m)) => {
                proof {
                    lemma_members_view(m@);
                }
                c.apply_init(m);
            },
            _ => {},
        }
        i += 1;
    }
    proof {
        assert(parsed.skip(i as int) =~= Seq::<Option<JsonV>>::empty());
    }
    c
}

} // verus!
