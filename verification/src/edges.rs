//! Edge helpers: base64 encoding of edge point data (`btoa`), the arrowhead
//! markers an edge refers to, and the test for label-only styles.

use crate::css::strings_view;
use crate::markers::{
    colored_marker, create_colored_marker, marker_id, marker_table, suffix_pos_from,
};
use crate::strs::{
    chars_of, eq_str, find, find_str, push_char, trim, trim_vec,
};
use crate::svg::{
    set_attr, with_attr, Element, ElementV, NodeV,
};
use vstd::prelude::*;

verus! {

/// The base64 digit for a value below 64.
pub open spec fn b64_digit(v: nat) -> char {
    if v < 26 {
        (65 + v) as char
    } else if v < 52 {
        (97 + v - 26) as char
    } else if v < 62 {
        (48 + v - 52) as char
    } else if v == 62 {
        '+'
    } else {
        '/'
    }
}

/// Standard base64 with `=` padding, three bytes to four digits.
pub open spec fn base64(data: Seq<u8>) -> Seq<char>
    decreases data.len(),
{
    if data.len() == 0 {
        Seq::empty()
    } else if data.len() == 1 {
        let b0 = data[0] as nat;
        seq![b64_digit(b0 / 4), b64_digit((b0 % 4) * 16), '=', '=']
    } else if data.len() == 2 {
        let b0 = data[0] as nat;
        let b1 = data[1] as nat;
        seq![b64_digit(b0 / 4), b64_digit((b0 % 4) * 16 + b1 / 16), b64_digit((b1 % 16) * 4), '=']
    } else {
        let b0 = data[0] as nat;
        let b1 = data[1] as nat;
        let b2 = data[2] as nat;
        seq![
            b64_digit(b0 / 4),
            b64_digit((b0 % 4) * 16 + b1 / 16),
            b64_digit((b1 % 16) * 4 + b2 / 64),
            b64_digit(b2 % 64),
        ] + base64(data.skip(3))
    }
}

fn b64_digit_exec(v: u8) -> (c: char)
    requires
        v < 64,
    ensures
        c == b64_digit(v as nat),
{
    if v < 26 {
        (65 + v) as char
    } else if v < 52 {
        (97 + v - 26) as char
    } else if v < 62 {
        (48 + v - 52) as char
    } else if v == 62 {
        '+'
    } else {
        '/'
    }
}

/// Encodes bytes as standard padded base64.
pub fn base64_encode(data: &[u8]) -> (r: String)
    ensures
        r@ == base64(data@),
{
    let mut out = String::new();
    let mut i: usize = 0;
    assert(data@.skip(0) =~= data@);
    while i < data.len()
        invariant
            i <= data@.len(),
            out@ + base64(data@.skip(i as int)) == base64(data@),
        decreases data@.len() - i,
    {
        let ghost rest = data@.skip(i as int);
        let ghost out0 = out@;
        let n = data.len() - i;
        let b0 = data[i];
        proof {
            assert(rest[0] == b0);
        }
        push_char(&mut out, b64_digit_exec(b0 / 4));
        if n == 1 {
            push_char(&mut out, b64_digit_exec((b0 % 4) * 16));
            push_char(&mut out, '=');
            push_char(&mut out, '=');
            proof {
                assert(data@.skip(i + 1) =~= Seq::<u8>::empty());
            }
            i += 1;
        } else {
            let b1 = data[i + 1];
            proof {
                assert(rest[1] == b1);
            }
            push_char(&mut out, b64_digit_exec((b0 % 4) * 16 + b1 / 16));
            if n == 2 {
                push_char(&mut out, b64_digit_exec((b1 % 16) * 4));
                push_char(&mut out, '=');
                proof {
                    assert(data@.skip(i + 2) =~= Seq::<u8>::empty());
                }
                i += 2;
            } else {
                let b2 = data[i + 2];
                proof {
                    assert(rest[2] == b2);
                    assert(rest.skip(3) =~= data@.skip(i + 3));
                }
                push_char(&mut out, b64_digit_exec((b1 % 16) * 4 + b2 / 64));
                push_char(&mut out, b64_digit_exec(b2 % 64));
                i += 3;
            }
        }
        proof {
            let chunk = out@.skip(out0.len() as int);
            assert(out@ =~= out0 + chunk);
            assert(base64(rest) =~= chunk + base64(data@.skip(i as int)));
            assert(out@ + base64(data@.skip(i as int)) =~= out0 + base64(rest));
        }
    }
    proof {
        assert(data@.skip(i as int) =~= Seq::<u8>::empty());
        assert(out@ + Seq::<char>::empty() =~= out@);
    }
    out
}

/// A base64 digit or the padding character.
pub open spec fn is_b64_char(c: char) -> bool {
    ('A' <= c <= 'Z') || ('a' <= c <= 'z') || ('0' <= c <= '9') || c == '+' || c == '/' || c == '='
}

proof fn lemma_digit(v: nat)
    requires
        v < 64,
    ensures
        is_b64_char(b64_digit(v)),
{
}

/// Law: the encoding of `n` bytes has `4 * ceil(n / 3)` characters, all
/// base64 digits or padding.
pub proof fn base64_shape(data: Seq<u8>)
    ensures
        base64(data).len() == 4 * ((data.len() + 2) / 3),
        forall|i: int| 0 <= i < base64(data).len() ==> is_b64_char(#[trigger] base64(data)[i]),
    decreases data.len(),
{
    if data.len() >= 3 {
        base64_shape(data.skip(3));
        let b0 = data[0] as nat;
        let b1 = data[1] as nat;
        let b2 = data[2] as nat;
        lemma_digit(b0 / 4);
        lemma_digit((b0 % 4) * 16 + b1 / 16);
        lemma_digit((b1 % 16) * 4 + b2 / 64);
        lemma_digit(b2 % 64);
        let head = seq![
            b64_digit(b0 / 4),
            b64_digit((b0 % 4) * 16 + b1 / 16),
            b64_digit((b1 % 16) * 4 + b2 / 64),
            b64_digit(b2 % 64),
        ];
        assert forall|i: int| 0 <= i < base64(data).len() implies is_b64_char(
            #[trigger] base64(data)[i],
        ) by {
            if i >= 4 {
                assert(base64(data)[i] == base64(data.skip(3))[i - 4]);
            } else {
                assert(base64(data)[i] == head[i]);
            }
        }
    } else if data.len() == 2 {
        let b0 = data[0] as nat;
        let b1 = data[1] as nat;
        lemma_digit(b0 / 4);
        lemma_digit((b0 % 4) * 16 + b1 / 16);
        lemma_digit((b1 % 16) * 4);
    } else if data.len() == 1 {
        let b0 = data[0] as nat;
        lemma_digit(b0 / 4);
        lemma_digit((b0 % 4) * 16);
    }
}


/// The marker an arrow type uses, and whether its colored variant is
/// filled.
pub open spec fn arrow_marker(t: Seq<char>) -> Option<(Seq<char>, bool)> {
    if t == "arrow_cross"@ {
        Some(("cross"@, false))
    } else if t == "arrow_point"@ {
        Some(("point"@, true))
    } else if t == "arrow_circle"@ {
        Some(("circle"@, false))
    } else if t == "arrow_barb"@ {
        Some(("barb"@, true))
    } else if t == "aggregation"@ {
        Some(("aggregation"@, false))
    } else if t == "extension"@ {
        Some(("extension"@, false))
    } else if t == "composition"@ {
        Some(("composition"@, false))
    } else if t == "dependency"@ {
        Some(("dependency"@, false))
    } else if t == "lollipop"@ {
        Some(("lollipop"@, false))
    } else if t == "only_one"@ {
        Some(("onlyOne"@, false))
    } else if t == "zero_or_one"@ {
        Some(("zeroOrOne"@, false))
    } else if t == "one_or_more"@ {
        Some(("oneOrMore"@, false))
    } else if t == "zero_or_more"@ {
        Some(("zeroOrMore"@, false))
    } else {
        None
    }
}

fn arrow_marker_exec(t: &[char]) -> (r: Option<(&'static str, bool)>)
    ensures
        match r {
            Some((m, f)) => arrow_marker(t@) == Some((m@, f)),
            None => arrow_marker(t@) is None,
        },
{
    if eq_str(t, "arrow_cross") {
        Some(("cross", false))
    } else if eq_str(t, "arrow_point") {
        Some(("point", true))
    } else if eq_str(t, "arrow_circle") {
        Some(("circle", false))
    } else if eq_str(t, "arrow_barb") {
        Some(("barb", true))
    } else if eq_str(t, "aggregation") {
        Some(("aggregation", false))
    } else if eq_str(t, "extension") {
        Some(("extension", false))
    } else if eq_str(t, "composition") {
        Some(("composition", false))
    } else if eq_str(t, "dependency") {
        Some(("dependency", false))
    } else if eq_str(t, "lollipop") {
        Some(("lollipop", false))
    } else if eq_str(t, "only_one") {
        Some(("onlyOne", false))
    } else if eq_str(t, "zero_or_one") {
        Some(("zeroOrOne", false))
    } else if eq_str(t, "one_or_more") {
        Some(("oneOrMore", false))
    } else if eq_str(t, "zero_or_more") {
        Some(("zeroOrMore", false))
    } else {
        None
    }
}

/// An ASCII letter or digit (`char::is_ascii_alphanumeric`).
pub open spec fn is_ascii_alnum(c: char) -> bool {
    ('0' <= c <= '9') || ('a' <= c <= 'z') || ('A' <= c <= 'Z')
}

/// A color made usable inside an id: every character that is not an ASCII
/// letter or digit becomes `_`.
pub open spec fn color_key(c: Seq<char>) -> Seq<char> {
    c.map_values(|ch: char| if is_ascii_alnum(ch) { ch } else { '_' })
}

/// The markers an edge has created so far, and the element they go in.
pub struct MarkerState {
    pub root: Element,
    pub created: Vec<String>,
}

/// A fresh marker state over the marker container `root_g`: no colored
/// marker made yet.
pub fn render_markers_state(root_g: Element) -> (r: MarkerState)
    ensures
        r.root@ == root_g@,
        r.created@.len() == 0,
{
    MarkerState { root: root_g, created: Vec::new() }
}

/// The model of what [`add_edge_markers`] reads and changes: the edge path,
/// the marker container, and the ids of the colored markers made so far.
pub struct EdgeMarksV {
    pub path: ElementV,
    pub root: ElementV,
    pub created: Seq<Seq<char>>,
}

/// `root` with the colored variant of marker `suffix` appended, where the
/// flowchart set has such a marker.
pub open spec fn with_colored(
    root: ElementV,
    ty: Seq<char>,
    id: Seq<char>,
    suffix: Seq<char>,
    cid: Seq<char>,
    color: Seq<char>,
    fill: bool,
) -> ElementV {
    match suffix_pos_from(marker_table(), suffix, 0) {
        Some(i) => ElementV {
            children: root.children.push(
                NodeV::Element(colored_marker(marker_table()[i as int], ty, id, cid, color, fill)),
            ),
            ..root
        },
        None => root,
    }
}

/// One end of an edge: for a known arrow type, the path refers to the
/// marker of that type and end, or, for a non-blank stroke color, to its
/// colored variant, which is made the first time its id is needed.
pub open spec fn mark_end(
    st: EdgeMarksV,
    pos: Seq<char>,
    arrow: Seq<char>,
    id: Seq<char>,
    ty: Seq<char>,
    color: Seq<char>,
) -> EdgeMarksV {
    match arrow_marker(arrow) {
        None => st,
        Some((mt, fill)) => {
            let suffix = mt + if pos == "start"@ {
                "Start"@
            } else {
                "End"@
            };
            let orig = marker_id(id, ty, suffix);
            let attr = "marker-"@ + pos;
            if trim(color).len() == 0 {
                EdgeMarksV {
                    path: ElementV {
                        attrs: with_attr(st.path.attrs, attr, "url(#"@ + orig + ")"@),
                        ..st.path
                    },
                    ..st
                }
            } else {
                let cid = orig + "_"@ + color_key(color);
                let fresh = !st.created.contains(cid);
                EdgeMarksV {
                    path: ElementV {
                        attrs: with_attr(st.path.attrs, attr, "url(#"@ + cid + ")"@),
                        ..st.path
                    },
                    root: if fresh {
                        with_colored(st.root, ty, id, suffix, cid, color, fill)
                    } else {
                        st.root
                    },
                    created: if fresh {
                        st.created.push(cid)
                    } else {
                        st.created
                    },
                }
            }
        },
    }
}

fn color_key_exec(c: &[char]) -> (r: String)
    ensures
        r@ == color_key(c@),
{
    let mut out = String::new();
    let mut i: usize = 0;
    while i < c.len()
        invariant
            i <= c@.len(),
            out@ == color_key(c@.take(i as int)),
        decreases c@.len() - i,
    {
        let ch = c[i];
        if ('0' <= ch && ch <= '9') || ('a' <= ch && ch <= 'z') || ('A' <= ch && ch <= 'Z') {
            push_char(&mut out, ch);
        } else {
            push_char(&mut out, '_');
        }
        i += 1;
        assert(out@ =~= color_key(c@.take(i as int)));
    }
    assert(c@.take(i as int) =~= c@);
    out
}

fn contains_string(v: &Vec<String>, s: &String) -> (b: bool)
    ensures
        b == strings_view(v@).contains(s@),
{
    let mut i: usize = 0;
    while i < v.len()
        invariant
            i <= v@.len(),
            forall|j: int| 0 <= j < i ==> v@[j]@ != s@,
        decreases v@.len() - i,
    {
        if v[i] == *s {
            assert(strings_view(v@)[i as int] == s@);
            return true;
        }
        i += 1;
    }
    assert forall|j: int| 0 <= j < strings_view(v@).len() implies strings_view(v@)[j] != s@ by {
        assert(strings_view(v@)[j] == v@[j]@);
    }
    false
}

fn cat(s: String, t: &str) -> (r: String)
    ensures
        r@ == s@ + t@,
{
    let mut s = s;
    s.append(t);
    s
}

fn mark_end_exec(
    path: &mut Element,
    pos: &str,
    arrow: &str,
    id: &str,
    ty: &str,
    color: &str,
    markers: &mut MarkerState,
)
    ensures
        (EdgeMarksV {
            path: final(path)@,
            root: final(markers).root@,
            created: strings_view(final(markers).created@),
        }) == mark_end(
            EdgeMarksV {
                path: old(path)@,
                root: old(markers).root@,
                created: strings_view(old(markers).created@),
            },
            pos@,
            arrow@,
            id@,
            ty@,
            color@,
        ),
{
    let a = chars_of(arrow);
    let (mt, fill) = match arrow_marker_exec(&a) {
        Some(p) => p,
        None => {
            return;
        },
    };
    let p = chars_of(pos);
    let end: &str = if eq_str(&p, "start") {
        "Start"
    } else {
        "End"
    };
    let suffix = cat(String::from_str(mt), end);
    let orig = cat(cat(cat(cat(String::from_str(id), "_"), ty), "-"), suffix.as_str());
    let attr = cat(String::from_str("marker-"), pos);
    let cv = chars_of(color);
    let tc = trim_vec(&cv);
    if tc.len() == 0 {
        let url = cat(cat(String::from_str("url(#"), orig.as_str()), ")");
        set_attr(path, attr.as_str(), url.as_str());
        return;
    }
    let key = color_key_exec(&cv);
    let cid = cat(cat(orig, "_"), key.as_str());
    let ghost created0 = strings_view(markers.created@);
    if !contains_string(&markers.created, &cid) {
        markers.created.push(cid.clone());
        assert(strings_view(markers.created@) =~= created0.push(cid@));
        create_colored_marker(
            &mut markers.root,
            ty,
            id,
            suffix.as_str(),
            cid.as_str(),
            color,
            fill,
        );
    }
    let url = cat(cat(String::from_str("url(#"), cid.as_str()), ")");
    set_attr(path, attr.as_str(), url.as_str());
}

/// Points the edge path's `marker-start` and `marker-end` at the markers
/// for its arrow types; for a non-blank stroke color, at colored variants,
/// each made once per id.
pub fn add_edge_markers(
    svg_path: &mut Element,
    arrow_type_start: &str,
    arrow_type_end: &str,
    id: &str,
    diagram_type: &str,
    stroke_color: &str,
    markers: &mut MarkerState,
)
    ensures
        (EdgeMarksV {
            path: final(svg_path)@,
            root: final(markers).root@,
            created: strings_view(final(markers).created@),
        }) == mark_end(
            mark_end(
                EdgeMarksV {
                    path: old(svg_path)@,
                    root: old(markers).root@,
                    created: strings_view(old(markers).created@),
                },
                "start"@,
                arrow_type_start@,
                id@,
                diagram_type@,
                stroke_color@,
            ),
            "end"@,
            arrow_type_end@,
            id@,
            diagram_type@,
            stroke_color@,
        ),
{
    mark_end_exec(svg_path, "start", arrow_type_start, id, diagram_type, stroke_color, markers);
    mark_end_exec(svg_path, "end", arrow_type_end, id, diagram_type, stroke_color, markers);
}

/// Law: repeating an edge end with the same arrow, diagram and color makes
/// no second colored marker and leaves the marker container as it was.
pub proof fn colored_marker_made_once(
    st: EdgeMarksV,
    pos: Seq<char>,
    arrow: Seq<char>,
    id: Seq<char>,
    ty: Seq<char>,
    color: Seq<char>,
)
    ensures
        ({
            let once = mark_end(st, pos, arrow, id, ty, color);
            let twice = mark_end(once, pos, arrow, id, ty, color);
            twice.root == once.root && twice.created == once.created
        }),
{
    let once = mark_end(st, pos, arrow, id, ty, color);
    match arrow_marker(arrow) {
        None => {},
        Some((mt, fill)) => {
            let suffix = mt + if pos == "start"@ {
                "Start"@
            } else {
                "End"@
            };
            let cid = marker_id(id, ty, suffix) + "_"@ + color_key(color);
            if trim(color).len() != 0 {
                assert(once.created.contains(cid)) by {
                    if !st.created.contains(cid) {
                        assert(once.created[once.created.len() - 1] == cid);
                    }
                }
            }
        },
    }
}

/// A style that only colors label text: it sets `color:` and neither a
/// stroke nor a fill.
pub open spec fn is_label_style_spec(style: Seq<char>) -> bool {
    find(style, "color:"@) is Some && find(style, "stroke"@) is None && find(style, "fill"@) is None
}

/// Whether `style` only colors label text.
pub fn is_label_style(style: &str) -> (b: bool)
    ensures
        b == is_label_style_spec(style@),
{
    let v = chars_of(style);
    find_str(&v, "color:").is_some() && find_str(&v, "stroke").is_none() && find_str(
        &v,
        "fill",
    ).is_none()
}

} // verus!
