//! sequenceDiagram source parser and its database of participants,
//! messages, blocks and boxes.
//!
//! The parser reads the source line by line; each statement kind updates
//! the database as [`step`] states it, and [`parse`] is the fold of
//! [`step`] over the lines of the source.

use crate::keyed::{index_entries, index_insert, index_new, index_position, key_position};
use crate::strs::{
    ascii_lower, ascii_lower_seq, chars_of, copy_range, decimal, decimal_string, eq_ignore_ascii_case,
    eq_ignore_case_exec, eq_ignore_case_str, eq_str, find, find_char, find_char_exec,
    find_from_exec, find_str, is_ascii_ws, words, is_float_literal, debug_quoted, lines,
    strip_set, strip_set_end, strip_set_vec, lines_of, debug_quote, words_exec, is_float_literal_exec, strip_set_end_vec, chars_of_string, is_ascii_ws_char, lemma_find_char, lower_vec, rfind_char,
    rfind_char_exec, split_once_char, starts_with, starts_with_str, string_of, strip_prefix,
    strip_prefix_str, trim, trim_start, trim_start_vec, trim_vec,
};
use indexmap::IndexMap;
use vstd::prelude::*;

verus! {

// LINETYPE constants (sequenceDb).
pub const SOLID: i32 = 0;
pub const DOTTED: i32 = 1;
pub const NOTE: i32 = 2;
pub const SOLID_CROSS: i32 = 3;
pub const DOTTED_CROSS: i32 = 4;
pub const SOLID_OPEN: i32 = 5;
pub const DOTTED_OPEN: i32 = 6;
pub const LOOP_START: i32 = 10;
pub const LOOP_END: i32 = 11;
pub const ALT_START: i32 = 12;
pub const ALT_ELSE: i32 = 13;
pub const ALT_END: i32 = 14;
pub const OPT_START: i32 = 15;
pub const OPT_END: i32 = 16;
pub const PAR_START: i32 = 19;
pub const PAR_AND: i32 = 20;
pub const PAR_END: i32 = 21;
pub const RECT_START: i32 = 22;
pub const RECT_END: i32 = 23;
pub const CRITICAL_START: i32 = 27;
pub const CRITICAL_OPTION: i32 = 28;
pub const CRITICAL_END: i32 = 29;
pub const BREAK_START: i32 = 30;
pub const BREAK_END: i32 = 31;
pub const ACTIVE_START: i32 = 17;
pub const ACTIVE_END: i32 = 18;
pub const SOLID_POINT: i32 = 24;
pub const DOTTED_POINT: i32 = 25;
pub const AUTONUMBER: i32 = 26;
pub const BIDIRECTIONAL_SOLID: i32 = 33;
pub const BIDIRECTIONAL_DOTTED: i32 = 34;

// PLACEMENT constants.
pub const LEFTOF: i32 = 0;
pub const RIGHTOF: i32 = 1;
pub const OVER: i32 = 2;

/// A parse error for sequence diagram source.
pub struct SeqParseError {
    pub message: String,
}

/// An actor (participant).
pub struct Actor {
    pub name: String,
    pub description: String,
    pub prev_actor: Option<String>,
    pub next_actor: Option<String>,
    /// Index into [`SequenceDb::boxes`] when declared inside a `box`.
    pub box_index: Option<usize>,
    /// Declared with `actor` (stick figure) rather than `participant`.
    pub is_actor_man: bool,
    /// Participant metadata type (database/queue/...; empty for plain ones).
    pub meta_type: String,
    /// `link` statements: (label, url) in insertion order.
    pub links: Vec<(String, String)>,
}

/// The payload of an `autonumber` statement: the first two whitespace
/// separated tokens that read as numbers, and whether numbering is shown.
pub struct Autonumber {
    pub start: Option<String>,
    pub step: Option<String>,
    pub visible: bool,
}

/// A message/event row of the database.
pub struct SeqMessage {
    pub id: String,
    pub from: String,
    pub to: String,
    pub message: String,
    /// `LINETYPE` value.
    pub ty: i32,
    pub placement: Option<i32>,
    pub activate: bool,
    pub autonumber: Option<Autonumber>,
}

/// A `box` grouping of participants.
pub struct SeqBox {
    /// Title text; `None` when the box line only carried a color.
    pub name: Option<String>,
    pub fill: String,
    pub actor_keys: Vec<String>,
}

/// The parsed database.
pub struct SequenceDb {
    /// Participants in declaration order.
    pub actors: Vec<Actor>,
    /// Name of each participant to its position in `actors`.
    pub actor_index: IndexMap<String, usize>,
    pub messages: Vec<SeqMessage>,
    pub boxes: Vec<SeqBox>,
    /// `createdActors`: (actor id, index of the creating message).
    pub created_actors: Vec<(String, usize)>,
    /// `destroyedActors`: (actor id, index of the destroying message).
    pub destroyed_actors: Vec<(String, usize)>,
    pub current_box: Option<usize>,
}

pub ghost struct ActorV {
    pub name: Seq<char>,
    pub description: Seq<char>,
    pub prev_actor: Option<Seq<char>>,
    pub next_actor: Option<Seq<char>>,
    pub box_index: Option<usize>,
    pub is_actor_man: bool,
    pub meta_type: Seq<char>,
    pub links: Seq<(Seq<char>, Seq<char>)>,
}

pub ghost struct AutonumberV {
    pub start: Option<Seq<char>>,
    pub step: Option<Seq<char>>,
    pub visible: bool,
}

pub ghost struct MessageV {
    pub id: Seq<char>,
    pub from: Seq<char>,
    pub to: Seq<char>,
    pub message: Seq<char>,
    pub ty: i32,
    pub placement: Option<i32>,
    pub activate: bool,
    pub autonumber: Option<AutonumberV>,
}

pub ghost struct BoxV {
    pub name: Option<Seq<char>>,
    pub fill: Seq<char>,
    pub actor_keys: Seq<Seq<char>>,
}

pub ghost struct DbV {
    pub actors: Seq<ActorV>,
    pub messages: Seq<MessageV>,
    pub boxes: Seq<BoxV>,
    pub created: Seq<(Seq<char>, usize)>,
    pub destroyed: Seq<(Seq<char>, usize)>,
    pub current_box: Option<usize>,
}

pub open spec fn opt_view(o: Option<String>) -> Option<Seq<char>> {
    match o {
        Some(s) => Some(s@),
        None => None,
    }
}

pub open spec fn opt_chars(o: Option<Vec<char>>) -> Option<Seq<char>> {
    match o {
        Some(v) => Some(v@),
        None => None,
    }
}

pub open spec fn pairs_view(v: Seq<(String, String)>) -> Seq<(Seq<char>, Seq<char>)> {
    v.map_values(|p: (String, String)| (p.0@, p.1@))
}

pub open spec fn keyed_view(v: Seq<(String, usize)>) -> Seq<(Seq<char>, usize)> {
    v.map_values(|p: (String, usize)| (p.0@, p.1))
}

impl View for Actor {
    type V = ActorV;

    open spec fn view(&self) -> ActorV {
        ActorV {
            name: self.name@,
            description: self.description@,
            prev_actor: opt_view(self.prev_actor),
            next_actor: opt_view(self.next_actor),
            box_index: self.box_index,
            is_actor_man: self.is_actor_man,
            meta_type: self.meta_type@,
            links: pairs_view(self.links@),
        }
    }
}

impl View for Autonumber {
    type V = AutonumberV;

    open spec fn view(&self) -> AutonumberV {
        AutonumberV { start: opt_view(self.start), step: opt_view(self.step), visible: self.visible }
    }
}

impl View for SeqMessage {
    type V = MessageV;

    open spec fn view(&self) -> MessageV {
        MessageV {
            id: self.id@,
            from: self.from@,
            to: self.to@,
            message: self.message@,
            ty: self.ty,
            placement: self.placement,
            activate: self.activate,
            autonumber: match self.autonumber {
                Some(a) => Some(a@),
                None => None,
            },
        }
    }
}

impl View for SeqBox {
    type V = BoxV;

    open spec fn view(&self) -> BoxV {
        BoxV {
            name: opt_view(self.name),
            fill: self.fill@,
            actor_keys: self.actor_keys@.map_values(|k: String| k@),
        }
    }
}

impl View for SequenceDb {
    type V = DbV;

    open spec fn view(&self) -> DbV {
        DbV {
            actors: self.actors@.map_values(|a: Actor| a@),
            messages: self.messages@.map_values(|m: SeqMessage| m@),
            boxes: self.boxes@.map_values(|b: SeqBox| b@),
            created: keyed_view(self.created_actors@),
            destroyed: keyed_view(self.destroyed_actors@),
            current_box: self.current_box,
        }
    }
}


/// Strips a leading keyword (ASCII case-insensitive) followed by one ASCII
/// whitespace character.
pub open spec fn strip_keyword(line: Seq<char>, kw: Seq<char>) -> Option<Seq<char>> {
    if line.len() > kw.len() && eq_ignore_ascii_case(line.take(kw.len() as int), kw)
        && is_ascii_ws(line[kw.len() as int]) {
        Some(line.skip(kw.len() + 1 as int))
    } else {
        None
    }
}

/// `participant A as B`: the text around the first `" as "`.
pub open spec fn split_as(rest: Seq<char>) -> Option<(Seq<char>, Seq<char>)> {
    match find(rest, " as "@) {
        Some(i) => Some((rest.take(i as int), rest.skip(i + " as "@.len() as int))),
        None => None,
    }
}

/// `parseMessage`: trimmed text without one `wrap:`/`:wrap:`/`nowrap:`/
/// `:nowrap:` prefix.
pub open spec fn parse_message(text: Seq<char>) -> Seq<char> {
    let t = trim(text);
    let u = match strip_prefix(t, "wrap:"@) {
        Some(r) => r,
        None => match strip_prefix(t, ":wrap:"@) {
            Some(r) => r,
            None => match strip_prefix(t, "nowrap:"@) {
                Some(r) => r,
                None => match strip_prefix(t, ":nowrap:"@) {
                    Some(r) => r,
                    None => t,
                },
            },
        },
    };
    trim(u)
}

/// The CSS named colours and colour keywords accepted as a box colour.
pub open spec fn is_css_named_color(c: Seq<char>) -> bool {
    ||| c == "aliceblue"@
    ||| c == "antiquewhite"@
    ||| c == "aqua"@
    ||| c == "aquamarine"@
    ||| c == "azure"@
    ||| c == "beige"@
    ||| c == "bisque"@
    ||| c == "black"@
    ||| c == "blanchedalmond"@
    ||| c == "blue"@
    ||| c == "blueviolet"@
    ||| c == "brown"@
    ||| c == "burlywood"@
    ||| c == "cadetblue"@
    ||| c == "chartreuse"@
    ||| c == "chocolate"@
    ||| c == "coral"@
    ||| c == "cornflowerblue"@
    ||| c == "cornsilk"@
    ||| c == "crimson"@
    ||| c == "cyan"@
    ||| c == "darkblue"@
    ||| c == "darkcyan"@
    ||| c == "darkgoldenrod"@
    ||| c == "darkgray"@
    ||| c == "darkgreen"@
    ||| c == "darkgrey"@
    ||| c == "darkkhaki"@
    ||| c == "darkmagenta"@
    ||| c == "darkolivegreen"@
    ||| c == "darkorange"@
    ||| c == "darkorchid"@
    ||| c == "darkred"@
    ||| c == "darksalmon"@
    ||| c == "darkseagreen"@
    ||| c == "darkslateblue"@
    ||| c == "darkslategray"@
    ||| c == "darkslategrey"@
    ||| c == "darkturquoise"@
    ||| c == "darkviolet"@
    ||| c == "deeppink"@
    ||| c == "deepskyblue"@
    ||| c == "dimgray"@
    ||| c == "dimgrey"@
    ||| c == "dodgerblue"@
    ||| c == "firebrick"@
    ||| c == "floralwhite"@
    ||| c == "forestgreen"@
    ||| c == "fuchsia"@
    ||| c == "gainsboro"@
    ||| c == "ghostwhite"@
    ||| c == "gold"@
    ||| c == "goldenrod"@
    ||| c == "gray"@
    ||| c == "green"@
    ||| c == "greenyellow"@
    ||| c == "grey"@
    ||| c == "honeydew"@
    ||| c == "hotpink"@
    ||| c == "indianred"@
    ||| c == "indigo"@
    ||| c == "ivory"@
    ||| c == "khaki"@
    ||| c == "lavender"@
    ||| c == "lavenderblush"@
    ||| c == "lawngreen"@
    ||| c == "lemonchiffon"@
    ||| c == "lightblue"@
    ||| c == "lightcoral"@
    ||| c == "lightcyan"@
    ||| c == "lightgoldenrodyellow"@
    ||| c == "lightgray"@
    ||| c == "lightgreen"@
    ||| c == "lightgrey"@
    ||| c == "lightpink"@
    ||| c == "lightsalmon"@
    ||| c == "lightseagreen"@
    ||| c == "lightskyblue"@
    ||| c == "lightslategray"@
    ||| c == "lightslategrey"@
    ||| c == "lightsteelblue"@
    ||| c == "lightyellow"@
    ||| c == "lime"@
    ||| c == "limegreen"@
    ||| c == "linen"@
    ||| c == "magenta"@
    ||| c == "maroon"@
    ||| c == "mediumaquamarine"@
    ||| c == "mediumblue"@
    ||| c == "mediumorchid"@
    ||| c == "mediumpurple"@
    ||| c == "mediumseagreen"@
    ||| c == "mediumslateblue"@
    ||| c == "mediumspringgreen"@
    ||| c == "mediumturquoise"@
    ||| c == "mediumvioletred"@
    ||| c == "midnightblue"@
    ||| c == "mintcream"@
    ||| c == "mistyrose"@
    ||| c == "moccasin"@
    ||| c == "navajowhite"@
    ||| c == "navy"@
    ||| c == "oldlace"@
    ||| c == "olive"@
    ||| c == "olivedrab"@
    ||| c == "orange"@
    ||| c == "orangered"@
    ||| c == "orchid"@
    ||| c == "palegoldenrod"@
    ||| c == "palegreen"@
    ||| c == "paleturquoise"@
    ||| c == "palevioletred"@
    ||| c == "papayawhip"@
    ||| c == "peachpuff"@
    ||| c == "peru"@
    ||| c == "pink"@
    ||| c == "plum"@
    ||| c == "powderblue"@
    ||| c == "purple"@
    ||| c == "rebeccapurple"@
    ||| c == "red"@
    ||| c == "rosybrown"@
    ||| c == "royalblue"@
    ||| c == "saddlebrown"@
    ||| c == "salmon"@
    ||| c == "sandybrown"@
    ||| c == "seagreen"@
    ||| c == "seashell"@
    ||| c == "sienna"@
    ||| c == "silver"@
    ||| c == "skyblue"@
    ||| c == "slateblue"@
    ||| c == "slategray"@
    ||| c == "slategrey"@
    ||| c == "snow"@
    ||| c == "springgreen"@
    ||| c == "steelblue"@
    ||| c == "tan"@
    ||| c == "teal"@
    ||| c == "thistle"@
    ||| c == "tomato"@
    ||| c == "transparent"@
    ||| c == "turquoise"@
    ||| c == "violet"@
    ||| c == "wheat"@
    ||| c == "white"@
    ||| c == "whitesmoke"@
    ||| c == "yellow"@
    ||| c == "yellowgreen"@
    ||| c == "currentcolor"@
    ||| c == "inherit"@
    ||| c == "initial"@
    ||| c == "unset"@
    ||| c == "revert"@
    ||| c == "revert-layer"@
}

/// [`is_css_named_color`], executable.
pub fn is_css_named_color_exec(c: &[char]) -> (b: bool)
    ensures
        b == is_css_named_color(c@),
{
    eq_str(c, "aliceblue") || eq_str(c, "antiquewhite") || eq_str(c, "aqua") || eq_str(c, "aquamarine") || eq_str(c, "azure") || eq_str(c, "beige") || eq_str(c, "bisque") || eq_str(c, "black") || eq_str(c, "blanchedalmond") || eq_str(c, "blue") || eq_str(c, "blueviolet") || eq_str(c, "brown") || eq_str(c, "burlywood") || eq_str(c, "cadetblue") || eq_str(c, "chartreuse") || eq_str(c, "chocolate") || eq_str(c, "coral") || eq_str(c, "cornflowerblue") || eq_str(c, "cornsilk") || eq_str(c, "crimson") || eq_str(c, "cyan") || eq_str(c, "darkblue") || eq_str(c, "darkcyan") || eq_str(c, "darkgoldenrod") || eq_str(c, "darkgray") || eq_str(c, "darkgreen") || eq_str(c, "darkgrey") || eq_str(c, "darkkhaki") || eq_str(c, "darkmagenta") || eq_str(c, "darkolivegreen") || eq_str(c, "darkorange") || eq_str(c, "darkorchid") || eq_str(c, "darkred") || eq_str(c, "darksalmon") || eq_str(c, "darkseagreen") || eq_str(c, "darkslateblue") || eq_str(c, "darkslategray") || eq_str(c, "darkslategrey") || eq_str(c, "darkturquoise") || eq_str(c, "darkviolet") || eq_str(c, "deeppink") || eq_str(c, "deepskyblue") || eq_str(c, "dimgray") || eq_str(c, "dimgrey") || eq_str(c, "dodgerblue") || eq_str(c, "firebrick") || eq_str(c, "floralwhite") || eq_str(c, "forestgreen") || eq_str(c, "fuchsia") || eq_str(c, "gainsboro") || eq_str(c, "ghostwhite") || eq_str(c, "gold") || eq_str(c, "goldenrod") || eq_str(c, "gray") || eq_str(c, "green") || eq_str(c, "greenyellow") || eq_str(c, "grey") || eq_str(c, "honeydew") || eq_str(c, "hotpink") || eq_str(c, "indianred") || eq_str(c, "indigo") || eq_str(c, "ivory") || eq_str(c, "khaki") || eq_str(c, "lavender") || eq_str(c, "lavenderblush") || eq_str(c, "lawngreen") || eq_str(c, "lemonchiffon") || eq_str(c, "lightblue") || eq_str(c, "lightcoral") || eq_str(c, "lightcyan") || eq_str(c, "lightgoldenrodyellow") || eq_str(c, "lightgray") || eq_str(c, "lightgreen") || eq_str(c, "lightgrey") || eq_str(c, "lightpink") || eq_str(c, "lightsalmon") || eq_str(c, "lightseagreen") || eq_str(c, "lightskyblue") || eq_str(c, "lightslategray") || eq_str(c, "lightslategrey") || eq_str(c, "lightsteelblue") || eq_str(c, "lightyellow") || eq_str(c, "lime") || eq_str(c, "limegreen") || eq_str(c, "linen") || eq_str(c, "magenta") || eq_str(c, "maroon") || eq_str(c, "mediumaquamarine") || eq_str(c, "mediumblue") || eq_str(c, "mediumorchid") || eq_str(c, "mediumpurple") || eq_str(c, "mediumseagreen") || eq_str(c, "mediumslateblue") || eq_str(c, "mediumspringgreen") || eq_str(c, "mediumturquoise") || eq_str(c, "mediumvioletred") || eq_str(c, "midnightblue") || eq_str(c, "mintcream") || eq_str(c, "mistyrose") || eq_str(c, "moccasin") || eq_str(c, "navajowhite") || eq_str(c, "navy") || eq_str(c, "oldlace") || eq_str(c, "olive") || eq_str(c, "olivedrab") || eq_str(c, "orange") || eq_str(c, "orangered") || eq_str(c, "orchid") || eq_str(c, "palegoldenrod") || eq_str(c, "palegreen") || eq_str(c, "paleturquoise") || eq_str(c, "palevioletred") || eq_str(c, "papayawhip") || eq_str(c, "peachpuff") || eq_str(c, "peru") || eq_str(c, "pink") || eq_str(c, "plum") || eq_str(c, "powderblue") || eq_str(c, "purple") || eq_str(c, "rebeccapurple") || eq_str(c, "red") || eq_str(c, "rosybrown") || eq_str(c, "royalblue") || eq_str(c, "saddlebrown") || eq_str(c, "salmon") || eq_str(c, "sandybrown") || eq_str(c, "seagreen") || eq_str(c, "seashell") || eq_str(c, "sienna") || eq_str(c, "silver") || eq_str(c, "skyblue") || eq_str(c, "slateblue") || eq_str(c, "slategray") || eq_str(c, "slategrey") || eq_str(c, "snow") || eq_str(c, "springgreen") || eq_str(c, "steelblue") || eq_str(c, "tan") || eq_str(c, "teal") || eq_str(c, "thistle") || eq_str(c, "tomato") || eq_str(c, "transparent") || eq_str(c, "turquoise") || eq_str(c, "violet") || eq_str(c, "wheat") || eq_str(c, "white") || eq_str(c, "whitesmoke") || eq_str(c, "yellow") || eq_str(c, "yellowgreen") || eq_str(c, "currentcolor") || eq_str(c, "inherit") || eq_str(c, "initial") || eq_str(c, "unset") || eq_str(c, "revert") || eq_str(c, "revert-layer")
}

/// A character of a colour word: ASCII alphanumeric or `_`.
pub open spec fn is_word_char(c: char) -> bool {
    ('a' <= c <= 'z') || ('A' <= c <= 'Z') || ('0' <= c <= '9') || c == '_'
}

/// Position of the first non-word character, or the length.
pub open spec fn word_end(s: Seq<char>, i: nat) -> nat
    decreases s.len() - i,
{
    if i >= s.len() {
        s.len()
    } else if !is_word_char(s[i as int]) {
        i
    } else {
        word_end(s, i + 1)
    }
}

/// `rgb`/`rgba`/`hsl`/`hsla` followed (after spaces) by `(`.
pub open spec fn is_color_function(lower: Seq<char>, f: Seq<char>) -> bool {
    match strip_prefix(lower, f) {
        Some(r) => starts_with(trim_start(r), "("@),
        None => false,
    }
}

/// `parseBoxData`: a leading colour (a name or an `rgb()`/`hsl()` call) and
/// the title after it; an unknown colour leaves the whole text as title.
pub open spec fn parse_box_data(s: Seq<char>) -> (Seq<char>, Option<Seq<char>>) {
    let lower = ascii_lower_seq(s);
    let is_fn = is_color_function(lower, "rgb"@) || is_color_function(lower, "rgba"@)
        || is_color_function(lower, "hsl"@) || is_color_function(lower, "hsla"@);
    let (color, rest) = if is_fn {
        match rfind_char(s, ')') {
            Some(i) => (s.take(i + 1 as int), s.skip(i + 1 as int)),
            None => (s, Seq::<char>::empty()),
        }
    } else {
        let end = word_end(s, 0);
        (s.take(end as int), s.skip(end as int))
    };
    let color_ok = if color.len() == 0 {
        false
    } else if color.contains('(') {
        true
    } else {
        is_css_named_color(ascii_lower_seq(color))
    };
    let (color, title) = if color_ok {
        (color, trim(rest))
    } else {
        ("transparent"@, trim(s))
    };
    (color, if title.len() == 0 { None } else { Some(title) })
}

/// [`strip_keyword`], executable.
pub fn strip_keyword_exec(line: &[char], kw: &str) -> (r: Option<Vec<char>>)
    ensures
        r matches Some(v) ==> strip_keyword(line@, kw@) == Some(v@),
        r is None ==> strip_keyword(line@, kw@) is None,
{
    let kv = chars_of(kw);
    let n = kv.len();
    if line.len() > n {
        let head = copy_range(line, 0, n);
        if eq_ignore_case_exec(&head, &kv) && is_ascii_ws_char(line[n]) {
            return Some(copy_range(line, n + 1, line.len()));
        }
    }
    None
}

/// [`split_as`], executable.
pub fn split_as_exec(rest: &[char]) -> (r: Option<(Vec<char>, Vec<char>)>)
    ensures
        r matches Some(p) ==> split_as(rest@) == Some((p.0@, p.1@)),
        r is None ==> split_as(rest@) is None,
{
    let pat = chars_of(" as ");
    let found = find_from_exec(rest, &pat, 0);
    match found {
        Some(i) => {
            let n = rest.len();
            assert(i + pat@.len() <= n);
            Some((copy_range(rest, 0, i), copy_range(rest, i + pat.len(), rest.len())))
        },
        None => None,
    }
}

/// [`parse_message`], executable.
pub fn parse_message_exec(text: &[char]) -> (r: Vec<char>)
    ensures
        r@ == parse_message(text@),
{
    let t = trim_vec(text);
    let u = match strip_prefix_str(&t, "wrap:") {
        Some(r) => r,
        None => match strip_prefix_str(&t, ":wrap:") {
            Some(r) => r,
            None => match strip_prefix_str(&t, "nowrap:") {
                Some(r) => r,
                None => match strip_prefix_str(&t, ":nowrap:") {
                    Some(r) => r,
                    None => t,
                },
            },
        },
    };
    trim_vec(&u)
}

fn is_word_char_exec(c: char) -> (b: bool)
    ensures
        b == is_word_char(c),
{
    ('a' <= c && c <= 'z') || ('A' <= c && c <= 'Z') || ('0' <= c && c <= '9') || c == '_'
}

fn word_end_exec(s: &[char]) -> (e: usize)
    ensures
        e == word_end(s@, 0),
        e <= s@.len(),
{
    let mut i: usize = 0;
    while i < s.len() && is_word_char_exec(s[i])
        invariant
            i <= s@.len(),
            word_end(s@, 0) == word_end(s@, i as nat),
        decreases s@.len() - i,
    {
        i += 1;
    }
    i
}

fn is_color_function_exec(lower: &[char], f: &str) -> (b: bool)
    ensures
        b == is_color_function(lower@, f@),
{
    match strip_prefix_str(lower, f) {
        Some(r) => {
            let t = trim_start_vec(&r);
            starts_with_str(&t, "(")
        },
        None => false,
    }
}

fn contains_char_exec(s: &[char], c: char) -> (b: bool)
    ensures
        b == s@.contains(c),
{
    let r = find_char_exec(s, c);
    proof {
        lemma_find_char(s@, c);
    }
    match r {
        Some(_) => true,
        None => false,
    }
}

/// [`parse_box_data`], executable.
pub fn parse_box_data_exec(s: &[char]) -> (r: (String, Option<String>))
    ensures
        (r.0@, opt_view(r.1)) == parse_box_data(s@),
{
    let lower = lower_vec(s);
    let is_fn = is_color_function_exec(&lower, "rgb") || is_color_function_exec(&lower, "rgba")
        || is_color_function_exec(&lower, "hsl") || is_color_function_exec(&lower, "hsla");
    let (color, rest) = if is_fn {
        let found = rfind_char_exec(s, ')');
        match found {
            Some(i) => {
                let n = s.len();
                assert(i < n);
                (copy_range(s, 0, i + 1), copy_range(s, i + 1, s.len()))
            },
            None => {
                let e: Vec<char> = Vec::new();
                assert(e@ =~= Seq::<char>::empty());
                (copy_range(s, 0, s.len()), e)
            },
        }
    } else {
        let end = word_end_exec(s);
        (copy_range(s, 0, end), copy_range(s, end, s.len()))
    };
    proof {
        assert(s@.subrange(0, s@.len() as int) =~= s@);
    }
    let color_ok = if color.len() == 0 {
        false
    } else if contains_char_exec(&color, '(') {
        true
    } else {
        let lc = lower_vec(&color);
        is_css_named_color_exec(&lc)
    };
    let (color_s, title) = if color_ok {
        (string_of(&color), trim_vec(&rest))
    } else {
        (String::from_str("transparent"), trim_vec(s))
    };
    let title_o = if title.len() == 0 {
        None
    } else {
        Some(string_of(&title))
    };
    (color_s, title_o)
}

/// The message arrows, longest first.
pub open spec fn arrows() -> Seq<Seq<char>> {
    seq![
        "<<-->>"@,
        "<<->>"@,
        "-->>"@,
        "->>"@,
        "--x"@,
        "--)"@,
        "-->"@,
        "-x"@,
        "-)"@,
        "->"@,
    ]
}

/// The `LINETYPE` each arrow of [`arrows`] stands for.
pub open spec fn arrow_type(k: nat) -> i32 {
    if k == 0 {
        BIDIRECTIONAL_DOTTED
    } else if k == 1 {
        BIDIRECTIONAL_SOLID
    } else if k == 2 {
        DOTTED
    } else if k == 3 {
        SOLID
    } else if k == 4 {
        DOTTED_CROSS
    } else if k == 5 {
        DOTTED_POINT
    } else if k == 6 {
        DOTTED_OPEN
    } else if k == 7 {
        SOLID_CROSS
    } else if k == 8 {
        SOLID_POINT
    } else {
        SOLID_OPEN
    }
}

/// One step of the arrow search: arrow `k` replaces the best so far when it
/// occurs earlier, or at the same place and is longer.
pub open spec fn arrow_step(line: Seq<char>, best: Option<(nat, nat)>, k: nat) -> Option<(nat, nat)> {
    match find(line, arrows()[k as int]) {
        Some(i) => match best {
            Some((bi, bk)) => if i < bi || (i == bi && arrows()[k as int].len()
                > arrows()[bk as int].len()) {
                Some((i, k))
            } else {
                best
            },
            None => Some((i, k)),
        },
        None => best,
    }
}

/// The best arrow among the first `n` of [`arrows`]: (position, arrow).
pub open spec fn best_arrow(line: Seq<char>, n: nat) -> Option<(nat, nat)>
    decreases n,
{
    if n == 0 {
        None
    } else {
        arrow_step(line, best_arrow(line, (n - 1) as nat), (n - 1) as nat)
    }
}

/// The text before the leftmost (then longest) arrow, the arrow, and the
/// text after it.
pub open spec fn split_arrow(line: Seq<char>) -> Option<(Seq<char>, nat, Seq<char>)> {
    match best_arrow(line, 10) {
        Some((i, k)) => Some(
            (line.take(i as int), k, line.skip(i + arrows()[k as int].len() as int)),
        ),
        None => None,
    }
}

fn arrow_text(k: usize) -> (r: &'static str)
    requires
        k < 10,
    ensures
        r@ == arrows()[k as int],
{
    match k {
        0 => "<<-->>",
        1 => "<<->>",
        2 => "-->>",
        3 => "->>",
        4 => "--x",
        5 => "--)",
        6 => "-->",
        7 => "-x",
        8 => "-)",
        _ => "->",
    }
}

fn arrow_type_exec(k: usize) -> (t: i32)
    ensures
        t == arrow_type(k as nat),
{
    match k {
        0 => BIDIRECTIONAL_DOTTED,
        1 => BIDIRECTIONAL_SOLID,
        2 => DOTTED,
        3 => SOLID,
        4 => DOTTED_CROSS,
        5 => DOTTED_POINT,
        6 => DOTTED_OPEN,
        7 => SOLID_CROSS,
        8 => SOLID_POINT,
        _ => SOLID_OPEN,
    }
}

/// [`split_arrow`], executable.
pub fn split_arrow_exec(line: &[char]) -> (r: Option<(Vec<char>, usize, Vec<char>)>)
    ensures
        r matches Some(p) ==> split_arrow(line@) == Some((p.0@, p.1 as nat, p.2@)),
        r is None ==> split_arrow(line@) is None,
{
    let mut best: Option<(usize, usize, usize)> = None;
    let mut k: usize = 0;
    while k < 10
        invariant
            k <= 10,
            match best {
                Some((bi, bk, bl)) => best_arrow(line@, k as nat) == Some((bi as nat, bk as nat))
                    && bk < 10 && bl == arrows()[bk as int].len() && bi + bl <= line@.len(),
                None => best_arrow(line@, k as nat) is None,
            },
        decreases 10 - k,
    {
        let a = arrow_text(k);
        let av = chars_of(a);
        let found = find_str(line, a);
        match found {
            Some(i) => {
                match best {
                    Some((bi, bk, bl)) => {
                        if i < bi || (i == bi && av.len() > bl) {
                            best = Some((i, k, av.len()));
                        }
                    },
                    None => {
                        best = Some((i, k, av.len()));
                    },
                }
            },
            None => {},
        }
        k += 1;
    }
    match best {
        Some((i, k, l)) => {
            let n = line.len();
            assert(i + l <= n);
            Some((copy_range(line, 0, i), k, copy_range(line, i + l, line.len())))
        },
        None => None,
    }
}

/// The index entries a list of actors stands for: each name with its position.
pub open spec fn name_entries(actors: Seq<ActorV>) -> Seq<(Seq<char>, usize)> {
    Seq::new(actors.len(), |i: int| (actors[i].name, i as usize))
}

/// Position of the actor named `id`.
pub open spec fn actor_position(actors: Seq<ActorV>, id: Seq<char>) -> Option<nat> {
    key_position(name_entries(actors), id)
}

/// The database before any statement.
pub open spec fn empty_db() -> DbV {
    DbV {
        actors: Seq::empty(),
        messages: Seq::empty(),
        boxes: Seq::empty(),
        created: Seq::empty(),
        destroyed: Seq::empty(),
        current_box: None,
    }
}

/// `addActor`: a known actor only takes a new description (when one is
/// given); a new one is appended after the last actor, linked to it both
/// ways, and joins the open box.
pub open spec fn add_actor(db: DbV, id: Seq<char>, desc: Option<Seq<char>>) -> DbV {
    match actor_position(db.actors, id) {
        Some(p) => match desc {
            Some(d) => DbV {
                actors: db.actors.update(p as int, ActorV { description: d, ..db.actors[p as int] }),
                ..db
            },
            None => db,
        },
        None => {
            let n = db.actors.len();
            let linked = if n > 0 {
                db.actors.update(
                    n - 1,
                    ActorV { next_actor: Some(id), ..db.actors[n - 1] },
                )
            } else {
                db.actors
            };
            let boxes = match db.current_box {
                Some(bi) => db.boxes.update(
                    bi as int,
                    BoxV { actor_keys: db.boxes[bi as int].actor_keys.push(id), ..db.boxes[bi as int] },
                ),
                None => db.boxes,
            };
            let actor = ActorV {
                name: id,
                description: match desc {
                    Some(d) => d,
                    None => id,
                },
                prev_actor: if n > 0 {
                    Some(db.actors[n - 1].name)
                } else {
                    None
                },
                next_actor: None,
                box_index: db.current_box,
                is_actor_man: false,
                meta_type: Seq::empty(),
                links: Seq::empty(),
            };
            DbV { actors: linked.push(actor), boxes, ..db }
        },
    }
}

/// A message row with the given fields, numbered by the messages before it.
pub open spec fn message(db: DbV, from: Seq<char>, to: Seq<char>, text: Seq<char>, ty: i32) -> MessageV {
    MessageV {
        id: decimal(db.messages.len()),
        from,
        to,
        message: text,
        ty,
        placement: None,
        activate: false,
        autonumber: None,
    }
}

/// `db` with `m` appended to its messages.
pub open spec fn push_message(db: DbV, m: MessageV) -> DbV {
    DbV { messages: db.messages.push(m), ..db }
}

impl SequenceDb {
    /// The name index agrees with the actor list, and the open box exists.
    pub open spec fn wf(&self) -> bool {
        &&& index_entries(self.actor_index) == name_entries(self@.actors)
        &&& match self.current_box {
            Some(b) => b < self.boxes@.len(),
            None => true,
        }
    }

    /// An empty database.
    pub fn new() -> (db: Self)
        ensures
            db.wf(),
            db@ == empty_db(),
    {
        let db = SequenceDb {
            actors: Vec::new(),
            actor_index: index_new(),
            messages: Vec::new(),
            boxes: Vec::new(),
            created_actors: Vec::new(),
            destroyed_actors: Vec::new(),
            current_box: None,
        };
        proof {
            assert(name_entries(db@.actors) =~= Seq::<(Seq<char>, usize)>::empty());
            assert(db@.actors =~= Seq::<ActorV>::empty());
            assert(db@.messages =~= Seq::<MessageV>::empty());
            assert(db@.boxes =~= Seq::<BoxV>::empty());
            assert(db@.created =~= Seq::<(Seq<char>, usize)>::empty());
            assert(db@.destroyed =~= Seq::<(Seq<char>, usize)>::empty());
        }
        db
    }

    /// The position of the actor named `id`.
    pub fn actor_position_exec(&self, id: &str) -> (r: Option<usize>)
        requires
            self.wf(),
        ensures
            match r {
                Some(p) => actor_position(self@.actors, id@) == Some(p as nat) && p < self@.actors.len(),
                None => actor_position(self@.actors, id@) is None,
            },
    {
        let r = index_position(&self.actor_index, id);
        proof {
            crate::keyed::lemma_key_position(index_entries(self.actor_index), id@);
        }
        r
    }

    /// [`add_actor`], executable.
    pub fn add_actor(&mut self, id: &[char], desc: Option<Vec<char>>)
        requires
            old(self).wf(),
        ensures
            final(self).wf(),
            final(self)@ == add_actor(old(self)@, id@, opt_chars(desc)),
    {
        let id_s = string_of(id);
        let ghost d = opt_chars(desc);
        let pos = self.actor_position_exec(id_s.as_str());
        match pos {
            Some(p) => {
                match desc {
                    Some(dv) => {
                        let ds = string_of(&dv);
                        self.actors[p].description = ds;
                        proof {
                            assert(self@.actors =~= old(self)@.actors.update(
                                p as int,
                                ActorV { description: dv@, ..old(self)@.actors[p as int] },
                            ));
                            assert(name_entries(self@.actors) =~= name_entries(old(self)@.actors));
                        }
                    },
                    None => {},
                }
            },
            None => {
                let n = self.actors.len();
                let ghost a0 = self@.actors;
                let ghost b0 = self@.boxes;
                let prev = if n > 0 {
                    self.actors[n - 1].next_actor = Some(id_s.clone());
                    proof {
                        assert(self@.actors =~= a0.update(
                            n - 1,
                            ActorV { next_actor: Some(id@), ..a0[n - 1] },
                        ));
                    }
                    Some(self.actors[n - 1].name.clone())
                } else {
                    None
                };
                let ghost a1 = self@.actors;
                match self.current_box {
                    Some(bi) => {
                        self.boxes[bi].actor_keys.push(id_s.clone());
                        proof {
                            assert(self.boxes@[bi as int].actor_keys@.map_values(|k: String| k@)
                                =~= b0[bi as int].actor_keys.push(id@));
                            assert(self@.boxes =~= b0.update(
                                bi as int,
                                BoxV { actor_keys: b0[bi as int].actor_keys.push(id@), ..b0[bi as int] },
                            ));
                        }
                    },
                    None => {},
                }
                let _ = index_insert(&mut self.actor_index, id_s.clone(), n);
                let description = match desc {
                    Some(dv) => string_of(&dv),
                    None => id_s.clone(),
                };
                let cb = self.current_box;
                let actor = Actor {
                    name: id_s,
                    description,
                    prev_actor: prev,
                    next_actor: None,
                    box_index: cb,
                    is_actor_man: false,
                    meta_type: String::new(),
                    links: Vec::new(),
                };
                proof {
                    assert(actor@.links =~= Seq::<(Seq<char>, Seq<char>)>::empty());
                }
                self.actors.push(actor);
                proof {
                    let want = add_actor(old(self)@, id@, d);
                    assert(self@.actors =~= a1.push(actor@));
                    assert(self@.actors =~= want.actors);
                    assert(self@.boxes =~= want.boxes);
                    assert(name_entries(self@.actors) =~= name_entries(old(self)@.actors).push(
                        (id@, n),
                    ));
                }
            },
        }
    }

    /// Appends a message row.
    pub fn push_message(&mut self, m: SeqMessage)
        requires
            old(self).wf(),
        ensures
            final(self).wf(),
            final(self)@ == push_message(old(self)@, m@),
    {
        self.messages.push(m);
        proof {
            assert(self@.messages =~= old(self)@.messages.push(m@));
        }
    }

    /// A message row numbered by the messages so far.
    pub fn message(&self, from: &[char], to: &[char], text: &[char], ty: i32) -> (m: SeqMessage)
        ensures
            m@ == message(self@, from@, to@, text@, ty),
    {
        let n = self.messages.len();
        proof {
            assert(self@.messages.len() == n);
        }
        SeqMessage {
            id: decimal_string(n),
            from: string_of(from),
            to: string_of(to),
            message: string_of(text),
            ty,
            placement: None,
            activate: false,
            autonumber: None,
        }
    }
}

/// `HashMap::insert` on a list of (key, value) pairs with distinct keys: the
/// key's pair takes the new value, or a new pair is appended.
pub open spec fn assoc_insert(m: Seq<(Seq<char>, usize)>, k: Seq<char>, v: usize) -> Seq<
    (Seq<char>, usize),
> {
    match key_position(m, k) {
        Some(i) => m.update(i as int, (k, v)),
        None => m.push((k, v)),
    }
}

/// The parser's state between lines.
pub ghost struct StateV {
    pub db: DbV,
    pub found: bool,
    pub blocks: Seq<i32>,
    pub in_box: bool,
}

/// The state before the first line.
pub open spec fn initial_state() -> StateV {
    StateV { db: empty_db(), found: false, blocks: Seq::empty(), in_box: false }
}

/// `participant X [as Alias] [@{ "type": "..." }]`: the text before the
/// metadata and the metadata's `type` value.
pub open spec fn participant_meta(rest: Seq<char>) -> (Seq<char>, Seq<char>) {
    match find(rest, "@{"@) {
        Some(at) => {
            let meta = strip_set_end(rest.skip(at + 2 as int), seq!['}']);
            let mt = match find(meta, "\"type\""@) {
                Some(tpos) => {
                    let after = meta.skip(tpos + 6 as int);
                    match find_char(after, ':') {
                        Some(c) => strip_set(trim(after.skip(c + 1 as int)), seq!['"', ',', ' ']),
                        None => Seq::empty(),
                    }
                },
                None => Seq::empty(),
            };
            (trim(rest.take(at as int)), mt)
        },
        None => (rest, Seq::empty()),
    }
}

/// A `participant`/`actor` statement (after its keyword).
pub open spec fn participant_stmt(db: DbV, rest0: Seq<char>, is_man: bool, created: bool) -> DbV {
    let (rest, meta) = participant_meta(trim(rest0));
    let (db1, id) = match split_as(rest) {
        Some((id, alias)) => (add_actor(db, trim(id), Some(trim(alias))), trim(id)),
        None => (add_actor(db, rest, None), rest),
    };
    let db2 = match actor_position(db1.actors, id) {
        Some(p) => {
            let a = db1.actors[p as int];
            DbV {
                actors: db1.actors.update(
                    p as int,
                    ActorV {
                        is_actor_man: if is_man {
                            true
                        } else {
                            a.is_actor_man
                        },
                        meta_type: if meta.len() > 0 {
                            meta
                        } else {
                            a.meta_type
                        },
                        ..a
                    },
                ),
                ..db1
            }
        },
        None => db1,
    };
    if created {
        DbV { created: assoc_insert(db2.created, id, db2.messages.len() as usize), ..db2 }
    } else {
        db2
    }
}

/// A `link Actor: Label @ URL` statement (after its keyword).
pub open spec fn link_stmt(db: DbV, rest: Seq<char>) -> DbV {
    match find_char(rest, ':') {
        Some(colon) => {
            let actor = trim(rest.take(colon as int));
            let after = rest.skip(colon + 1 as int);
            match find_char(after, '@') {
                Some(at) => {
                    let label = trim(after.take(at as int));
                    let url = trim(after.skip(at + 1 as int));
                    match actor_position(db.actors, actor) {
                        Some(p) => DbV {
                            actors: db.actors.update(
                                p as int,
                                ActorV {
                                    links: db.actors[p as int].links.push((label, url)),
                                    ..db.actors[p as int]
                                },
                            ),
                            ..db
                        },
                        None => db,
                    }
                },
                None => db,
            }
        },
        None => db,
    }
}

/// The placement of a note and the text after it.
pub open spec fn note_placement(rest: Seq<char>) -> Option<(i32, Seq<char>)> {
    match strip_keyword(rest, "over"@) {
        Some(r) => Some((OVER, r)),
        None => match strip_prefix(rest, "left of"@) {
            Some(r) => Some((LEFTOF, r)),
            None => match strip_prefix(rest, "Left of"@) {
                Some(r) => Some((LEFTOF, r)),
                None => match strip_prefix(rest, "Left Of"@) {
                    Some(r) => Some((LEFTOF, r)),
                    None => match strip_prefix(rest, "right of"@) {
                        Some(r) => Some((RIGHTOF, r)),
                        None => match strip_prefix(rest, "Right of"@) {
                            Some(r) => Some((RIGHTOF, r)),
                            None => match strip_prefix(rest, "Right Of"@) {
                                Some(r) => Some((RIGHTOF, r)),
                                None => None,
                            },
                        },
                    },
                },
            },
        },
    }
}

/// A `note (over|left of|right of) A[, B]: text` statement.
pub open spec fn note_stmt(db: DbV, line: Seq<char>) -> Result<DbV, Seq<char>> {
    let rest = trim(line.skip(5));
    match note_placement(rest) {
        None => Err("bad note statement: "@ + line),
        Some((placement, after0)) => {
            let after = trim(after0);
            match find_char(after, ':') {
                None => Err("note missing text: "@ + line),
                Some(colon) => {
                    let actors_part = trim(after.take(colon as int));
                    let text = parse_message(after.skip(colon + 1 as int));
                    let (from, to) = if placement == OVER {
                        match split_once_char(actors_part, ',') {
                            Some((a, b)) => (trim(a), trim(b)),
                            None => (actors_part, actors_part),
                        }
                    } else {
                        (actors_part, actors_part)
                    };
                    let db1 = add_actor(db, from, None);
                    let db2 = if to != from {
                        add_actor(db1, to, None)
                    } else {
                        db1
                    };
                    Ok(
                        push_message(
                            db2,
                            MessageV {
                                placement: Some(placement),
                                ..message(db2, from, to, text, NOTE)
                            },
                        ),
                    )
                },
            }
        },
    }
}

/// A block opening keyword: the text after it and the block's start and
/// end line types.
pub open spec fn block_start(line: Seq<char>) -> Option<(Seq<char>, i32, i32)> {
    match strip_keyword(line, "loop"@) {
        Some(r) => Some((r, LOOP_START, LOOP_END)),
        None => match strip_keyword(line, "alt"@) {
            Some(r) => Some((r, ALT_START, ALT_END)),
            None => match strip_keyword(line, "opt"@) {
                Some(r) => Some((r, OPT_START, OPT_END)),
                None => match strip_keyword(line, "par"@) {
                    Some(r) => Some((r, PAR_START, PAR_END)),
                    None => match strip_keyword(line, "critical"@) {
                        Some(r) => Some((r, CRITICAL_START, CRITICAL_END)),
                        None => match strip_keyword(line, "break"@) {
                            Some(r) => Some((r, BREAK_START, BREAK_END)),
                            None => match strip_keyword(line, "rect"@) {
                                Some(r) => Some((r, RECT_START, RECT_END)),
                                None => None,
                            },
                        },
                    },
                },
            },
        },
    }
}

/// A block section keyword (`else`, `and`, `option`): the text after it and
/// the line type.
pub open spec fn block_section(line: Seq<char>) -> Option<(Seq<char>, i32)> {
    match strip_keyword(line, "else"@) {
        Some(r) => Some((r, ALT_ELSE)),
        None => match strip_keyword(line, "and"@) {
            Some(r) => Some((r, PAR_AND)),
            None => match strip_keyword(line, "option"@) {
                Some(r) => Some((r, CRITICAL_OPTION)),
                None => None,
            },
        },
    }
}

/// An `autonumber [off] [start [step]]` statement's payload.
pub open spec fn autonumber_of(rest: Seq<char>) -> AutonumberV {
    if eq_ignore_ascii_case(rest, "off"@) {
        AutonumberV { start: None, step: None, visible: false }
    } else {
        let nums = words(rest).filter(|w: Seq<char>| is_float_literal(w));
        AutonumberV {
            start: if nums.len() > 0 {
                Some(nums[0])
            } else {
                None
            },
            step: if nums.len() > 1 {
                Some(nums[1])
            } else {
                None
            },
            visible: true,
        }
    }
}

/// A message statement `A ARROW [+|-]B [: text]`.
pub open spec fn message_stmt(db: DbV, from0: Seq<char>, k: nat, to_part: Seq<char>) -> DbV {
    let (to_raw, text) = match find_char(to_part, ':') {
        Some(c) => (trim(to_part.take(c as int)), parse_message(to_part.skip(c + 1 as int))),
        None => (trim(to_part), Seq::empty()),
    };
    let (act, to_clean) = if starts_with(to_raw, "+"@) {
        (1int, trim(to_raw.skip(1)))
    } else if starts_with(to_raw, "-"@) {
        (2int, trim(to_raw.skip(1)))
    } else {
        (0int, to_raw)
    };
    let from = trim(from0);
    let db1 = add_actor(db, from, None);
    let db2 = add_actor(db1, to_clean, None);
    let db3 = push_message(
        db2,
        MessageV { activate: act == 1, ..message(db2, from, to_clean, text, arrow_type(k)) },
    );
    if act == 1 {
        push_message(db3, message(db3, to_clean, Seq::empty(), Seq::empty(), ACTIVE_START))
    } else if act == 2 {
        push_message(db3, message(db3, from, Seq::empty(), Seq::empty(), ACTIVE_END))
    } else {
        db3
    }
}

/// One statement line after the header (trimmed, not blank, not a comment).
pub open spec fn statement(st: StateV, line0: Seq<char>) -> Result<StateV, Seq<char>> {
    let db = st.db;
    let lower = ascii_lower_seq(line0);
    match strip_keyword(line0, "destroy"@) {
        Some(rest) => Ok(
            StateV {
                db: DbV {
                    destroyed: assoc_insert(db.destroyed, trim(rest), db.messages.len() as usize),
                    ..db
                },
                ..st
            },
        ),
        None => {
            let (line, created) = match strip_keyword(line0, "create"@) {
                Some(rest) => (trim(rest), true),
                None => (line0, false),
            };
            let participant = match strip_keyword(line, "participant"@) {
                Some(r) => Some((r, false)),
                None => match strip_keyword(line, "actor"@) {
                    Some(r) => Some((r, true)),
                    None => None,
                },
            };
            if let Some((rest, is_man)) = participant {
                Ok(StateV { db: participant_stmt(db, rest, is_man, created), ..st })
            } else if let Some(rest) = strip_keyword(line, "link"@) {
                Ok(StateV { db: link_stmt(db, rest), ..st })
            } else if starts_with(lower, "note "@) {
                match note_stmt(db, line) {
                    Ok(db1) => Ok(StateV { db: db1, ..st }),
                    Err(e) => Err(e),
                }
            } else if let Some(rest) = strip_keyword(line, "box"@) {
                let (fill, name) = parse_box_data(trim(rest));
                Ok(
                    StateV {
                        db: DbV {
                            boxes: db.boxes.push(BoxV { name, fill, actor_keys: Seq::empty() }),
                            current_box: Some(db.boxes.len() as usize),
                            ..db
                        },
                        in_box: true,
                        ..st
                    },
                )
            } else if let Some((rest, start, end)) = block_start(line) {
                Ok(
                    StateV {
                        db: push_message(
                            db,
                            message(db, Seq::empty(), Seq::empty(), parse_message(rest), start),
                        ),
                        blocks: st.blocks.push(end),
                        ..st
                    },
                )
            } else if let Some((rest, ty)) = block_section(line) {
                Ok(
                    StateV {
                        db: push_message(
                            db,
                            message(db, Seq::empty(), Seq::empty(), parse_message(rest), ty),
                        ),
                        ..st
                    },
                )
            } else if lower == "end"@ {
                if st.in_box {
                    Ok(StateV { db: DbV { current_box: None, ..db }, in_box: false, ..st })
                } else {
                    let (end, blocks) = if st.blocks.len() > 0 {
                        (st.blocks.last(), st.blocks.drop_last())
                    } else {
                        (LOOP_END, st.blocks)
                    };
                    Ok(
                        StateV {
                            db: push_message(
                                db,
                                message(db, Seq::empty(), Seq::empty(), Seq::empty(), end),
                            ),
                            blocks,
                            ..st
                        },
                    )
                }
            } else if starts_with(lower, "autonumber"@) {
                let an = autonumber_of(trim(line.skip(10)));
                Ok(
                    StateV {
                        db: push_message(
                            db,
                            MessageV {
                                autonumber: Some(an),
                                ..message(db, Seq::empty(), Seq::empty(), Seq::empty(), AUTONUMBER)
                            },
                        ),
                        ..st
                    },
                )
            } else if let Some(rest) = strip_keyword(line, "activate"@) {
                Ok(
                    StateV {
                        db: push_message(
                            db,
                            message(db, trim(rest), Seq::empty(), Seq::empty(), ACTIVE_START),
                        ),
                        ..st
                    },
                )
            } else if let Some(rest) = strip_keyword(line, "deactivate"@) {
                Ok(
                    StateV {
                        db: push_message(
                            db,
                            message(db, trim(rest), Seq::empty(), Seq::empty(), ACTIVE_END),
                        ),
                        ..st
                    },
                )
            } else if starts_with(lower, "title"@) || starts_with(lower, "acctitle"@) || starts_with(
                lower,
                "accdescr"@,
            ) {
                Ok(st)
            } else if let Some((from, k, to_part)) = split_arrow(line) {
                Ok(StateV { db: message_stmt(db, from, k, to_part), ..st })
            } else {
                Err("unsupported statement: "@ + line)
            }
        },
    }
}

/// One source line: blank lines and comments are skipped, the first other
/// line must be the header.
pub open spec fn step(st: StateV, raw: Seq<char>) -> Result<StateV, Seq<char>> {
    let line = trim(raw);
    if line.len() == 0 || starts_with(line, "%%"@) || starts_with(line, "#"@) {
        Ok(st)
    } else if !st.found {
        if starts_with(line, "sequenceDiagram"@) {
            Ok(StateV { found: true, ..st })
        } else {
            Err("expected sequenceDiagram header, got "@ + debug_quoted(line))
        }
    } else {
        statement(st, line)
    }
}

/// The statements of `ls` applied in order from `st`; the first error stops.
pub open spec fn run(st: StateV, ls: Seq<Seq<char>>) -> Result<StateV, Seq<char>>
    decreases ls.len(),
{
    if ls.len() == 0 {
        Ok(st)
    } else {
        match step(st, ls[0]) {
            Ok(st1) => run(st1, ls.drop_first()),
            Err(e) => Err(e),
        }
    }
}

/// What `parse` gives for `source`: the database, or the error message.
pub open spec fn parse_result(source: Seq<char>) -> Result<DbV, Seq<char>> {
    match run(initial_state(), lines(source)) {
        Ok(st) => if st.found {
            Ok(st.db)
        } else {
            Err("missing sequenceDiagram header"@)
        },
        Err(e) => Err(e),
    }
}

/// [`assoc_insert`] on a vector of pairs.
pub fn assoc_insert_exec(v: &mut Vec<(String, usize)>, k: &[char], val: usize)
    ensures
        keyed_view(final(v)@) == assoc_insert(keyed_view(old(v)@), k@, val),
{
    let pos = assoc_position(v, k);
    let ghost e = keyed_view(v@);
    match pos {
        Some(i) => {
            v.set(i, (string_of(k), val));
            proof {
                assert(keyed_view(v@) =~= e.update(i as int, (k@, val)));
            }
        },
        None => {
            v.push((string_of(k), val));
            proof {
                assert(keyed_view(v@) =~= e.push((k@, val)));
            }
        },
    }
}

/// The position of key `k` in a vector of pairs.
pub fn assoc_position(v: &Vec<(String, usize)>, k: &[char]) -> (r: Option<usize>)
    ensures
        match r {
            Some(i) => key_position(keyed_view(v@), k@) == Some(i as nat) && i < v@.len(),
            None => key_position(keyed_view(v@), k@) is None,
        },
{
    let ghost e = keyed_view(v@);
    let mut i: usize = 0;
    while i < v.len()
        invariant
            i <= v@.len(),
            e == keyed_view(v@),
            forall|j: int| 0 <= j < i ==> e[j].0 != k@,
        decreases v@.len() - i,
    {
        let kv = chars_of_string(&v[i].0);
        if eq_slices(&kv, k) {
            proof {
                crate::keyed::lemma_key_position_is(e, k@, Some(i as nat));
            }
            return Some(i);
        }
        i += 1;
    }
    proof {
        crate::keyed::lemma_key_position_is(e, k@, None);
    }
    None
}

/// Equality of two character slices.
pub fn eq_slices(a: &[char], b: &[char]) -> (r: bool)
    ensures
        r == (a@ == b@),
{
    if a.len() != b.len() {
        return false;
    }
    let mut i: usize = 0;
    while i < a.len()
        invariant
            a@.len() == b@.len(),
            i <= a@.len(),
            forall|j: int| 0 <= j < i ==> a@[j] == b@[j],
        decreases a@.len() - i,
    {
        if a[i] != b[i] {
            return false;
        }
        i += 1;
    }
    assert(a@ =~= b@);
    true
}

/// [`participant_meta`], executable.
pub fn participant_meta_exec(rest: &[char]) -> (r: (Vec<char>, Vec<char>))
    ensures
        (r.0@, r.1@) == participant_meta(rest@),
{
    match find_str(rest, "@{") {
        Some(at) => {
            let n = rest.len();
            proof {
                reveal_strlit("@{");
            }
            let tail = copy_range(rest, at + 2, n);
            let close: Vec<char> = vec!['}'];
            let meta = strip_set_end_vec(&tail, &close);
            proof {
                assert(close@ =~= seq!['}']);
            }
            let mt = match find_str(&meta, "\"type\"") {
                Some(tpos) => {
                    proof {
                        reveal_strlit("\"type\"");
                    }
                    let mlen = meta.len();
                    assert(tpos + 6 <= mlen);
                    let after = copy_range(&meta, tpos + 6, mlen);
                    match find_char_exec(&after, ':') {
                        Some(c) => {
                            proof {
                                lemma_find_char(after@, ':');
                            }
                            let v = copy_range(&after, c + 1, after.len());
                            let t = trim_vec(&v);
                            let set: Vec<char> = vec!['"', ',', ' '];
                            proof {
                                assert(set@ =~= seq!['"', ',', ' ']);
                            }
                            strip_set_vec(&t, &set)
                        },
                        None => Vec::new(),
                    }
                },
                None => Vec::new(),
            };
            let head = copy_range(rest, 0, at);
            (trim_vec(&head), mt)
        },
        None => (copy_range(rest, 0, rest.len()), Vec::new()),
    }
}

impl SequenceDb {
    /// [`participant_stmt`], executable.
    pub fn participant_stmt(&mut self, rest0: &[char], is_man: bool, created: bool)
        requires
            old(self).wf(),
        ensures
            final(self).wf(),
            final(self)@ == participant_stmt(old(self)@, rest0@, is_man, created),
    {
        let t = trim_vec(rest0);
        let (rest, meta) = participant_meta_exec(&t);
        let id = match split_as_exec(&rest) {
            Some((id0, alias)) => {
                let id = trim_vec(&id0);
                let al = trim_vec(&alias);
                self.add_actor(&id, Some(al));
                id
            },
            None => {
                self.add_actor(&rest, None);
                rest
            },
        };
        let ghost db1 = self@;
        let id_s = string_of(&id);
        let pos = self.actor_position_exec(id_s.as_str());
        match pos {
            Some(p) => {
                if is_man {
                    self.actors[p].is_actor_man = true;
                }
                if meta.len() > 0 {
                    self.actors[p].meta_type = string_of(&meta);
                }
                proof {
                    let a = db1.actors[p as int];
                    assert(self@.actors =~= db1.actors.update(
                        p as int,
                        ActorV {
                            is_actor_man: if is_man {
                                true
                            } else {
                                a.is_actor_man
                            },
                            meta_type: if meta@.len() > 0 {
                                meta@
                            } else {
                                a.meta_type
                            },
                            ..a
                        },
                    ));
                    assert(name_entries(self@.actors) =~= name_entries(db1.actors));
                }
            },
            None => {},
        }
        if created {
            let n = self.messages.len();
            assoc_insert_exec(&mut self.created_actors, &id, n);
        }
    }

    /// [`link_stmt`], executable.
    pub fn link_stmt(&mut self, rest: &[char])
        requires
            old(self).wf(),
        ensures
            final(self).wf(),
            final(self)@ == link_stmt(old(self)@, rest@),
    {
        let found = find_char_exec(rest, ':');
        proof {
            lemma_find_char(rest@, ':');
        }
        if let Some(colon) = found {
            let head = copy_range(rest, 0, colon);
            let actor = trim_vec(&head);
            let after = copy_range(rest, colon + 1, rest.len());
            let found_at = find_char_exec(&after, '@');
            proof {
                lemma_find_char(after@, '@');
            }
            if let Some(at) = found_at {
                let l = copy_range(&after, 0, at);
                let u = copy_range(&after, at + 1, after.len());
                let label = trim_vec(&l);
                let url = trim_vec(&u);
                let actor_s = string_of(&actor);
                let pos = self.actor_position_exec(actor_s.as_str());
                if let Some(p) = pos {
                    let ghost db0 = self@;
                    self.actors[p].links.push((string_of(&label), string_of(&url)));
                    proof {
                        assert(self@.actors[p as int].links =~= db0.actors[p as int].links.push(
                            (label@, url@),
                        ));
                        assert(self@.actors =~= db0.actors.update(
                            p as int,
                            ActorV {
                                links: db0.actors[p as int].links.push((label@, url@)),
                                ..db0.actors[p as int]
                            },
                        ));
                        assert(name_entries(self@.actors) =~= name_entries(db0.actors));
                    }
                }
            }
        }
    }

    /// [`message_stmt`], executable.
    pub fn message_stmt(&mut self, from0: &[char], k: usize, to_part: &[char])
        requires
            old(self).wf(),
        ensures
            final(self).wf(),
            final(self)@ == message_stmt(old(self)@, from0@, k as nat, to_part@),
    {
        let found = find_char_exec(to_part, ':');
        proof {
            lemma_find_char(to_part@, ':');
        }
        let (to_raw, text) = match found {
            Some(c) => {
                let h = copy_range(to_part, 0, c);
                let t = copy_range(to_part, c + 1, to_part.len());
                (trim_vec(&h), parse_message_exec(&t))
            },
            None => (trim_vec(to_part), Vec::new()),
        };
        let (act, to_clean): (u8, Vec<char>) = if starts_with_str(&to_raw, "+") {
            proof {
                reveal_strlit("+");
            }
            let r = copy_range(&to_raw, 1, to_raw.len());
            (1, trim_vec(&r))
        } else if starts_with_str(&to_raw, "-") {
            proof {
                reveal_strlit("-");
            }
            let r = copy_range(&to_raw, 1, to_raw.len());
            (2, trim_vec(&r))
        } else {
            (0, to_raw)
        };
        let from = trim_vec(from0);
        self.add_actor(&from, None);
        self.add_actor(&to_clean, None);
        let ty = arrow_type_exec(k);
        let mut m = self.message(&from, &to_clean, &text, ty);
        m.activate = act == 1;
        self.push_message(m);
        let empty: Vec<char> = Vec::new();
        if act == 1 {
            let m2 = self.message(&to_clean, &empty, &empty, ACTIVE_START);
            self.push_message(m2);
        } else if act == 2 {
            let m2 = self.message(&from, &empty, &empty, ACTIVE_END);
            self.push_message(m2);
        }
    }
}

/// [`note_placement`], executable.
pub fn note_placement_exec(rest: &[char]) -> (r: Option<(i32, Vec<char>)>)
    ensures
        match r {
            Some((p, v)) => note_placement(rest@) == Some((p, v@)),
            None => note_placement(rest@) is None,
        },
{
    if let Some(r) = strip_keyword_exec(rest, "over") {
        return Some((OVER, r));
    }
    if let Some(r) = strip_prefix_str(rest, "left of") {
        return Some((LEFTOF, r));
    }
    if let Some(r) = strip_prefix_str(rest, "Left of") {
        return Some((LEFTOF, r));
    }
    if let Some(r) = strip_prefix_str(rest, "Left Of") {
        return Some((LEFTOF, r));
    }
    if let Some(r) = strip_prefix_str(rest, "right of") {
        return Some((RIGHTOF, r));
    }
    if let Some(r) = strip_prefix_str(rest, "Right of") {
        return Some((RIGHTOF, r));
    }
    if let Some(r) = strip_prefix_str(rest, "Right Of") {
        return Some((RIGHTOF, r));
    }
    None
}

/// [`block_start`], executable.
pub fn block_start_exec(line: &[char]) -> (r: Option<(Vec<char>, i32, i32)>)
    ensures
        match r {
            Some((v, a, b)) => block_start(line@) == Some((v@, a, b)),
            None => block_start(line@) is None,
        },
{
    if let Some(r) = strip_keyword_exec(line, "loop") {
        return Some((r, LOOP_START, LOOP_END));
    }
    if let Some(r) = strip_keyword_exec(line, "alt") {
        return Some((r, ALT_START, ALT_END));
    }
    if let Some(r) = strip_keyword_exec(line, "opt") {
        return Some((r, OPT_START, OPT_END));
    }
    if let Some(r) = strip_keyword_exec(line, "par") {
        return Some((r, PAR_START, PAR_END));
    }
    if let Some(r) = strip_keyword_exec(line, "critical") {
        return Some((r, CRITICAL_START, CRITICAL_END));
    }
    if let Some(r) = strip_keyword_exec(line, "break") {
        return Some((r, BREAK_START, BREAK_END));
    }
    if let Some(r) = strip_keyword_exec(line, "rect") {
        return Some((r, RECT_START, RECT_END));
    }
    None
}

/// [`block_section`], executable.
pub fn block_section_exec(line: &[char]) -> (r: Option<(Vec<char>, i32)>)
    ensures
        match r {
            Some((v, t)) => block_section(line@) == Some((v@, t)),
            None => block_section(line@) is None,
        },
{
    if let Some(r) = strip_keyword_exec(line, "else") {
        return Some((r, ALT_ELSE));
    }
    if let Some(r) = strip_keyword_exec(line, "and") {
        return Some((r, PAR_AND));
    }
    if let Some(r) = strip_keyword_exec(line, "option") {
        return Some((r, CRITICAL_OPTION));
    }
    None
}

/// [`autonumber_of`], executable.
pub fn autonumber_exec(rest: &[char]) -> (a: Autonumber)
    ensures
        a@ == autonumber_of(rest@),
{
    if eq_ignore_case_str(rest, "off") {
        return Autonumber { start: None, step: None, visible: false };
    }
    let ws = words_exec(rest);
    let ghost wv = ws@.map_values(|v: Vec<char>| v@);
    let ghost pred = |w: Seq<char>| is_float_literal(w);
    let mut nums: Vec<Vec<char>> = Vec::new();
    let mut i: usize = 0;
    while i < ws.len()
        invariant
            i <= ws@.len(),
            wv == ws@.map_values(|v: Vec<char>| v@),
            wv == words(rest@),
            pred == (|w: Seq<char>| is_float_literal(w)),
            nums@.map_values(|v: Vec<char>| v@) == wv.take(i as int).filter(pred),
        decreases ws@.len() - i,
    {
        let ghost before = nums@;
        let ok = is_float_literal_exec(&ws[i]);
        proof {
            assert(ws@[i as int]@ == wv[i as int]);
            assert(pred(wv[i as int]) == is_float_literal(wv[i as int]));
        }
        if ok {
            let w = copy_range(&ws[i], 0, ws[i].len());
            nums.push(w);
            proof {
                assert(w@ =~= wv[i as int]);
                assert(nums@.map_values(|v: Vec<char>| v@) =~= before.map_values(|v: Vec<char>| v@).push(
                    wv[i as int],
                ));
            }
        }
        proof {
            reveal(Seq::filter);
            let t1 = wv.take(i + 1);
            assert(t1.drop_last() =~= wv.take(i as int));
            assert(t1.last() == wv[i as int]);
            assert(t1.filter(pred) == (if pred(wv[i as int]) {
                wv.take(i as int).filter(pred).push(wv[i as int])
            } else {
                wv.take(i as int).filter(pred)
            }));
        }
        i += 1;
    }
    proof {
        assert(wv.take(i as int) =~= wv);
    }
    let start = if nums.len() > 0 {
        Some(string_of(&nums[0]))
    } else {
        None
    };
    let step = if nums.len() > 1 {
        Some(string_of(&nums[1]))
    } else {
        None
    };
    Autonumber { start, step, visible: true }
}

impl SequenceDb {
    /// [`note_stmt`], executable.
    pub fn note_stmt(&mut self, line: &[char]) -> (r: Result<(), String>)
        requires
            old(self).wf(),
            line@.len() >= 5,
        ensures
            final(self).wf(),
            match (r, note_stmt(old(self)@, line@)) {
                (Ok(()), Ok(db)) => final(self)@ == db,
                (Err(m), Err(e)) => m@ == e,
                _ => false,
            },
    {
        let tail = copy_range(line, 5, line.len());
        let rest = trim_vec(&tail);
        let placed = note_placement_exec(&rest);
        let (placement, after0) = match placed {
            Some(p) => p,
            None => {
                let mut m = String::from_str("bad note statement: ");
                let ls = string_of(line);
                m.append(ls.as_str());
                return Err(m);
            },
        };
        let after = trim_vec(&after0);
        let found = find_char_exec(&after, ':');
        let colon = match found {
            Some(c) => c,
            None => {
                let mut m = String::from_str("note missing text: ");
                let ls = string_of(line);
                m.append(ls.as_str());
                return Err(m);
            },
        };
        let h = copy_range(&after, 0, colon);
        let actors_part = trim_vec(&h);
        let t = copy_range(&after, colon + 1, after.len());
        let text = parse_message_exec(&t);
        let (from, to) = if placement == OVER {
            let c2 = find_char_exec(&actors_part, ',');
            match c2 {
                Some(c) => {
                    let a = copy_range(&actors_part, 0, c);
                    let b = copy_range(&actors_part, c + 1, actors_part.len());
                    (trim_vec(&a), trim_vec(&b))
                },
                None => (copy_range(&actors_part, 0, actors_part.len()), copy_range(
                    &actors_part,
                    0,
                    actors_part.len(),
                )),
            }
        } else {
            (copy_range(&actors_part, 0, actors_part.len()), copy_range(
                &actors_part,
                0,
                actors_part.len(),
            ))
        };
        proof {
            assert(actors_part@.subrange(0, actors_part@.len() as int) =~= actors_part@);
        }
        self.add_actor(&from, None);
        if !eq_slices(&to, &from) {
            self.add_actor(&to, None);
        }
        let mut m = self.message(&from, &to, &text, NOTE);
        m.placement = Some(placement);
        self.push_message(m);
        Ok(())
    }
}

/// The parser's state between lines.
pub struct SeqState {
    pub db: SequenceDb,
    pub found: bool,
    pub blocks: Vec<i32>,
    pub in_box: bool,
}

impl View for SeqState {
    type V = StateV;

    open spec fn view(&self) -> StateV {
        StateV { db: self.db@, found: self.found, blocks: self.blocks@, in_box: self.in_box }
    }
}

/// A line that starts with `create ` cannot also start with a keyword
/// whose first letter is not `c`.
proof fn lemma_not_after_create(line0: Seq<char>, lower: Seq<char>, p: Seq<char>)
    requires
        lower == ascii_lower_seq(line0),
        strip_keyword(line0, "create"@) is Some,
        p.len() > 0,
        p[0] != 'c',
    ensures
        !starts_with(lower, p),
{
    reveal_strlit("create");
    assert(line0.take(6)[0] == line0[0]);
    assert(ascii_lower(line0.take(6)[0]) == ascii_lower("create"@[0]));
    if starts_with(lower, p) {
        assert(lower.take(p.len() as int)[0] == lower[0]);
    }
}

impl SeqState {
    /// [`statement`], executable.
    #[verifier::rlimit(40)]
    pub fn statement(&mut self, line0: &[char]) -> (r: Result<(), String>)
        requires
            old(self).db.wf(),
        ensures
            final(self).db.wf(),
            match (r, statement(old(self)@, line0@)) {
                (Ok(()), Ok(st)) => final(self)@ == st,
                (Err(m), Err(e)) => m@ == e,
                _ => false,
            },
    {
        let lower = lower_vec(line0);
        if let Some(rest) = strip_keyword_exec(line0, "destroy") {
            let t = trim_vec(&rest);
            let n = self.db.messages.len();
            assoc_insert_exec(&mut self.db.destroyed_actors, &t, n);
            return Ok(());
        }
        let (line, created) = match strip_keyword_exec(line0, "create") {
            Some(rest) => (trim_vec(&rest), true),
            None => (copy_range(line0, 0, line0.len()), false),
        };
        proof {
            assert(line0@.subrange(0, line0@.len() as int) =~= line0@);
        }
        let participant = match strip_keyword_exec(&line, "participant") {
            Some(r) => Some((r, false)),
            None => match strip_keyword_exec(&line, "actor") {
                Some(r) => Some((r, true)),
                None => None,
            },
        };
        if let Some((rest, is_man)) = participant {
            self.db.participant_stmt(&rest, is_man, created);
            return Ok(());
        }
        if let Some(rest) = strip_keyword_exec(&line, "link") {
            self.db.link_stmt(&rest);
            return Ok(());
        }
        if starts_with_str(&lower, "note ") {
            proof {
                reveal_strlit("note ");
                if created {
                    lemma_not_after_create(line0@, lower@, "note "@);
                }
            }
            return self.db.note_stmt(&line);
        }
        if let Some(rest) = strip_keyword_exec(&line, "box") {
            let t = trim_vec(&rest);
            let (fill, name) = parse_box_data_exec(&t);
            let n = self.db.boxes.len();
            let nb = SeqBox { name, fill, actor_keys: Vec::new() };
            proof {
                assert(nb@.actor_keys =~= Seq::<Seq<char>>::empty());
            }
            self.db.boxes.push(nb);
            self.db.current_box = Some(n);
            self.in_box = true;
            proof {
                let b = BoxV { name: opt_view(name), fill: fill@, actor_keys: Seq::empty() };
                assert(self.db@.boxes =~= old(self).db@.boxes.push(b));
            }
            return Ok(());
        }
        if let Some((rest, start, end)) = block_start_exec(&line) {
            let text = parse_message_exec(&rest);
            let empty: Vec<char> = Vec::new();
            let m = self.db.message(&empty, &empty, &text, start);
            self.db.push_message(m);
            self.blocks.push(end);
            return Ok(());
        }
        if let Some((rest, ty)) = block_section_exec(&line) {
            let text = parse_message_exec(&rest);
            let empty: Vec<char> = Vec::new();
            let m = self.db.message(&empty, &empty, &text, ty);
            self.db.push_message(m);
            return Ok(());
        }
        if eq_str(&lower, "end") {
            if self.in_box {
                self.in_box = false;
                self.db.current_box = None;
                return Ok(());
            }
            let end = match self.blocks.pop() {
                Some(e) => e,
                None => LOOP_END,
            };
            let empty: Vec<char> = Vec::new();
            let m = self.db.message(&empty, &empty, &empty, end);
            self.db.push_message(m);
            return Ok(());
        }
        if starts_with_str(&lower, "autonumber") {
            proof {
                reveal_strlit("autonumber");
                if created {
                    lemma_not_after_create(line0@, lower@, "autonumber"@);
                }
            }
            let tail = copy_range(&line, 10, line.len());
            let rest = trim_vec(&tail);
            let an = autonumber_exec(&rest);
            let empty: Vec<char> = Vec::new();
            let mut m = self.db.message(&empty, &empty, &empty, AUTONUMBER);
            m.autonumber = Some(an);
            self.db.push_message(m);
            return Ok(());
        }
        if let Some(rest) = strip_keyword_exec(&line, "activate") {
            let t = trim_vec(&rest);
            let empty: Vec<char> = Vec::new();
            let m = self.db.message(&t, &empty, &empty, ACTIVE_START);
            self.db.push_message(m);
            return Ok(());
        }
        if let Some(rest) = strip_keyword_exec(&line, "deactivate") {
            let t = trim_vec(&rest);
            let empty: Vec<char> = Vec::new();
            let m = self.db.message(&t, &empty, &empty, ACTIVE_END);
            self.db.push_message(m);
            return Ok(());
        }
        if starts_with_str(&lower, "title") || starts_with_str(&lower, "acctitle")
            || starts_with_str(&lower, "accdescr") {
            return Ok(());
        }
        if let Some((from, k, to_part)) = split_arrow_exec(&line) {
            self.db.message_stmt(&from, k, &to_part);
            return Ok(());
        }
        let mut m = String::from_str("unsupported statement: ");
        let ls = string_of(&line);
        m.append(ls.as_str());
        Err(m)
    }
}

impl SeqState {
    /// [`step`], executable.
    pub fn step(&mut self, raw: &[char]) -> (r: Result<(), String>)
        requires
            old(self).db.wf(),
        ensures
            final(self).db.wf(),
            match (r, step(old(self)@, raw@)) {
                (Ok(()), Ok(st)) => final(self)@ == st,
                (Err(m), Err(e)) => m@ == e,
                _ => false,
            },
    {
        let line = trim_vec(raw);
        if line.len() == 0 || starts_with_str(&line, "%%") || starts_with_str(&line, "#") {
            return Ok(());
        }
        if !self.found {
            if starts_with_str(&line, "sequenceDiagram") {
                self.found = true;
                return Ok(());
            }
            let mut m = String::from_str("expected sequenceDiagram header, got ");
            let ls = string_of(&line);
            let q = debug_quote(ls.as_str());
            m.append(q.as_str());
            return Err(m);
        }
        self.statement(&line)
    }
}

/// Parses sequenceDiagram source: the fold of [`step`] over its lines, then
/// an error when no header was seen.
pub fn parse(source: &str) -> (r: Result<SequenceDb, SeqParseError>)
    ensures
        match (r, parse_result(source@)) {
            (Ok(db), Ok(v)) => db@ == v && db.wf(),
            (Err(e), Err(m)) => e.message@ == m,
            _ => false,
        },
{
    let src = chars_of(source);
    let ls = lines_of(&src);
    let mut st = SeqState { db: SequenceDb::new(), found: false, blocks: Vec::new(), in_box: false };
    let ghost all = lines(source@);
    proof {
        assert(st@.blocks =~= Seq::<i32>::empty());
        assert(st@ == initial_state());
        assert(all.skip(0) =~= all);
    }
    let mut i: usize = 0;
    while i < ls.len()
        invariant
            i <= ls@.len(),
            ls@.len() == all.len(),
            all == lines(source@),
            forall|j: int| 0 <= j < ls@.len() ==> #[trigger] ls@[j]@ == all[j],
            st.db.wf(),
            run(initial_state(), all) == run(st@, all.skip(i as int)),
        decreases ls@.len() - i,
    {
        let ghost before = st@;
        proof {
            assert(all.skip(i as int)[0] == all[i as int]);
            assert(all.skip(i as int).drop_first() =~= all.skip(i + 1));
        }
        match st.step(&ls[i]) {
            Ok(()) => {},
            Err(m) => {
                return Err(SeqParseError { message: m });
            },
        }
        i += 1;
    }
    proof {
        assert(all.skip(i as int) =~= Seq::<Seq<char>>::empty());
    }
    if !st.found {
        return Err(SeqParseError { message: String::from_str("missing sequenceDiagram header") });
    }
    Ok(st.db)
}

/// Every message's id is its position in the message list.
pub open spec fn ids_numbered(db: DbV) -> bool {
    forall|i: int| 0 <= i < db.messages.len() ==> #[trigger] db.messages[i].id == decimal(i as nat)
}

/// Participants have distinct names and form a chain in declaration order:
/// each one's `prev_actor` is the one before it, whose `next_actor` is it;
/// the first has no predecessor and the last no successor.
pub open spec fn actors_chained(actors: Seq<ActorV>) -> bool {
    &&& forall|i: int, j: int|
        0 <= i < j < actors.len() ==> #[trigger] actors[i].name != #[trigger] actors[j].name
    &&& forall|i: int|
        0 < i < actors.len() ==> (#[trigger] actors[i]).prev_actor == Some(actors[i - 1].name)
            && actors[i - 1].next_actor == Some(actors[i].name)
    &&& actors.len() > 0 ==> actors[0].prev_actor is None && actors.last().next_actor is None
}

/// What the database keeps true through every statement.
pub open spec fn db_invariant(db: DbV) -> bool {
    ids_numbered(db) && actors_chained(db.actors)
}

/// `b` lists the participants of `a` first, at the same positions.
pub open spec fn actors_extend(a: DbV, b: DbV) -> bool {
    &&& a.actors.len() <= b.actors.len()
    &&& forall|i: int| 0 <= i < a.actors.len() ==> #[trigger] b.actors[i].name == a.actors[i].name
}

proof fn lemma_actor_position(actors: Seq<ActorV>, id: Seq<char>)
    ensures
        actor_position(actors, id) matches Some(p) ==> p < actors.len() && actors[p as int].name
            == id,
        actor_position(actors, id) is None ==> forall|j: int|
            0 <= j < actors.len() ==> actors[j].name != id,
{
    let e = name_entries(actors);
    crate::keyed::lemma_key_position(e, id);
    if actor_position(actors, id) is None {
        assert forall|j: int| 0 <= j < actors.len() implies actors[j].name != id by {
            assert(e[j].0 == actors[j].name);
        }
    }
}

proof fn lemma_add_actor_inv(db: DbV, id: Seq<char>, desc: Option<Seq<char>>)
    requires
        db_invariant(db),
    ensures
        db_invariant(add_actor(db, id, desc)),
        add_actor(db, id, desc).messages == db.messages,
        actors_extend(db, add_actor(db, id, desc)),
{
    lemma_actor_position(db.actors, id);
    let r = add_actor(db, id, desc);
    match actor_position(db.actors, id) {
        Some(p) => {
            assert forall|i: int| 0 <= i < r.actors.len() implies #[trigger] r.actors[i].name
                == db.actors[i].name && r.actors[i].prev_actor == db.actors[i].prev_actor
                && r.actors[i].next_actor == db.actors[i].next_actor by {}
        },
        None => {
            let n = db.actors.len() as int;
            assert forall|i: int| 0 <= i < n implies #[trigger] r.actors[i].name
                == db.actors[i].name && r.actors[i].prev_actor == db.actors[i].prev_actor by {}
            assert(r.actors[n].name == id);
            assert forall|i: int, j: int| 0 <= i < j < r.actors.len() implies #[trigger] r.actors[i].name
                != #[trigger] r.actors[j].name by {
                if j == n {
                    assert(db.actors[i].name != id);
                }
            }
            assert forall|i: int| 0 < i < r.actors.len() implies (#[trigger] r.actors[i]).prev_actor
                == Some(r.actors[i - 1].name) && r.actors[i - 1].next_actor == Some(
                r.actors[i].name,
            ) by {
                if i < n {
                    assert(db.actors[i].prev_actor == Some(db.actors[i - 1].name));
                    assert(db.actors[i - 1].next_actor == Some(db.actors[i].name));
                }
            }
        },
    }
}

proof fn lemma_push_message_inv(db: DbV, m: MessageV)
    requires
        db_invariant(db),
        m.id == decimal(db.messages.len()),
    ensures
        db_invariant(push_message(db, m)),
{
    let r = push_message(db, m);
    assert forall|i: int| 0 <= i < r.messages.len() implies #[trigger] r.messages[i].id == decimal(
        i as nat,
    ) by {
        if i < db.messages.len() {
            assert(r.messages[i] == db.messages[i]);
        }
    }
}

proof fn lemma_update_actor_inv(db: DbV, p: int, a: ActorV)
    requires
        db_invariant(db),
        0 <= p < db.actors.len(),
        a.name == db.actors[p].name,
        a.prev_actor == db.actors[p].prev_actor,
        a.next_actor == db.actors[p].next_actor,
    ensures
        db_invariant(DbV { actors: db.actors.update(p, a), ..db }),
        actors_extend(db, DbV { actors: db.actors.update(p, a), ..db }),
{
    let r = DbV { actors: db.actors.update(p, a), ..db };
    assert forall|i: int| 0 <= i < r.actors.len() implies #[trigger] r.actors[i].name
        == db.actors[i].name && r.actors[i].prev_actor == db.actors[i].prev_actor
        && r.actors[i].next_actor == db.actors[i].next_actor by {}
    assert forall|i: int| 0 < i < r.actors.len() implies (#[trigger] r.actors[i]).prev_actor
        == Some(r.actors[i - 1].name) && r.actors[i - 1].next_actor == Some(r.actors[i].name) by {
        assert(db.actors[i].prev_actor == Some(db.actors[i - 1].name));
    }
}

proof fn lemma_participant_inv(db: DbV, rest0: Seq<char>, is_man: bool, created: bool)
    requires
        db_invariant(db),
    ensures
        db_invariant(participant_stmt(db, rest0, is_man, created)),
        actors_extend(db, participant_stmt(db, rest0, is_man, created)),
{
    let (rest, meta) = participant_meta(trim(rest0));
    match split_as(rest) {
        Some((id, alias)) => lemma_add_actor_inv(db, trim(id), Some(trim(alias))),
        None => lemma_add_actor_inv(db, rest, None),
    }
    let (db1, id) = match split_as(rest) {
        Some((id, alias)) => (add_actor(db, trim(id), Some(trim(alias))), trim(id)),
        None => (add_actor(db, rest, None), rest),
    };
    lemma_actor_position(db1.actors, id);
    if let Some(p) = actor_position(db1.actors, id) {
        let a = db1.actors[p as int];
        lemma_update_actor_inv(
            db1,
            p as int,
            ActorV {
                is_actor_man: if is_man {
                    true
                } else {
                    a.is_actor_man
                },
                meta_type: if meta.len() > 0 {
                    meta
                } else {
                    a.meta_type
                },
                ..a
            },
        );
    }
}

proof fn lemma_link_inv(db: DbV, rest: Seq<char>)
    requires
        db_invariant(db),
    ensures
        db_invariant(link_stmt(db, rest)),
        actors_extend(db, link_stmt(db, rest)),
{
    if let Some(colon) = find_char(rest, ':') {
        let actor = trim(rest.take(colon as int));
        let after = rest.skip(colon + 1 as int);
        if let Some(at) = find_char(after, '@') {
            let label = trim(after.take(at as int));
            let url = trim(after.skip(at + 1 as int));
            lemma_actor_position(db.actors, actor);
            if let Some(p) = actor_position(db.actors, actor) {
                lemma_update_actor_inv(
                    db,
                    p as int,
                    ActorV {
                        links: db.actors[p as int].links.push((label, url)),
                        ..db.actors[p as int]
                    },
                );
            }
        }
    }
}

proof fn lemma_note_inv(db: DbV, line: Seq<char>)
    requires
        db_invariant(db),
    ensures
        note_stmt(db, line) matches Ok(db2) ==> db_invariant(db2) && actors_extend(db, db2),
{
    let rest = trim(line.skip(5));
    if let Some((placement, after0)) = note_placement(rest) {
        let after = trim(after0);
        if let Some(colon) = find_char(after, ':') {
            let actors_part = trim(after.take(colon as int));
            let (from, to) = if placement == OVER {
                match split_once_char(actors_part, ',') {
                    Some((a, b)) => (trim(a), trim(b)),
                    None => (actors_part, actors_part),
                }
            } else {
                (actors_part, actors_part)
            };
            lemma_add_actor_inv(db, from, None);
            let db1 = add_actor(db, from, None);
            lemma_add_actor_inv(db1, to, None);
            let db2 = if to != from {
                add_actor(db1, to, None)
            } else {
                db1
            };
            let text = parse_message(after.skip(colon + 1 as int));
            lemma_push_message_inv(
                db2,
                MessageV { placement: Some(placement), ..message(db2, from, to, text, NOTE) },
            );
        }
    }
}

proof fn lemma_message_inv(db: DbV, from0: Seq<char>, k: nat, to_part: Seq<char>)
    requires
        db_invariant(db),
    ensures
        db_invariant(message_stmt(db, from0, k, to_part)),
        actors_extend(db, message_stmt(db, from0, k, to_part)),
{
    let (to_raw, text) = match find_char(to_part, ':') {
        Some(c) => (trim(to_part.take(c as int)), parse_message(to_part.skip(c + 1 as int))),
        None => (trim(to_part), Seq::empty()),
    };
    let (act, to_clean) = if starts_with(to_raw, "+"@) {
        (1int, trim(to_raw.skip(1)))
    } else if starts_with(to_raw, "-"@) {
        (2int, trim(to_raw.skip(1)))
    } else {
        (0int, to_raw)
    };
    let from = trim(from0);
    lemma_add_actor_inv(db, from, None);
    let db1 = add_actor(db, from, None);
    lemma_add_actor_inv(db1, to_clean, None);
    let db2 = add_actor(db1, to_clean, None);
    let m = MessageV { activate: act == 1, ..message(db2, from, to_clean, text, arrow_type(k)) };
    lemma_push_message_inv(db2, m);
    let db3 = push_message(db2, m);
    lemma_push_message_inv(db3, message(db3, to_clean, Seq::empty(), Seq::empty(), ACTIVE_START));
    lemma_push_message_inv(db3, message(db3, from, Seq::empty(), Seq::empty(), ACTIVE_END));
}

proof fn lemma_statement_inv(st: StateV, line0: Seq<char>)
    requires
        db_invariant(st.db),
    ensures
        statement(st, line0) matches Ok(st2) ==> db_invariant(st2.db) && actors_extend(st.db, st2.db),
{
    let db = st.db;
    let (line, created) = match strip_keyword(line0, "create"@) {
        Some(rest) => (trim(rest), true),
        None => (line0, false),
    };
    match strip_keyword(line, "participant"@) {
        Some(r) => lemma_participant_inv(db, r, false, created),
        None => match strip_keyword(line, "actor"@) {
            Some(r) => lemma_participant_inv(db, r, true, created),
            None => {},
        },
    }
    if let Some(rest) = strip_keyword(line, "link"@) {
        lemma_link_inv(db, rest);
    }
    lemma_note_inv(db, line);
    if let Some((rest, start, end)) = block_start(line) {
        lemma_push_message_inv(db, message(db, Seq::empty(), Seq::empty(), parse_message(rest), start));
    }
    if let Some((rest, ty)) = block_section(line) {
        lemma_push_message_inv(db, message(db, Seq::empty(), Seq::empty(), parse_message(rest), ty));
    }
    let end = if st.blocks.len() > 0 {
        st.blocks.last()
    } else {
        LOOP_END
    };
    lemma_push_message_inv(db, message(db, Seq::empty(), Seq::empty(), Seq::empty(), end));
    let an = autonumber_of(trim(line.skip(10)));
    lemma_push_message_inv(
        db,
        MessageV {
            autonumber: Some(an),
            ..message(db, Seq::empty(), Seq::empty(), Seq::empty(), AUTONUMBER)
        },
    );
    if let Some(rest) = strip_keyword(line, "activate"@) {
        lemma_push_message_inv(db, message(db, trim(rest), Seq::empty(), Seq::empty(), ACTIVE_START));
    }
    if let Some(rest) = strip_keyword(line, "deactivate"@) {
        lemma_push_message_inv(db, message(db, trim(rest), Seq::empty(), Seq::empty(), ACTIVE_END));
    }
    if let Some((from, k, to_part)) = split_arrow(line) {
        lemma_message_inv(db, from, k, to_part);
    }
}

proof fn lemma_run_inv(st: StateV, ls: Seq<Seq<char>>)
    requires
        db_invariant(st.db),
    ensures
        run(st, ls) matches Ok(st2) ==> db_invariant(st2.db) && actors_extend(st.db, st2.db),
    decreases ls.len(),
{
    if ls.len() > 0 {
        let line = trim(ls[0]);
        if line.len() > 0 && !starts_with(line, "%%"@) && !starts_with(line, "#"@) && st.found {
            lemma_statement_inv(st, line);
        }
        if let Ok(st1) = step(st, ls[0]) {
            lemma_run_inv(st1, ls.drop_first());
        }
    }
}

proof fn lemma_run_split(st: StateV, ls: Seq<Seq<char>>, k: nat)
    requires
        k <= ls.len(),
    ensures
        run(st, ls) == match run(st, ls.take(k as int)) {
            Ok(s1) => run(s1, ls.skip(k as int)),
            Err(e) => Err(e),
        },
    decreases k,
{
    if k > 0 {
        assert(ls.take(k as int)[0] == ls[0]);
        assert(ls.take(k as int).drop_first() =~= ls.drop_first().take(k - 1));
        assert(ls.skip(k as int) =~= ls.drop_first().skip(k - 1));
        if let Ok(st1) = step(st, ls[0]) {
            lemma_run_split(st1, ls.drop_first(), (k - 1) as nat);
        }
    } else {
        assert(ls.take(0) =~= Seq::<Seq<char>>::empty());
        assert(ls.skip(0) =~= ls);
    }
}

/// Law: participants keep the order in which they first appear. A line
/// only appends participants not yet known, so the participants known after
/// any first `k` lines of the source are the first ones of the final list,
/// in the same order.
pub proof fn actors_in_order_of_first_appearance(source: Seq<char>, k: nat)
    requires
        k <= lines(source).len(),
    ensures
        run(initial_state(), lines(source).take(k as int)) matches Ok(st1) ==> (parse_result(
            source,
        ) matches Ok(db) ==> st1.db.actors.len() <= db.actors.len() && forall|i: int|
            0 <= i < st1.db.actors.len() ==> #[trigger] db.actors[i].name == st1.db.actors[i].name),
{
    let ls = lines(source);
    lemma_run_split(initial_state(), ls, k);
    lemma_run_inv(initial_state(), ls.take(k as int));
    if let Ok(st1) = run(initial_state(), ls.take(k as int)) {
        lemma_run_inv(st1, ls.skip(k as int));
    }
}

/// Law: in every database `parse` returns, each message's id is its position
/// in the message list, and the participants have distinct names and are
/// chained by `prev_actor`/`next_actor` in declaration order.
pub proof fn parse_keeps_invariant(source: Seq<char>)
    ensures
        parse_result(source) matches Ok(db) ==> db_invariant(db),
{
    lemma_run_inv(initial_state(), lines(source));
}

impl SeqParseError {
    /// The error as a message.
    pub fn display(&self) -> (s: String)
        ensures
            s@ == "sequence diagram parse error: "@ + self.message@,
    {
        let mut s = String::from_str("sequence diagram parse error: ");
        s.append(self.message.as_str());
        s
    }
}


/// The message types drawn as a line between two actors.
pub open spec fn is_line_type_spec(t: i32) -> bool {
    t == SOLID || t == DOTTED || t == SOLID_OPEN || t == DOTTED_OPEN || t == SOLID_CROSS || t
        == DOTTED_CROSS || t == SOLID_POINT || t == DOTTED_POINT || t == BIDIRECTIONAL_SOLID || t
        == BIDIRECTIONAL_DOTTED
}

/// Whether message type `t` is drawn as a line between two actors.
pub fn is_line_type(t: i32) -> (b: bool)
    ensures
        b == is_line_type_spec(t),
{
    t == SOLID || t == DOTTED || t == SOLID_OPEN || t == DOTTED_OPEN || t == SOLID_CROSS || t
        == DOTTED_CROSS || t == SOLID_POINT || t == DOTTED_POINT || t == BIDIRECTIONAL_SOLID || t
        == BIDIRECTIONAL_DOTTED
}


/// Greedy word wrapping of a message label: the finished lines and the
/// line being filled.
pub struct WordWrap {
    pub lines: Vec<String>,
    pub current: String,
}

/// The model of a [`WordWrap`].
pub ghost struct WordWrapV {
    pub lines: Seq<Seq<char>>,
    pub current: Seq<char>,
}

impl View for WordWrap {
    type V = WordWrapV;

    open spec fn view(&self) -> WordWrapV {
        WordWrapV { lines: self.lines@.map_values(|t: String| t@), current: self.current@ }
    }
}

/// The words of a label: its pieces between single spaces.
pub open spec fn label_words_spec(label: Seq<char>) -> Seq<Seq<char>> {
    crate::strs::split_on(label, " "@)
}

/// The line that adding `word` would give: the word alone on an empty
/// line, else the line, a space and the word.
pub open spec fn word_candidate_spec(st: WordWrapV, word: Seq<char>) -> Seq<char> {
    if st.current.len() == 0 {
        word
    } else {
        st.current + " "@ + word
    }
}

/// One wrapping step for `word`, where `fits` says whether the candidate
/// measured within the maximum width: a fitting candidate (or any word on
/// an empty line) becomes the line, otherwise the line is closed and the
/// word starts the next.
pub open spec fn word_step_spec(st: WordWrapV, word: Seq<char>, fits: bool) -> WordWrapV {
    if fits || st.current.len() == 0 {
        WordWrapV { current: word_candidate_spec(st, word), ..st }
    } else {
        WordWrapV { lines: st.lines.push(st.current), current: word }
    }
}

/// The wrapped label: its lines joined by `<br/>`, the current one last
/// unless it is empty.
pub open spec fn word_finish_spec(st: WordWrapV) -> Seq<char> {
    crate::strs::join(
        if st.current.len() == 0 {
            st.lines
        } else {
            st.lines.push(st.current)
        },
        "<br/>"@,
    )
}

impl WordWrap {
    /// The words of a label (see [`label_words_spec`]).
    pub fn words(label: &str) -> (r: Vec<String>)
        ensures
            r@.map_values(|t: String| t@) == label_words_spec(label@),
    {
        let v = chars_of(label);
        let pieces = crate::strs::split_on_str(&v, " ");
        let mut out: Vec<String> = Vec::new();
        let mut i: usize = 0;
        while i < pieces.len()
            invariant
                i <= pieces@.len(),
                out@.map_values(|t: String| t@) == pieces@.map_values(|p: Vec<char>| p@).take(
                    i as int,
                ),
            decreases pieces@.len() - i,
        {
            let w = string_of(&pieces[i]);
            let ghost before = out@;
            out.push(w);
            proof {
                assert(out@.map_values(|t: String| t@) =~= before.map_values(|t: String| t@).push(
                    w@,
                ));
                assert(pieces@.map_values(|p: Vec<char>| p@).take(i + 1) =~= pieces@.map_values(
                    |p: Vec<char>| p@,
                ).take(i as int).push(pieces@[i as int]@));
            }
            i += 1;
        }
        assert(pieces@.map_values(|p: Vec<char>| p@).take(i as int) =~= pieces@.map_values(
            |p: Vec<char>| p@,
        ));
        out
    }

    /// Nothing wrapped yet.
    pub fn new() -> (st: Self)
        ensures
            st@ == (WordWrapV { lines: Seq::empty(), current: Seq::empty() }),
    {
        let st = WordWrap { lines: Vec::new(), current: String::new() };
        assert(st@.lines =~= Seq::<Seq<char>>::empty());
        st
    }

    /// The line to measure before adding `word` (see
    /// [`word_candidate_spec`]).
    pub fn candidate(&self, word: &String) -> (r: String)
        ensures
            r@ == word_candidate_spec(self@, word@),
    {
        if self.current.as_str().is_empty() {
            word.clone()
        } else {
            let mut c = self.current.clone();
            c.append(" ");
            c.append(word.as_str());
            c
        }
    }

    /// One wrapping step (see [`word_step_spec`]).
    pub fn step(&mut self, word: String, fits: bool)
        ensures
            final(self)@ == word_step_spec(old(self)@, word@, fits),
    {
        if fits || self.current.as_str().is_empty() {
            let c = self.candidate(&word);
            self.current = c;
        } else {
            let mut done = String::new();
            std::mem::swap(&mut done, &mut self.current);
            let ghost l0 = self@.lines;
            self.lines.push(done);
            assert(self@.lines =~= l0.push(old(self)@.current));
            self.current = word;
        }
    }

    /// The wrapped label (see [`word_finish_spec`]).
    pub fn finish(self) -> (r: String)
        ensures
            r@ == word_finish_spec(self@),
    {
        let ghost v = self@;
        let mut lines = self.lines;
        if !self.current.as_str().is_empty() {
            lines.push(self.current);
            assert(lines@.map_values(|t: String| t@) =~= v.lines.push(v.current));
        }
        let j = crate::strs::join_exec(&lines, "<br/>");
        string_of(&j)
    }
}

/// Where a message's text width counts when actors are spaced: each entry
/// names an actor whose widest message grows to the width (`false`) or to
/// half of it (`true`). Messages with an unknown end, and notes beside an
/// actor with no neighbour on that side, count nowhere.
pub open spec fn width_bumps(db: DbV, m: MessageV) -> Seq<(Seq<char>, bool)> {
    match (actor_position(db.actors, m.to), actor_position(db.actors, m.from)) {
        (Some(ti), Some(_)) => {
            let actor = db.actors[ti as int];
            let is_note = m.placement is Some;
            if m.placement == Some(LEFTOF) && actor.prev_actor is None {
                Seq::empty()
            } else if m.placement == Some(RIGHTOF) && actor.next_actor is None {
                Seq::empty()
            } else if !is_note && actor.next_actor == Some(m.from) {
                seq![(m.to, false)]
            } else if !is_note && actor.prev_actor == Some(m.from) {
                seq![(m.from, false)]
            } else if !is_note && m.from == m.to {
                seq![(m.from, true), (m.to, true)]
            } else if m.placement == Some(RIGHTOF) {
                seq![(m.from, false)]
            } else if m.placement == Some(LEFTOF) {
                match actor.prev_actor {
                    Some(p) => seq![(p, false)],
                    None => Seq::empty(),
                }
            } else if m.placement == Some(OVER) {
                (match actor.prev_actor {
                    Some(p) => seq![(p, true)],
                    None => Seq::empty(),
                }) + (if actor.next_actor is Some {
                    seq![(m.from, true)]
                } else {
                    Seq::empty()
                })
            } else {
                Seq::empty()
            }
        },
        _ => Seq::empty(),
    }
}

fn opt_is(o: &Option<String>, s: &String) -> (b: bool)
    ensures
        b == (opt_view(*o) == Some(s@)),
{
    match o {
        Some(x) => {
            let xv = chars_of(x.as_str());
            let sv = chars_of(s.as_str());
            eq_slices(&xv, &sv)
        },
        None => false,
    }
}

fn placement_is(p: Option<i32>, q: i32) -> (b: bool)
    ensures
        b == (p == Some(q)),
{
    match p {
        Some(x) => x == q,
        None => false,
    }
}

impl SequenceDb {
    /// [`width_bumps`], executable.
    pub fn width_bumps(&self, m: &SeqMessage) -> (r: Vec<(String, bool)>)
        requires
            self.wf(),
        ensures
            r@.map_values(|e: (String, bool)| (e.0@, e.1)) == width_bumps(self@, m@),
    {
        let mut r: Vec<(String, bool)> = Vec::new();
        let ti = match self.actor_position_exec(m.to.as_str()) {
            Some(t) => t,
            None => {
                proof {
                    assert(r@.map_values(|e: (String, bool)| (e.0@, e.1)) =~= Seq::empty());
                }
                return r;
            },
        };
        if self.actor_position_exec(m.from.as_str()).is_none() {
            proof {
                assert(r@.map_values(|e: (String, bool)| (e.0@, e.1)) =~= Seq::empty());
            }
            return r;
        }
        let actor = &self.actors[ti];
        proof {
            assert(self@.actors[ti as int] == actor@);
        }
        let is_note = m.placement.is_some();
        if placement_is(m.placement, LEFTOF) && actor.prev_actor.is_none() {
        } else if placement_is(m.placement, RIGHTOF) && actor.next_actor.is_none() {
        } else if !is_note && opt_is(&actor.next_actor, &m.from) {
            r.push((m.to.clone(), false));
        } else if !is_note && opt_is(&actor.prev_actor, &m.from) {
            r.push((m.from.clone(), false));
        } else if !is_note && eq_slices(&chars_of(m.from.as_str()), &chars_of(m.to.as_str())) {
            r.push((m.from.clone(), true));
            r.push((m.to.clone(), true));
        } else if placement_is(m.placement, RIGHTOF) {
            r.push((m.from.clone(), false));
        } else if placement_is(m.placement, LEFTOF) {
            if let Some(p) = &actor.prev_actor {
                r.push((p.clone(), false));
            }
        } else if placement_is(m.placement, OVER) {
            if let Some(p) = &actor.prev_actor {
                r.push((p.clone(), true));
            }
            if actor.next_actor.is_some() {
                r.push((m.from.clone(), true));
            }
        }
        proof {
            let v = r@.map_values(|e: (String, bool)| (e.0@, e.1));
            assert(v =~= width_bumps(self@, m@));
        }
        r
    }
}

/// Walking the first `k` actors: the boxes closed so far, in closing
/// order, and the box of the last actor walked.
pub open spec fn box_walk(actors: Seq<ActorV>, k: nat) -> (Seq<usize>, Option<usize>)
    decreases k,
{
    if k == 0 {
        (Seq::empty(), None)
    } else {
        let (order, prev) = box_walk(actors, (k - 1) as nat);
        let bi = actors[k - 1].box_index;
        let order2 = match prev {
            Some(pb) => if prev != bi {
                order.push(pb)
            } else {
                order
            },
            None => order,
        };
        (order2, bi)
    }
}

/// The order in which boxes close as the actors are laid out left to right:
/// a box closes at the first actor outside it, the last one after the last
/// actor.
pub open spec fn box_close_order(actors: Seq<ActorV>) -> Seq<usize> {
    let (order, prev) = box_walk(actors, actors.len());
    match prev {
        Some(pb) => order.push(pb),
        None => order,
    }
}

impl SequenceDb {
    /// [`box_close_order`], executable.
    pub fn box_close_order(&self) -> (r: Vec<usize>)
        ensures
            r@ == box_close_order(self@.actors),
    {
        let mut order: Vec<usize> = Vec::new();
        let mut prev: Option<usize> = None;
        let mut k: usize = 0;
        while k < self.actors.len()
            invariant
                k <= self@.actors.len(),
                (order@, prev) == box_walk(self@.actors, k as nat),
            decreases self@.actors.len() - k,
        {
            let bi = self.actors[k].box_index;
            proof {
                assert(self@.actors[k as int].box_index == bi);
            }
            match prev {
                Some(pb) => {
                    let same = match bi {
                        Some(b) => b == pb,
                        None => false,
                    };
                    if !same {
                        order.push(pb);
                    }
                },
                None => {},
            }
            prev = bi;
            k += 1;
        }
        match prev {
            Some(pb) => {
                order.push(pb);
            },
            None => {},
        }
        order
    }
}

/// A message that opens a block (`loop`, `alt`, `opt`, `par`, `critical`,
/// `break`).
pub open spec fn opens_block(t: i32) -> bool {
    t == LOOP_START || t == ALT_START || t == OPT_START || t == PAR_START || t == CRITICAL_START
        || t == BREAK_START
}

/// A message that divides the open block (`else`, `and`, `option`).
pub open spec fn divides_block(t: i32) -> bool {
    t == ALT_ELSE || t == PAR_AND || t == CRITICAL_OPTION
}

/// A message that closes the open block.
pub open spec fn closes_block(t: i32) -> bool {
    t == LOOP_END || t == ALT_END || t == OPT_END || t == PAR_END || t == CRITICAL_END
        || t == BREAK_END
}

/// Walking the first `k` messages: for each, the position of the block
/// start it divides (when it carries a title) or closes, and the stack of
/// open block starts.
pub open spec fn block_walk(msgs: Seq<MessageV>, k: nat) -> (Seq<Option<usize>>, Seq<usize>)
    decreases k,
{
    if k == 0 {
        (Seq::empty(), Seq::empty())
    } else {
        let (links, stack) = block_walk(msgs, (k - 1) as nat);
        let m = msgs[k - 1];
        if opens_block(m.ty) {
            (links.push(None), stack.push((k - 1) as usize))
        } else if divides_block(m.ty) && m.message.len() > 0 && stack.len() > 0 {
            (links.push(Some(stack.last())), stack)
        } else if closes_block(m.ty) && stack.len() > 0 {
            (links.push(Some(stack.last())), stack.drop_last())
        } else {
            (links.push(None), stack)
        }
    }
}

/// For each message, the block start it divides or closes: the blocks
/// whose width a title is wrapped to.
pub open spec fn block_links(msgs: Seq<MessageV>) -> Seq<Option<usize>> {
    block_walk(msgs, msgs.len()).0
}

impl SequenceDb {
    /// [`block_links`], executable.
    pub fn block_links(&self) -> (r: Vec<Option<usize>>)
        ensures
            r@ == block_links(self@.messages),
    {
        let mut links: Vec<Option<usize>> = Vec::new();
        let mut stack: Vec<usize> = Vec::new();
        let mut k: usize = 0;
        while k < self.messages.len()
            invariant
                k <= self@.messages.len(),
                (links@, stack@) == block_walk(self@.messages, k as nat),
            decreases self@.messages.len() - k,
        {
            let m = &self.messages[k];
            proof {
                assert(self@.messages[k as int] == m@);
            }
            let t = m.ty;
            let titled = chars_of(m.message.as_str()).len() > 0;
            if t == LOOP_START || t == ALT_START || t == OPT_START || t == PAR_START || t == CRITICAL_START
                || t == BREAK_START {
                links.push(None);
                stack.push(k);
            } else if (t == ALT_ELSE || t == PAR_AND || t == CRITICAL_OPTION) && titled && stack.len() > 0 {
                let top = stack[stack.len() - 1];
                links.push(Some(top));
            } else if (t == LOOP_END || t == ALT_END || t == OPT_END || t == PAR_END || t == CRITICAL_END
                || t == BREAK_END) && stack.len() > 0 {
                let top = stack.pop().unwrap();
                links.push(Some(top));
                proof {
                    assert(stack@ =~= block_walk(self@.messages, k as nat).1.drop_last());
                }
            } else {
                links.push(None);
            }
            k += 1;
        }
        links
    }
}

proof fn lemma_block_walk(msgs: Seq<MessageV>, k: nat)
    requires
        k <= msgs.len(),
        msgs.len() <= usize::MAX,
    ensures
        block_walk(msgs, k).0.len() == k,
        forall|i: int|
            0 <= i < block_walk(msgs, k).1.len() ==> (#[trigger] block_walk(msgs, k).1[i]) < k
                && opens_block(msgs[block_walk(msgs, k).1[i] as int].ty),
        forall|i: int|
            0 <= i < k && (#[trigger] block_walk(msgs, k).0[i]) is Some ==> block_walk(msgs, k).0[i].unwrap()
                < i && opens_block(msgs[block_walk(msgs, k).0[i].unwrap() as int].ty),
    decreases k,
{
    if k > 0 {
        lemma_block_walk(msgs, (k - 1) as nat);
        let (links, stack) = block_walk(msgs, (k - 1) as nat);
        if stack.len() > 0 {
            assert(stack[stack.len() - 1] == stack.last());
        }
        let (links2, stack2) = block_walk(msgs, k);
        assert forall|i: int| 0 <= i < k && (#[trigger] links2[i]) is Some implies links2[i].unwrap() < i
            && opens_block(msgs[links2[i].unwrap() as int].ty) by {
            if i < k - 1 {
                assert(links2[i] == links[i]);
            }
        }
        assert forall|i: int| 0 <= i < stack2.len() implies (#[trigger] stack2[i]) < k && opens_block(
            msgs[stack2[i] as int].ty,
        ) by {
            if i < stack.len() {
                assert(stack2[i] == stack[i]);
            }
        }
    }
}

/// Law: every message that divides or closes a block is matched with an
/// earlier message that opened one.
pub proof fn block_links_point_back(msgs: Seq<MessageV>)
    requires
        msgs.len() <= usize::MAX,
    ensures
        block_links(msgs).len() == msgs.len(),
        forall|i: int|
            0 <= i < msgs.len() && (#[trigger] block_links(msgs)[i]) is Some ==> block_links(msgs)[i].unwrap()
                < i && opens_block(msgs[block_links(msgs)[i].unwrap() as int].ty),
{
    lemma_block_walk(msgs, msgs.len());
}

/// How many entries of `s` equal `a`.
pub open spec fn count_in(s: Seq<Seq<char>>, a: Seq<char>) -> nat
    decreases s.len(),
{
    if s.len() == 0 {
        0
    } else {
        count_in(s.drop_last(), a) + if s.last() == a {
            1nat
        } else {
            0nat
        }
    }
}

/// `s` without its last entry equal to `a` (unchanged when there is none).
pub open spec fn remove_last_of(s: Seq<Seq<char>>, a: Seq<char>) -> Seq<Seq<char>>
    decreases s.len(),
{
    if s.len() == 0 {
        s
    } else if s.last() == a {
        s.drop_last()
    } else {
        remove_last_of(s.drop_last(), a).push(s.last())
    }
}

/// Walking the first `k` messages: for each, how many activations of its
/// sender were already open when it opened one (0 for other messages), and
/// the senders of the open activations. An activation's end closes the
/// sender's latest one.
pub open spec fn activation_walk(msgs: Seq<MessageV>, k: nat) -> (Seq<nat>, Seq<Seq<char>>)
    decreases k,
{
    if k == 0 {
        (Seq::empty(), Seq::empty())
    } else {
        let (levels, open) = activation_walk(msgs, (k - 1) as nat);
        let m = msgs[k - 1];
        if m.ty == ACTIVE_START {
            (levels.push(count_in(open, m.from)), open.push(m.from))
        } else if m.ty == ACTIVE_END {
            (levels.push(0), remove_last_of(open, m.from))
        } else {
            (levels.push(0), open)
        }
    }
}

/// The stacking level of each activation: how many activations of the same
/// actor it opens inside of.
pub open spec fn activation_levels(msgs: Seq<MessageV>) -> Seq<nat> {
    activation_walk(msgs, msgs.len()).0
}

proof fn lemma_remove_last_at(s: Seq<Seq<char>>, a: Seq<char>, j: int)
    requires
        0 <= j < s.len(),
        s[j] == a,
        forall|i: int| j < i < s.len() ==> s[i] != a,
    ensures
        remove_last_of(s, a) == s.take(j) + s.skip(j + 1),
    decreases s.len(),
{
    if s.last() == a {
        assert(j == s.len() - 1);
        assert(s.drop_last() =~= s.take(j) + s.skip(j + 1));
    } else {
        let d = s.drop_last();
        lemma_remove_last_at(d, a, j);
        assert(remove_last_of(s, a) =~= s.take(j) + s.skip(j + 1));
    }
}

proof fn lemma_remove_last_none(s: Seq<Seq<char>>, a: Seq<char>)
    requires
        forall|i: int| 0 <= i < s.len() ==> s[i] != a,
    ensures
        remove_last_of(s, a) == s,
    decreases s.len(),
{
    if s.len() > 0 {
        lemma_remove_last_none(s.drop_last(), a);
        assert(s.drop_last().push(s.last()) =~= s);
    }
}

fn count_open(open: &Vec<String>, a: &str) -> (r: usize)
    ensures
        r == count_in(open@.map_values(|x: String| x@), a@),
{
    let av = chars_of(a);
    let ghost ov = open@.map_values(|x: String| x@);
    let mut n: usize = 0;
    let mut i: usize = 0;
    while i < open.len()
        invariant
            i <= open@.len(),
            av@ == a@,
            ov == open@.map_values(|x: String| x@),
            n == count_in(ov.take(i as int), a@),
            n <= i,
        decreases open@.len() - i,
    {
        proof {
            assert(ov.take(i + 1).drop_last() =~= ov.take(i as int));
            assert(ov.take(i + 1).last() == open@[i as int]@);
        }
        let c = chars_of(open[i].as_str());
        if eq_slices(&c, &av) {
            n += 1;
        }
        i += 1;
    }
    proof {
        assert(ov.take(i as int) =~= ov);
    }
    n
}

fn close_latest(open: &mut Vec<String>, a: &str)
    ensures
        final(open)@.map_values(|x: String| x@) == remove_last_of(
            old(open)@.map_values(|x: String| x@),
            a@,
        ),
{
    let av = chars_of(a);
    let ghost ov = open@.map_values(|x: String| x@);
    let mut j = open.len();
    while j > 0
        invariant
            j <= open@.len(),
            av@ == a@,
            ov == open@.map_values(|x: String| x@),
            ov == old(open)@.map_values(|x: String| x@),
            forall|i: int| j <= i < ov.len() ==> ov[i] != a@,
        decreases j,
    {
        let c = chars_of(open[j - 1].as_str());
        if eq_slices(&c, &av) {
            proof {
                assert(ov[j - 1] == a@);
                lemma_remove_last_at(ov, a@, j - 1);
            }
            let ghost before = open@;
            open.remove(j - 1);
            proof {
                assert(open@ == before.remove(j - 1));
                assert forall|i: int| 0 <= i < open@.len() implies #[trigger] open@[i]@ == (ov.take(j - 1)
                    + ov.skip(j as int))[i] by {
                    if i < j - 1 {
                        assert(open@[i] == before[i]);
                    } else {
                        assert(open@[i] == before[i + 1]);
                    }
                }
                assert(open@.map_values(|x: String| x@) =~= ov.take(j - 1) + ov.skip(j as int));
            }
            return;
        }
        j -= 1;
    }
    proof {
        lemma_remove_last_none(ov, a@);
    }
}

impl SequenceDb {
    /// [`activation_levels`], executable.
    pub fn activation_levels(&self) -> (r: Vec<usize>)
        ensures
            r@.map_values(|x: usize| x as nat) == activation_levels(self@.messages),
    {
        let mut levels: Vec<usize> = Vec::new();
        let mut open: Vec<String> = Vec::new();
        let mut k: usize = 0;
        while k < self.messages.len()
            invariant
                k <= self@.messages.len(),
                (levels@.map_values(|x: usize| x as nat), open@.map_values(|x: String| x@))
                    == activation_walk(self@.messages, k as nat),
            decreases self@.messages.len() - k,
        {
            let m = &self.messages[k];
            proof {
                assert(self@.messages[k as int] == m@);
            }
            let ghost lv0 = levels@.map_values(|x: usize| x as nat);
            let ghost ov0 = open@.map_values(|x: String| x@);
            if m.ty == ACTIVE_START {
                let c = count_open(&open, m.from.as_str());
                levels.push(c);
                open.push(m.from.clone());
                proof {
                    assert(levels@.map_values(|x: usize| x as nat) =~= lv0.push(c as nat));
                    assert(open@.map_values(|x: String| x@) =~= ov0.push(m.from@));
                }
            } else if m.ty == ACTIVE_END {
                levels.push(0);
                close_latest(&mut open, m.from.as_str());
                proof {
                    assert(levels@.map_values(|x: usize| x as nat) =~= lv0.push(0));
                }
            } else {
                levels.push(0);
                proof {
                    assert(levels@.map_values(|x: usize| x as nat) =~= lv0.push(0));
                }
            }
            k += 1;
        }
        levels
    }
}

/// Law: in every database `parse` returns, message `i` has id `i`, for
/// every kind of statement that adds a message.
pub proof fn parse_numbers_messages(source: Seq<char>)
    ensures
        parse_result(source) matches Ok(db) ==> forall|i: int|
            0 <= i < db.messages.len() ==> #[trigger] db.messages[i].id == decimal(i as nat),
{
    lemma_run_inv(initial_state(), lines(source));
}

/// Law: in every database `parse` returns, the participants have distinct
/// names and form a chain in declaration order: each one's `prev_actor` is
/// the one before it, whose `next_actor` is it; the first has no
/// predecessor and the last no successor.
pub proof fn parse_chains_actors(source: Seq<char>)
    ensures
        parse_result(source) matches Ok(db) ==> {
            &&& forall|i: int, j: int|
                0 <= i < j < db.actors.len() ==> #[trigger] db.actors[i].name != #[trigger] db.actors[j].name
            &&& forall|i: int|
                0 < i < db.actors.len() ==> (#[trigger] db.actors[i]).prev_actor == Some(
                    db.actors[i - 1].name,
                ) && db.actors[i - 1].next_actor == Some(db.actors[i].name)
            &&& db.actors.len() > 0 ==> db.actors[0].prev_actor is None && db.actors.last().next_actor is None
        },
{
    lemma_run_inv(initial_state(), lines(source));
}

/// The first line that is neither blank nor a comment, trimmed.
pub open spec fn first_statement(ls: Seq<Seq<char>>) -> Option<Seq<char>>
    decreases ls.len(),
{
    if ls.len() == 0 {
        None
    } else {
        let l = trim(ls[0]);
        if l.len() == 0 || starts_with(l, "%%"@) || starts_with(l, "#"@) {
            first_statement(ls.drop_first())
        } else {
            Some(l)
        }
    }
}

proof fn lemma_header_run(st: StateV, ls: Seq<Seq<char>>)
    requires
        !st.found,
    ensures
        first_statement(ls) is None ==> run(st, ls) == Ok::<StateV, Seq<char>>(st),
        first_statement(ls) is Some && !starts_with(first_statement(ls).unwrap(), "sequenceDiagram"@)
            ==> run(st, ls) == Err::<StateV, Seq<char>>(
            "expected sequenceDiagram header, got "@ + debug_quoted(first_statement(ls).unwrap()),
        ),
    decreases ls.len(),
{
    if ls.len() > 0 {
        let l = trim(ls[0]);
        if l.len() == 0 || starts_with(l, "%%"@) || starts_with(l, "#"@) {
            lemma_header_run(st, ls.drop_first());
        }
    }
}

/// Law: a source whose first statement is not the `sequenceDiagram` header
/// is refused: with no statement at all for the missing header, otherwise
/// naming the statement found.
pub proof fn parse_requires_header(source: Seq<char>)
    ensures
        first_statement(lines(source)) is None ==> parse_result(source) == Err::<DbV, Seq<char>>(
            "missing sequenceDiagram header"@,
        ),
        first_statement(lines(source)) is Some && !starts_with(
            first_statement(lines(source)).unwrap(),
            "sequenceDiagram"@,
        ) ==> parse_result(source) == Err::<DbV, Seq<char>>(
            "expected sequenceDiagram header, got "@ + debug_quoted(first_statement(lines(source)).unwrap()),
        ),
{
    lemma_header_run(initial_state(), lines(source));
}


/// After the header and outside a `box`, the statement `line` followed by
/// `end` adds exactly two messages: first an opening one of type `s` that
/// carries the text `text`, then a closing one of type `e`; the stack of open
/// blocks is as before.
pub open spec fn opens_and_closes(st: StateV, line: Seq<char>, text: Seq<char>, s: i32, e: i32) -> bool {
    match statement(st, line) {
        Ok(st1) => {
            &&& st1.db.messages.len() == st.db.messages.len() + 1
            &&& st1.db.messages.drop_last() == st.db.messages
            &&& st1.db.messages.last().ty == s
            &&& st1.db.messages.last().message == parse_message(text)
            &&& match statement(st1, "end"@) {
                Ok(st2) => {
                    &&& st2.db.messages.len() == st.db.messages.len() + 2
                    &&& st2.db.messages.drop_last() == st1.db.messages
                    &&& st2.db.messages.last().ty == e
                    &&& st2.blocks == st.blocks
                },
                Err(_) => false,
            }
        },
        Err(_) => false,
    }
}

/// `strip_keyword` finds nothing where the line and the keyword differ, case
/// aside, at position `i`.
proof fn lemma_keyword_differs(line: Seq<char>, kw: Seq<char>, i: int)
    requires
        0 <= i < kw.len(),
        i < line.len(),
        ascii_lower(line[i]) != ascii_lower(kw[i]),
    ensures
        strip_keyword(line, kw) is None,
{
    if line.len() > kw.len() {
        assert(line.take(kw.len() as int)[i] == line[i]);
    }
}

/// A lower-cased line that differs from `p` at position `i` does not start
/// with `p`.
proof fn lemma_prefix_differs(line: Seq<char>, p: Seq<char>, i: int)
    requires
        0 <= i < p.len(),
        i < line.len(),
        ascii_lower(line[i]) != p[i],
    ensures
        !starts_with(ascii_lower_seq(line), p),
{
    if p.len() <= line.len() {
        assert(ascii_lower_seq(line).take(p.len() as int)[i] == ascii_lower(line[i]));
    }
}

/// `end`, outside a box, closes the innermost open block with its closing
/// line type.
proof fn lemma_end_statement(st: StateV)
    requires
        !st.in_box,
        st.blocks.len() > 0,
    ensures
        statement(st, "end"@) == Ok::<StateV, Seq<char>>(
            StateV {
                db: push_message(st.db, message(st.db, Seq::empty(), Seq::empty(), Seq::empty(), st.blocks.last())),
                blocks: st.blocks.drop_last(),
                ..st
            },
        ),
{
    reveal_strlit("end");
    reveal_strlit("note ");
    assert(ascii_lower_seq("end"@) =~= "end"@);
}

/// A block keyword line: once the statements tried before block keywords
/// have passed it by, it opens its block and `end` closes it.
proof fn lemma_block_line(st: StateV, line: Seq<char>, text: Seq<char>, s: i32, e: i32)
    requires
        !st.in_box,
        strip_keyword(line, "destroy"@) is None,
        strip_keyword(line, "create"@) is None,
        strip_keyword(line, "participant"@) is None,
        strip_keyword(line, "actor"@) is None,
        strip_keyword(line, "link"@) is None,
        !starts_with(ascii_lower_seq(line), "note "@),
        strip_keyword(line, "box"@) is None,
        block_start(line) == Some((text, s, e)),
    ensures
        opens_and_closes(st, line, text, s, e),
{
    let st1 = StateV {
        db: push_message(st.db, message(st.db, Seq::empty(), Seq::empty(), parse_message(text), s)),
        blocks: st.blocks.push(e),
        ..st
    };
    assert(statement(st, line) == Ok::<StateV, Seq<char>>(st1));
    lemma_end_statement(st1);
    assert(st1.blocks.drop_last() =~= st.blocks);
    assert(st1.db.messages.drop_last() =~= st.db.messages);
    let st2 = StateV {
        db: push_message(st1.db, message(st1.db, Seq::empty(), Seq::empty(), Seq::empty(), e)),
        blocks: st.blocks,
        ..st1
    };
    assert(statement(st1, "end"@) == Ok::<StateV, Seq<char>>(st2));
    assert(st2.db.messages.drop_last() =~= st1.db.messages);
}

/// Law: each block keyword opens a block of its own kind. After the header
/// and outside a `box`, `loop`, `alt`, `opt`, `par`, `critical`, `break` and
/// `rect`, each followed by one ASCII whitespace character and any text, add
/// an opening line of their own type (10, 12, 15, 19, 27, 30, 22) with that
/// text, and the `end` that follows adds the matching closing type (11, 14,
/// 16, 21, 29, 31, 23).
pub proof fn block_keywords_open_their_own_blocks(st: StateV, c: char, text: Seq<char>)
    requires
        !st.in_box,
        is_ascii_ws(c),
    ensures
        opens_and_closes(st, "loop"@ + seq![c] + text, text, 10, 11),
        opens_and_closes(st, "alt"@ + seq![c] + text, text, 12, 14),
        opens_and_closes(st, "opt"@ + seq![c] + text, text, 15, 16),
        opens_and_closes(st, "par"@ + seq![c] + text, text, 19, 21),
        opens_and_closes(st, "critical"@ + seq![c] + text, text, 27, 29),
        opens_and_closes(st, "break"@ + seq![c] + text, text, 30, 31),
        opens_and_closes(st, "rect"@ + seq![c] + text, text, 22, 23),
{
    lemma_block_keyword(st, "loop"@, c, text, 10, 11);
    lemma_block_keyword(st, "alt"@, c, text, 12, 14);
    lemma_block_keyword(st, "opt"@, c, text, 15, 16);
    lemma_block_keyword(st, "par"@, c, text, 19, 21);
    lemma_block_keyword(st, "critical"@, c, text, 27, 29);
    lemma_block_keyword(st, "break"@, c, text, 30, 31);
    lemma_block_keyword(st, "rect"@, c, text, 22, 23);
}

/// The statements tried before block keywords all pass by a line that
/// starts with a block keyword and one whitespace character.
proof fn lemma_block_keyword(st: StateV, kw: Seq<char>, c: char, text: Seq<char>, s: i32, e: i32)
    requires
        !st.in_box,
        is_ascii_ws(c),
        (kw == "loop"@ && s == 10 && e == 11) || (kw == "alt"@ && s == 12 && e == 14) || (kw
            == "opt"@ && s == 15 && e == 16) || (kw == "par"@ && s == 19 && e == 21) || (kw
            == "critical"@ && s == 27 && e == 29) || (kw == "break"@ && s == 30 && e == 31) || (kw
            == "rect"@ && s == 22 && e == 23),
    ensures
        opens_and_closes(st, kw + seq![c] + text, text, s, e),
{
    reveal_strlit("loop");
    reveal_strlit("alt");
    reveal_strlit("opt");
    reveal_strlit("par");
    reveal_strlit("critical");
    reveal_strlit("break");
    reveal_strlit("rect");
    reveal_strlit("destroy");
    reveal_strlit("create");
    reveal_strlit("participant");
    reveal_strlit("actor");
    reveal_strlit("link");
    reveal_strlit("note ");
    reveal_strlit("box");
    let line = kw + seq![c] + text;
    assert(line[kw.len() as int] == c);
    assert(line.skip(kw.len() + 1 as int) =~= text);
    assert forall|i: int| 0 <= i < kw.len() implies line[i] == kw[i] && ascii_lower(kw[i]) == kw[i] by {}
    lemma_keyword_differs(line, "destroy"@, 0);
    lemma_prefix_differs(line, "note "@, 0);
    if kw == "critical"@ {
        lemma_keyword_differs(line, "create"@, 2);
    } else {
        lemma_keyword_differs(line, "create"@, 0);
    }
    if kw == "par"@ {
        lemma_keyword_differs(line, "participant"@, 3);
    } else {
        lemma_keyword_differs(line, "participant"@, 0);
    }
    if kw == "alt"@ {
        lemma_keyword_differs(line, "actor"@, 1);
    } else {
        lemma_keyword_differs(line, "actor"@, 0);
    }
    if kw == "loop"@ {
        lemma_keyword_differs(line, "link"@, 1);
    } else {
        lemma_keyword_differs(line, "link"@, 0);
    }
    if kw == "break"@ {
        lemma_keyword_differs(line, "box"@, 1);
    } else {
        lemma_keyword_differs(line, "box"@, 0);
    }
    if kw != "loop"@ {
        lemma_keyword_differs(line, "loop"@, 0);
    }
    if kw != "alt"@ {
        lemma_keyword_differs(line, "alt"@, 0);
    }
    if kw != "opt"@ {
        lemma_keyword_differs(line, "opt"@, 0);
    }
    if kw != "par"@ {
        lemma_keyword_differs(line, "par"@, 0);
    }
    if kw != "critical"@ {
        lemma_keyword_differs(line, "critical"@, 0);
    }
    if kw != "break"@ {
        lemma_keyword_differs(line, "break"@, 0);
    }
    assert(strip_keyword(line, kw) == Some(text)) by {
        assert(line.take(kw.len() as int) =~= kw);
    }
    lemma_block_line(st, line, text, s, e);
}

/// The statement `line` adds one message of type `t` carrying the text
/// `text`, and leaves the stack of open blocks as it is.
pub open spec fn adds_section(st: StateV, line: Seq<char>, text: Seq<char>, t: i32) -> bool {
    match statement(st, line) {
        Ok(st1) => {
            &&& st1.db.messages.len() == st.db.messages.len() + 1
            &&& st1.db.messages.drop_last() == st.db.messages
            &&& st1.db.messages.last().ty == t
            &&& st1.db.messages.last().message == parse_message(text)
            &&& st1.blocks == st.blocks
        },
        Err(_) => false,
    }
}

/// `strip_keyword` finds nothing where the keyword is followed by no ASCII
/// whitespace.
proof fn lemma_keyword_unspaced(line: Seq<char>, kw: Seq<char>)
    requires
        line.len() > kw.len() ==> !is_ascii_ws(line[kw.len() as int]),
    ensures
        strip_keyword(line, kw) is None,
{
}

/// Law: each block section keyword divides its own kind of block. After the
/// header, `else`, `and` and `option`, each followed by one ASCII whitespace
/// character and any text, add a line of their own type (13, 20, 28) with
/// that text, and leave the open blocks as they are.
pub proof fn section_keywords_divide_their_own_blocks(st: StateV, c: char, text: Seq<char>)
    requires
        is_ascii_ws(c),
    ensures
        adds_section(st, "else"@ + seq![c] + text, text, 13),
        adds_section(st, "and"@ + seq![c] + text, text, 20),
        adds_section(st, "option"@ + seq![c] + text, text, 28),
{
    lemma_section_keyword(st, "else"@, c, text, 13);
    lemma_section_keyword(st, "and"@, c, text, 20);
    lemma_section_keyword(st, "option"@, c, text, 28);
}

/// The statements tried before section keywords all pass by a line that
/// starts with a section keyword and one whitespace character.
proof fn lemma_section_keyword(st: StateV, kw: Seq<char>, c: char, text: Seq<char>, t: i32)
    requires
        is_ascii_ws(c),
        (kw == "else"@ && t == 13) || (kw == "and"@ && t == 20) || (kw == "option"@ && t == 28),
    ensures
        adds_section(st, kw + seq![c] + text, text, t),
{
    reveal_strlit("else");
    reveal_strlit("and");
    reveal_strlit("option");
    reveal_strlit("loop");
    reveal_strlit("alt");
    reveal_strlit("opt");
    reveal_strlit("par");
    reveal_strlit("critical");
    reveal_strlit("break");
    reveal_strlit("rect");
    reveal_strlit("destroy");
    reveal_strlit("create");
    reveal_strlit("participant");
    reveal_strlit("actor");
    reveal_strlit("link");
    reveal_strlit("note ");
    reveal_strlit("box");
    let line = kw + seq![c] + text;
    assert(line[kw.len() as int] == c);
    assert(line.skip(kw.len() + 1 as int) =~= text);
    assert forall|i: int| 0 <= i < kw.len() implies line[i] == kw[i] && ascii_lower(kw[i]) == kw[i] by {}
    lemma_keyword_differs(line, "destroy"@, 0);
    lemma_keyword_differs(line, "create"@, 0);
    lemma_keyword_differs(line, "participant"@, 0);
    lemma_keyword_differs(line, "link"@, 0);
    lemma_prefix_differs(line, "note "@, 0);
    lemma_keyword_differs(line, "box"@, 0);
    lemma_keyword_differs(line, "loop"@, 0);
    lemma_keyword_differs(line, "par"@, 0);
    lemma_keyword_differs(line, "critical"@, 0);
    lemma_keyword_differs(line, "break"@, 0);
    lemma_keyword_differs(line, "rect"@, 0);
    if kw == "and"@ {
        lemma_keyword_differs(line, "actor"@, 1);
        lemma_keyword_differs(line, "alt"@, 1);
        lemma_keyword_differs(line, "opt"@, 0);
    } else {
        lemma_keyword_differs(line, "actor"@, 0);
        lemma_keyword_differs(line, "alt"@, 0);
        if kw == "option"@ {
            lemma_keyword_unspaced(line, "opt"@);
        } else {
            lemma_keyword_differs(line, "opt"@, 0);
        }
    }
    if kw != "else"@ {
        lemma_keyword_differs(line, "else"@, 0);
    }
    if kw != "and"@ {
        lemma_keyword_differs(line, "and"@, 0);
    }
    assert(strip_keyword(line, kw) == Some(text)) by {
        assert(line.take(kw.len() as int) =~= kw);
    }
    assert(block_start(line) is None);
    assert(block_section(line) == Some((text, t)));
    let st1 = StateV {
        db: push_message(st.db, message(st.db, Seq::empty(), Seq::empty(), parse_message(text), t)),
        ..st
    };
    assert(statement(st, line) == Ok::<StateV, Seq<char>>(st1));
    assert(st1.db.messages.drop_last() =~= st.db.messages);
}

} // verus!
