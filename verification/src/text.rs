//! Font selection for text measurement and the text helpers around it.
//!
//! Font bytes come from a registry of host-registered faces (keyed by file
//! name) and, for faces the registry lacks, from the files the host found
//! on disk; embedded open faces stand in when neither has a face. The
//! hand-drawn switch selects the handwritten face for measurers built
//! afterwards. All of this lives in a [`FontEnv`] value that the caller
//! owns and passes along.

use crate::strs::{
    ascii_lower, chars_of, chars_of_string, copy_range, is_ws, is_ws_char, lower_char, rfind_char, rfind_char_exec, string_of,
};
use vstd::prelude::*;

verus! {

/// Where font bytes come from.
pub struct FontEnv {
    hand_drawn: bool,
    /// Host-registered font bytes, keyed by file name, distinct names.
    registry: Vec<(String, Vec<u8>)>,
    /// Font files found on the host, keyed by path.
    disk: Vec<(String, Vec<u8>)>,
    /// Embedded handwritten face (`look: handDrawn`).
    excalifont: Vec<u8>,
    /// Embedded stand-in for Trebuchet MS.
    cabin: Vec<u8>,
    /// Embedded stand-in for Times New Roman.
    tinos: Vec<u8>,
}

pub ghost struct FontEnvV {
    pub hand_drawn: bool,
    pub registry: Seq<(Seq<char>, Seq<u8>)>,
    pub disk: Seq<(Seq<char>, Seq<u8>)>,
    pub excalifont: Seq<u8>,
    pub cabin: Seq<u8>,
    pub tinos: Seq<u8>,
}

pub open spec fn files_view(v: Seq<(String, Vec<u8>)>) -> Seq<(Seq<char>, Seq<u8>)> {
    v.map_values(|p: (String, Vec<u8>)| (p.0@, p.1@))
}

impl View for FontEnv {
    type V = FontEnvV;

    closed spec fn view(&self) -> FontEnvV {
        FontEnvV {
            hand_drawn: self.hand_drawn,
            registry: files_view(self.registry@),
            disk: files_view(self.disk@),
            excalifont: self.excalifont@,
            cabin: self.cabin@,
            tinos: self.tinos@,
        }
    }
}

/// The position of the first file named `k`.
pub open spec fn file_position(files: Seq<(Seq<char>, Seq<u8>)>, k: Seq<char>, i: nat) -> Option<nat>
    decreases files.len() - i,
{
    if i >= files.len() {
        None
    } else if files[i as int].0 == k {
        Some(i)
    } else {
        file_position(files, k, i + 1)
    }
}

/// The bytes of the first file named `k`.
pub open spec fn lookup(files: Seq<(Seq<char>, Seq<u8>)>, k: Seq<char>) -> Option<Seq<u8>> {
    match file_position(files, k, 0) {
        Some(i) => Some(files[i as int].1),
        None => None,
    }
}

/// The file name of a path: the text after its last `/`.
pub open spec fn file_name(path: Seq<char>) -> Seq<char> {
    match rfind_char(path, '/') {
        Some(i) => path.skip(i + 1 as int),
        None => path,
    }
}

/// Font bytes for `path`: the registry (by file name) first, then the
/// host's files.
pub open spec fn read_font(env: FontEnvV, path: Seq<char>) -> Option<Seq<u8>> {
    match lookup(env.registry, file_name(path)) {
        Some(b) => Some(b),
        None => lookup(env.disk, path),
    }
}

/// Places Trebuchet MS is installed.
pub open spec fn trebuchet_candidates() -> Seq<Seq<char>> {
    seq![
        "/System/Library/Fonts/Supplemental/Trebuchet MS.ttf"@,
        "/Library/Fonts/Trebuchet MS.ttf"@,
        "C:/Windows/Fonts/trebuc.ttf"@,
    ]
}

/// Places Times New Roman is installed.
pub open spec fn times_candidates() -> Seq<Seq<char>> {
    seq![
        "/System/Library/Fonts/Supplemental/Times New Roman.ttf"@,
        "/Library/Fonts/Times New Roman.ttf"@,
        "C:/Windows/Fonts/times.ttf"@,
    ]
}

/// The bytes of the first readable candidate.
pub open spec fn first_readable(env: FontEnvV, cands: Seq<Seq<char>>) -> Option<Seq<u8>>
    decreases cands.len(),
{
    if cands.len() == 0 {
        None
    } else {
        match read_font(env, cands[0]) {
            Some(b) => Some(b),
            None => first_readable(env, cands.drop_first()),
        }
    }
}

/// The handwritten face: a registered or installed `Excalifont-Regular.ttf`,
/// else the embedded one.
pub open spec fn hand_drawn_font(env: FontEnvV) -> Seq<u8> {
    match read_font(env, "Excalifont-Regular.ttf"@) {
        Some(b) => b,
        None => env.excalifont,
    }
}

/// `register_font` on the registry: the name's bytes replaced, or a new
/// entry appended.
pub open spec fn register(files: Seq<(Seq<char>, Seq<u8>)>, k: Seq<char>, data: Seq<u8>) -> Seq<
    (Seq<char>, Seq<u8>),
> {
    match file_position(files, k, 0) {
        Some(i) => files.update(i as int, (k, data)),
        None => files.push((k, data)),
    }
}

fn copy_bytes(v: &Vec<u8>) -> (r: Vec<u8>)
    ensures
        r@ == v@,
{
    let mut r: Vec<u8> = Vec::new();
    let mut i: usize = 0;
    while i < v.len()
        invariant
            i <= v@.len(),
            r@ == v@.take(i as int),
        decreases v@.len() - i,
    {
        r.push(v[i]);
        i += 1;
        assert(r@ =~= v@.take(i as int));
    }
    assert(v@.take(i as int) =~= v@);
    r
}

fn file_position_exec(files: &Vec<(String, Vec<u8>)>, k: &[char]) -> (r: Option<usize>)
    ensures
        match r {
            Some(i) => file_position(files_view(files@), k@, 0) == Some(i as nat) && i
                < files@.len(),
            None => file_position(files_view(files@), k@, 0) is None,
        },
{
    let ghost fv = files_view(files@);
    let mut i: usize = 0;
    while i < files.len()
        invariant
            i <= files@.len(),
            fv == files_view(files@),
            file_position(fv, k@, 0) == file_position(fv, k@, i as nat),
        decreases files@.len() - i,
    {
        let c = chars_of_string(&files[i].0);
        if crate::sequence::eq_slices(&c, k) {
            return Some(i);
        }
        i += 1;
    }
    None
}

fn lookup_exec(files: &Vec<(String, Vec<u8>)>, k: &[char]) -> (r: Option<Vec<u8>>)
    ensures
        match r {
            Some(b) => lookup(files_view(files@), k@) == Some(b@),
            None => lookup(files_view(files@), k@) is None,
        },
{
    match file_position_exec(files, k) {
        Some(i) => Some(copy_bytes(&files[i].1)),
        None => None,
    }
}

impl FontEnv {
    /// An environment with the hand-drawn switch off and nothing
    /// registered: `disk` holds the font files found on the host (path and
    /// bytes), the others the embedded faces.
    pub fn new(disk: Vec<(String, Vec<u8>)>, excalifont: Vec<u8>, cabin: Vec<u8>, tinos: Vec<u8>) -> (e: Self)
        ensures
            e@ == (FontEnvV {
                hand_drawn: false,
                registry: Seq::empty(),
                disk: files_view(disk@),
                excalifont: excalifont@,
                cabin: cabin@,
                tinos: tinos@,
            }),
    {
        let e = FontEnv { hand_drawn: false, registry: Vec::new(), disk, excalifont, cabin, tinos };
        assert(files_view(e.registry@) =~= Seq::<(Seq<char>, Seq<u8>)>::empty());
        e
    }
}

/// Switches text measurement to the hand-drawn (`look: handDrawn`) label
/// font for measurers constructed afterwards.
pub fn set_hand_drawn(env: &mut FontEnv, on: bool)
    ensures
        final(env)@ == (FontEnvV { hand_drawn: on, ..old(env)@ }),
{
    env.hand_drawn = on;
}

/// Whether hand-drawn measurement is active.
pub fn is_hand_drawn(env: &FontEnv) -> (b: bool)
    ensures
        b == env@.hand_drawn,
{
    env.hand_drawn
}

/// Registers font bytes under a file name (e.g. `"Trebuchet MS.ttf"`),
/// taking precedence over the same file on disk.
pub fn register_font(env: &mut FontEnv, file_name: &str, data: Vec<u8>)
    ensures
        final(env)@ == (FontEnvV { registry: register(old(env)@.registry, file_name@, data@), ..old(env)@ }),
{
    let k = chars_of(file_name);
    let ghost fv = files_view(env.registry@);
    match file_position_exec(&env.registry, &k) {
        Some(i) => {
            env.registry.set(i, (String::from_str(file_name), data));
            proof {
                assert(files_view(env.registry@) =~= fv.update(i as int, (file_name@, data@)));
            }
        },
        None => {
            env.registry.push((String::from_str(file_name), data));
            proof {
                assert(files_view(env.registry@) =~= fv.push((file_name@, data@)));
            }
        },
    }
}

/// Font bytes for `path`: the registry (keyed by file name) first, then
/// the host's files.
pub fn read_font_exec(env: &FontEnv, path: &str) -> (r: Option<Vec<u8>>)
    ensures
        match r {
            Some(b) => read_font(env@, path@) == Some(b@),
            None => read_font(env@, path@) is None,
        },
{
    let p = chars_of(path);
    let name = match rfind_char_exec(&p, '/') {
        Some(i) => copy_range(&p, i + 1, p.len()),
        None => copy_range(&p, 0, p.len()),
    };
    proof {
        assert(p@.subrange(0, p@.len() as int) =~= p@);
    }
    match lookup_exec(&env.registry, &name) {
        Some(b) => Some(b),
        None => lookup_exec(&env.disk, &p),
    }
}

fn trebuchet_candidate(i: usize) -> (r: &'static str)
    requires
        i < 3,
    ensures
        r@ == trebuchet_candidates()[i as int],
{
    match i {
        0 => "/System/Library/Fonts/Supplemental/Trebuchet MS.ttf",
        1 => "/Library/Fonts/Trebuchet MS.ttf",
        _ => "C:/Windows/Fonts/trebuc.ttf",
    }
}

fn times_candidate(i: usize) -> (r: &'static str)
    requires
        i < 3,
    ensures
        r@ == times_candidates()[i as int],
{
    match i {
        0 => "/System/Library/Fonts/Supplemental/Times New Roman.ttf",
        1 => "/Library/Fonts/Times New Roman.ttf",
        _ => "C:/Windows/Fonts/times.ttf",
    }
}

/// The bytes of the first readable Trebuchet MS candidate.
fn first_trebuchet(env: &FontEnv) -> (r: Option<Vec<u8>>)
    ensures
        match r {
            Some(b) => first_readable(env@, trebuchet_candidates()) == Some(b@),
            None => first_readable(env@, trebuchet_candidates()) is None,
        },
{
    let ghost c = trebuchet_candidates();
    let mut i: usize = 0;
    assert(c.skip(0) =~= c);
    while i < 3
        invariant
            i <= 3,
            c == trebuchet_candidates(),
            first_readable(env@, c) == first_readable(env@, c.skip(i as int)),
        decreases 3 - i,
    {
        proof {
            assert(c.skip(i as int)[0] == c[i as int]);
            assert(c.skip(i as int).drop_first() =~= c.skip(i + 1));
        }
        if let Some(b) = read_font_exec(env, trebuchet_candidate(i)) {
            return Some(b);
        }
        i += 1;
    }
    assert(c.skip(3) =~= Seq::<Seq<char>>::empty());
    None
}

/// The bytes of the first readable Times New Roman candidate.
fn first_times(env: &FontEnv) -> (r: Option<Vec<u8>>)
    ensures
        match r {
            Some(b) => first_readable(env@, times_candidates()) == Some(b@),
            None => first_readable(env@, times_candidates()) is None,
        },
{
    let ghost c = times_candidates();
    let mut i: usize = 0;
    assert(c.skip(0) =~= c);
    while i < 3
        invariant
            i <= 3,
            c == times_candidates(),
            first_readable(env@, c) == first_readable(env@, c.skip(i as int)),
        decreases 3 - i,
    {
        proof {
            assert(c.skip(i as int)[0] == c[i as int]);
            assert(c.skip(i as int).drop_first() =~= c.skip(i + 1));
        }
        if let Some(b) = read_font_exec(env, times_candidate(i)) {
            return Some(b);
        }
        i += 1;
    }
    assert(c.skip(3) =~= Seq::<Seq<char>>::empty());
    None
}

/// Whether classic-look measurement uses the real Trebuchet MS face (some
/// candidate is registered or installed); otherwise it uses the embedded
/// stand-in.
pub fn trebuchet_available(env: &FontEnv) -> (b: bool)
    ensures
        b == first_readable(env@, trebuchet_candidates()) is Some,
{
    first_trebuchet(env).is_some()
}

/// Whether sequence-diagram measurement uses the real Times New Roman face.
pub fn times_available(env: &FontEnv) -> (b: bool)
    ensures
        b == first_readable(env@, times_candidates()) is Some,
{
    first_times(env).is_some()
}

/// The handwritten face's bytes.
pub fn hand_drawn_font_exec(env: &FontEnv) -> (r: Vec<u8>)
    ensures
        r@ == hand_drawn_font(env@),
{
    match read_font_exec(env, "Excalifont-Regular.ttf") {
        Some(b) => b,
        None => copy_bytes(&env.excalifont),
    }
}

/// Measurement face for sequence diagrams.
pub struct SeqMeasurer {
    pub data: Vec<u8>,
}

/// The sequence measurer's face: the handwritten one in hand-drawn mode,
/// else Times New Roman, else `fallback`.
pub open spec fn seq_face(env: FontEnvV, fallback: Seq<u8>) -> Seq<u8> {
    if env.hand_drawn {
        hand_drawn_font(env)
    } else {
        match first_readable(env, times_candidates()) {
            Some(b) => b,
            None => fallback,
        }
    }
}

impl SeqMeasurer {
    /// Times New Roman from the registry or the host, falling back to the
    /// embedded Tinos face (the handwritten face in hand-drawn mode).
    pub fn new(env: &FontEnv) -> (m: Self)
        ensures
            m.data@ == seq_face(env@, env@.tinos),
    {
        let data = if env.hand_drawn {
            hand_drawn_font_exec(env)
        } else {
            match first_times(env) {
                Some(b) => b,
                None => copy_bytes(&env.tinos),
            }
        };
        SeqMeasurer { data }
    }

    /// Measurer for ER/class box metrics: Times when installed, else the
    /// drawing face (embedded Cabin, or the handwritten face in hand-drawn
    /// mode).
    pub fn for_ink(env: &FontEnv) -> (m: Self)
        ensures
            m.data@ == seq_face(env@, env@.cabin),
    {
        let data = if env.hand_drawn {
            hand_drawn_font_exec(env)
        } else {
            match first_times(env) {
                Some(b) => b,
                None => copy_bytes(&env.cabin),
            }
        };
        SeqMeasurer { data }
    }
}

/// Law: what is registered under a file name is what reading any path with
/// that file name gives back.
pub proof fn register_then_read(env: FontEnvV, name: Seq<char>, data: Seq<u8>, path: Seq<char>)
    requires
        file_name(path) == name,
    ensures
        read_font(FontEnvV { registry: register(env.registry, name, data), ..env }, path) == Some(
            data,
        ),
{
    let files = env.registry;
    let r = register(files, name, data);
    lemma_file_position(files, name, 0);
    match file_position(files, name, 0) {
        Some(i) => {
            lemma_file_position_is(r, name, i);
        },
        None => {
            lemma_file_position_is(r, name, files.len());
        },
    }
}

proof fn lemma_file_position(files: Seq<(Seq<char>, Seq<u8>)>, k: Seq<char>, i: nat)
    ensures
        file_position(files, k, i) matches Some(p) ==> i <= p < files.len() && files[p as int].0
            == k && forall|j: int| i <= j < p ==> files[j].0 != k,
        file_position(files, k, i) is None ==> forall|j: int| i <= j < files.len() ==> files[j].0 != k,
    decreases files.len() - i,
{
    if i < files.len() && files[i as int].0 != k {
        lemma_file_position(files, k, i + 1);
    }
}

proof fn lemma_file_position_is(files: Seq<(Seq<char>, Seq<u8>)>, k: Seq<char>, p: nat)
    requires
        p < files.len(),
        files[p as int].0 == k,
        forall|j: int| 0 <= j < p ==> files[j].0 != k,
    ensures
        file_position(files, k, 0) == Some(p),
{
    lemma_file_position(files, k, 0);
    match file_position(files, k, 0) {
        Some(q) => {
            if q < p {
                assert(files[q as int].0 != k);
            } else if p < q {
                assert(files[p as int].0 != k);
            }
        },
        None => {
            assert(files[p as int].0 != k);
        },
    }
}

proof fn lemma_first_readable_files(a: FontEnvV, b: FontEnvV, cands: Seq<Seq<char>>)
    requires
        a.registry == b.registry,
        a.disk == b.disk,
    ensures
        first_readable(a, cands) == first_readable(b, cands),
    decreases cands.len(),
{
    if cands.len() > 0 {
        lemma_first_readable_files(a, b, cands.drop_first());
    }
}

/// Law: the hand-drawn switch reads back as it was set ([`set_hand_drawn`]
/// then [`is_hand_drawn`]) and changes no font lookup: Trebuchet MS, Times
/// New Roman and the handwritten face are found as before.
pub proof fn set_then_is_hand_drawn(env: FontEnvV, on: bool)
    ensures
        ({
            let e2 = FontEnvV { hand_drawn: on, ..env };
            &&& e2.hand_drawn == on
            &&& first_readable(e2, trebuchet_candidates()) == first_readable(env, trebuchet_candidates())
            &&& first_readable(e2, times_candidates()) == first_readable(env, times_candidates())
            &&& hand_drawn_font(e2) == hand_drawn_font(env)
        }),
{
    let e2 = FontEnvV { hand_drawn: on, ..env };
    lemma_first_readable_files(e2, env, trebuchet_candidates());
    lemma_first_readable_files(e2, env, times_candidates());
}

proof fn lemma_rfind_after(p: Seq<char>, t: Seq<char>, c: char)
    requires
        forall|i: int| 0 <= i < t.len() ==> t[i] != c,
    ensures
        rfind_char(p.push(c) + t, c) == Some(p.len()),
    decreases t.len(),
{
    let s = p.push(c) + t;
    if t.len() > 0 {
        assert(s.drop_last() =~= p.push(c) + t.drop_last());
        assert(s.last() == t.last());
        lemma_rfind_after(p, t.drop_last(), c);
    } else {
        assert(s =~= p.push(c));
    }
}

proof fn lemma_file_name(p: Seq<char>, t: Seq<char>)
    requires
        forall|i: int| 0 <= i < t.len() ==> t[i] != '/',
    ensures
        file_name(p.push('/') + t) == t,
{
    lemma_rfind_after(p, t, '/');
    assert((p.push('/') + t).skip(p.len() + 1 as int) =~= t);
}

proof fn lemma_first_readable3(env: FontEnvV, c: Seq<Seq<char>>)
    requires
        c.len() == 3,
    ensures
        (first_readable(env, c) is Some) <==> (read_font(env, c[0]) is Some || read_font(env, c[1])
            is Some || read_font(env, c[2]) is Some),
{
    reveal_with_fuel(first_readable, 4);
    let c1 = c.drop_first();
    let c2 = c1.drop_first();
    assert(c2.drop_first().len() == 0);
    assert(c1[0] == c[1] && c2[0] == c[2]);
}

/// Law: Trebuchet MS is available exactly when `Trebuchet MS.ttf` or
/// `trebuc.ttf` is registered, or one of the three install paths is among
/// the host's files.
pub proof fn trebuchet_available_iff(env: FontEnvV)
    ensures
        (first_readable(env, trebuchet_candidates()) is Some) <==> (lookup(
            env.registry,
            "Trebuchet MS.ttf"@,
        ) is Some || lookup(env.registry, "trebuc.ttf"@) is Some || lookup(
            env.disk,
            "/System/Library/Fonts/Supplemental/Trebuchet MS.ttf"@,
        ) is Some || lookup(env.disk, "/Library/Fonts/Trebuchet MS.ttf"@) is Some || lookup(
            env.disk,
            "C:/Windows/Fonts/trebuc.ttf"@,
        ) is Some),
{
    reveal_strlit("Trebuchet MS.ttf");
    reveal_strlit("trebuc.ttf");
    reveal_strlit("/System/Library/Fonts/Supplemental");
    reveal_strlit("/Library/Fonts");
    reveal_strlit("C:/Windows/Fonts");
    reveal_strlit("/System/Library/Fonts/Supplemental/Trebuchet MS.ttf");
    reveal_strlit("/Library/Fonts/Trebuchet MS.ttf");
    reveal_strlit("C:/Windows/Fonts/trebuc.ttf");
    let t1 = "Trebuchet MS.ttf"@;
    let t2 = "trebuc.ttf"@;
    assert forall|i: int| 0 <= i < t1.len() implies t1[i] != '/' by {}
    assert forall|i: int| 0 <= i < t2.len() implies t2[i] != '/' by {}
    assert("/System/Library/Fonts/Supplemental/Trebuchet MS.ttf"@ =~= "/System/Library/Fonts/Supplemental"@.push('/') + t1);
    assert("/Library/Fonts/Trebuchet MS.ttf"@ =~= "/Library/Fonts"@.push('/') + t1);
    assert("C:/Windows/Fonts/trebuc.ttf"@ =~= "C:/Windows/Fonts"@.push('/') + t2);
    lemma_file_name("/System/Library/Fonts/Supplemental"@, t1);
    lemma_file_name("/Library/Fonts"@, t1);
    lemma_file_name("C:/Windows/Fonts"@, t2);
    lemma_first_readable3(env, trebuchet_candidates());
}

/// Position after the whitespace run starting at `i`.
pub open spec fn skip_ws(s: Seq<char>, i: nat) -> nat
    decreases s.len() - i,
{
    if i < s.len() && is_ws(s[i as int]) {
        skip_ws(s, i + 1)
    } else {
        i
    }
}

pub proof fn lemma_skip_ws(s: Seq<char>, i: nat)
    ensures
        i <= skip_ws(s, i),
        i <= s.len() ==> skip_ws(s, i) <= s.len(),
    decreases s.len() - i,
{
    if i < s.len() && is_ws(s[i as int]) {
        lemma_skip_ws(s, i + 1);
    }
}

/// The length of a `<br\s*/?>` tag (the letters in any case) starting at
/// `i`, if one does.
pub open spec fn br_tag_len(s: Seq<char>, i: nat) -> Option<nat> {
    if i + 3 <= s.len() && s[i as int] == '<' && ascii_lower(s[i + 1 as int]) == 'b' && ascii_lower(
        s[i + 2 as int],
    ) == 'r' {
        let j = skip_ws(s, i + 3);
        let k = if j < s.len() && s[j as int] == '/' {
            j + 1
        } else {
            j
        };
        if k < s.len() && s[k as int] == '>' {
            Some((k + 1 - i) as nat)
        } else {
            None
        }
    } else {
        None
    }
}

/// The lines of `s`, scanning from `i` with the current line starting at
/// `start`.
pub open spec fn split_breaks_from(s: Seq<char>, start: nat, i: nat) -> Seq<Seq<char>>
    decreases s.len() - i,
{
    if i >= s.len() {
        seq![s.subrange(start as int, s.len() as int)]
    } else {
        match br_tag_len(s, i) {
            Some(l) => {
                proof {
                    lemma_skip_ws(s, i + 3);
                }
                seq![s.subrange(start as int, i as int)] + split_breaks_from(s, i + l, i + l)
            },
            None => split_breaks_from(s, start, i + 1),
        }
    }
}

/// `common.splitBreaks`: `text` split on `<br\s*/?>` tags (case-insensitive).
pub open spec fn split_breaks_spec(text: Seq<char>) -> Seq<Seq<char>> {
    split_breaks_from(text, 0, 0)
}

fn br_tag_len_exec(s: &[char], i: usize) -> (r: Option<usize>)
    ensures
        match r {
            Some(l) => br_tag_len(s@, i as nat) == Some(l as nat) && i + l <= s@.len(),
            None => br_tag_len(s@, i as nat) is None,
        },
{
    let n = s.len();
    if i <= n && n - i >= 3 && s[i] == '<' && lower_char(s[i + 1]) == 'b' && lower_char(s[i + 2])
        == 'r' {
        let mut j = i + 3;
        while j < n && is_ws_char(s[j])
            invariant
                i + 3 <= j <= n,
                n == s@.len(),
                skip_ws(s@, (i + 3) as nat) == skip_ws(s@, j as nat),
            decreases n - j,
        {
            j += 1;
        }
        let k = if j < n && s[j] == '/' {
            j + 1
        } else {
            j
        };
        if k < n && s[k] == '>' {
            Some(k + 1 - i)
        } else {
            None
        }
    } else {
        None
    }
}

/// `common.splitBreaks`: split on `<br\s*/?>` (case-insensitive).
pub fn split_breaks(text: &str) -> (r: Vec<String>)
    ensures
        r@.map_values(|s: String| s@) == split_breaks_spec(text@),
{
    let s = chars_of(text);
    let mut lines: Vec<String> = Vec::new();
    let mut start: usize = 0;
    let mut i: usize = 0;
    proof {
        assert(lines@.map_values(|x: String| x@) =~= Seq::<Seq<char>>::empty());
    }
    while i < s.len()
        invariant
            start <= i <= s@.len(),
            s@ == text@,
            split_breaks_spec(text@) == lines@.map_values(|x: String| x@) + split_breaks_from(
                s@,
                start as nat,
                i as nat,
            ),
        decreases s@.len() - i,
    {
        match br_tag_len_exec(&s, i) {
            Some(l) => {
                let piece = copy_range(&s, start, i);
                let ghost before = lines@;
                lines.push(string_of(&piece));
                proof {
                    assert(lines@.map_values(|x: String| x@) =~= before.map_values(|x: String| x@).push(
                        piece@,
                    ));
                }
                i = i + l;
                start = i;
            },
            None => {
                i += 1;
            },
        }
    }
    let piece = copy_range(&s, start, s.len());
    let ghost before = lines@;
    lines.push(string_of(&piece));
    proof {
        assert(lines@.map_values(|x: String| x@) =~= before.map_values(|x: String| x@).push(piece@));
    }
    lines
}

/// BMP characters with `Emoji_Presentation=Yes` (UTS #51), and the
/// supplementary-plane emoji ranges without their text-presentation
/// pictographs.
pub open spec fn is_emoji_presentation(c: char) -> bool {
    let cp = c as u32;
    if cp >= 0x1F000 {
        (cp == 0x1F004 || cp == 0x1F0CF || cp == 0x1F18E || (0x1F191 <= cp <= 0x1F19A) || (0x1F1E6
            <= cp <= 0x1F1FF) || cp == 0x1F201 || cp == 0x1F21A || cp == 0x1F22F || (0x1F232 <= cp
            <= 0x1F236) || (0x1F238 <= cp <= 0x1F23A) || (0x1F250 <= cp <= 0x1F251) || (0x1F300
            <= cp <= 0x1F5FF) || (0x1F600 <= cp <= 0x1F64F) || (0x1F680 <= cp <= 0x1F6FF) || (
        0x1F900 <= cp <= 0x1F9FF) || (0x1FA00 <= cp <= 0x1FAFF)) && !((0x1F321 <= cp <= 0x1F32C)
            || cp == 0x1F336 || cp == 0x1F37D || (0x1F396 <= cp <= 0x1F397) || (0x1F399 <= cp
            <= 0x1F39B) || (0x1F39E <= cp <= 0x1F39F) || (0x1F3CB <= cp <= 0x1F3CE) || (0x1F3D4
            <= cp <= 0x1F3DF) || cp == 0x1F3F3 || cp == 0x1F3F5 || cp == 0x1F3F7 || cp == 0x1F43F
            || cp == 0x1F441 || cp == 0x1F4FD || (0x1F549 <= cp <= 0x1F54A) || (0x1F56F <= cp
            <= 0x1F570) || (0x1F573 <= cp <= 0x1F579) || cp == 0x1F587 || (0x1F58A <= cp
            <= 0x1F58D) || cp == 0x1F590 || cp == 0x1F5A5 || cp == 0x1F5A8 || (0x1F5B1 <= cp
            <= 0x1F5B2) || cp == 0x1F5BC || (0x1F5C2 <= cp <= 0x1F5C4) || (0x1F5D1 <= cp
            <= 0x1F5D3) || (0x1F5DC <= cp <= 0x1F5DE) || cp == 0x1F5E1 || cp == 0x1F5E3 || cp
            == 0x1F5E8 || cp == 0x1F5EF || cp == 0x1F5F3 || cp == 0x1F5FA || cp == 0x1F6CB || (
        0x1F6CD <= cp <= 0x1F6CF) || (0x1F6E0 <= cp <= 0x1F6E5) || cp == 0x1F6E9 || cp == 0x1F6F0
            || cp == 0x1F6F3)
    } else {
        (0x231A <= cp <= 0x231B) || (0x23E9 <= cp <= 0x23EC) || cp == 0x23F0 || cp == 0x23F3 || (
        0x25FD <= cp <= 0x25FE) || (0x2614 <= cp <= 0x2615) || (0x2648 <= cp <= 0x2653) || cp
            == 0x267F || cp == 0x2693 || cp == 0x26A1 || (0x26AA <= cp <= 0x26AB) || (0x26BD <= cp
            <= 0x26BE) || (0x26C4 <= cp <= 0x26C5) || cp == 0x26CE || cp == 0x26D4 || cp == 0x26EA
            || (0x26F2 <= cp <= 0x26F3) || cp == 0x26F5 || cp == 0x26FA || cp == 0x26FD || cp
            == 0x2705 || (0x270A <= cp <= 0x270B) || cp == 0x2728 || cp == 0x274C || cp == 0x274E
            || (0x2753 <= cp <= 0x2755) || cp == 0x2757 || (0x2795 <= cp <= 0x2797) || cp == 0x27B0
            || cp == 0x27BF || (0x2B1B <= cp <= 0x2B1C) || cp == 0x2B50 || cp == 0x2B55
    }
}

/// [`is_emoji_presentation`], executable.
pub fn is_emoji_presentation_exec(c: char) -> (b: bool)
    ensures
        b == is_emoji_presentation(c),
{
    let cp = c as u32;
    if cp >= 0x1F000 {
        (cp == 0x1F004 || cp == 0x1F0CF || cp == 0x1F18E || (0x1F191 <= cp && cp <= 0x1F19A) || (
        0x1F1E6 <= cp && cp <= 0x1F1FF) || cp == 0x1F201 || cp == 0x1F21A || cp == 0x1F22F || (
        0x1F232 <= cp && cp <= 0x1F236) || (0x1F238 <= cp && cp <= 0x1F23A) || (0x1F250 <= cp
            && cp <= 0x1F251) || (0x1F300 <= cp && cp <= 0x1F5FF) || (0x1F600 <= cp && cp
            <= 0x1F64F) || (0x1F680 <= cp && cp <= 0x1F6FF) || (0x1F900 <= cp && cp <= 0x1F9FF) || (
        0x1FA00 <= cp && cp <= 0x1FAFF)) && !((0x1F321 <= cp && cp <= 0x1F32C) || cp == 0x1F336
            || cp == 0x1F37D || (0x1F396 <= cp && cp <= 0x1F397) || (0x1F399 <= cp && cp
            <= 0x1F39B) || (0x1F39E <= cp && cp <= 0x1F39F) || (0x1F3CB <= cp && cp <= 0x1F3CE) || (
        0x1F3D4 <= cp && cp <= 0x1F3DF) || cp == 0x1F3F3 || cp == 0x1F3F5 || cp == 0x1F3F7 || cp
            == 0x1F43F || cp == 0x1F441 || cp == 0x1F4FD || (0x1F549 <= cp && cp <= 0x1F54A) || (
        0x1F56F <= cp && cp <= 0x1F570) || (0x1F573 <= cp && cp <= 0x1F579) || cp == 0x1F587 || (
        0x1F58A <= cp && cp <= 0x1F58D) || cp == 0x1F590 || cp == 0x1F5A5 || cp == 0x1F5A8 || (
        0x1F5B1 <= cp && cp <= 0x1F5B2) || cp == 0x1F5BC || (0x1F5C2 <= cp && cp <= 0x1F5C4) || (
        0x1F5D1 <= cp && cp <= 0x1F5D3) || (0x1F5DC <= cp && cp <= 0x1F5DE) || cp == 0x1F5E1 || cp
            == 0x1F5E3 || cp == 0x1F5E8 || cp == 0x1F5EF || cp == 0x1F5F3 || cp == 0x1F5FA || cp
            == 0x1F6CB || (0x1F6CD <= cp && cp <= 0x1F6CF) || (0x1F6E0 <= cp && cp <= 0x1F6E5) || cp
            == 0x1F6E9 || cp == 0x1F6F0 || cp == 0x1F6F3)
    } else {
        (0x231A <= cp && cp <= 0x231B) || (0x23E9 <= cp && cp <= 0x23EC) || cp == 0x23F0 || cp
            == 0x23F3 || (0x25FD <= cp && cp <= 0x25FE) || (0x2614 <= cp && cp <= 0x2615) || (0x2648
            <= cp && cp <= 0x2653) || cp == 0x267F || cp == 0x2693 || cp == 0x26A1 || (0x26AA <= cp
            && cp <= 0x26AB) || (0x26BD <= cp && cp <= 0x26BE) || (0x26C4 <= cp && cp <= 0x26C5)
            || cp == 0x26CE || cp == 0x26D4 || cp == 0x26EA || (0x26F2 <= cp && cp <= 0x26F3) || cp
            == 0x26F5 || cp == 0x26FA || cp == 0x26FD || cp == 0x2705 || (0x270A <= cp && cp
            <= 0x270B) || cp == 0x2728 || cp == 0x274C || cp == 0x274E || (0x2753 <= cp && cp
            <= 0x2755) || cp == 0x2757 || (0x2795 <= cp && cp <= 0x2797) || cp == 0x27B0 || cp
            == 0x27BF || (0x2B1B <= cp && cp <= 0x2B1C) || cp == 0x2B50 || cp == 0x2B55
    }
}

/// Box-drawing and block-element characters (U+2500..U+259F).
pub open spec fn is_box_drawing(c: char) -> bool {
    0x2500 <= (c as u32) <= 0x259F
}

/// [`is_box_drawing`], executable.
pub fn is_box_drawing_exec(c: char) -> (b: bool)
    ensures
        b == is_box_drawing(c),
{
    let cp = c as u32;
    0x2500 <= cp && cp <= 0x259F
}

/// The font CoreText routes a character's Unicode block to ahead of the
/// regular cascade: super/subscripts to Helvetica, mathematical operators
/// to Apple Symbols.
pub open spec fn block_font(c: char) -> Option<Seq<char>> {
    let cp = c as u32;
    if 0x2070 <= cp <= 0x209F {
        Some("/System/Library/Fonts/Helvetica.ttc"@)
    } else if 0x2200 <= cp <= 0x22FF {
        Some("/System/Library/Fonts/Apple Symbols.ttf"@)
    } else {
        None
    }
}

/// [`block_font`], executable.
pub fn block_font_exec(c: char) -> (r: Option<&'static str>)
    ensures
        match r {
            Some(p) => block_font(c) == Some(p@),
            None => block_font(c) is None,
        },
{
    let cp = c as u32;
    if 0x2070 <= cp && cp <= 0x209F {
        Some("/System/Library/Fonts/Helvetica.ttc")
    } else if 0x2200 <= cp && cp <= 0x22FF {
        Some("/System/Library/Fonts/Apple Symbols.ttf")
    } else {
        None
    }
}

proof fn lemma_no_tags(s: Seq<char>, i: nat)
    requires
        i <= s.len(),
        forall|j: int| 0 <= j < s.len() ==> s[j] != '<',
    ensures
        split_breaks_from(s, 0, i) == seq![s],
    decreases s.len() - i,
{
    if i < s.len() {
        assert(s[i as int] != '<');
        lemma_no_tags(s, i + 1);
    } else {
        assert(s.subrange(0, s.len() as int) =~= s);
    }
}

/// Law: a text with no `<` is a single line, unchanged.
pub proof fn split_breaks_without_tags(text: Seq<char>)
    requires
        forall|j: int| 0 <= j < text.len() ==> text[j] != '<',
    ensures
        split_breaks_spec(text) == seq![text],
{
    lemma_no_tags(text, 0);
}

} // verus!
