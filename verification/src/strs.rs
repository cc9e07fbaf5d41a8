//! Character-level string toolkit shared by the parsers.
//!
//! Text is handled as sequences of `char`: the specifications speak of
//! `Seq<char>` (the view of `str` and `String`), the executable code works on
//! `Vec<char>` and converts back to `String` at the edges.

use vstd::prelude::*;

verus! {

/// The Unicode `White_Space` property, as `char::is_whitespace` defines it.
pub open spec fn is_ws(c: char) -> bool {
    let u = c as u32;
    (0x09 <= u <= 0x0D) || u == 0x20 || u == 0x85 || u == 0xA0 || u == 0x1680 || (0x2000 <= u
        <= 0x200A) || u == 0x2028 || u == 0x2029 || u == 0x202F || u == 0x205F || u == 0x3000
}

/// ASCII whitespace as `u8::is_ascii_whitespace` defines it (no vertical tab).
pub open spec fn is_ascii_ws(c: char) -> bool {
    c == ' ' || c == '\t' || c == '\n' || c == '\x0C' || c == '\r'
}

/// Executable form of [`is_ws`].
pub fn is_ws_char(c: char) -> (b: bool)
    ensures
        b == is_ws(c),
{
    let u = c as u32;
    (0x09 <= u && u <= 0x0D) || u == 0x20 || u == 0x85 || u == 0xA0 || u == 0x1680 || (0x2000
        <= u && u <= 0x200A) || u == 0x2028 || u == 0x2029 || u == 0x202F || u == 0x205F || u
        == 0x3000
}

/// `s` with its leading whitespace removed.
pub open spec fn trim_start(s: Seq<char>) -> Seq<char>
    decreases s.len(),
{
    if s.len() > 0 && is_ws(s[0]) {
        trim_start(s.drop_first())
    } else {
        s
    }
}

/// `s` with its trailing whitespace removed.
pub open spec fn trim_end(s: Seq<char>) -> Seq<char>
    decreases s.len(),
{
    if s.len() > 0 && is_ws(s.last()) {
        trim_end(s.drop_last())
    } else {
        s
    }
}

/// `str::trim`: leading and trailing whitespace removed.
pub open spec fn trim(s: Seq<char>) -> Seq<char> {
    trim_end(trim_start(s))
}

/// `p` is a prefix of `s`.
pub open spec fn starts_with(s: Seq<char>, p: Seq<char>) -> bool {
    p.len() <= s.len() && s.take(p.len() as int) == p
}

/// `p` occurs in `s` starting at position `i`.
pub open spec fn occurs_at(s: Seq<char>, p: Seq<char>, i: int) -> bool {
    0 <= i && i + p.len() <= s.len() && s.subrange(i, i + p.len()) == p
}

/// The first position at or after `i` where `p` occurs in `s`.
pub open spec fn find_from(s: Seq<char>, p: Seq<char>, i: nat) -> Option<nat>
    decreases s.len() + 1 - i,
{
    if i + p.len() > s.len() {
        None
    } else if occurs_at(s, p, i as int) {
        Some(i)
    } else {
        find_from(s, p, i + 1)
    }
}

/// `str::find`: the first position where `p` occurs in `s`.
pub open spec fn find(s: Seq<char>, p: Seq<char>) -> Option<nat> {
    find_from(s, p, 0)
}

/// The first position at or after `i` holding the character `c`.
pub open spec fn find_char_from(s: Seq<char>, c: char, i: nat) -> Option<nat>
    decreases s.len() - i,
{
    if i >= s.len() {
        None
    } else if s[i as int] == c {
        Some(i)
    } else {
        find_char_from(s, c, i + 1)
    }
}

/// `str::find` for a single character.
pub open spec fn find_char(s: Seq<char>, c: char) -> Option<nat> {
    find_char_from(s, c, 0)
}

/// The last position holding the character `c` (`str::rfind`).
pub open spec fn rfind_char(s: Seq<char>, c: char) -> Option<nat>
    decreases s.len(),
{
    if s.len() == 0 {
        None
    } else if s.last() == c {
        Some((s.len() - 1) as nat)
    } else {
        rfind_char(s.drop_last(), c)
    }
}

/// `str::split_once` on a character: the text before and after the first `c`.
pub open spec fn split_once_char(s: Seq<char>, c: char) -> Option<(Seq<char>, Seq<char>)> {
    match find_char(s, c) {
        Some(i) => Some((s.take(i as int), s.skip(i + 1 as int))),
        None => None,
    }
}

/// ASCII lowercase of one character (`char::to_ascii_lowercase`).
pub open spec fn ascii_lower(c: char) -> char {
    if 'A' <= c <= 'Z' {
        ((c as u32) + 32) as char
    } else {
        c
    }
}

/// ASCII lowercase of a whole sequence.
pub open spec fn ascii_lower_seq(s: Seq<char>) -> Seq<char> {
    s.map_values(|c: char| ascii_lower(c))
}

/// `eq_ignore_ascii_case`.
pub open spec fn eq_ignore_ascii_case(a: Seq<char>, b: Seq<char>) -> bool {
    a.len() == b.len() && forall|i: int| 0 <= i < a.len() ==> ascii_lower(a[i]) == ascii_lower(b[i])
}

/// `s` with every character for which `drop` holds taken out.
pub open spec fn remove_all(s: Seq<char>, d: char) -> Seq<char>
    decreases s.len(),
{
    if s.len() == 0 {
        s
    } else if s.last() == d {
        remove_all(s.drop_last(), d)
    } else {
        remove_all(s.drop_last(), d).push(s.last())
    }
}

/// Executable [`ascii_lower`].
pub fn lower_char(c: char) -> (r: char)
    ensures
        r == ascii_lower(c),
{
    if 'A' <= c && c <= 'Z' {
        let u = (c as u32) + 32;
        assert(0x61 <= u <= 0x7A);
        proof {
            assert(((c as u32) + 32) as char == u as char);
        }
        char_from_ascii(u)
    } else {
        c
    }
}

/// The character with an ASCII code point.
fn char_from_ascii(u: u32) -> (c: char)
    requires
        u < 0x80,
    ensures
        c == u as char,
{
    let b = u as u8;
    b as char
}

/// Appends one character to a string (`String::push`).
#[verifier::external_body]
pub(crate) fn push_char(s: &mut String, c: char)
    ensures
        final(s)@ == old(s)@.push(c),
{
    s.push(c);
}

/// Collects the characters of `s` in order.
pub fn chars_of(s: &str) -> (v: Vec<char>)
    ensures
        v@ == s@,
{
    let mut v: Vec<char> = Vec::new();
    for c in it: s.chars()
        invariant
            v@ == it.seq().take(it.index() as int),
    {
        v.push(c);
    }
    v
}

/// The string made of the characters of `v`.
pub fn string_of(v: &[char]) -> (s: String)
    ensures
        s@ == v@,
{
    let mut s = String::new();
    let mut i: usize = 0;
    while i < v.len()
        invariant
            i <= v@.len(),
            s@ == v@.take(i as int),
        decreases v@.len() - i,
    {
        push_char(&mut s, v[i]);
        i += 1;
        assert(s@ =~= v@.take(i as int));
    }
    assert(v@.take(v@.len() as int) =~= v@);
    s
}

/// A copy of `s[lo..hi]`.
pub fn copy_range(s: &[char], lo: usize, hi: usize) -> (r: Vec<char>)
    requires
        lo <= hi <= s@.len(),
    ensures
        r@ == s@.subrange(lo as int, hi as int),
{
    let mut r: Vec<char> = Vec::new();
    let mut i = lo;
    while i < hi
        invariant
            lo <= i <= hi <= s@.len(),
            r@ == s@.subrange(lo as int, i as int),
        decreases hi - i,
    {
        r.push(s[i]);
        i += 1;
        assert(r@ =~= s@.subrange(lo as int, i as int));
    }
    r
}

/// `a` followed by `b`.
pub fn concat(a: &[char], b: &[char]) -> (r: Vec<char>)
    ensures
        r@ == a@ + b@,
{
    let mut r = copy_range(a, 0, a.len());
    let mut i: usize = 0;
    while i < b.len()
        invariant
            i <= b@.len(),
            r@ == a@ + b@.take(i as int),
        decreases b@.len() - i,
    {
        r.push(b[i]);
        i += 1;
        assert(r@ =~= a@ + b@.take(i as int));
    }
    assert(b@.take(b@.len() as int) =~= b@);
    r
}

proof fn lemma_trim_start_step(s: Seq<char>, i: int)
    requires
        0 <= i < s.len(),
        is_ws(s[i]),
    ensures
        trim_start(s.subrange(i, s.len() as int)) == trim_start(s.subrange(i + 1, s.len() as int)),
{
    assert(s.subrange(i, s.len() as int).drop_first() =~= s.subrange(i + 1, s.len() as int));
}

proof fn lemma_trim_end_step(s: Seq<char>, j: int)
    requires
        0 < j <= s.len(),
        is_ws(s[j - 1]),
    ensures
        trim_end(s.subrange(0, j)) == trim_end(s.subrange(0, j - 1)),
{
    assert(s.subrange(0, j).drop_last() =~= s.subrange(0, j - 1));
}

/// The bounds of the trimmed part of `s[lo..hi]`.
pub fn trim_bounds(s: &[char], lo: usize, hi: usize) -> (r: (usize, usize))
    requires
        lo <= hi <= s@.len(),
    ensures
        lo <= r.0 <= r.1 <= hi,
        s@.subrange(r.0 as int, r.1 as int) == trim(s@.subrange(lo as int, hi as int)),
{
    let ghost t = s@.subrange(lo as int, hi as int);
    let mut a = lo;
    while a < hi && is_ws_char(s[a])
        invariant
            lo <= a <= hi <= s@.len(),
            trim_start(t) == trim_start(s@.subrange(a as int, hi as int)),
        decreases hi - a,
    {
        proof {
            let u = s@.subrange(0, hi as int);
            lemma_trim_start_step(u, a as int);
            assert(u.subrange(a as int, hi as int) =~= s@.subrange(a as int, hi as int));
            assert(u.subrange(a + 1, hi as int) =~= s@.subrange(a + 1, hi as int));
        }
        a += 1;
    }
    let ghost ts = s@.subrange(a as int, hi as int);
    assert(trim_start(ts) == ts) by {
        if ts.len() > 0 {
            assert(ts[0] == s@[a as int]);
        }
    }
    let mut b = hi;
    while b > a && is_ws_char(s[b - 1])
        invariant
            lo <= a <= b <= hi <= s@.len(),
            ts == s@.subrange(a as int, hi as int),
            trim_end(ts) == trim_end(s@.subrange(a as int, b as int)),
        decreases b - a,
    {
        proof {
            let u = s@.subrange(a as int, b as int);
            lemma_trim_end_step(u, (b - a) as int);
            assert(u.subrange(0, (b - a) as int) =~= u);
            assert(u.subrange(0, (b - a - 1) as int) =~= s@.subrange(a as int, b - 1));
        }
        b -= 1;
    }
    let ghost tb = s@.subrange(a as int, b as int);
    assert(trim_end(tb) == tb) by {
        if tb.len() > 0 {
            assert(tb.last() == s@[b - 1]);
        }
    }
    (a, b)
}

/// `str::trim` as a new character vector.
pub fn trim_vec(s: &[char]) -> (r: Vec<char>)
    ensures
        r@ == trim(s@),
{
    let (a, b) = trim_bounds(s, 0, s.len());
    assert(s@.subrange(0, s@.len() as int) =~= s@);
    copy_range(s, a, b)
}

/// Whether `p` occurs in `s` at position `i`.
pub fn occurs_at_exec(s: &[char], p: &[char], i: usize) -> (b: bool)
    ensures
        b == occurs_at(s@, p@, i as int),
{
    if i > s.len() || p.len() > s.len() - i {
        return false;
    }
    let mut k: usize = 0;
    while k < p.len()
        invariant
            i + p.len() <= s.len(),
            k <= p@.len(),
            forall|j: int| 0 <= j < k ==> s@[i + j] == p@[j],
        decreases p@.len() - k,
    {
        if s[i + k] != p[k] {
            assert(s@.subrange(i as int, i + p@.len())[k as int] != p@[k as int]);
            return false;
        }
        k += 1;
    }
    assert(s@.subrange(i as int, i + p@.len()) =~= p@);
    true
}

/// [`starts_with`] on character slices.
pub fn starts_with_exec(s: &[char], p: &[char]) -> (b: bool)
    ensures
        b == starts_with(s@, p@),
{
    let r = occurs_at_exec(s, p, 0);
    assert(s@.take(p@.len() as int) == s@.subrange(0, p@.len() as int));
    r
}

/// [`starts_with`] against a literal.
pub fn starts_with_str(s: &[char], p: &str) -> (b: bool)
    ensures
        b == starts_with(s@, p@),
{
    let pv = chars_of(p);
    starts_with_exec(s, &pv)
}

/// Equality of a character slice with a literal.
pub fn eq_str(s: &[char], p: &str) -> (b: bool)
    ensures
        b == (s@ == p@),
{
    let pv = chars_of(p);
    if s.len() != pv.len() {
        return false;
    }
    let r = starts_with_exec(s, &pv);
    assert(s@.take(pv@.len() as int) =~= s@);
    r
}

/// [`find_from`] on character slices.
pub fn find_from_exec(s: &[char], p: &[char], from: usize) -> (r: Option<usize>)
    ensures
        match r {
            Some(i) => find_from(s@, p@, from as nat) == Some(i as nat) && i + p@.len() <= s.len(),
            None => find_from(s@, p@, from as nat) is None,
        },
        r matches Some(i) ==> i + p@.len() <= s@.len(),
{
    if p.len() > s.len() || from > s.len() - p.len() {
        return None;
    }
    let last = s.len() - p.len();
    let mut i = from;
    while i < last
        invariant
            from <= i <= last,
            last + p@.len() == s@.len(),
            find_from(s@, p@, from as nat) == find_from(s@, p@, i as nat),
        decreases last - i,
    {
        if occurs_at_exec(s, p, i) {
            return Some(i);
        }
        i += 1;
    }
    assert(find_from(s@, p@, (i + 1) as nat) == None::<nat>);
    if occurs_at_exec(s, p, i) {
        Some(i)
    } else {
        None
    }
}

/// [`find`] against a literal.
pub fn find_str(s: &[char], p: &str) -> (r: Option<usize>)
    ensures
        match r {
            Some(i) => find(s@, p@) == Some(i as nat) && i + p@.len() <= s.len(),
            None => find(s@, p@) is None,
        },
        r matches Some(i) ==> i + p@.len() <= s@.len(),
{
    let pv = chars_of(p);
    find_from_exec(s, &pv, 0)
}

/// [`find_char_from`] on a character slice.
pub fn find_char_from_exec(s: &[char], c: char, from: usize) -> (r: Option<usize>)
    ensures
        match r {
            Some(i) => find_char_from(s@, c, from as nat) == Some(i as nat) && i < s.len(),
            None => find_char_from(s@, c, from as nat) is None,
        },
        r matches Some(i) ==> i < s@.len() && s@[i as int] == c,
{
    let mut i = from;
    while i < s.len()
        invariant
            from <= i,
            find_char_from(s@, c, from as nat) == find_char_from(s@, c, i as nat),
        decreases s@.len() - i,
    {
        if s[i] == c {
            return Some(i);
        }
        i += 1;
    }
    None
}

/// [`find_char`] on a character slice.
pub fn find_char_exec(s: &[char], c: char) -> (r: Option<usize>)
    ensures
        match r {
            Some(i) => find_char(s@, c) == Some(i as nat) && i < s.len(),
            None => find_char(s@, c) is None,
        },
        r matches Some(i) ==> i < s@.len() && s@[i as int] == c,
{
    find_char_from_exec(s, c, 0)
}

/// [`rfind_char`] on a character slice.
pub fn rfind_char_exec(s: &[char], c: char) -> (r: Option<usize>)
    ensures
        match r {
            Some(i) => rfind_char(s@, c) == Some(i as nat) && i < s.len(),
            None => rfind_char(s@, c) is None,
        },
        r matches Some(i) ==> i < s@.len() && s@[i as int] == c,
{
    let mut j = s.len();
    assert(s@.take(j as int) =~= s@);
    while j > 0
        invariant
            j <= s@.len(),
            rfind_char(s@, c) == rfind_char(s@.take(j as int), c),
        decreases j,
    {
        let ghost t = s@.take(j as int);
        assert(t.drop_last() =~= s@.take(j - 1));
        if s[j - 1] == c {
            return Some(j - 1);
        }
        j -= 1;
    }
    None
}


/// A line of `str::lines` loses one trailing carriage return.
pub open spec fn strip_cr(l: Seq<char>) -> Seq<char> {
    if l.len() > 0 && l.last() == '\r' {
        l.drop_last()
    } else {
        l
    }
}

/// `str::lines`: the pieces between line feeds, each without a trailing
/// carriage return; a final line feed opens no further line.
pub open spec fn lines(s: Seq<char>) -> Seq<Seq<char>>
    decreases s.len(),
{
    if s.len() == 0 {
        Seq::empty()
    } else {
        match find_char(s, '\n') {
            Some(i) => {
                proof {
                    lemma_find_char(s, '\n');
                }
                seq![strip_cr(s.take(i as int))] + lines(s.skip(i + 1 as int))
            },
            None => seq![s],
        }
    }
}

pub proof fn lemma_find_char_from_bounds(s: Seq<char>, c: char, i: nat)
    ensures
        find_char_from(s, c, i) matches Some(k) ==> i <= k < s.len() && s[k as int] == c
            && forall|j: int| i <= j < k ==> s[j] != c,
        find_char_from(s, c, i) is None ==> forall|j: int| i <= j < s.len() ==> s[j] != c,
    decreases s.len() - i,
{
    if i < s.len() && s[i as int] != c {
        lemma_find_char_from_bounds(s, c, i + 1);
    }
}

/// What [`find_char`] returns, spelled out.
pub proof fn lemma_find_char(s: Seq<char>, c: char)
    ensures
        find_char(s, c) matches Some(k) ==> k < s.len() && s[k as int] == c && forall|j: int|
            0 <= j < k ==> s[j] != c,
        find_char(s, c) is None ==> forall|j: int| 0 <= j < s.len() ==> s[j] != c,
{
    lemma_find_char_from_bounds(s, c, 0);
}

/// [`find_char`] is the first occurrence.
pub proof fn lemma_find_char_is(s: Seq<char>, c: char, k: nat)
    requires
        k < s.len(),
        s[k as int] == c,
        forall|j: int| 0 <= j < k ==> s[j] != c,
    ensures
        find_char(s, c) == Some(k),
{
    lemma_find_char(s, c);
    match find_char(s, c) {
        Some(k2) => {
            if k2 < k {
                assert(s[k2 as int] != c);
            }
        },
        None => {
            assert(s[k as int] != c);
        },
    }
}

proof fn lemma_lines_split(t: Seq<char>, k: nat)
    requires
        k < t.len(),
        t[k as int] == '\n',
        forall|j: int| 0 <= j < k ==> t[j] != '\n',
    ensures
        lines(t) == seq![strip_cr(t.take(k as int))] + lines(t.skip(k + 1 as int)),
{
    lemma_find_char_is(t, '\n', k);
}

proof fn lemma_lines_last(t: Seq<char>)
    requires
        t.len() > 0,
        forall|j: int| 0 <= j < t.len() ==> t[j] != '\n',
    ensures
        lines(t) == seq![t],
{
    lemma_find_char(t, '\n');
    if let Some(k) = find_char(t, '\n') {
        assert(t[k as int] == '\n');
    }
}

/// `str::lines` on a character slice.
pub fn lines_of(s: &[char]) -> (r: Vec<Vec<char>>)
    ensures
        r@.len() == lines(s@).len(),
        forall|i: int| 0 <= i < r@.len() ==> #[trigger] r@[i]@ == lines(s@)[i],
{
    let mut r: Vec<Vec<char>> = Vec::new();
    let mut start: usize = 0;
    assert(s@.skip(0) =~= s@);
    assert(r@.map_values(|v: Vec<char>| v@) =~= Seq::<Seq<char>>::empty());
    while start < s.len()
        invariant
            start <= s@.len(),
            lines(s@) == r@.map_values(|v: Vec<char>| v@) + lines(s@.skip(start as int)),
        decreases s@.len() - start,
    {
        let ghost rest = s@.skip(start as int);
        proof {
            lemma_find_char_from_bounds(s@, '\n', start as nat);
        }
        let found = find_char_from_exec(s, '\n', start);
        let ghost before = r@;
        match found {
            Some(k) => {
                let mut end = k;
                if end > start && s[end - 1] == '\r' {
                    end = end - 1;
                }
                let piece = copy_range(s, start, end);
                proof {
                    let rk = (k - start) as nat;
                    assert forall|j: int| 0 <= j < rk implies rest[j] != '\n' by {
                        assert(rest[j] == s@[start + j]);
                    }
                    lemma_lines_split(rest, rk);
                    assert(rest.take(rk as int) =~= s@.subrange(start as int, k as int));
                    assert(strip_cr(rest.take(rk as int)) =~= piece@);
                    assert(rest.skip(rk + 1 as int) =~= s@.skip(k + 1));
                }
                r.push(piece);
                proof {
                    assert(r@.map_values(|v: Vec<char>| v@) =~= before.map_values(
                        |v: Vec<char>| v@,
                    ).push(piece@));
                }
                start = k + 1;
            },
            None => {
                let piece = copy_range(s, start, s.len());
                proof {
                    assert forall|j: int| 0 <= j < rest.len() implies rest[j] != '\n' by {
                        assert(rest[j] == s@[start + j]);
                    }
                    lemma_lines_last(rest);
                    assert(piece@ =~= rest);
                    assert(s@.skip(s@.len() as int) =~= Seq::<char>::empty());
                }
                r.push(piece);
                proof {
                    assert(r@.map_values(|v: Vec<char>| v@) =~= before.map_values(
                        |v: Vec<char>| v@,
                    ).push(piece@));
                }
                start = s.len();
            },
        }
    }
    proof {
        assert(s@.skip(start as int) =~= Seq::<char>::empty());
        assert(lines(s@) =~= r@.map_values(|v: Vec<char>| v@));
    }
    r
}

/// Whether `c` is one of `set`.
pub open spec fn in_set(c: char, set: Seq<char>) -> bool {
    set.contains(c)
}

/// `s` without the leading characters that belong to `set`
/// (`trim_start_matches` with a character set).
pub open spec fn strip_set_start(s: Seq<char>, set: Seq<char>) -> Seq<char>
    decreases s.len(),
{
    if s.len() > 0 && in_set(s[0], set) {
        strip_set_start(s.drop_first(), set)
    } else {
        s
    }
}

/// `s` without the trailing characters that belong to `set`
/// (`trim_end_matches` with a character set).
pub open spec fn strip_set_end(s: Seq<char>, set: Seq<char>) -> Seq<char>
    decreases s.len(),
{
    if s.len() > 0 && in_set(s.last(), set) {
        strip_set_end(s.drop_last(), set)
    } else {
        s
    }
}

/// `trim_matches` with a character set: both ends.
pub open spec fn strip_set(s: Seq<char>, set: Seq<char>) -> Seq<char> {
    strip_set_end(strip_set_start(s, set), set)
}

/// The decimal digit character for `d < 10`.
pub open spec fn digit_char(d: nat) -> char {
    if d == 0 {
        '0'
    } else if d == 1 {
        '1'
    } else if d == 2 {
        '2'
    } else if d == 3 {
        '3'
    } else if d == 4 {
        '4'
    } else if d == 5 {
        '5'
    } else if d == 6 {
        '6'
    } else if d == 7 {
        '7'
    } else if d == 8 {
        '8'
    } else {
        '9'
    }
}

/// The decimal representation of `n` (`usize::to_string`).
pub open spec fn decimal(n: nat) -> Seq<char>
    decreases n,
{
    if n < 10 {
        seq![digit_char(n)]
    } else {
        decimal(n / 10).push(digit_char(n % 10))
    }
}

/// Executable [`digit_char`].
pub fn digit_char_exec(d: usize) -> (c: char)
    requires
        d < 10,
    ensures
        c == digit_char(d as nat),
{
    match d {
        0 => '0',
        1 => '1',
        2 => '2',
        3 => '3',
        4 => '4',
        5 => '5',
        6 => '6',
        7 => '7',
        8 => '8',
        _ => '9',
    }
}

/// The characters of `n.to_string()`.
pub fn decimal_chars(n: usize) -> (r: Vec<char>)
    ensures
        r@ == decimal(n as nat),
    decreases n,
{
    if n < 10 {
        let mut r = Vec::new();
        r.push(digit_char_exec(n));
        assert(r@ =~= decimal(n as nat));
        r
    } else {
        let mut r = decimal_chars(n / 10);
        r.push(digit_char_exec(n % 10));
        r
    }
}

/// `n.to_string()`.
pub fn decimal_string(n: usize) -> (s: String)
    ensures
        s@ == decimal(n as nat),
{
    let v = decimal_chars(n);
    string_of(&v)
}

/// Whether `c` is in `set`, executable.
pub fn in_set_exec(c: char, set: &[char]) -> (b: bool)
    ensures
        b == in_set(c, set@),
{
    let mut i: usize = 0;
    while i < set.len()
        invariant
            i <= set@.len(),
            forall|j: int| 0 <= j < i ==> set@[j] != c,
        decreases set@.len() - i,
    {
        if set[i] == c {
            assert(set@[i as int] == c);
            return true;
        }
        i += 1;
    }
    assert(!set@.contains(c));
    false
}

proof fn lemma_strip_set_start_step(s: Seq<char>, set: Seq<char>, i: int)
    requires
        0 <= i < s.len(),
        in_set(s[i], set),
    ensures
        strip_set_start(s.skip(i), set) == strip_set_start(s.skip(i + 1), set),
{
    assert(s.skip(i).drop_first() =~= s.skip(i + 1));
}

proof fn lemma_strip_set_end_step(s: Seq<char>, set: Seq<char>, j: int)
    requires
        0 < j <= s.len(),
        in_set(s[j - 1], set),
    ensures
        strip_set_end(s.take(j), set) == strip_set_end(s.take(j - 1), set),
{
    assert(s.take(j).drop_last() =~= s.take(j - 1));
}

/// [`strip_set_start`] on a character slice.
pub fn strip_set_start_vec(s: &[char], set: &[char]) -> (r: Vec<char>)
    ensures
        r@ == strip_set_start(s@, set@),
{
    let mut a: usize = 0;
    assert(s@.skip(0) =~= s@);
    while a < s.len() && in_set_exec(s[a], set)
        invariant
            a <= s@.len(),
            strip_set_start(s@, set@) == strip_set_start(s@.skip(a as int), set@),
        decreases s@.len() - a,
    {
        proof {
            lemma_strip_set_start_step(s@, set@, a as int);
        }
        a += 1;
    }
    let r = copy_range(s, a, s.len());
    proof {
        let t = s@.skip(a as int);
        assert(r@ =~= t);
        if t.len() > 0 {
            assert(t[0] == s@[a as int]);
        }
    }
    r
}

/// [`strip_set_end`] on a character slice.
pub fn strip_set_end_vec(s: &[char], set: &[char]) -> (r: Vec<char>)
    ensures
        r@ == strip_set_end(s@, set@),
{
    let mut b: usize = s.len();
    assert(s@.take(b as int) =~= s@);
    while b > 0 && in_set_exec(s[b - 1], set)
        invariant
            b <= s@.len(),
            strip_set_end(s@, set@) == strip_set_end(s@.take(b as int), set@),
        decreases b,
    {
        proof {
            lemma_strip_set_end_step(s@, set@, b as int);
        }
        b -= 1;
    }
    let r = copy_range(s, 0, b);
    proof {
        let t = s@.take(b as int);
        assert(r@ =~= t);
        if t.len() > 0 {
            assert(t.last() == s@[b - 1]);
        }
    }
    r
}

/// [`strip_set`] on a character slice.
pub fn strip_set_vec(s: &[char], set: &[char]) -> (r: Vec<char>)
    ensures
        r@ == strip_set(s@, set@),
{
    let a = strip_set_start_vec(s, set);
    strip_set_end_vec(&a, set)
}

/// [`trim_start`] on a character slice.
pub fn trim_start_vec(s: &[char]) -> (r: Vec<char>)
    ensures
        r@ == trim_start(s@),
{
    let mut a: usize = 0;
    assert(s@.skip(0) =~= s@);
    while a < s.len() && is_ws_char(s[a])
        invariant
            a <= s@.len(),
            trim_start(s@) == trim_start(s@.skip(a as int)),
        decreases s@.len() - a,
    {
        proof {
            assert(s@.skip(a as int).drop_first() =~= s@.skip(a + 1));
        }
        a += 1;
    }
    let r = copy_range(s, a, s.len());
    proof {
        let t = s@.skip(a as int);
        assert(r@ =~= t);
        if t.len() > 0 {
            assert(t[0] == s@[a as int]);
        }
    }
    r
}

/// [`trim_end`] on a character slice.
pub fn trim_end_vec(s: &[char]) -> (r: Vec<char>)
    ensures
        r@ == trim_end(s@),
{
    let mut b: usize = s.len();
    assert(s@.take(b as int) =~= s@);
    while b > 0 && is_ws_char(s[b - 1])
        invariant
            b <= s@.len(),
            trim_end(s@) == trim_end(s@.take(b as int)),
        decreases b,
    {
        proof {
            assert(s@.take(b as int).drop_last() =~= s@.take(b - 1));
        }
        b -= 1;
    }
    let r = copy_range(s, 0, b);
    proof {
        let t = s@.take(b as int);
        assert(r@ =~= t);
        if t.len() > 0 {
            assert(t.last() == s@[b - 1]);
        }
    }
    r
}

/// [`ascii_lower_seq`] on a character slice.
pub fn lower_vec(s: &[char]) -> (r: Vec<char>)
    ensures
        r@ == ascii_lower_seq(s@),
{
    let mut r: Vec<char> = Vec::new();
    let mut i: usize = 0;
    while i < s.len()
        invariant
            i <= s@.len(),
            r@ == ascii_lower_seq(s@.take(i as int)),
        decreases s@.len() - i,
    {
        let c = lower_char(s[i]);
        r.push(c);
        i += 1;
        assert(r@ =~= ascii_lower_seq(s@.take(i as int)));
    }
    assert(s@.take(i as int) =~= s@);
    r
}

/// `eq_ignore_ascii_case` on character slices.
pub fn eq_ignore_case_exec(a: &[char], b: &[char]) -> (r: bool)
    ensures
        r == eq_ignore_ascii_case(a@, b@),
{
    if a.len() != b.len() {
        return false;
    }
    let mut i: usize = 0;
    while i < a.len()
        invariant
            a@.len() == b@.len(),
            i <= a@.len(),
            forall|j: int| 0 <= j < i ==> ascii_lower(a@[j]) == ascii_lower(b@[j]),
        decreases a@.len() - i,
    {
        if lower_char(a[i]) != lower_char(b[i]) {
            return false;
        }
        i += 1;
    }
    true
}

/// `eq_ignore_ascii_case` against a literal.
pub fn eq_ignore_case_str(a: &[char], b: &str) -> (r: bool)
    ensures
        r == eq_ignore_ascii_case(a@, b@),
{
    let bv = chars_of(b);
    eq_ignore_case_exec(a, &bv)
}

/// `c.is_ascii_whitespace()`.
pub fn is_ascii_ws_char(c: char) -> (b: bool)
    ensures
        b == is_ascii_ws(c),
{
    c == ' ' || c == '\t' || c == '\n' || c == '\x0C' || c == '\r'
}

/// `str::strip_prefix`.
pub open spec fn strip_prefix(s: Seq<char>, p: Seq<char>) -> Option<Seq<char>> {
    if starts_with(s, p) {
        Some(s.skip(p.len() as int))
    } else {
        None
    }
}

/// [`strip_prefix`] against a literal.
pub fn strip_prefix_str(s: &[char], p: &str) -> (r: Option<Vec<char>>)
    ensures
        r matches Some(v) ==> strip_prefix(s@, p@) == Some(v@),
        r is None ==> strip_prefix(s@, p@) is None,
{
    let pv = chars_of(p);
    if starts_with_exec(s, &pv) {
        Some(copy_range(s, pv.len(), s.len()))
    } else {
        None
    }
}

/// The characters of a string.
pub fn chars_of_string(s: &String) -> (v: Vec<char>)
    ensures
        v@ == s@,
{
    chars_of(s.as_str())
}

/// An ASCII decimal digit.
pub open spec fn is_digit(c: char) -> bool {
    '0' <= c <= '9'
}

/// Every character is a decimal digit.
pub open spec fn all_digits(s: Seq<char>) -> bool {
    forall|i: int| 0 <= i < s.len() ==> is_digit(#[trigger] s[i])
}

/// `s` without one leading `+` or `-`.
pub open spec fn drop_sign(s: Seq<char>) -> Seq<char> {
    if s.len() > 0 && (s[0] == '+' || s[0] == '-') {
        s.drop_first()
    } else {
        s
    }
}

/// `Digit+ | Digit+ '.' Digit* | Digit* '.' Digit+`.
pub open spec fn is_mantissa(m: Seq<char>) -> bool {
    match find_char(m, '.') {
        Some(p) => m.len() >= 2 && all_digits(m.take(p as int)) && all_digits(m.skip(p + 1 as int)),
        None => m.len() >= 1 && all_digits(m),
    }
}

/// `Sign? Digit+`.
pub open spec fn is_exponent(x: Seq<char>) -> bool {
    drop_sign(x).len() >= 1 && all_digits(drop_sign(x))
}

/// The first `e` or `E` at or after `i`.
pub open spec fn find_exp_marker(s: Seq<char>, i: nat) -> Option<nat>
    decreases s.len() - i,
{
    if i >= s.len() {
        None
    } else if s[i as int] == 'e' || s[i as int] == 'E' {
        Some(i)
    } else {
        find_exp_marker(s, i + 1)
    }
}

/// `Number ::= Mantissa Exp?` with `Exp ::= ('e' | 'E') Sign? Digit+`.
pub open spec fn is_decimal_number(b: Seq<char>) -> bool {
    match find_exp_marker(b, 0) {
        Some(e) => is_mantissa(b.take(e as int)) && is_exponent(b.skip(e + 1 as int)),
        None => is_mantissa(b),
    }
}

/// Whether `s.parse::<f64>()` succeeds: the grammar `f64::from_str`
/// documents, `Sign? ('inf' | 'infinity' | 'nan' | Number)`, the words
/// in any case, no surrounding whitespace.
pub open spec fn is_float_literal(s: Seq<char>) -> bool {
    let b = drop_sign(s);
    eq_ignore_ascii_case(b, "inf"@) || eq_ignore_ascii_case(b, "infinity"@) || eq_ignore_ascii_case(
        b,
        "nan"@,
    ) || is_decimal_number(b)
}

fn all_digits_exec(s: &[char]) -> (b: bool)
    ensures
        b == all_digits(s@),
{
    let mut i: usize = 0;
    while i < s.len()
        invariant
            i <= s@.len(),
            forall|j: int| 0 <= j < i ==> is_digit(#[trigger] s@[j]),
        decreases s@.len() - i,
    {
        if !('0' <= s[i] && s[i] <= '9') {
            return false;
        }
        i += 1;
    }
    true
}

fn drop_sign_exec(s: &[char]) -> (r: Vec<char>)
    ensures
        r@ == drop_sign(s@),
{
    if s.len() > 0 && (s[0] == '+' || s[0] == '-') {
        copy_range(s, 1, s.len())
    } else {
        copy_range(s, 0, s.len())
    }
}

fn is_mantissa_exec(m: &[char]) -> (b: bool)
    ensures
        b == is_mantissa(m@),
{
    match find_char_exec(m, '.') {
        Some(p) => {
            let n = m.len();
            proof {
                lemma_find_char(m@, '.');
            }
            let before = copy_range(m, 0, p);
            let after = copy_range(m, p + 1, n);
            n >= 2 && all_digits_exec(&before) && all_digits_exec(&after)
        },
        None => m.len() >= 1 && all_digits_exec(m),
    }
}

fn is_exponent_exec(x: &[char]) -> (b: bool)
    ensures
        b == is_exponent(x@),
{
    let d = drop_sign_exec(x);
    d.len() >= 1 && all_digits_exec(&d)
}

fn find_exp_marker_exec(s: &[char]) -> (r: Option<usize>)
    ensures
        match r {
            Some(i) => find_exp_marker(s@, 0) == Some(i as nat) && i < s@.len(),
            None => find_exp_marker(s@, 0) is None,
        },
{
    let mut i: usize = 0;
    while i < s.len()
        invariant
            i <= s@.len(),
            find_exp_marker(s@, 0) == find_exp_marker(s@, i as nat),
        decreases s@.len() - i,
    {
        if s[i] == 'e' || s[i] == 'E' {
            return Some(i);
        }
        i += 1;
    }
    None
}

/// [`is_float_literal`], executable.
pub fn is_float_literal_exec(s: &[char]) -> (b: bool)
    ensures
        b == is_float_literal(s@),
{
    let b = drop_sign_exec(s);
    if eq_ignore_case_str(&b, "inf") || eq_ignore_case_str(&b, "infinity") || eq_ignore_case_str(
        &b,
        "nan",
    ) {
        return true;
    }
    match find_exp_marker_exec(&b) {
        Some(e) => {
            let n = b.len();
            let m = copy_range(&b, 0, e);
            let x = copy_range(&b, e + 1, n);
            is_mantissa_exec(&m) && is_exponent_exec(&x)
        },
        None => is_mantissa_exec(&b),
    }
}

/// Position of the first whitespace character at or after `i`, or the length.
pub open spec fn first_ws_from(s: Seq<char>, i: nat) -> nat
    decreases s.len() - i,
{
    if i >= s.len() {
        s.len()
    } else if is_ws(s[i as int]) {
        i
    } else {
        first_ws_from(s, i + 1)
    }
}

pub proof fn lemma_first_ws_from(s: Seq<char>, i: nat)
    requires
        i <= s.len(),
    ensures
        i <= first_ws_from(s, i) <= s.len(),
    decreases s.len() - i,
{
    if i < s.len() && !is_ws(s[i as int]) {
        lemma_first_ws_from(s, i + 1);
    }
}

/// `trim_start` never lengthens.
pub proof fn lemma_trim_start_len(s: Seq<char>)
    ensures
        trim_start(s).len() <= s.len(),
        trim_start(s).len() > 0 ==> !is_ws(trim_start(s)[0]),
    decreases s.len(),
{
    if s.len() > 0 && is_ws(s[0]) {
        lemma_trim_start_len(s.drop_first());
    }
}

/// `str::split_whitespace`: the maximal runs of non-whitespace characters.
pub open spec fn words(s: Seq<char>) -> Seq<Seq<char>>
    decreases s.len(),
{
    let t = trim_start(s);
    if t.len() == 0 {
        Seq::empty()
    } else {
        let e = first_ws_from(t, 0);
        proof {
            lemma_trim_start_len(s);
            lemma_first_ws_from(t, 0);
            lemma_first_ws_from(t, 1);
            assert(e >= 1);
            assert(t.skip(e as int).len() < s.len());
        }
        seq![t.take(e as int)] + words(t.skip(e as int))
    }
}

/// [`words`] on a character slice.
pub fn words_exec(s: &[char]) -> (r: Vec<Vec<char>>)
    ensures
        r@.map_values(|v: Vec<char>| v@) == words(s@),
    decreases s@.len(),
{
    let t = trim_start_vec(s);
    proof {
        lemma_trim_start_len(s@);
    }
    if t.len() == 0 {
        let r: Vec<Vec<char>> = Vec::new();
        assert(r@.map_values(|v: Vec<char>| v@) =~= Seq::<Seq<char>>::empty());
        r
    } else {
        let mut e: usize = 0;
        while e < t.len() && !is_ws_char(t[e])
            invariant
                e <= t@.len(),
                first_ws_from(t@, 0) == first_ws_from(t@, e as nat),
            decreases t@.len() - e,
        {
            e += 1;
        }
        proof {
            lemma_first_ws_from(t@, 1);
            assert(e >= 1);
        }
        let head = copy_range(&t, 0, e);
        let tail = copy_range(&t, e, t.len());
        let rest = words_exec(&tail);
        let mut r: Vec<Vec<char>> = Vec::new();
        r.push(head);
        let mut i: usize = 0;
        let ghost rv = rest@.map_values(|v: Vec<char>| v@);
        while i < rest.len()
            invariant
                i <= rest@.len(),
                rv == rest@.map_values(|v: Vec<char>| v@),
                r@.map_values(|v: Vec<char>| v@) == seq![head@] + rv.take(i as int),
            decreases rest@.len() - i,
        {
            let w = copy_range(&rest[i], 0, rest[i].len());
            let ghost before = r@;
            r.push(w);
            proof {
                assert(w@ =~= rv[i as int]);
                assert(r@.map_values(|v: Vec<char>| v@) =~= before.map_values(|v: Vec<char>| v@).push(
                    w@,
                ));
                assert(rv.take(i + 1) =~= rv.take(i as int).push(rv[i as int]));
            }
            i += 1;
        }
        proof {
            assert(rv.take(i as int) =~= rv);
        }
        r
    }
}

/// Quoted text in the form `{:?}` gives it.
pub uninterp spec fn debug_quoted(s: Seq<char>) -> Seq<char>;

/// `format!("{s:?}")`: the string in double quotes with Rust's escapes.
#[verifier::external_body]
pub(crate) fn debug_quote(s: &str) -> (r: String)
    ensures
        r@ == debug_quoted(s@),
{
    format!("{s:?}")
}

/// `str::split` on a non-empty separator: the pieces between its
/// non-overlapping occurrences, from the left.
pub open spec fn split_on(s: Seq<char>, sep: Seq<char>) -> Seq<Seq<char>>
    decreases s.len(),
{
    if sep.len() == 0 {
        seq![s]
    } else {
        match find(s, sep) {
            Some(i) => {
                proof {
                    lemma_find_bounds(s, sep);
                }
                seq![s.take(i as int)] + split_on(s.skip(i + sep.len() as int), sep)
            },
            None => seq![s],
        }
    }
}

proof fn lemma_find_from_bounds(s: Seq<char>, p: Seq<char>, i: nat)
    ensures
        find_from(s, p, i) matches Some(k) ==> i <= k && k + p.len() <= s.len() && occurs_at(s, p, k as int),
    decreases s.len() + 1 - i,
{
    if i + p.len() <= s.len() && !occurs_at(s, p, i as int) {
        lemma_find_from_bounds(s, p, i + 1);
    }
}

/// Where [`find`] points, `p` occurs and fits.
pub proof fn lemma_find_bounds(s: Seq<char>, p: Seq<char>)
    ensures
        find(s, p) matches Some(k) ==> k + p.len() <= s.len() && occurs_at(s, p, k as int),
{
    lemma_find_from_bounds(s, p, 0);
}

/// [`split_on`] against a literal separator.
pub fn split_on_str(s: &[char], sep: &str) -> (r: Vec<Vec<char>>)
    ensures
        r@.map_values(|v: Vec<char>| v@) == split_on(s@, sep@),
    decreases s@.len(),
{
    let sv = chars_of(sep);
    if sv.len() == 0 {
        let mut r: Vec<Vec<char>> = Vec::new();
        r.push(copy_range(s, 0, s.len()));
        proof {
            assert(s@.subrange(0, s@.len() as int) =~= s@);
            assert(r@.map_values(|v: Vec<char>| v@) =~= seq![s@]);
        }
        return r;
    }
    match find_from_exec(s, &sv, 0) {
        Some(i) => {
            let head = copy_range(s, 0, i);
            let tail = copy_range(s, i + sv.len(), s.len());
            let rest = split_on_str(&tail, sep);
            let mut r: Vec<Vec<char>> = Vec::new();
            r.push(head);
            let ghost rv = rest@.map_values(|v: Vec<char>| v@);
            let mut k: usize = 0;
            while k < rest.len()
                invariant
                    k <= rest@.len(),
                    rv == rest@.map_values(|v: Vec<char>| v@),
                    r@.map_values(|v: Vec<char>| v@) == seq![head@] + rv.take(k as int),
                decreases rest@.len() - k,
            {
                let w = copy_range(&rest[k], 0, rest[k].len());
                let ghost before = r@;
                r.push(w);
                proof {
                    assert(w@ =~= rv[k as int]);
                    assert(r@.map_values(|v: Vec<char>| v@) =~= before.map_values(|v: Vec<char>| v@).push(
                        w@,
                    ));
                    assert(rv.take(k + 1) =~= rv.take(k as int).push(rv[k as int]));
                }
                k += 1;
            }
            proof {
                assert(rv.take(k as int) =~= rv);
            }
            r
        },
        None => {
            let mut r: Vec<Vec<char>> = Vec::new();
            r.push(copy_range(s, 0, s.len()));
            proof {
                assert(s@.subrange(0, s@.len() as int) =~= s@);
                assert(r@.map_values(|v: Vec<char>| v@) =~= seq![s@]);
            }
            r
        },
    }
}

/// The first piece of `str::split`: the text before the first occurrence
/// of `sep`, or all of `s`.
pub open spec fn before_first(s: Seq<char>, sep: Seq<char>) -> Seq<char> {
    match find(s, sep) {
        Some(i) => s.take(i as int),
        None => s,
    }
}

/// `items` joined with `sep` between them (`[String]::join`).
pub open spec fn join(items: Seq<Seq<char>>, sep: Seq<char>) -> Seq<char>
    decreases items.len(),
{
    if items.len() == 0 {
        Seq::empty()
    } else if items.len() == 1 {
        items[0]
    } else {
        join(items.drop_last(), sep) + sep + items.last()
    }
}

/// [`join`] on strings.
pub fn join_exec(items: &[String], sep: &str) -> (r: Vec<char>)
    ensures
        r@ == join(items@.map_values(|s: String| s@), sep@),
{
    let ghost iv = items@.map_values(|s: String| s@);
    let sv = chars_of(sep);
    let mut r: Vec<char> = Vec::new();
    let mut i: usize = 0;
    while i < items.len()
        invariant
            i <= items@.len(),
            iv == items@.map_values(|s: String| s@),
            sv@ == sep@,
            r@ == join(iv.take(i as int), sep@),
        decreases items@.len() - i,
    {
        let w = chars_of_string(&items[i]);
        proof {
            assert(iv.take(i + 1).drop_last() =~= iv.take(i as int));
            assert(iv.take(i + 1).last() == w@);
        }
        if i == 0 {
            r = w;
            proof {
                assert(iv.take(1)[0] == w@);
            }
        } else {
            let a = concat(&r, &sv);
            r = concat(&a, &w);
        }
        i += 1;
    }
    proof {
        assert(iv.take(i as int) =~= iv);
    }
    r
}

/// `trim_start` passes over a run of whitespace.
pub proof fn lemma_trim_start_ws(w: Seq<char>, x: Seq<char>)
    requires
        forall|i: int| 0 <= i < w.len() ==> is_ws(w[i]),
    ensures
        trim_start(w + x) == trim_start(x),
    decreases w.len(),
{
    if w.len() == 0 {
        assert(w + x =~= x);
    } else {
        assert((w + x)[0] == w[0]);
        assert((w + x).drop_first() =~= w.drop_first() + x);
        lemma_trim_start_ws(w.drop_first(), x);
    }
}

/// What `trim_start` leaves is a suffix of its argument.
pub proof fn lemma_trim_start_suffix(s: Seq<char>)
    ensures
        trim_start(s).len() <= s.len(),
        trim_start(s) == s.skip(s.len() - trim_start(s).len()),
    decreases s.len(),
{
    if s.len() > 0 && is_ws(s[0]) {
        lemma_trim_start_suffix(s.drop_first());
        assert(s.drop_first().skip(s.drop_first().len() - trim_start(s.drop_first()).len())
            =~= s.skip(s.len() - trim_start(s).len()));
    } else {
        assert(s.skip(0) =~= s);
    }
}

/// `trim_end` of a nonempty sequence, from its first character and the
/// `trim_end` of the rest.
pub proof fn lemma_trim_end_first(s: Seq<char>)
    requires
        s.len() > 0,
    ensures
        trim_end(s) == (if trim_end(s.drop_first()).len() == 0 && is_ws(s[0]) {
            Seq::<char>::empty()
        } else {
            seq![s[0]] + trim_end(s.drop_first())
        }),
    decreases s.len(),
{
    if s.len() == 1 {
        assert(s.drop_first() =~= Seq::<char>::empty());
        if is_ws(s.last()) {
            assert(s.drop_last() =~= Seq::<char>::empty());
        } else {
            assert(seq![s[0]] + Seq::<char>::empty() =~= s);
        }
    } else if is_ws(s.last()) {
        lemma_trim_end_first(s.drop_last());
        assert(s.drop_last().drop_first() =~= s.drop_first().drop_last());
    } else {
        assert(seq![s[0]] + s.drop_first() =~= s);
    }
}

/// `trim_end` removes everything it would remove at once.
pub proof fn lemma_trim_end_twice(s: Seq<char>)
    ensures
        trim_end(trim_end(s)) == trim_end(s),
    decreases s.len(),
{
    if s.len() > 0 && is_ws(s.last()) {
        lemma_trim_end_twice(s.drop_last());
    }
}

/// Trimming the start and trimming the end commute.
pub proof fn lemma_trim_start_end(s: Seq<char>)
    ensures
        trim_start(trim_end(s)) == trim_end(trim_start(s)),
    decreases s.len(),
{
    if s.len() > 0 {
        lemma_trim_end_first(s);
        let tail = s.drop_first();
        if is_ws(s[0]) {
            lemma_trim_start_end(tail);
            if trim_end(tail).len() > 0 {
                assert((seq![s[0]] + trim_end(tail)).drop_first() =~= trim_end(tail));
            }
        } else {
            assert((seq![s[0]] + trim_end(tail))[0] == s[0]);
        }
    }
}

/// Trimming a line whose end was trimmed already trims it as a whole.
pub proof fn lemma_trim_of_trim_end(s: Seq<char>)
    ensures
        trim(trim_end(s)) == trim(s),
{
    lemma_trim_start_end(s);
    lemma_trim_end_twice(trim_start(s));
}

/// `trim_end` of text ending in a visible character followed by more text
/// trims only the part after it.
pub proof fn lemma_trim_end_after(a: Seq<char>, b: Seq<char>)
    requires
        a.len() > 0,
        !is_ws(a.last()),
    ensures
        trim_end(a + b) == a + trim_end(b),
        trim_end(b).len() <= b.len(),
        trim_end(b) == b.take(trim_end(b).len() as int),
    decreases b.len(),
{
    if b.len() == 0 {
        assert(a + b =~= a);
        assert(a + trim_end(b) =~= a);
        assert(b.take(0) =~= b);
    } else if is_ws(b.last()) {
        assert((a + b).drop_last() =~= a + b.drop_last());
        lemma_trim_end_after(a, b.drop_last());
        assert(b.drop_last().take(trim_end(b).len() as int) =~= b.take(trim_end(b).len() as int));
    } else {
        assert(b.take(b.len() as int) =~= b);
    }
}

/// `trim_end` keeps a first character that is not whitespace.
pub proof fn lemma_trim_end_first_kept(x: Seq<char>)
    requires
        x.len() > 0,
        !is_ws(x[0]),
    ensures
        trim_end(x).len() > 0,
        trim_end(x)[0] == x[0],
    decreases x.len(),
{
    if is_ws(x.last()) {
        lemma_trim_end_first_kept(x.drop_last());
    }
}

/// Trimming trimmed text changes nothing.
pub proof fn lemma_trim_twice(s: Seq<char>)
    ensures
        trim(trim(s)) == trim(s),
{
    let u = trim_start(s);
    lemma_trim_start_len(s);
    if u.len() > 0 {
        lemma_trim_end_first_kept(u);
    }
    lemma_trim_end_twice(u);
}

} // verus!
