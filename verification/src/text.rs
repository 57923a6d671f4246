//! Strings as sequences of characters: trimming, splitting, searching,
//! decimal numbers and UTF-16.
use vstd::prelude::*;

verus! {

/// `String::push` appends one character.
pub assume_specification[ String::push ](s: &mut String, c: char)
    ensures
        final(s)@ == old(s)@.push(c),
;

/// `char::is_whitespace` tests the Unicode `White_Space` property, which
/// holds of the characters that `is_white_space` lists.
pub assume_specification[ char::is_whitespace ](c: char) -> (r: bool)
    ensures
        r == is_white_space(c),
;

/// The characters with the Unicode `White_Space` property.
pub open spec fn is_white_space(c: char) -> bool {
    let v = c as u32;
    ||| 0x09 <= v <= 0x0d
    ||| v == 0x20
    ||| v == 0x85
    ||| v == 0xa0
    ||| v == 0x1680
    ||| 0x2000 <= v <= 0x200a
    ||| v == 0x2028
    ||| v == 0x2029
    ||| v == 0x202f
    ||| v == 0x205f
    ||| v == 0x3000
}

/// `String::from_utf16_lossy` decodes UTF-16 and puts U+FFFD in the place of
/// each code unit that belongs to no character.
pub assume_specification[ String::from_utf16_lossy ](v: &[u16]) -> (r: String)
    ensures
        r@ == utf16_lossy(v@),
;

/// What the text of an optional string is.
pub open spec fn text_of(s: Option<String>) -> Option<Seq<char>> {
    match s {
        Some(t) => Some(t@),
        None => None,
    }
}

/// The texts of a sequence of strings.
pub open spec fn texts(s: Seq<String>) -> Seq<Seq<char>> {
    s.map_values(|t: String| t@)
}

/// Adding a string adds its text.
pub proof fn lemma_texts_push(s: Seq<String>, t: String)
    ensures
        texts(s.push(t)) == texts(s).push(t@),
{
    assert(texts(s.push(t)) =~= texts(s).push(t@));
}

/// The characters of `s`, in order.
pub fn chars_of(s: &str) -> (r: Vec<char>)
    ensures
        r@ == s@,
{
    let mut out: Vec<char> = Vec::new();
    for c in it: s.chars()
        invariant
            out@ == s@.take(it.index() as int),
            it.seq() == s@,
    {
        out.push(c);
        assert(s@.take(it.index() as int).push(c) =~= s@.take(it.index() + 1));
    }
    assert(s@.take(s@.len() as int) =~= s@);
    out
}

/// The string that the characters `cs[from..to]` make up.
pub fn string_of(cs: &Vec<char>, from: usize, to: usize) -> (r: String)
    requires
        from <= to <= cs@.len(),
    ensures
        r@ == cs@.subrange(from as int, to as int),
{
    let mut out: String = String::new();
    let mut i: usize = from;
    while i < to
        invariant
            from <= i <= to <= cs@.len(),
            out@ == cs@.subrange(from as int, i as int),
        decreases to - i,
    {
        out.push(cs[i]);
        i = i + 1;
        assert(cs@.subrange(from as int, i as int) =~= cs@.subrange(from as int, i - 1).push(
            cs@[i - 1],
        ));
    }
    out
}

/// Whether two strings hold the same text.
pub fn same_text(a: &str, b: &str) -> (r: bool)
    ensures
        r == (a@ == b@),
{
    a.to_owned() == b.to_owned()
}

/// A copy of an optional string.
pub fn copy_text(s: &Option<String>) -> (r: Option<String>)
    ensures
        text_of(r) == text_of(*s),
{
    match s {
        Some(t) => Some(t.clone()),
        None => None,
    }
}

/// A copy of a list of strings.
pub fn copy_texts(v: &Vec<String>) -> (r: Vec<String>)
    ensures
        texts(r@) == texts(v@),
{
    let mut out: Vec<String> = Vec::new();
    let mut i: usize = 0;
    while i < v.len()
        invariant
            i <= v@.len(),
            texts(out@) == texts(v@).take(i as int),
        decreases v@.len() - i,
    {
        let t: String = v[i].clone();
        proof {
            lemma_texts_push(out@, t);
            assert(texts(v@).take(i + 1) =~= texts(v@).take(i as int).push(v@[i as int]@));
        }
        out.push(t);
        i = i + 1;
    }
    assert(texts(v@).take(v@.len() as int) =~= texts(v@));
    out
}

// ---- trimming ----

/// `s` without the white space at its start.
pub open spec fn trimmed_start(s: Seq<char>) -> Seq<char>
    decreases s.len(),
{
    if s.len() > 0 && is_white_space(s[0]) {
        trimmed_start(s.drop_first())
    } else {
        s
    }
}

/// `s` without the white space at its end.
pub open spec fn trimmed_end(s: Seq<char>) -> Seq<char>
    decreases s.len(),
{
    if s.len() > 0 && is_white_space(s.last()) {
        trimmed_end(s.drop_last())
    } else {
        s
    }
}

/// `s` without the white space at either end.
pub open spec fn trimmed(s: Seq<char>) -> Seq<char> {
    trimmed_end(trimmed_start(s))
}

/// `s` without the white space at either end.
pub fn trim(s: &str) -> (r: String)
    ensures
        r@ == trimmed(s@),
{
    let cs: Vec<char> = chars_of(s);
    let mut from: usize = 0;
    assert(cs@.skip(0) =~= cs@);
    while from < cs.len() && cs[from].is_whitespace()
        invariant
            from <= cs@.len(),
            cs@ == s@,
            trimmed_start(cs@.skip(from as int)) == trimmed_start(s@),
        decreases cs@.len() - from,
    {
        assert(cs@.skip(from as int).drop_first() =~= cs@.skip(from + 1));
        from = from + 1;
    }
    assert(trimmed_start(s@) == cs@.skip(from as int));
    let mut to: usize = cs.len();
    assert(cs@.subrange(from as int, to as int) =~= cs@.skip(from as int));
    while from < to && cs[to - 1].is_whitespace()
        invariant
            from <= to <= cs@.len(),
            trimmed_end(cs@.subrange(from as int, to as int)) == trimmed(s@),
        decreases to,
    {
        assert(cs@.subrange(from as int, to as int).drop_last() =~= cs@.subrange(
            from as int,
            to - 1,
        ));
        to = to - 1;
    }
    string_of(&cs, from, to)
}

// ---- splitting ----

/// The pieces of `s` between the separators `sep`; there is always one.
pub open spec fn pieces(s: Seq<char>, sep: char) -> Seq<Seq<char>>
    decreases s.len(),
{
    if s.len() == 0 {
        seq![Seq::<char>::empty()]
    } else {
        let before = pieces(s.drop_last(), sep);
        if s.last() == sep {
            before.push(Seq::<char>::empty())
        } else {
            before.drop_last().push(before.last().push(s.last()))
        }
    }
}

/// There is always a piece.
pub proof fn lemma_pieces_nonempty(s: Seq<char>, sep: char)
    ensures
        pieces(s, sep).len() > 0,
    decreases s.len(),
{
    if s.len() > 0 {
        lemma_pieces_nonempty(s.drop_last(), sep);
    }
}

/// The pieces of `s` between the separators `sep`.
pub fn split(s: &str, sep: char) -> (r: Vec<String>)
    ensures
        texts(r@) == pieces(s@, sep),
{
    let cs: Vec<char> = chars_of(s);
    let mut out: Vec<String> = Vec::new();
    let mut cur: String = String::new();
    let mut i: usize = 0;
    assert(texts(out@).push(cur@) =~= pieces(s@.take(0), sep));
    while i < cs.len()
        invariant
            i <= cs@.len(),
            cs@ == s@,
            texts(out@).push(cur@) == pieces(s@.take(i as int), sep),
        decreases cs@.len() - i,
    {
        let c: char = cs[i];
        let ghost before = pieces(s@.take(i as int), sep);
        proof {
            assert(s@.take(i + 1).drop_last() =~= s@.take(i as int));
            assert(before.drop_last() =~= texts(out@));
            lemma_texts_push(out@, cur);
        }
        if c == sep {
            out.push(cur);
            cur = String::new();
        } else {
            cur.push(c);
        }
        i = i + 1;
        assert(texts(out@).push(cur@) =~= pieces(s@.take(i as int), sep));
    }
    proof {
        assert(s@.take(s@.len() as int) =~= s@);
        lemma_texts_push(out@, cur);
    }
    out.push(cur);
    out
}

/// `s` without a carriage return at its end.
pub open spec fn without_cr(s: Seq<char>) -> Seq<char> {
    if s.len() > 0 && s.last() == '\r' {
        s.drop_last()
    } else {
        s
    }
}

/// The lines of `s`. A line ends with a line feed, with a carriage return
/// before it or without; the last line need not end so.
pub open spec fn line_texts(s: Seq<char>) -> Seq<Seq<char>> {
    let p = pieces(s, '\n');
    let ended = p.drop_last().map_values(|l: Seq<char>| without_cr(l));
    if p.last().len() == 0 {
        ended
    } else {
        ended.push(p.last())
    }
}

/// The lines of `s`.
pub fn lines(s: &str) -> (r: Vec<String>)
    ensures
        texts(r@) == line_texts(s@),
{
    let p: Vec<String> = split(s, '\n');
    let ghost all = pieces(s@, '\n');
    proof {
        lemma_pieces_nonempty(s@, '\n');
        assert(texts(p@).len() == p@.len());
    }
    let ghost ended = all.drop_last().map_values(|l: Seq<char>| without_cr(l));
    let last: usize = p.len() - 1;
    let mut out: Vec<String> = Vec::new();
    let mut i: usize = 0;
    while i < last
        invariant
            i <= last,
            last + 1 == p@.len(),
            texts(p@) == all,
            ended == all.drop_last().map_values(|l: Seq<char>| without_cr(l)),
            texts(out@) == ended.take(i as int),
        decreases last - i,
    {
        let cs: Vec<char> = chars_of(p[i].as_str());
        let mut n: usize = cs.len();
        if n > 0 && cs[n - 1] == '\r' {
            n = n - 1;
        }
        let line: String = string_of(&cs, 0, n);
        proof {
            assert(all[i as int] == p@[i as int]@);
            assert(line@ =~= without_cr(all[i as int]));
            lemma_texts_push(out@, line);
            assert(ended.take(i + 1) =~= ended.take(i as int).push(line@));
        }
        out.push(line);
        i = i + 1;
    }
    assert(ended.take(last as int) =~= ended);
    assert(all.last() == p@[last as int]@);
    if !p[last].as_str().is_empty() {
        let line: String = p[last].clone();
        proof {
            lemma_texts_push(out@, line);
        }
        out.push(line);
    }
    out
}

/// The texts of `parts` with `sep` between them.
pub open spec fn joined(parts: Seq<Seq<char>>, sep: char) -> Seq<char>
    decreases parts.len(),
{
    if parts.len() == 0 {
        Seq::empty()
    } else if parts.len() == 1 {
        parts[0]
    } else {
        joined(parts.drop_last(), sep).push(sep) + parts.last()
    }
}

/// The strings of `parts` with `sep` between them.
pub fn join(parts: &Vec<String>, sep: char) -> (r: String)
    ensures
        r@ == joined(texts(parts@), sep),
{
    let mut out: String = String::new();
    let mut i: usize = 0;
    while i < parts.len()
        invariant
            i <= parts@.len(),
            out@ == joined(texts(parts@).take(i as int), sep),
        decreases parts@.len() - i,
    {
        if i > 0 {
            out.push(sep);
        }
        out.append(parts[i].as_str());
        proof {
            let upto = texts(parts@).take(i + 1);
            assert(upto.drop_last() =~= texts(parts@).take(i as int));
            assert(upto.last() == parts@[i as int]@);
            assert(out@ =~= joined(upto, sep));
        }
        i = i + 1;
    }
    assert(texts(parts@).take(parts@.len() as int) =~= texts(parts@));
    out
}

/// `s` with every `from` replaced by `to`.
pub open spec fn replaced(s: Seq<char>, from: char, to: char) -> Seq<char> {
    s.map_values(
        |c: char|
            if c == from {
                to
            } else {
                c
            },
    )
}

/// `s` with every `from` replaced by `to`.
pub fn replace(s: &str, from: char, to: char) -> (r: String)
    ensures
        r@ == replaced(s@, from, to),
{
    let cs: Vec<char> = chars_of(s);
    let mut out: String = String::new();
    let mut i: usize = 0;
    while i < cs.len()
        invariant
            i <= cs@.len(),
            cs@ == s@,
            out@ == replaced(s@, from, to).take(i as int),
        decreases cs@.len() - i,
    {
        let c: char = if cs[i] == from {
            to
        } else {
            cs[i]
        };
        assert(replaced(s@, from, to).take(i + 1) =~= replaced(s@, from, to).take(i as int).push(
            c,
        ));
        out.push(c);
        i = i + 1;
    }
    assert(replaced(s@, from, to).take(s@.len() as int) =~= replaced(s@, from, to));
    out
}

// ---- searching ----

/// `hay` holds `needle` at index `i`.
pub open spec fn found_at(hay: Seq<char>, needle: Seq<char>, i: int) -> bool {
    0 <= i && i + needle.len() <= hay.len() && hay.subrange(i, i + needle.len()) == needle
}

/// `hay` holds `needle` somewhere.
pub open spec fn holds(hay: Seq<char>, needle: Seq<char>) -> bool {
    exists|i: int| found_at(hay, needle, i)
}

/// Whether `hay` holds `needle` at index `i`.
fn matches_at(hay: &Vec<char>, needle: &Vec<char>, i: usize) -> (r: bool)
    requires
        i <= hay@.len(),
    ensures
        r == found_at(hay@, needle@, i as int),
{
    if needle.len() > hay.len() - i {
        return false;
    }
    let hay_len: usize = hay.len();
    let mut k: usize = 0;
    while k < needle.len()
        invariant
            k <= needle@.len(),
            i + needle@.len() <= hay_len,
            hay_len == hay@.len(),
            hay@.subrange(i as int, i + k) == needle@.take(k as int),
        decreases needle@.len() - k,
    {
        if hay[i + k] != needle[k] {
            assert(hay@.subrange(i as int, i + needle@.len())[k as int] != needle@[k as int]);
            return false;
        }
        assert(hay@.subrange(i as int, i + k + 1) =~= needle@.take(k + 1));
        k = k + 1;
    }
    assert(needle@.take(needle@.len() as int) =~= needle@);
    true
}

/// Whether `hay` holds `needle` somewhere.
pub fn contains(hay: &str, needle: &str) -> (r: bool)
    ensures
        r == holds(hay@, needle@),
{
    let h: Vec<char> = chars_of(hay);
    let n: Vec<char> = chars_of(needle);
    let mut i: usize = 0;
    while i < h.len()
        invariant
            i <= h@.len(),
            h@ == hay@,
            n@ == needle@,
            forall|j: int| 0 <= j < i ==> !found_at(hay@, needle@, j),
        decreases h@.len() - i,
    {
        if matches_at(&h, &n, i) {
            return true;
        }
        i = i + 1;
    }
    let at_end: bool = matches_at(&h, &n, i);
    at_end
}

/// `s` begins with `prefix`.
pub open spec fn begins_with(s: Seq<char>, prefix: Seq<char>) -> bool {
    found_at(s, prefix, 0)
}

/// Whether `s` begins with `prefix`.
pub fn starts_with(s: &str, prefix: &str) -> (r: bool)
    ensures
        r == begins_with(s@, prefix@),
{
    let h: Vec<char> = chars_of(s);
    let n: Vec<char> = chars_of(prefix);
    matches_at(&h, &n, 0)
}

/// `s` ends with `suffix`.
pub open spec fn finishes_with(s: Seq<char>, suffix: Seq<char>) -> bool {
    found_at(s, suffix, s.len() - suffix.len())
}

/// Whether `s` ends with `suffix`.
pub fn ends_with(s: &str, suffix: &str) -> (r: bool)
    ensures
        r == finishes_with(s@, suffix@),
{
    let h: Vec<char> = chars_of(s);
    let n: Vec<char> = chars_of(suffix);
    if n.len() > h.len() {
        return false;
    }
    matches_at(&h, &n, h.len() - n.len())
}

/// The lower-case form of an ASCII capital; any other character stays.
pub open spec fn ascii_lower(c: char) -> char {
    if 'A' <= c <= 'Z' {
        (c as u8 + 32) as char
    } else {
        c
    }
}

/// `s` with its ASCII capitals in lower case.
pub open spec fn lowered(s: Seq<char>) -> Seq<char> {
    s.map_values(|c: char| ascii_lower(c))
}

/// `s` with its ASCII capitals in lower case.
pub fn to_ascii_lower(s: &str) -> (r: String)
    ensures
        r@ == lowered(s@),
{
    let cs: Vec<char> = chars_of(s);
    let mut out: String = String::new();
    let mut i: usize = 0;
    while i < cs.len()
        invariant
            i <= cs@.len(),
            cs@ == s@,
            out@ == lowered(s@).take(i as int),
        decreases cs@.len() - i,
    {
        let c: char = cs[i];
        let l: char = if 'A' <= c && c <= 'Z' {
            (c as u8 + 32) as char
        } else {
            c
        };
        assert(lowered(s@).take(i + 1) =~= lowered(s@).take(i as int).push(l));
        out.push(l);
        i = i + 1;
    }
    assert(lowered(s@).take(s@.len() as int) =~= lowered(s@));
    out
}

// ---- numbers ----

/// The decimal digit `d`.
pub open spec fn digit_char(d: nat) -> char {
    (48 + d) as u8 as char
}

/// `n` in decimal, without leading zeros.
pub open spec fn decimal(n: nat) -> Seq<char>
    decreases n,
{
    if n < 10 {
        seq![digit_char(n)]
    } else {
        decimal(n / 10).push(digit_char(n % 10))
    }
}

/// `n` in decimal, without leading zeros.
pub fn to_decimal(n: u64) -> (r: String)
    ensures
        r@ == decimal(n as nat),
    decreases n,
{
    let d: char = (48 + (n % 10) as u8) as char;
    if n < 10 {
        let mut s: String = String::new();
        s.push(d);
        assert(s@ =~= seq![d]);
        s
    } else {
        let mut s: String = to_decimal(n / 10);
        s.push(d);
        s
    }
}

/// Different numbers are written differently.
pub proof fn law_decimal_tells_apart(m: nat, n: nat)
    requires
        m != n,
    ensures
        decimal(m) != decimal(n),
{
    if decimal(m) == decimal(n) {
        lemma_decimal_value(m);
        lemma_decimal_value(n);
    }
}

/// The number that decimal digits write.
spec fn decimal_value(s: Seq<char>) -> nat
    decreases s.len(),
{
    if s.len() == 0 {
        0
    } else {
        decimal_value(s.drop_last()) * 10 + (s.last() as u32 - 48) as nat
    }
}

proof fn lemma_decimal_value(n: nat)
    ensures
        decimal_value(decimal(n)) == n,
    decreases n,
{
    if n < 10 {
        assert(decimal(n).drop_last() =~= Seq::<char>::empty());
        assert(digit_char(n) as u32 == 48 + n);
        assert(decimal_value(Seq::<char>::empty()) == 0);
    } else {
        lemma_decimal_value(n / 10);
        assert(decimal(n).drop_last() =~= decimal(n / 10));
        assert(digit_char(n % 10) as u32 == 48 + n % 10);
    }
}

// ---- UTF-16 ----

/// The UTF-16 code units of one character.
pub open spec fn utf16_units(c: char) -> Seq<u16> {
    let v = c as u32;
    if v < 0x10000 {
        seq![v as u16]
    } else {
        seq![
            (0xd800 + (v - 0x10000) / 0x400) as u16,
            (0xdc00 + (v - 0x10000) % 0x400) as u16,
        ]
    }
}

/// The UTF-16 code units of a text.
pub open spec fn utf16(s: Seq<char>) -> Seq<u16>
    decreases s.len(),
{
    if s.len() == 0 {
        Seq::empty()
    } else {
        utf16_units(s[0]) + utf16(s.drop_first())
    }
}

/// The text that UTF-16 code units make up. A surrogate without its partner
/// becomes U+FFFD.
pub open spec fn utf16_lossy(u: Seq<u16>) -> Seq<char>
    decreases u.len(),
{
    if u.len() == 0 {
        Seq::empty()
    } else if u[0] < 0xd800 || u[0] > 0xdfff {
        seq![u[0] as u32 as char] + utf16_lossy(u.skip(1))
    } else if u[0] < 0xdc00 && u.len() > 1 && 0xdc00 <= u[1] <= 0xdfff {
        seq![(0x10000 + (u[0] - 0xd800) * 0x400 + (u[1] - 0xdc00)) as u32 as char] + utf16_lossy(
            u.skip(2),
        )
    } else {
        seq!['\u{FFFD}'] + utf16_lossy(u.skip(1))
    }
}

/// `s` as UTF-16 code units with a zero behind them.
pub fn to_wide(s: &str) -> (r: Vec<u16>)
    ensures
        r@ == utf16(s@).push(0),
{
    let cs: Vec<char> = chars_of(s);
    let mut out: Vec<u16> = Vec::new();
    let mut i: usize = 0;
    assert(s@.skip(0) =~= s@);
    assert(out@ + utf16(s@) =~= utf16(s@));
    while i < cs.len()
        invariant
            i <= cs@.len(),
            cs@ == s@,
            out@ + utf16(s@.skip(i as int)) == utf16(s@),
        decreases cs@.len() - i,
    {
        let v: u32 = cs[i] as u32;
        let ghost before = out@;
        assert(s@.skip(i as int).drop_first() =~= s@.skip(i + 1));
        if v < 0x10000 {
            out.push(v as u16);
        } else {
            let x: u32 = v - 0x10000;
            out.push((0xd800 + x / 0x400) as u16);
            out.push((0xdc00 + x % 0x400) as u16);
        }
        assert(out@ =~= before + utf16_units(s@[i as int]));
        i = i + 1;
        assert(out@ + utf16(s@.skip(i as int)) =~= utf16(s@));
    }
    assert(out@ =~= utf16(s@));
    out.push(0);
    out
}

proof fn lemma_utf16_first(c: char, rest: Seq<u16>)
    ensures
        utf16_lossy(utf16_units(c) + rest) == seq![c] + utf16_lossy(rest),
{
    let u = utf16_units(c) + rest;
    let v = c as u32;
    if v < 0x10000 {
        assert(u.skip(1) =~= rest);
        assert(u[0] == v);
    } else {
        assert(u.skip(2) =~= rest);
        let x = v - 0x10000;
        assert(u[0] == 0xd800 + x / 0x400);
        assert(u[1] == 0xdc00 + x % 0x400);
        assert((0x10000 + (u[0] - 0xd800) * 0x400 + (u[1] - 0xdc00)) == v);
    }
}

/// Decoding undoes encoding: no text is lost on its way through UTF-16.
pub proof fn law_utf16_round_trip(s: Seq<char>)
    ensures
        utf16_lossy(utf16(s)) == s,
    decreases s.len(),
{
    if s.len() > 0 {
        law_utf16_round_trip(s.drop_first());
        lemma_utf16_first(s[0], utf16(s.drop_first()));
        assert(seq![s[0]] + s.drop_first() =~= s);
    }
}

// ---- lemmas on trimming, splitting and joining ----

/// What is left at the end is a beginning of the text, and ends with no white
/// space.
pub proof fn lemma_trimmed_end(s: Seq<char>)
    ensures
        trimmed_end(s).len() <= s.len(),
        trimmed_end(s) == s.take(trimmed_end(s).len() as int),
        trimmed_end(s).len() > 0 ==> !is_white_space(trimmed_end(s).last()),
    decreases s.len(),
{
    if s.len() > 0 && is_white_space(s.last()) {
        lemma_trimmed_end(s.drop_last());
        let n = trimmed_end(s.drop_last()).len() as int;
        assert(s.drop_last().take(n) =~= s.take(n));
    } else {
        assert(s.take(s.len() as int) =~= s);
    }
}

/// What is left at the start is an end of the text, and begins with no white
/// space.
pub proof fn lemma_trimmed_start(s: Seq<char>)
    ensures
        trimmed_start(s).len() <= s.len(),
        trimmed_start(s) == s.skip(s.len() - trimmed_start(s).len()),
        trimmed_start(s).len() > 0 ==> !is_white_space(trimmed_start(s)[0]),
    decreases s.len(),
{
    if s.len() > 0 && is_white_space(s[0]) {
        lemma_trimmed_start(s.drop_first());
        let n = trimmed_start(s.drop_first()).len();
        assert(s.drop_first().skip(s.len() - 1 - n) =~= s.skip(s.len() - n));
    } else {
        assert(s.skip(0) =~= s);
    }
}

/// A trimmed text has no white space at its ends, is trimmed already, and
/// holds only characters of the text.
pub proof fn lemma_trimmed(s: Seq<char>)
    ensures
        trimmed(trimmed(s)) == trimmed(s),
        trimmed(s).len() > 0 ==> !is_white_space(trimmed(s)[0]) && !is_white_space(
            trimmed(s).last(),
        ),
        forall|c: char| trimmed(s).contains(c) ==> #[trigger] s.contains(c),
{
    let a = trimmed_start(s);
    let t = trimmed(s);
    lemma_trimmed_start(s);
    lemma_trimmed_end(a);
    if t.len() > 0 {
        assert(t[0] == a[0]);
        assert(trimmed_start(t) == t);
    }
    assert forall|c: char| t.contains(c) implies #[trigger] s.contains(c) by {
        let i = choose|i: int| 0 <= i < t.len() && t[i] == c;
        assert(a[i] == c);
        assert(s[s.len() - a.len() + i] == c);
    }
}

/// A text that begins with something other than white space is not blank.
pub proof fn lemma_trimmed_shows(s: Seq<char>)
    requires
        s.len() > 0,
        !is_white_space(s[0]),
    ensures
        trimmed(s).len() > 0,
{
    lemma_trimmed_end_shows(s);
}

proof fn lemma_trimmed_end_shows(s: Seq<char>)
    requires
        s.len() > 0,
        !is_white_space(s[0]),
    ensures
        trimmed_end(s).len() > 0,
    decreases s.len(),
{
    if is_white_space(s.last()) {
        lemma_trimmed_end_shows(s.drop_last());
    }
}

/// No piece holds the separator.
pub proof fn lemma_pieces_have_no_sep(s: Seq<char>, sep: char)
    ensures
        forall|i: int| 0 <= i < pieces(s, sep).len() ==> !(#[trigger] pieces(s, sep)[i]).contains(
            sep,
        ),
    decreases s.len(),
{
    let p = pieces(s, sep);
    if s.len() > 0 {
        let before = pieces(s.drop_last(), sep);
        lemma_pieces_nonempty(s.drop_last(), sep);
        lemma_pieces_have_no_sep(s.drop_last(), sep);
        assert forall|i: int| 0 <= i < p.len() implies !(#[trigger] p[i]).contains(sep) by {
            if i < before.len() - 1 {
                assert(p[i] == before[i]);
            } else if s.last() != sep {
                let last = before.last();
                assert(!before[before.len() - 1].contains(sep));
                assert(p[i] == last.push(s.last()));
                if p[i].contains(sep) {
                    let k = choose|k: int| 0 <= k < p[i].len() && p[i][k] == sep;
                    assert(k < last.len());
                    assert(last[k] == sep);
                }
            } else if i == before.len() - 1 {
                assert(p[i] == before[i]);
            } else {
                assert(p[i] =~= Seq::<char>::empty());
            }
        }
    }
}

/// No line holds a line feed.
pub proof fn lemma_lines_have_no_feed(s: Seq<char>)
    ensures
        forall|i: int|
            0 <= i < line_texts(s).len() ==> !(#[trigger] line_texts(s)[i]).contains('\n'),
{
    let p = pieces(s, '\n');
    lemma_pieces_have_no_sep(s, '\n');
    lemma_pieces_nonempty(s, '\n');
    let l = line_texts(s);
    assert forall|i: int| 0 <= i < l.len() implies !(#[trigger] l[i]).contains('\n') by {
        assert(!p[i].contains('\n'));
        if i < p.len() - 1 {
            assert(l[i] == without_cr(p[i]));
            if l[i].contains('\n') {
                let k = choose|k: int| 0 <= k < l[i].len() && l[i][k] == '\n';
                assert(p[i][k] == '\n');
            }
        }
    }
}

/// A text without the separator is one piece.
proof fn lemma_one_piece(b: Seq<char>, sep: char)
    requires
        !b.contains(sep),
    ensures
        pieces(b, sep) == seq![b],
    decreases b.len(),
{
    if b.len() > 0 {
        assert forall|i: int| 0 <= i < b.drop_last().len() implies b.drop_last()[i] != sep by {
            assert(b.contains(b[i]));
        }
        lemma_one_piece(b.drop_last(), sep);
        assert(b.contains(b[b.len() - 1]));
        assert(b.drop_last().push(b.last()) =~= b);
        assert(pieces(b, sep) =~= seq![b]);
    } else {
        assert(b =~= Seq::<char>::empty());
    }
}

/// A separator and a text without one are one piece more.
proof fn lemma_piece_more(a: Seq<char>, b: Seq<char>, sep: char)
    requires
        !b.contains(sep),
    ensures
        pieces(a.push(sep) + b, sep) == pieces(a, sep).push(b),
    decreases b.len(),
{
    let s = a.push(sep) + b;
    if b.len() == 0 {
        assert(s =~= a.push(sep));
        assert(s.drop_last() =~= a);
        assert(b =~= Seq::<char>::empty());
    } else {
        let c = b.drop_last();
        assert forall|i: int| 0 <= i < c.len() implies c[i] != sep by {
            assert(b.contains(b[i]));
        }
        lemma_piece_more(a, c, sep);
        assert(b.contains(b[b.len() - 1]));
        assert(s.drop_last() =~= a.push(sep) + c);
        assert(s.last() == b.last());
        assert(c.push(b.last()) =~= b);
        assert(pieces(a, sep).push(c).drop_last() =~= pieces(a, sep));
    }
}

/// Splitting undoes joining, where no part holds the separator.
pub proof fn lemma_pieces_of_joined(parts: Seq<Seq<char>>, sep: char)
    requires
        parts.len() > 0,
        forall|i: int| 0 <= i < parts.len() ==> !(#[trigger] parts[i]).contains(sep),
    ensures
        pieces(joined(parts, sep), sep) == parts,
    decreases parts.len(),
{
    if parts.len() == 1 {
        assert(!parts[0].contains(sep));
        lemma_one_piece(parts[0], sep);
        assert(seq![parts[0]] =~= parts);
    } else {
        let front = parts.drop_last();
        assert forall|i: int| 0 <= i < front.len() implies !(#[trigger] front[i]).contains(
            sep,
        ) by {
            assert(front[i] == parts[i]);
        }
        lemma_pieces_of_joined(front, sep);
        assert(!parts[parts.len() - 1].contains(sep));
        lemma_piece_more(joined(front, sep), parts.last(), sep);
        assert(front.push(parts.last()) =~= parts);
    }
}

// ---- laws ----

/// Trimming takes away white space and nothing else: what stands between the
/// white space at the two ends stays, if it begins and ends with something.
pub proof fn law_trim_keeps_the_middle(before: Seq<char>, mid: Seq<char>, after: Seq<char>)
    requires
        forall|i: int| 0 <= i < before.len() ==> is_white_space(#[trigger] before[i]),
        forall|i: int| 0 <= i < after.len() ==> is_white_space(#[trigger] after[i]),
        mid.len() > 0 ==> !is_white_space(mid[0]) && !is_white_space(mid.last()),
    ensures
        trimmed(before + mid + after) == mid,
{
    let s = before + mid + after;
    if mid.len() == 0 {
        assert forall|i: int| 0 <= i < s.len() implies is_white_space(#[trigger] s[i]) by {
            if i < before.len() {
                assert(s[i] == before[i]);
            } else {
                assert(s[i] == after[i - before.len()]);
            }
        }
        lemma_all_white(s);
        assert(trimmed(s) =~= mid);
    } else {
        lemma_trim_front(before, mid + after);
        assert(s =~= before + (mid + after));
        assert((mid + after)[0] == mid[0]);
        lemma_trim_back(mid, after);
    }
}

proof fn lemma_all_white(s: Seq<char>)
    requires
        forall|i: int| 0 <= i < s.len() ==> is_white_space(#[trigger] s[i]),
    ensures
        trimmed_start(s).len() == 0,
        trimmed(s).len() == 0,
    decreases s.len(),
{
    if s.len() > 0 {
        lemma_all_white(s.drop_first());
    }
}

proof fn lemma_trim_front(before: Seq<char>, rest: Seq<char>)
    requires
        forall|i: int| 0 <= i < before.len() ==> is_white_space(#[trigger] before[i]),
        rest.len() > 0,
        !is_white_space(rest[0]),
    ensures
        trimmed_start(before + rest) == rest,
    decreases before.len(),
{
    if before.len() > 0 {
        lemma_trim_front(before.drop_first(), rest);
        assert((before + rest)[0] == before[0]);
        assert((before + rest).drop_first() =~= before.drop_first() + rest);
    } else {
        assert(before + rest =~= rest);
    }
}

proof fn lemma_trim_back(mid: Seq<char>, after: Seq<char>)
    requires
        forall|i: int| 0 <= i < after.len() ==> is_white_space(#[trigger] after[i]),
        mid.len() > 0,
        !is_white_space(mid.last()),
    ensures
        trimmed_end(mid + after) == mid,
    decreases after.len(),
{
    if after.len() > 0 {
        lemma_trim_back(mid, after.drop_last());
        assert((mid + after).last() == after.last());
        assert((mid + after).drop_last() =~= mid + after.drop_last());
    } else {
        assert(mid + after =~= mid);
    }
}

/// Splitting and joining are each other's reverse: the pieces hold no
/// separator, and with the separators between them they are the text again;
/// parts without a separator come back from the joined text.
pub proof fn law_split_and_join(s: Seq<char>, parts: Seq<Seq<char>>, sep: char)
    requires
        parts.len() > 0,
        forall|i: int| 0 <= i < parts.len() ==> !(#[trigger] parts[i]).contains(sep),
    ensures
        forall|i: int| 0 <= i < pieces(s, sep).len() ==> !(#[trigger] pieces(s, sep)[i]).contains(sep),
        joined(pieces(s, sep), sep) == s,
        pieces(joined(parts, sep), sep) == parts,
{
    lemma_pieces_have_no_sep(s, sep);
    lemma_joined_pieces(s, sep);
    lemma_pieces_of_joined(parts, sep);
}

proof fn lemma_joined_pieces(s: Seq<char>, sep: char)
    ensures
        joined(pieces(s, sep), sep) == s,
    decreases s.len(),
{
    let p = pieces(s, sep);
    if s.len() == 0 {
        assert(p[0] =~= s);
    } else {
        let q = pieces(s.drop_last(), sep);
        lemma_joined_pieces(s.drop_last(), sep);
        lemma_pieces_nonempty(s.drop_last(), sep);
        assert(s.drop_last().push(s.last()) =~= s);
        if s.last() == sep {
            assert(p.drop_last() =~= q);
            assert(joined(p, sep) =~= s.drop_last().push(sep));
        } else {
            assert(p.drop_last() =~= q.drop_last());
            if q.len() == 1 {
                assert(p[0] =~= s);
            } else {
                assert(joined(p, sep) =~= joined(q, sep).push(s.last()));
            }
        }
    }
}

/// Joining puts one separator between two lists of parts, none round a single
/// part, and makes nothing of no parts.
pub proof fn law_joined(a: Seq<Seq<char>>, b: Seq<Seq<char>>, x: Seq<char>, sep: char)
    requires
        a.len() > 0,
        b.len() > 0,
    ensures
        joined(a + b, sep) == joined(a, sep) + seq![sep] + joined(b, sep),
        joined(seq![x], sep) == x,
        joined(Seq::empty(), sep) == Seq::<char>::empty(),
    decreases b.len(),
{
    let all = a + b;
    assert(all.drop_last() =~= a + b.drop_last());
    assert(all.last() == b.last());
    if b.len() == 1 {
        assert(a + b.drop_last() =~= a);
        assert(joined(all, sep) =~= joined(a, sep) + seq![sep] + joined(b, sep));
    } else {
        law_joined(a, b.drop_last(), x, sep);
        assert(joined(all, sep) =~= joined(a, sep) + seq![sep] + joined(b, sep));
    }
}

/// The lines of a text are its first line, up to the first line feed and
/// without one carriage return before it, and then the lines of the rest. A
/// text without a line feed is a line as it is, unless it is empty.
pub proof fn law_lines(line: Seq<char>, rest: Seq<char>)
    requires
        !line.contains('\n'),
    ensures
        line_texts(line) == (if line.len() == 0 {
            Seq::<Seq<char>>::empty()
        } else {
            seq![line]
        }),
        line.len() == 0 || line.last() != '\r' ==> line_texts(line + seq!['\n'] + rest)
            == seq![line] + line_texts(rest),
        line_texts(line + seq!['\r', '\n'] + rest) == seq![line] + line_texts(rest),
{
    law_split_at(line, rest, '\n');
    lemma_pieces_nonempty(rest, '\n');
    assert(line_texts(line) =~= (if line.len() == 0 {
        Seq::<Seq<char>>::empty()
    } else {
        seq![line]
    }));
    if line.len() == 0 || line.last() != '\r' {
        lemma_line_cut(line, rest);
        assert(line_texts(line + seq!['\n'] + rest) =~= seq![line] + line_texts(rest));
    }
    let ended = line.push('\r');
    assert forall|i: int| 0 <= i < ended.len() implies ended[i] != '\n' by {
        if i < line.len() {
            assert(line.contains(line[i]));
        }
    }
    lemma_line_cut(ended, rest);
    assert(ended + seq!['\n'] + rest =~= line + seq!['\r', '\n'] + rest);
    assert(ended.drop_last() =~= line);
}

proof fn lemma_line_cut(line: Seq<char>, rest: Seq<char>)
    requires
        !line.contains('\n'),
    ensures
        line_texts(line + seq!['\n'] + rest) == seq![without_cr(line)] + line_texts(rest),
{
    law_split_at(line, rest, '\n');
    lemma_pieces_nonempty(rest, '\n');
    let p = pieces(rest, '\n');
    let q = seq![line] + p;
    assert(q.drop_last() =~= seq![line] + p.drop_last());
    assert(q.last() == p.last());
    assert(line_texts(line + seq!['\n'] + rest) =~= seq![without_cr(line)] + line_texts(rest));
}

/// Replacing changes the characters that are to be replaced and no others,
/// and moves none.
pub proof fn law_replaced(s: Seq<char>, from: char, to: char, i: int)
    requires
        0 <= i < s.len(),
    ensures
        replaced(s, from, to).len() == s.len(),
        s[i] == from ==> replaced(s, from, to)[i] == to,
        s[i] != from ==> replaced(s, from, to)[i] == s[i],
{
}

/// A text holds another exactly where it is made up of something, the other
/// and something more; it begins or ends with it where nothing stands before
/// or behind it.
pub proof fn law_search(hay: Seq<char>, needle: Seq<char>, a: Seq<char>, b: Seq<char>)
    ensures
        holds(a + needle + b, needle),
        begins_with(needle + b, needle),
        finishes_with(a + needle, needle),
        holds(hay, needle) ==> exists|x: Seq<char>, y: Seq<char>| hay == #[trigger] (x + needle + y),
        begins_with(hay, needle) ==> hay == needle + hay.skip(needle.len() as int)
            && needle.len() <= hay.len(),
        finishes_with(hay, needle) ==> needle.len() <= hay.len() && hay == hay.take(
            hay.len() - needle.len(),
        ) + needle,
{
    assert((a + needle + b).subrange(a.len() as int, (a.len() + needle.len()) as int) =~= needle);
    assert(found_at(a + needle + b, needle, a.len() as int));
    assert((needle + b).subrange(0, needle.len() as int) =~= needle);
    assert((a + needle).subrange(a.len() as int, (a.len() + needle.len()) as int) =~= needle);
    if holds(hay, needle) {
        let i = choose|i: int| found_at(hay, needle, i);
        let x = hay.take(i);
        let y = hay.skip(i + needle.len());
        assert(hay =~= x + hay.subrange(i, i + needle.len()) + y);
        assert(hay == x + needle + y);
    }
    if begins_with(hay, needle) {
        assert(hay =~= hay.subrange(0, needle.len() as int) + hay.skip(needle.len() as int));
    }
    if finishes_with(hay, needle) {
        let i = hay.len() - needle.len();
        assert(hay =~= hay.take(i) + hay.subrange(i, i + needle.len()));
    }
}

/// Lower case is thirty-two places on for a capital from A to Z, and changes
/// nothing else.
pub proof fn law_lowered(s: Seq<char>, i: int)
    requires
        0 <= i < s.len(),
    ensures
        lowered(s).len() == s.len(),
        0x41 <= s[i] as u32 <= 0x5a ==> lowered(s)[i] as u32 == s[i] as u32 + 32,
        !(0x41 <= s[i] as u32 <= 0x5a) ==> lowered(s)[i] == s[i],
{
}

/// A number is written with its last digit behind what a tenth of it is
/// written as.
pub proof fn law_decimal(n: nat, d: nat)
    requires
        d < 10,
    ensures
        decimal(d).len() == 1,
        decimal(d)[0] as u32 == 48 + d,
        n > 0 ==> decimal(10 * n + d) == decimal(n) + decimal(d),
{
    if n > 0 {
        assert((10 * n + d) / 10 == n);
        assert((10 * n + d) % 10 == d);
        assert(decimal(10 * n + d) =~= decimal(n) + decimal(d));
    }
}

/// UTF-16 is written character by character: one unit for a character up to
/// U+FFFF, and for any other a high and a low surrogate that hold its bits.
pub proof fn law_utf16(a: Seq<char>, b: Seq<char>, c: char)
    ensures
        utf16(a + b) == utf16(a) + utf16(b),
        (c as u32) < 0x10000 ==> utf16(seq![c]).len() == 1 && utf16(seq![c])[0] == c as u32,
        c as u32 >= 0x10000 ==> {
            let u = utf16(seq![c]);
            &&& u.len() == 2
            &&& 0xd800 <= u[0] < 0xdc00
            &&& 0xdc00 <= u[1] < 0xe000
            &&& 0x10000 + (u[0] - 0xd800) * 0x400 + (u[1] - 0xdc00) == c as u32
        },
    decreases a.len(),
{
    lemma_utf16_one(c);
    if a.len() == 0 {
        assert(a + b =~= b);
        assert(utf16(a) + utf16(b) =~= utf16(b));
    } else {
        law_utf16(a.drop_first(), b, c);
        assert((a + b).drop_first() =~= a.drop_first() + b);
        assert(utf16(a + b) =~= utf16(a) + utf16(b));
    }
}

proof fn lemma_utf16_one(c: char)
    ensures
        utf16(seq![c]) == utf16_units(c),
        c as u32 >= 0x10000 ==> c as u32 <= 0x10ffff,
{
    assert(seq![c].drop_first() =~= Seq::<char>::empty());
    assert(utf16(Seq::<char>::empty()) =~= Seq::<u16>::empty());
    assert(utf16(seq![c]) =~= utf16_units(c));
}

/// Decoding gives back what was encoded and goes on behind it; a surrogate
/// without its partner becomes U+FFFD, alone.
pub proof fn law_utf16_decoded(s: Seq<char>, u: u16, rest: Seq<u16>)
    ensures
        utf16_lossy(utf16(s) + rest) == s + utf16_lossy(rest),
        utf16_lossy(Seq::empty()) == Seq::<char>::empty(),
        0xdc00 <= u < 0xe000 ==> utf16_lossy(seq![u] + rest) == seq!['\u{FFFD}'] + utf16_lossy(rest),
        0xd800 <= u < 0xdc00 && (rest.len() == 0 || !(0xdc00 <= rest[0] < 0xe000)) ==> utf16_lossy(
            seq![u] + rest,
        ) == seq!['\u{FFFD}'] + utf16_lossy(rest),
    decreases s.len(),
{
    assert((seq![u] + rest).skip(1) =~= rest);
    if rest.len() > 0 {
        assert((seq![u] + rest)[1] == rest[0]);
    }
    if s.len() == 0 {
        assert(utf16(s) + rest =~= rest);
        assert(s + utf16_lossy(rest) =~= utf16_lossy(rest));
    } else {
        let tail = s.drop_first();
        law_utf16_decoded(tail, u, rest);
        lemma_utf16_first(s[0], utf16(tail) + rest);
        assert(utf16(s) + rest =~= utf16_units(s[0]) + (utf16(tail) + rest));
        assert(seq![s[0]] + (tail + utf16_lossy(rest)) =~= s + utf16_lossy(rest));
    }
}

/// The texts of strings are theirs one by one.
pub proof fn law_texts(s: Seq<String>, i: int)
    requires
        0 <= i < s.len(),
    ensures
        texts(s).len() == s.len(),
        texts(s)[i] == s[i]@,
        text_of(Some(s[i])) == Some(s[i]@),
        text_of(None) is None,
{
}

/// A text is split at each separator: the pieces of what stands before one,
/// then those of what stands behind it.
pub proof fn law_split_at(front: Seq<char>, rest: Seq<char>, sep: char)
    ensures
        pieces(front + seq![sep] + rest, sep) == pieces(front, sep) + pieces(rest, sep),
        !front.contains(sep) ==> pieces(front, sep) == seq![front],
    decreases rest.len(),
{
    if !front.contains(sep) {
        lemma_one_piece(front, sep);
    }
    lemma_pieces_nonempty(front, sep);
    let s = front + seq![sep] + rest;
    if rest.len() == 0 {
        assert(s.drop_last() =~= front);
        assert(pieces(s, sep) =~= pieces(front, sep) + pieces(rest, sep));
    } else {
        law_split_at(front, rest.drop_last(), sep);
        lemma_pieces_nonempty(rest.drop_last(), sep);
        assert(s.drop_last() =~= front + seq![sep] + rest.drop_last());
        assert(s.last() == rest.last());
        assert(pieces(s, sep) =~= pieces(front, sep) + pieces(rest, sep));
    }
}

} // verus!
