//! Words of a line of text, as `str::split_whitespace` cuts them, and the
//! grammar of decimal numbers that `f32::from_str` accepts, both read on the
//! raw bytes of the line.
//!
//! A line is read as the text that `String::from_utf8_lossy` makes of its
//! bytes. Each ill-formed byte becomes U+FFFD, which is not white space, and
//! decoding restarts at every lead byte, so the white-space characters are
//! found on the bytes themselves: the ASCII ones, and the UTF-8 encodings of
//! U+0085, U+00A0, U+1680, U+2000..=U+200A, U+2028, U+2029, U+202F, U+205F
//! and U+3000.

use vstd::prelude::*;

verus! {

/// Whether `b` is an ASCII white-space byte (tab, line feed, vertical tab,
/// form feed, carriage return, space).
pub open spec fn is_ascii_space(b: u8) -> bool {
    b == 32 || (9 <= b && b <= 13)
}

/// Whether three bytes encode one of the three-byte white-space characters.
pub open spec fn is_wide_space(a: u8, b: u8, c: u8) -> bool {
    ||| a == 0xE1 && b == 0x9A && c == 0x80
    ||| a == 0xE2 && b == 0x80 && ((0x80 <= c && c <= 0x8A) || c == 0xA8 || c == 0xA9 || c == 0xAF)
    ||| a == 0xE2 && b == 0x81 && c == 0x9F
    ||| a == 0xE3 && b == 0x80 && c == 0x80
}

/// The number of bytes of the white-space character that `s` starts with,
/// or 0 when it starts with none.
pub open spec fn space_width(s: Seq<u8>) -> int {
    if s.len() >= 1 && is_ascii_space(s[0]) {
        1
    } else if s.len() >= 2 && s[0] == 0xC2 && (s[1] == 0x85 || s[1] == 0xA0) {
        2
    } else if s.len() >= 3 && is_wide_space(s[0], s[1], s[2]) {
        3
    } else {
        0
    }
}

/// `s` without its leading white space.
pub open spec fn skip_space(s: Seq<u8>) -> Seq<u8>
    decreases s.len(),
{
    if space_width(s) > 0 {
        skip_space(s.skip(space_width(s)))
    } else {
        s
    }
}

/// The number of bytes before the first white space of `s` (or its end).
pub open spec fn word_len(s: Seq<u8>) -> int
    decreases s.len(),
{
    if s.len() == 0 || space_width(s) > 0 {
        0
    } else {
        1 + word_len(s.drop_first())
    }
}

/// The first word of `s` and what follows it; `None` when `s` holds only
/// white space.
pub open spec fn next_word(s: Seq<u8>) -> Option<(Seq<u8>, Seq<u8>)> {
    let t = skip_space(s);
    if t.len() == 0 {
        None
    } else {
        Some((t.take(word_len(t)), t.skip(word_len(t))))
    }
}

pub proof fn lemma_word_len_bounds(s: Seq<u8>)
    ensures
        0 <= word_len(s) <= s.len(),
    decreases s.len(),
{
    if s.len() > 0 && space_width(s) == 0 {
        lemma_word_len_bounds(s.drop_first());
    }
}

/// The byte with ASCII upper-case letters turned into lower case.
pub open spec fn ascii_lower(b: u8) -> int {
    if 65 <= b && b <= 90 {
        b + 32
    } else {
        b as int
    }
}

/// Whether `w` is `vertex`, ignoring ASCII case.
pub open spec fn is_vertex_keyword(w: Seq<u8>) -> bool {
    &&& w.len() == 6
    &&& ascii_lower(w[0]) == 118 && ascii_lower(w[1]) == 101 && ascii_lower(w[2]) == 114
    &&& ascii_lower(w[3]) == 116 && ascii_lower(w[4]) == 101 && ascii_lower(w[5]) == 120
}

pub open spec fn is_digit(b: u8) -> bool {
    48 <= b && b <= 57
}

/// The number of decimal digits that `s` starts with.
pub open spec fn digit_count(s: Seq<u8>) -> int
    decreases s.len(),
{
    if s.len() > 0 && is_digit(s[0]) {
        1 + digit_count(s.drop_first())
    } else {
        0
    }
}

/// `s` without a leading `+` or `-`.
pub open spec fn without_sign(s: Seq<u8>) -> Seq<u8> {
    if s.len() > 0 && (s[0] == 43 || s[0] == 45) {
        s.drop_first()
    } else {
        s
    }
}

/// Whether `s` equals the lower-case ASCII word `w`, ignoring ASCII case.
pub open spec fn equals_ignoring_case(s: Seq<u8>, w: Seq<u8>) -> bool {
    &&& s.len() == w.len()
    &&& forall|k: int| 0 <= k < s.len() ==> ascii_lower(#[trigger] s[k]) == w[k]
}

pub open spec fn inf_word() -> Seq<u8> {
    seq![105u8, 110, 102]
}

pub open spec fn infinity_word() -> Seq<u8> {
    seq![105u8, 110, 102, 105, 110, 105, 116, 121]
}

pub open spec fn nan_word() -> Seq<u8> {
    seq![110u8, 97, 110]
}

/// `e` (either case), an optional sign, and one or more digits.
pub open spec fn is_exponent(s: Seq<u8>) -> bool {
    &&& s.len() > 0
    &&& ascii_lower(s[0]) == 101
    &&& without_sign(s.drop_first()).len() > 0
    &&& digit_count(without_sign(s.drop_first())) == without_sign(s.drop_first()).len()
}

/// Digits with an optional fraction after a `.` (at least one digit in
/// all), then an optional exponent.
pub open spec fn is_number(s: Seq<u8>) -> bool {
    let a = digit_count(s);
    let r = s.skip(a);
    if r.len() > 0 && r[0] == 46 {
        let f = digit_count(r.drop_first());
        let e = r.drop_first().skip(f);
        a + f > 0 && (e.len() == 0 || is_exponent(e))
    } else {
        a > 0 && (r.len() == 0 || is_exponent(r))
    }
}

/// The grammar of `f32::from_str`: an optional sign, then `inf`, `infinity`
/// or `nan` in any case, or a decimal number.
pub open spec fn is_float_text(s: Seq<u8>) -> bool {
    let u = without_sign(s);
    ||| equals_ignoring_case(u, inf_word())
    ||| equals_ignoring_case(u, infinity_word())
    ||| equals_ignoring_case(u, nan_word())
    ||| is_number(u)
}

fn wide_space(a: u8, b: u8, c: u8) -> (r: bool)
    ensures
        r == is_wide_space(a, b, c),
{
    (a == 0xE1 && b == 0x9A && c == 0x80) || (a == 0xE2 && b == 0x80 && ((0x80 <= c && c <= 0x8A)
        || c == 0xA8 || c == 0xA9 || c == 0xAF)) || (a == 0xE2 && b == 0x81 && c == 0x9F) || (a
        == 0xE3 && b == 0x80 && c == 0x80)
}

/// The width of the white-space character at position `i`.
pub fn space_width_at(s: &[u8], i: usize) -> (w: usize)
    requires
        i <= s@.len(),
    ensures
        w as int == space_width(s@.skip(i as int)),
        w as int <= s@.len() - i,
{
    let len = s.len();
    if i < len && (s[i] == 32 || (9 <= s[i] && s[i] <= 13)) {
        1
    } else if len - i >= 2 && s[i] == 0xC2 && (s[i + 1] == 0x85 || s[i + 1] == 0xA0) {
        2
    } else if len - i >= 3 && wide_space(s[i], s[i + 1], s[i + 2]) {
        3
    } else {
        0
    }
}

/// The position of the first byte at or after `i` that is not white space.
pub fn skip_space_from(s: &[u8], i: usize) -> (j: usize)
    requires
        i <= s@.len(),
    ensures
        i <= j <= s@.len(),
        s@.skip(j as int) == skip_space(s@.skip(i as int)),
        space_width(s@.skip(j as int)) == 0,
{
    let len = s.len();
    let mut j = i;
    loop
        invariant
            i <= j <= len,
            len == s@.len(),
            skip_space(s@.skip(j as int)) == skip_space(s@.skip(i as int)),
        decreases s@.len() - j,
    {
        let w = space_width_at(s, j);
        if w == 0 {
            return j;
        }
        assert(s@.skip(j as int).skip(w as int) =~= s@.skip(j + w));
        j = j + w;
    }
}

/// The end of the word that starts at `i`.
pub fn word_end(s: &[u8], i: usize) -> (j: usize)
    requires
        i <= s@.len(),
    ensures
        i <= j <= s@.len(),
        j - i == word_len(s@.skip(i as int)),
{
    let len = s.len();
    let mut j = i;
    while j < len && space_width_at(s, j) == 0
        invariant
            i <= j <= len,
            len == s@.len(),
            word_len(s@.skip(i as int)) == (j - i) + word_len(s@.skip(j as int)),
        decreases len - j,
    {
        assert(s@.skip(j as int).drop_first() =~= s@.skip(j + 1));
        j = j + 1;
    }
    j
}

/// The bounds of the first word at or after `i`, if there is one.
pub fn next_word_at(s: &[u8], i: usize) -> (r: Option<(usize, usize)>)
    requires
        i <= s@.len(),
    ensures
        match r {
            None => next_word(s@.skip(i as int)) is None,
            Some((a, b)) => {
                &&& i <= a < b <= s@.len()
                &&& next_word(s@.skip(i as int)) == Some(
                    (s@.subrange(a as int, b as int), s@.skip(b as int)),
                )
            },
        },
{
    let a = skip_space_from(s, i);
    if a == s.len() {
        return None;
    }
    let b = word_end(s, a);
    let ghost t = s@.skip(a as int);
    proof {
        lemma_word_len_bounds(t.drop_first());
    }
    assert(t.take(word_len(t)) =~= s@.subrange(a as int, b as int));
    assert(t.skip(word_len(t)) =~= s@.skip(b as int));
    Some((a, b))
}

/// Whether the word `s[a..b]` is `vertex`, ignoring ASCII case.
pub fn is_vertex_word(s: &[u8], a: usize, b: usize) -> (r: bool)
    requires
        a <= b <= s@.len(),
    ensures
        r == is_vertex_keyword(s@.subrange(a as int, b as int)),
{
    if b - a != 6 {
        return false;
    }
    lower(s[a]) == 118 && lower(s[a + 1]) == 101 && lower(s[a + 2]) == 114 && lower(s[a + 3])
        == 116 && lower(s[a + 4]) == 101 && lower(s[a + 5]) == 120
}

/// The byte with ASCII upper-case letters turned into lower case.
pub fn lower(b: u8) -> (r: u8)
    ensures
        r as int == ascii_lower(b),
{
    if 65 <= b && b <= 90 {
        b + 32
    } else {
        b
    }
}

/// The end of the run of digits that starts at `i`.
fn digits_end(s: &[u8], i: usize) -> (j: usize)
    requires
        i <= s@.len(),
    ensures
        i <= j <= s@.len(),
        j - i == digit_count(s@.skip(i as int)),
{
    let len = s.len();
    let mut j = i;
    while j < len && 48 <= s[j] && s[j] <= 57
        invariant
            i <= j <= len,
            len == s@.len(),
            digit_count(s@.skip(i as int)) == (j - i) + digit_count(s@.skip(j as int)),
        decreases len - j,
    {
        assert(s@.skip(j as int).drop_first() =~= s@.skip(j + 1));
        j = j + 1;
    }
    j
}

/// Whether `s[i..]` equals the lower-case word `w`, ignoring ASCII case.
fn equals_word_at(s: &[u8], i: usize, w: &[u8]) -> (r: bool)
    requires
        i <= s@.len(),
    ensures
        r == equals_ignoring_case(s@.skip(i as int), w@),
{
    if s.len() - i != w.len() {
        return false;
    }
    let len = s.len();
    let mut k: usize = 0;
    while k < w.len()
        invariant
            i <= len,
            len == s@.len(),
            s@.len() - i == w@.len(),
            k <= w@.len(),
            forall|m: int| 0 <= m < k ==> ascii_lower(#[trigger] s@.skip(i as int)[m]) == w@[m],
        decreases w@.len() - k,
    {
        if lower(s[i + k]) != w[k] {
            assert(s@.skip(i as int)[k as int] == s@[i + k]);
            return false;
        }
        k = k + 1;
    }
    true
}

/// Whether `s[i..]` is an exponent.
fn exponent_at(s: &[u8], i: usize) -> (r: bool)
    requires
        i <= s@.len(),
    ensures
        r == is_exponent(s@.skip(i as int)),
{
    let len = s.len();
    if i == len || lower(s[i]) != 101 {
        return false;
    }
    let ghost e = s@.skip(i as int);
    assert(e.drop_first() =~= s@.skip(i + 1));
    let d = if i + 1 < len && (s[i + 1] == 43 || s[i + 1] == 45) {
        assert(s@.skip(i + 1).drop_first() =~= s@.skip(i + 2));
        i + 2
    } else {
        i + 1
    };
    d < len && digits_end(s, d) == len
}

/// Whether `s[i..]` is a decimal number.
fn number_at(s: &[u8], i: usize) -> (r: bool)
    requires
        i <= s@.len(),
    ensures
        r == is_number(s@.skip(i as int)),
{
    let len = s.len();
    let a_end = digits_end(s, i);
    let ghost u = s@.skip(i as int);
    assert(u.skip(a_end - i) =~= s@.skip(a_end as int));
    if a_end < len && s[a_end] == 46 {
        let f_end = digits_end(s, a_end + 1);
        assert(s@.skip(a_end as int).drop_first() =~= s@.skip(a_end + 1));
        assert(s@.skip(a_end + 1).skip(f_end - a_end - 1) =~= s@.skip(f_end as int));
        (a_end > i || f_end > a_end + 1) && (f_end == len || exponent_at(s, f_end))
    } else {
        a_end > i && (a_end == len || exponent_at(s, a_end))
    }
}

/// Whether `s` follows the grammar of `f32::from_str`.
pub fn float_text(s: &[u8]) -> (r: bool)
    ensures
        r == is_float_text(s@),
{
    let u: usize = if s.len() > 0 && (s[0] == 43 || s[0] == 45) {
        1
    } else {
        0
    };
    assert(s@.skip(u as int) =~= without_sign(s@));
    let inf: [u8; 3] = [105, 110, 102];
    let infinity: [u8; 8] = [105, 110, 102, 105, 110, 105, 116, 121];
    let nan: [u8; 3] = [110, 97, 110];
    assert(inf@ =~= inf_word());
    assert(infinity@ =~= infinity_word());
    assert(nan@ =~= nan_word());
    equals_word_at(s, u, inf.as_slice()) || equals_word_at(s, u, infinity.as_slice())
        || equals_word_at(s, u, nan.as_slice()) || number_at(s, u)
}

} // verus!

verus! {

/// Whether every byte of `w` is a visible ASCII character (`!` to `~`).
pub open spec fn is_visible_ascii(w: Seq<u8>) -> bool {
    forall|k: int| 0 <= k < w.len() ==> 33 <= #[trigger] w[k] <= 126
}

/// A visible ASCII word runs up to the space or the end that follows it.
pub proof fn lemma_word_len_of_visible(w: Seq<u8>, r: Seq<u8>)
    requires
        is_visible_ascii(w),
        r.len() == 0 || r[0] == 32,
    ensures
        word_len(w + r) == w.len(),
    decreases w.len(),
{
    if w.len() == 0 {
        assert(w + r =~= r);
    } else {
        assert((w + r)[0] == w[0]);
        assert((w + r).drop_first() =~= w.drop_first() + r);
        assert(is_visible_ascii(w.drop_first())) by {
            assert forall|k: int| 0 <= k < w.drop_first().len() implies 33 <= #[trigger] w.drop_first()[k]
                <= 126 by {
                assert(w.drop_first()[k] == w[k + 1]);
            }
        }
        lemma_word_len_of_visible(w.drop_first(), r);
    }
}

/// After one space, the next word of a visible ASCII word followed by a
/// space or the end is that word, and what follows it is the rest.
pub proof fn lemma_next_word_after_space(w: Seq<u8>, r: Seq<u8>)
    requires
        w.len() > 0,
        is_visible_ascii(w),
        r.len() == 0 || r[0] == 32,
    ensures
        next_word(seq![32u8] + w + r) == Some((w, r)),
{
    let s = seq![32u8] + w + r;
    assert(space_width(s) == 1);
    assert(s.skip(1) =~= w + r);
    let t = w + r;
    assert(t[0] == w[0]);
    assert(space_width(t) == 0);
    assert(skip_space(t) == t);
    assert(skip_space(s) == t);
    lemma_word_len_of_visible(w, r);
    assert(t.take(w.len() as int) =~= w);
    assert(t.skip(w.len() as int) =~= r);
}

} // verus!
