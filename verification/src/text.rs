//! Character-sequence helpers shared by the parsers and the text builders.
//!
//! Texts are modelled by their view, a `Seq<char>`.  Decimal numbers,
//! splitting at a separator and searching for a character or a pattern are
//! given as spec functions here, with the executable functions that compute
//! them and the lemmas that the parsers need.

use vstd::prelude::*;
use vstd::utf8::{encode_utf8, is_ascii_chars, is_ascii_chars_encode_utf8};

verus! {

broadcast use vstd::string::group_string_axioms;

// ---------------------------------------------------------------------------
// Decimal digits
// ---------------------------------------------------------------------------

/// `c` is one of the ASCII digits `'0'..='9'`.
pub open spec fn is_ascii_digit(c: char) -> bool {
    '0' <= c && c <= '9'
}

/// The value of an ASCII digit.
pub open spec fn digit_value(c: char) -> nat {
    (c as int - '0' as int) as nat
}

/// The ASCII digit for a value below ten.
pub open spec fn digit_char(d: nat) -> char {
    (d + '0' as int) as char
}

/// Every character of `t` is an ASCII digit.
pub open spec fn all_digits(t: Seq<char>) -> bool {
    forall|i: int| 0 <= i < t.len() ==> is_ascii_digit(#[trigger] t[i])
}

/// The number that a run of decimal digits denotes (most significant first).
pub open spec fn decimal_value(t: Seq<char>) -> nat
    decreases t.len(),
{
    if t.len() == 0 {
        0
    } else {
        decimal_value(t.drop_last()) * 10 + digit_value(t.last())
    }
}

/// The shortest decimal text of `n`: no leading zero, `"0"` for zero.
pub open spec fn decimal_text(n: nat) -> Seq<char>
    decreases n,
{
    if n < 10 {
        seq![digit_char(n)]
    } else {
        decimal_text(n / 10).push(digit_char(n % 10))
    }
}

/// The digit character of a value below ten is a digit of that value.
pub proof fn lemma_digit_char(d: nat)
    requires
        d < 10,
    ensures
        is_ascii_digit(digit_char(d)),
        digit_value(digit_char(d)) == d,
{
}

/// What a decimal text of `n` is made of: digits only, at least one, no
/// leading zero, and it denotes `n`.
pub proof fn lemma_decimal_text(n: nat)
    ensures
        all_digits(decimal_text(n)),
        decimal_value(decimal_text(n)) == n,
        decimal_text(n).len() >= 1,
        n > 0 ==> decimal_text(n)[0] != '0',
        n < 10 ==> decimal_text(n).len() == 1,
        n < 100 ==> decimal_text(n).len() <= 2,
        n < 1000 ==> decimal_text(n).len() <= 3,
    decreases n,
{
    if n < 10 {
        lemma_digit_char(n);
        assert(decimal_text(n).drop_last() =~= Seq::<char>::empty());
        assert(decimal_value(Seq::<char>::empty()) == 0);
        assert(decimal_value(decimal_text(n)) == n);
    } else {
        lemma_digit_char(n % 10);
        lemma_decimal_text(n / 10);
        let t = decimal_text(n);
        assert(t.drop_last() =~= decimal_text(n / 10));
        assert(t.last() == digit_char(n % 10));
        assert((n / 10) * 10 + n % 10 == n);
        assert(decimal_value(t) == decimal_value(decimal_text(n / 10)) * 10 + digit_value(
            digit_char(n % 10),
        ));
        assert forall|i: int| 0 <= i < t.len() implies is_ascii_digit(#[trigger] t[i]) by {
            if i < t.len() - 1 {
                assert(t[i] == decimal_text(n / 10)[i]);
            }
        }
        assert(t[0] == decimal_text(n / 10)[0]);
        assert(decimal_value(t) == n);
    }
}

/// A decimal value is at least the value of any of its prefixes, and grows
/// by a factor of ten with each further digit.
pub proof fn lemma_decimal_value_prefix(t: Seq<char>, k: int)
    requires
        0 <= k <= t.len(),
        all_digits(t),
    ensures
        decimal_value(t.take(k)) <= decimal_value(t),
        k < t.len() && decimal_value(t.take(k)) >= 1 ==> decimal_value(t) >= 10 * decimal_value(
            t.take(k),
        ),
    decreases t.len(),
{
    if k < t.len() {
        let d = t.drop_last();
        assert(d.take(k) =~= t.take(k));
        assert(all_digits(d)) by {
            assert forall|i: int| 0 <= i < d.len() implies is_ascii_digit(#[trigger] d[i]) by {
                assert(d[i] == t[i]);
            }
        }
        lemma_decimal_value_prefix(d, k);
        if k < d.len() && decimal_value(t.take(k)) >= 1 {
            assert(decimal_value(d) >= 10 * decimal_value(t.take(k)));
        }
    } else {
        assert(t.take(k) =~= t);
    }
}

/// Decimal value of a digit run extended by one digit.
pub proof fn lemma_decimal_value_push(t: Seq<char>, c: char)
    ensures
        decimal_value(t.push(c)) == decimal_value(t) * 10 + digit_value(c),
{
    assert(t.push(c).drop_last() =~= t);
}

/// The text of `n`, appended to `s` (the `Display` of an unsigned integer).
pub fn push_decimal(s: &mut String, n: u64)
    ensures
        final(s)@ == old(s)@ + decimal_text(n as nat),
    decreases n,
{
    if n >= 10 {
        push_decimal(s, n / 10);
    }
    let d: u64 = n % 10;
    let c: char = ((48u8 + d as u8) as char);
    assert(c == digit_char((n % 10) as nat));
    push_char(s, c);
    assert(final(s)@ =~= old(s)@ + decimal_text(n as nat));
}

/// The value of an unsigned 8-bit number text under the standard library's
/// grammar (`u8::from_str`): an optional `'+'` (not alone), then one or more
/// ASCII digits (leading zeros allowed) denoting at most 255.
pub open spec fn parse_u8_text(t: Seq<char>) -> Option<nat> {
    let d = if t.len() > 1 && t[0] == '+' {
        t.drop_first()
    } else {
        t
    };
    if d.len() >= 1 && all_digits(d) && decimal_value(d) <= 255 {
        Some(decimal_value(d))
    } else {
        None
    }
}

/// Parses an unsigned 8-bit number (the standard library's grammar).
pub fn parse_u8_chars(t: &Vec<char>) -> (r: Option<u8>)
    ensures
        match r {
            Some(v) => parse_u8_text(t@) == Some(v as nat),
            None => parse_u8_text(t@) is None,
        },
{
    let n = t.len();
    let start: usize = if n > 1 && t[0] == '+' {
        1
    } else {
        0
    };
    let ghost d = if t@.len() > 1 && t@[0] == '+' {
        t@.drop_first()
    } else {
        t@
    };
    assert(d =~= t@.skip(start as int));
    if start >= n {
        return None;
    }
    // the value read so far, held at 256 once it is above 255
    let mut v: u32 = 0;
    let mut i: usize = start;
    while i < n
        invariant
            n == t@.len(),
            start <= i <= n,
            d == t@.skip(start as int),
            d == (if t@.len() > 1 && t@[0] == '+' {
                t@.drop_first()
            } else {
                t@
            }),
            all_digits(t@.subrange(start as int, i as int)),
            v == if decimal_value(t@.subrange(start as int, i as int)) < 256 {
                decimal_value(t@.subrange(start as int, i as int))
            } else {
                256
            },
        decreases n - i,
    {
        let c = t[i];
        let ghost before = t@.subrange(start as int, i as int);
        if !('0' <= c && c <= '9') {
            assert(d[i - start] == c);
            assert(!is_ascii_digit(d[i - start]));
            assert(!all_digits(d));
            return None;
        }
        proof {
            lemma_decimal_value_push(before, c);
            assert(t@.subrange(start as int, i + 1) =~= before.push(c));
        }
        let w: u32 = v * 10 + (c as u32 - 48);
        v = if w < 256 {
            w
        } else {
            256
        };
        i = i + 1;
    }
    assert(t@.subrange(start as int, n as int) =~= d);
    if v > 255 {
        None
    } else {
        Some(v as u8)
    }
}

// ---------------------------------------------------------------------------
// Building strings
// ---------------------------------------------------------------------------

// ---------------------------------------------------------------------------
// Byte positions in UTF-8 text
// ---------------------------------------------------------------------------

/// The length in bytes of the UTF-8 encoding of `s` (what `str::len` and
/// `String::len` return).
pub open spec fn byte_len(s: Seq<char>) -> nat {
    encode_utf8(s).len()
}

/// The character index at which byte position `b` of the UTF-8 encoding of
/// `s` lies, when `b` is a character boundary (`s.len()` for the end).
pub open spec fn char_at_byte(s: Seq<char>, b: int) -> Option<int>
    decreases s.len(),
{
    if b == 0 {
        Some(0)
    } else if b < 0 || s.len() == 0 {
        None
    } else {
        match char_at_byte(s.drop_first(), b - byte_len(seq![s[0]])) {
            Some(k) => Some(k + 1),
            None => None,
        }
    }
}

/// A character takes at least one byte; an ASCII character exactly one.
pub proof fn lemma_char_width(c: char)
    ensures
        byte_len(seq![c]) >= 1,
        '\0' <= c <= '\u{7f}' ==> byte_len(seq![c]) == 1,
{
    assert(seq![c].drop_first() =~= Seq::<char>::empty());
    if '\0' <= c <= '\u{7f}' {
        assert(is_ascii_chars(seq![c]));
        is_ascii_chars_encode_utf8(seq![c]);
    }
}

/// The byte length of a concatenation is the sum of the byte lengths.
pub proof fn lemma_byte_len_concat(a: Seq<char>, b: Seq<char>)
    ensures
        byte_len(a + b) == byte_len(a) + byte_len(b),
    decreases a.len(),
{
    if a.len() == 0 {
        assert(a + b =~= b);
    } else {
        lemma_byte_len_concat(a.drop_first(), b);
        assert((a + b).drop_first() =~= a.drop_first() + b);
        assert((a + b)[0] == a[0]);
    }
}

/// The byte length of the first character and the rest.
proof fn lemma_byte_len_first(s: Seq<char>)
    requires
        s.len() > 0,
    ensures
        byte_len(s) == byte_len(seq![s[0]]) + byte_len(s.drop_first()),
{
    lemma_byte_len_concat(seq![s[0]], s.drop_first());
    assert(seq![s[0]] + s.drop_first() =~= s);
}

/// The byte position where character `k` starts lies at character `k`.
pub proof fn lemma_char_at_byte_of_prefix(s: Seq<char>, k: int)
    requires
        0 <= k <= s.len(),
    ensures
        char_at_byte(s, byte_len(s.take(k)) as int) == Some(k),
    decreases k,
{
    if k == 0 {
        assert(s.take(0) =~= Seq::<char>::empty());
    } else {
        let t = s.drop_first();
        lemma_char_at_byte_of_prefix(t, k - 1);
        lemma_byte_len_first(s.take(k));
        assert(s.take(k).drop_first() =~= t.take(k - 1));
        assert(s.take(k)[0] == s[0]);
        lemma_char_width(s[0]);
    }
}

/// A character boundary is where some character starts, or the end.
pub proof fn lemma_char_at_byte_is_prefix(s: Seq<char>, b: int)
    requires
        char_at_byte(s, b) is Some,
    ensures
        0 <= char_at_byte(s, b)->0 <= s.len(),
        byte_len(s.take(char_at_byte(s, b)->0)) == b,
    decreases s.len(),
{
    if b == 0 {
        assert(s.take(0) =~= Seq::<char>::empty());
    } else {
        let t = s.drop_first();
        let w = byte_len(seq![s[0]]);
        lemma_char_at_byte_is_prefix(t, b - w);
        let k = char_at_byte(t, b - w)->0;
        lemma_byte_len_first(s.take(k + 1));
        assert(s.take(k + 1).drop_first() =~= t.take(k));
        assert(s.take(k + 1)[0] == s[0]);
    }
}

/// Byte length of a `String`: the length of its UTF-8 bytes.
pub(crate) fn string_byte_len(s: &String) -> (r: usize)
    ensures
        r as nat == byte_len(s@),
{
    let bytes = s.as_str().as_bytes();
    bytes.len()
}

/// Inserts a character at a byte position (`String::insert`), which must
/// be a character boundary (the call panics otherwise).
#[verifier::external_body]
pub(crate) fn string_insert(s: &mut String, idx: usize, c: char)
    requires
        char_at_byte(old(s)@, idx as int) is Some,
    ensures
        final(s)@ == old(s)@.insert(char_at_byte(old(s)@, idx as int)->0, c),
{
    s.insert(idx, c);
}

/// Removes the character that starts at a byte position (`String::remove`);
/// the position must be a character boundary before the end (the call
/// panics otherwise).
#[verifier::external_body]
pub(crate) fn string_remove(s: &mut String, idx: usize) -> (r: char)
    requires
        char_at_byte(old(s)@, idx as int) matches Some(k) && k < old(s)@.len(),
    ensures
        final(s)@ == old(s)@.remove(char_at_byte(old(s)@, idx as int)->0),
        r == old(s)@[char_at_byte(old(s)@, idx as int)->0],
{
    s.remove(idx)
}

/// Removes the last character, if any (`String::pop`).
#[verifier::external_body]
pub(crate) fn string_pop(s: &mut String) -> (r: Option<char>)
    ensures
        final(s)@ == (if old(s)@.len() > 0 {
            old(s)@.drop_last()
        } else {
            old(s)@
        }),
        r == (if old(s)@.len() > 0 {
            Some(old(s)@.last())
        } else {
            None::<char>
        }),
{
    s.pop()
}

/// Appends one character to a `String` (`String::push`).
#[verifier::external_body]
pub(crate) fn push_char(s: &mut String, c: char)
    ensures
        final(s)@ == old(s)@.push(c),
{
    s.push(c);
}

/// Appends a string slice to a `String`.
pub fn push_str(s: &mut String, t: &str)
    ensures
        final(s)@ == old(s)@ + t@,
{
    s.append(t);
}

/// Appends characters to a `String`.
pub fn push_chars(s: &mut String, t: &Vec<char>)
    ensures
        final(s)@ == old(s)@ + t@,
{
    let ghost s0 = s@;
    for i in 0..t.len()
        invariant
            s@ == s0 + t@.take(i as int),
    {
        push_char(s, t[i]);
        assert(t@.take(i + 1) =~= t@.take(i as int).push(t@[i as int]));
    }
    assert(t@.take(t@.len() as int) =~= t@);
}

/// A `String` holding the given characters.
pub fn string_of(t: &Vec<char>) -> (r: String)
    ensures
        r@ == t@,
{
    let mut r = String::new();
    push_chars(&mut r, t);
    assert(r@ =~= t@);
    r
}

/// A `String` holding the text of a string literal or slice.
pub fn string_from(t: &str) -> (r: String)
    ensures
        r@ == t@,
{
    let mut r = String::new();
    push_str(&mut r, t);
    assert(r@ =~= t@);
    r
}

/// The characters of a string slice, in order.
pub fn chars_of(s: &str) -> (r: Vec<char>)
    ensures
        r@ == s@,
{
    let mut r: Vec<char> = Vec::new();
    for c in it: s.chars()
        invariant
            r@ == it.seq().take(it.index() as int),
            it.seq() == s@,
    {
        r.push(c);
    }
    r
}

/// The characters of `s` from index `a` up to (not including) `b`.
pub fn sub_chars(s: &Vec<char>, a: usize, b: usize) -> (r: Vec<char>)
    requires
        a <= b <= s@.len(),
    ensures
        r@ == s@.subrange(a as int, b as int),
{
    let mut r: Vec<char> = Vec::new();
    for i in a..b
        invariant
            b <= s@.len(),
            r@ == s@.subrange(a as int, i as int),
    {
        r.push(s[i]);
        assert(s@.subrange(a as int, i + 1) =~= s@.subrange(a as int, i as int).push(s@[i as int]));
    }
    r
}

// ---------------------------------------------------------------------------
// Lines of a text
// ---------------------------------------------------------------------------

/// A piece without its trailing carriage return, if it has one.
pub open spec fn strip_cr(t: Seq<char>) -> Seq<char> {
    if t.len() > 0 && t.last() == '\r' {
        t.drop_last()
    } else {
        t
    }
}

/// The lines of a text as `str::lines` gives them: split at `'\n'`, a
/// `'\r'` before a `'\n'` dropped, no line after a final `'\n'` (and none
/// for the empty text).
pub open spec fn text_lines(s: Seq<char>) -> Seq<Seq<char>> {
    let p = split_on(s, '\n');
    let body = Seq::new((p.len() - 1) as nat, |i: int| strip_cr(p[i]));
    if p.last().len() == 0 {
        body
    } else {
        body.push(p.last())
    }
}

/// A piece without its trailing carriage return.
fn strip_cr_chars(t: Vec<char>) -> (r: Vec<char>)
    ensures
        r@ == strip_cr(t@),
{
    let mut t = t;
    let n = t.len();
    if n > 0 && t[n - 1] == '\r' {
        t.pop();
    }
    t
}

/// The lines of a text (see `text_lines`).
pub fn lines_of(s: &Vec<char>) -> (r: Vec<Vec<char>>)
    ensures
        views_of(r@) == text_lines(s@),
{
    let mut parts = split_chars(s, '\n');
    proof {
        lemma_split_nonempty(s@, '\n');
    }
    let ghost p = views_of(parts@);
    let n = parts.len();
    let last = parts.pop().unwrap();
    assert(last@ == p.last());
    let mut lines: Vec<Vec<char>> = Vec::new();
    let mut rest = parts;
    assert(rest@.skip(0) =~= rest@);
    let mut i: usize = 0;
    while rest.len() > 0
        invariant
            n == p.len(),
            i + rest@.len() == n - 1,
            views_of(rest@) == p.subrange(i as int, n - 1),
            views_of(lines@) == Seq::new(i as nat, |k: int| strip_cr(p[k])),
            lines@.len() == i,
        decreases rest@.len(),
    {
        let ghost before = rest@;
        let ghost lines_before = lines@;
        let piece = rest.remove(0);
        proof {
            assert(piece@ == views_of(before)[0]);
            assert(views_of(before)[0] == p[i as int]);
        }
        let stripped = strip_cr_chars(piece);
        lines.push(stripped);
        proof {
            assert forall|k: int| 0 <= k < rest@.len() implies views_of(rest@)[k] == p.subrange(
                i + 1,
                n - 1,
            )[k] by {
                assert(rest@[k] == before[k + 1]);
                assert(views_of(before)[k + 1] == p.subrange(i as int, n - 1)[k + 1]);
            }
            assert(views_of(rest@) =~= p.subrange(i + 1, n - 1));
            assert forall|k: int| 0 <= k < i + 1 implies views_of(lines@)[k] == strip_cr(p[k]) by {
                if k < i {
                    assert(lines@[k] == lines_before[k]);
                    assert(views_of(lines_before)[k] == strip_cr(p[k]));
                } else {
                    assert(lines@[k] == stripped);
                }
            }
            assert(views_of(lines@) =~= Seq::new((i + 1) as nat, |k: int| strip_cr(p[k])));
        }
        i = i + 1;
    }
    if last.len() > 0 {
        lines.push(last);
    }
    assert(views_of(lines@) =~= text_lines(s@));
    lines
}

// ---------------------------------------------------------------------------
// Comparing and searching
// ---------------------------------------------------------------------------

/// Whether two character vectors hold the same text.
pub fn chars_equal(a: &Vec<char>, b: &Vec<char>) -> (r: bool)
    ensures
        r == (a@ == b@),
{
    if a.len() != b.len() {
        return false;
    }
    for i in 0..a.len()
        invariant
            a@.len() == b@.len(),
            forall|j: int| 0 <= j < i ==> a@[j] == b@[j],
    {
        if a[i] != b[i] {
            return false;
        }
    }
    assert(a@ =~= b@);
    true
}

/// Whether the text of `a` equals that of the string slice `b`.
pub fn chars_equal_str(a: &Vec<char>, b: &str) -> (r: bool)
    ensures
        r == (a@ == b@),
{
    let bc = chars_of(b);
    chars_equal(a, &bc)
}

/// The index of the first occurrence of `c` in `s`, if any.
pub open spec fn first_index(s: Seq<char>, c: char) -> Option<int>
    decreases s.len(),
{
    if s.len() == 0 {
        None
    } else if s[0] == c {
        Some(0)
    } else {
        match first_index(s.drop_first(), c) {
            Some(i) => Some(i + 1),
            None => None,
        }
    }
}

/// `first_index` finds the leftmost occurrence, and only misses when there
/// is none.
pub proof fn lemma_first_index(s: Seq<char>, c: char)
    ensures
        match first_index(s, c) {
            Some(i) => 0 <= i < s.len() && s[i] == c && forall|j: int|
                0 <= j < i ==> s[j] != c,
            None => forall|j: int| 0 <= j < s.len() ==> s[j] != c,
        },
    decreases s.len(),
{
    if s.len() > 0 && s[0] != c {
        let t = s.drop_first();
        lemma_first_index(t, c);
        match first_index(t, c) {
            Some(i) => {
                assert forall|j: int| 0 <= j < i + 1 implies s[j] != c by {
                    if j > 0 {
                        assert(s[j] == t[j - 1]);
                    }
                }
            },
            None => {
                assert forall|j: int| 0 <= j < s.len() implies s[j] != c by {
                    if j > 0 {
                        assert(s[j] == t[j - 1]);
                    }
                }
            },
        }
    }
}

/// The leftmost occurrence is the only index with those properties.
pub proof fn lemma_first_index_at(s: Seq<char>, c: char, i: int)
    requires
        0 <= i < s.len(),
        s[i] == c,
        forall|j: int| 0 <= j < i ==> s[j] != c,
    ensures
        first_index(s, c) == Some(i),
{
    lemma_first_index(s, c);
}

/// Finds the first occurrence of `c` in `s`.
pub fn find_char(s: &Vec<char>, c: char) -> (r: Option<usize>)
    ensures
        match r {
            Some(i) => first_index(s@, c) == Some(i as int),
            None => first_index(s@, c) is None,
        },
{
    proof {
        lemma_first_index(s@, c);
    }
    for i in 0..s.len()
        invariant
            forall|j: int| 0 <= j < i ==> s@[j] != c,
    {
        if s[i] == c {
            proof {
                lemma_first_index_at(s@, c, i as int);
            }
            return Some(i);
        }
    }
    None
}

/// The index of the first occurrence of the pattern `p` in `s`, if any.
pub open spec fn first_match(s: Seq<char>, p: Seq<char>) -> Option<int>
    decreases s.len(),
{
    if s.len() < p.len() {
        None
    } else if s.take(p.len() as int) == p {
        Some(0)
    } else if s.len() == 0 {
        None
    } else {
        match first_match(s.drop_first(), p) {
            Some(i) => Some(i + 1),
            None => None,
        }
    }
}

/// `p` occurs in `s` at index `i`.
pub open spec fn matches_at(s: Seq<char>, p: Seq<char>, i: int) -> bool {
    0 <= i && i + p.len() <= s.len() && s.subrange(i, i + p.len()) == p
}

/// `first_match` finds the leftmost occurrence, and only misses when there
/// is none.
pub proof fn lemma_first_match(s: Seq<char>, p: Seq<char>)
    ensures
        match first_match(s, p) {
            Some(i) => matches_at(s, p, i) && forall|j: int| 0 <= j < i ==> !matches_at(s, p, j),
            None => forall|j: int| !matches_at(s, p, j),
        },
    decreases s.len(),
{
    if s.len() < p.len() {
    } else if s.take(p.len() as int) == p {
        assert(s.subrange(0, p.len() as int) =~= s.take(p.len() as int));
    } else if s.len() == 0 {
        assert(p.len() == 0);
        assert(s.take(0) =~= p);
    } else {
        let t = s.drop_first();
        lemma_first_match(t, p);
        assert(!matches_at(s, p, 0)) by {
            assert(s.subrange(0, p.len() as int) =~= s.take(p.len() as int));
        }
        assert forall|j: int| j >= 1 implies matches_at(s, p, j) == matches_at(t, p, j - 1) by {
            if j + p.len() <= s.len() {
                assert(s.subrange(j, j + p.len()) =~= t.subrange(j - 1, j - 1 + p.len()));
            }
        }
    }
}

/// The leftmost match is the only index with those properties.
pub proof fn lemma_first_match_at(s: Seq<char>, p: Seq<char>, i: int)
    requires
        matches_at(s, p, i),
        forall|j: int| 0 <= j < i ==> !matches_at(s, p, j),
    ensures
        first_match(s, p) == Some(i),
{
    lemma_first_match(s, p);
    match first_match(s, p) {
        Some(k) => {
            if k < i {
            } else if k > i {
            }
        },
        None => {
            assert(!matches_at(s, p, i));
        },
    }
}

/// Whether `p` occurs in `s` at index `i`.
fn matches_at_exec(s: &Vec<char>, p: &Vec<char>, i: usize) -> (r: bool)
    requires
        i <= s@.len(),
    ensures
        r == matches_at(s@, p@, i as int),
{
    if p.len() > s.len() - i {
        return false;
    }
    let n = s.len();
    for k in 0..p.len()
        invariant
            n == s@.len(),
            i + p@.len() <= s@.len(),
            i <= s@.len(),
            forall|j: int| 0 <= j < k ==> s@[i + j] == p@[j],
    {
        assert(i + k < s@.len());
        if s[i + k] != p[k] {
            assert(s@.subrange(i as int, i + p@.len())[k as int] != p@[k as int]);
            return false;
        }
    }
    assert(s@.subrange(i as int, i + p@.len()) =~= p@);
    true
}

/// Finds the first occurrence of the pattern `p` in `s`.
pub fn find_pattern(s: &Vec<char>, p: &Vec<char>) -> (r: Option<usize>)
    ensures
        match r {
            Some(i) => first_match(s@, p@) == Some(i as int),
            None => first_match(s@, p@) is None,
        },
{
    proof {
        lemma_first_match(s@, p@);
    }
    for i in 0..s.len()
        invariant
            forall|j: int| 0 <= j < i ==> !matches_at(s@, p@, j),
    {
        if matches_at_exec(s, p, i) {
            proof {
                lemma_first_match_at(s@, p@, i as int);
            }
            return Some(i);
        }
    }
    let n = s.len();
    if matches_at_exec(s, p, n) {
        proof {
            lemma_first_match_at(s@, p@, n as int);
        }
        return Some(n);
    }
    assert forall|j: int| !matches_at(s@, p@, j) by {
        if 0 <= j <= n {
        }
    }
    None
}

// ---------------------------------------------------------------------------
// Splitting at a separator
// ---------------------------------------------------------------------------

/// The pieces of `s` between occurrences of `sep` (as `str::split` gives
/// them): always at least one piece, empty pieces kept.
pub open spec fn split_on(s: Seq<char>, sep: char) -> Seq<Seq<char>>
    decreases s.len(),
{
    if s.len() == 0 {
        seq![Seq::<char>::empty()]
    } else {
        let p = split_on(s.drop_last(), sep);
        if s.last() == sep {
            p.push(Seq::<char>::empty())
        } else {
            p.update(p.len() - 1, p.last().push(s.last()))
        }
    }
}

/// There is always at least one piece.
pub proof fn lemma_split_nonempty(s: Seq<char>, sep: char)
    ensures
        split_on(s, sep).len() >= 1,
    decreases s.len(),
{
    if s.len() > 0 {
        lemma_split_nonempty(s.drop_last(), sep);
    }
}

/// A text without the separator is a single piece.
pub proof fn lemma_split_without_sep(s: Seq<char>, sep: char)
    requires
        forall|i: int| 0 <= i < s.len() ==> s[i] != sep,
    ensures
        split_on(s, sep) == seq![s],
    decreases s.len(),
{
    if s.len() > 0 {
        let d = s.drop_last();
        assert forall|i: int| 0 <= i < d.len() implies d[i] != sep by {
            assert(d[i] == s[i]);
        }
        lemma_split_without_sep(d, sep);
        assert(d.push(s.last()) =~= s);
        assert(s.last() != sep) by {
            assert(s.last() == s[s.len() - 1]);
        }
        let p = split_on(d, sep);
        assert(p == seq![d]);
        assert(split_on(s, sep) == p.update(p.len() - 1, p.last().push(s.last())));
        assert(split_on(s, sep) =~= seq![s]);
    } else {
        assert(s =~= Seq::<char>::empty());
    }
}

/// Splitting around one separator splits both sides.
pub proof fn lemma_split_concat(x: Seq<char>, y: Seq<char>, sep: char)
    ensures
        split_on(x + seq![sep] + y, sep) == split_on(x, sep) + split_on(y, sep),
    decreases y.len(),
{
    let s = x + seq![sep] + y;
    lemma_split_nonempty(y, sep);
    if y.len() == 0 {
        assert(s.drop_last() =~= x);
        assert(split_on(s, sep) =~= split_on(x, sep) + split_on(y, sep));
    } else {
        let y0 = y.drop_last();
        lemma_split_concat(x, y0, sep);
        lemma_split_nonempty(y0, sep);
        assert(s.drop_last() =~= x + seq![sep] + y0);
        assert(s.last() == y.last());
        assert(split_on(s, sep) =~= split_on(x, sep) + split_on(y, sep));
    }
}

/// The texts held by a sequence of character vectors.
pub open spec fn views_of(parts: Seq<Vec<char>>) -> Seq<Seq<char>> {
    parts.map_values(|v: Vec<char>| v@)
}

/// Splits a character vector at every occurrence of `sep`.
pub fn split_chars(s: &Vec<char>, sep: char) -> (r: Vec<Vec<char>>)
    ensures
        views_of(r@) == split_on(s@, sep),
{
    let mut parts: Vec<Vec<char>> = Vec::new();
    let mut cur: Vec<char> = Vec::new();
    for i in 0..s.len()
        invariant
            views_of(parts@).push(cur@) == split_on(s@.take(i as int), sep),
    {
        let c = s[i];
        let ghost before = views_of(parts@).push(cur@);
        assert(s@.take(i + 1).drop_last() =~= s@.take(i as int));
        if c == sep {
            parts.push(cur);
            cur = Vec::new();
            assert(views_of(parts@).push(cur@) =~= before.push(Seq::<char>::empty()));
        } else {
            cur.push(c);
            assert(views_of(parts@).push(cur@) =~= before.update(
                before.len() - 1,
                before.last().push(c),
            ));
        }
    }
    assert(s@.take(s@.len() as int) =~= s@);
    parts.push(cur);
    parts
}

} // verus!
