//! IPv4 addresses: the 32-bit number, its four octets, the dotted-decimal
//! text and the parser for it.
//!
//! The text grammar is that of the standard library's `Ipv4Addr` parser:
//! exactly four groups separated by `'.'`, each of one to three ASCII
//! digits, without a leading zero unless the group is `"0"`, and at most
//! 255.

use vstd::prelude::*;
use crate::text::{
    all_digits, chars_of, decimal_text, decimal_value, is_ascii_digit, lemma_decimal_text,
    lemma_decimal_value_push, lemma_split_concat, lemma_split_without_sep, push_char,
    push_decimal, split_chars, split_on, views_of,
};

verus! {

/// An IPv4 address, held as its 32-bit number (first octet most
/// significant).  Addresses compare by that number.
#[derive(Clone, Copy, Debug, PartialEq, Eq, Structural, Hash)]
pub struct Ipv4Addr {
    bits: u32,
}

impl View for Ipv4Addr {
    type V = u32;

    closed spec fn view(&self) -> u32 {
        self.bits
    }
}

/// Two addresses are the same value exactly when their numbers are equal.
pub broadcast proof fn lemma_ipv4_view_eq(a: Ipv4Addr, b: Ipv4Addr)
    ensures
        #![trigger a@, b@]
        (a@ == b@) <==> a == b,
{
}

/// The number of an address given by its four octets.
pub open spec fn octets_value(a: nat, b: nat, c: nat, d: nat) -> nat {
    a * 16777216 + b * 65536 + c * 256 + d
}

/// Octet `i` (0 is the first, most significant) of the number `x`.
pub open spec fn octet(x: u32, i: int) -> nat {
    if i == 0 {
        (x / 16777216) as nat
    } else if i == 1 {
        ((x / 65536) % 256) as nat
    } else if i == 2 {
        ((x / 256) % 256) as nat
    } else {
        (x % 256) as nat
    }
}

/// The octets of a number are below 256 and give the number back.
pub proof fn lemma_octets(x: u32)
    ensures
        octet(x, 0) < 256,
        octet(x, 1) < 256,
        octet(x, 2) < 256,
        octet(x, 3) < 256,
        octets_value(octet(x, 0), octet(x, 1), octet(x, 2), octet(x, 3)) == x,
{
    assert(x / 16777216 < 256);
    assert(x == (x / 256) * 256 + x % 256);
    assert(x / 256 == (x / 65536) * 256 + (x / 256) % 256) by {
        assert(x / 65536 == (x / 256) / 256);
    }
    assert(x / 65536 == (x / 16777216) * 256 + (x / 65536) % 256) by {
        assert(x / 16777216 == (x / 65536) / 256);
    }
}

/// The octets of the number built from four octets are those octets.
pub proof fn lemma_octets_of_value(a: nat, b: nat, c: nat, d: nat)
    requires
        a < 256,
        b < 256,
        c < 256,
        d < 256,
    ensures
        octets_value(a, b, c, d) < 0x1_0000_0000,
        octet(octets_value(a, b, c, d) as u32, 0) == a,
        octet(octets_value(a, b, c, d) as u32, 1) == b,
        octet(octets_value(a, b, c, d) as u32, 2) == c,
        octet(octets_value(a, b, c, d) as u32, 3) == d,
{
    let x = octets_value(a, b, c, d);
    assert(x / 256 == a * 65536 + b * 256 + c);
    assert(x % 256 == d);
    assert((a * 65536 + b * 256 + c) / 256 == a * 256 + b);
    assert((a * 65536 + b * 256 + c) % 256 == c);
    assert(x / 65536 == (x / 256) / 256);
    assert((a * 256 + b) / 256 == a);
    assert((a * 256 + b) % 256 == b);
    assert(x / 16777216 == (x / 65536) / 256);
}

/// The dotted-decimal text of the number `x` (the `Display` of an address).
pub open spec fn ipv4_text(x: u32) -> Seq<char> {
    decimal_text(octet(x, 0)) + seq!['.'] + decimal_text(octet(x, 1)) + seq!['.'] + decimal_text(
        octet(x, 2),
    ) + seq!['.'] + decimal_text(octet(x, 3))
}

/// A group of the dotted-decimal grammar: one to three digits, no leading
/// zero unless the group is a lone zero, value at most 255.
pub open spec fn octet_text_ok(t: Seq<char>) -> bool {
    &&& 1 <= t.len() <= 3
    &&& all_digits(t)
    &&& (t.len() == 1 || t[0] != '0')
    &&& decimal_value(t) <= 255
}

/// The address that a text denotes under the dotted-decimal grammar, if any.
pub open spec fn parse_ipv4(s: Seq<char>) -> Option<u32> {
    let p = split_on(s, '.');
    if p.len() == 4 && octet_text_ok(p[0]) && octet_text_ok(p[1]) && octet_text_ok(p[2])
        && octet_text_ok(p[3]) {
        Some(
            octets_value(
                decimal_value(p[0]),
                decimal_value(p[1]),
                decimal_value(p[2]),
                decimal_value(p[3]),
            ) as u32,
        )
    } else {
        None
    }
}

/// The text of an octet is a valid group denoting that octet.
proof fn lemma_octet_text(n: nat)
    requires
        n < 256,
    ensures
        octet_text_ok(decimal_text(n)),
        decimal_value(decimal_text(n)) == n,
        forall|i: int| 0 <= i < decimal_text(n).len() ==> decimal_text(n)[i] != '.',
{
    lemma_decimal_text(n);
    let t = decimal_text(n);
    assert forall|i: int| 0 <= i < t.len() implies t[i] != '.' by {
        assert(is_ascii_digit(t[i]));
    }
}

/// Parsing the text of an address gives the address back.
pub proof fn lemma_parse_ipv4_text(x: u32)
    ensures
        parse_ipv4(ipv4_text(x)) == Some(x),
{
    lemma_octets(x);
    let t0 = decimal_text(octet(x, 0));
    let t1 = decimal_text(octet(x, 1));
    let t2 = decimal_text(octet(x, 2));
    let t3 = decimal_text(octet(x, 3));
    lemma_octet_text(octet(x, 0));
    lemma_octet_text(octet(x, 1));
    lemma_octet_text(octet(x, 2));
    lemma_octet_text(octet(x, 3));
    lemma_split_without_sep(t0, '.');
    lemma_split_without_sep(t1, '.');
    lemma_split_without_sep(t2, '.');
    lemma_split_without_sep(t3, '.');
    let a = t0 + seq!['.'] + t1;
    let b = a + seq!['.'] + t2;
    lemma_split_concat(t0, t1, '.');
    lemma_split_concat(a, t2, '.');
    lemma_split_concat(b, t3, '.');
    assert(ipv4_text(x) == b + seq!['.'] + t3);
    let p = split_on(ipv4_text(x), '.');
    assert(p =~= seq![t0, t1, t2, t3]);
}

/// The text of an address holds only digits and dots.
pub proof fn lemma_ipv4_text_chars(x: u32)
    ensures
        forall|i: int|
            0 <= i < ipv4_text(x).len() ==> is_ascii_digit(#[trigger] ipv4_text(x)[i])
                || ipv4_text(x)[i] == '.',
{
    lemma_octets(x);
    let t0 = decimal_text(octet(x, 0));
    let t1 = decimal_text(octet(x, 1));
    let t2 = decimal_text(octet(x, 2));
    let t3 = decimal_text(octet(x, 3));
    lemma_decimal_text(octet(x, 0));
    lemma_decimal_text(octet(x, 1));
    lemma_decimal_text(octet(x, 2));
    lemma_decimal_text(octet(x, 3));
    let t = ipv4_text(x);
    assert forall|i: int| 0 <= i < t.len() implies is_ascii_digit(#[trigger] t[i]) || t[i]
        == '.' by {
        let a = t0.len() as int;
        let b = a + 1 + t1.len();
        let c = b + 1 + t2.len();
        if i < a {
            assert(t[i] == t0[i]);
        } else if i == a {
        } else if i < b {
            assert(t[i] == t1[i - a - 1]);
        } else if i == b {
        } else if i < c {
            assert(t[i] == t2[i - b - 1]);
        } else if i == c {
        } else {
            assert(t[i] == t3[i - c - 1]);
        }
    }
}

impl Ipv4Addr {
    /// The address with the four given octets.
    pub fn new(a: u8, b: u8, c: u8, d: u8) -> (r: Ipv4Addr)
        ensures
            r@ == octets_value(a as nat, b as nat, c as nat, d as nat),
    {
        let bits: u32 = (a as u32) * 16777216 + (b as u32) * 65536 + (c as u32) * 256 + (d as u32);
        Ipv4Addr { bits }
    }

    /// The address with the given number.
    pub fn from_bits(bits: u32) -> (r: Ipv4Addr)
        ensures
            r@ == bits,
    {
        Ipv4Addr { bits }
    }

    /// The number of the address.
    pub fn to_bits(&self) -> (r: u32)
        ensures
            r == self@,
    {
        self.bits
    }

    /// The four octets, first (most significant) first.
    pub fn octets(&self) -> (r: [u8; 4])
        ensures
            r@ == seq![
                octet(self@, 0) as u8,
                octet(self@, 1) as u8,
                octet(self@, 2) as u8,
                octet(self@, 3) as u8,
            ],
            r[0] == octet(self@, 0),
            r[1] == octet(self@, 1),
            r[2] == octet(self@, 2),
            r[3] == octet(self@, 3),
    {
        proof {
            lemma_octets(self@);
        }
        let x = self.bits;
        let a = (x / 16777216) as u8;
        let b = ((x / 65536) % 256) as u8;
        let c = ((x / 256) % 256) as u8;
        let d = (x % 256) as u8;
        let r = [a, b, c, d];
        assert(r@ =~= seq![a, b, c, d]);
        r
    }

    /// Appends the dotted-decimal text of the address to `s`.
    pub fn push_text(&self, s: &mut String)
        ensures
            final(s)@ == old(s)@ + ipv4_text(self@),
    {
        let o = self.octets();
        push_decimal(s, o[0] as u64);
        push_char(s, '.');
        push_decimal(s, o[1] as u64);
        push_char(s, '.');
        push_decimal(s, o[2] as u64);
        push_char(s, '.');
        push_decimal(s, o[3] as u64);
        assert(final(s)@ =~= old(s)@ + ipv4_text(self@));
    }

    /// The dotted-decimal text of the address (its `Display`).
    pub fn to_string(&self) -> (r: String)
        ensures
            r@ == ipv4_text(self@),
    {
        let mut s = String::new();
        self.push_text(&mut s);
        assert(s@ =~= ipv4_text(self@));
        s
    }

    /// Parses a dotted-decimal address (the standard library's grammar).
    pub fn parse(s: &str) -> (r: Option<Ipv4Addr>)
        ensures
            match r {
                Some(ip) => parse_ipv4(s@) == Some(ip@),
                None => parse_ipv4(s@) is None,
            },
    {
        let cs = chars_of(s);
        Self::parse_chars(&cs)
    }

    /// Parses a dotted-decimal address given as characters.
    pub fn parse_chars(s: &Vec<char>) -> (r: Option<Ipv4Addr>)
        ensures
            match r {
                Some(ip) => parse_ipv4(s@) == Some(ip@),
                None => parse_ipv4(s@) is None,
            },
    {
        let parts = split_chars(s, '.');
        if parts.len() != 4 {
            return None;
        }
        proof {
            assert(views_of(parts@)[0] == parts@[0]@);
            assert(views_of(parts@)[1] == parts@[1]@);
            assert(views_of(parts@)[2] == parts@[2]@);
            assert(views_of(parts@)[3] == parts@[3]@);
        }
        let a = match parse_octet(&parts[0]) {
            Some(v) => v,
            None => return None,
        };
        let b = match parse_octet(&parts[1]) {
            Some(v) => v,
            None => return None,
        };
        let c = match parse_octet(&parts[2]) {
            Some(v) => v,
            None => return None,
        };
        let d = match parse_octet(&parts[3]) {
            Some(v) => v,
            None => return None,
        };
        Some(Ipv4Addr::new(a, b, c, d))
    }
}

/// Parses one group of the dotted-decimal grammar.
fn parse_octet(t: &Vec<char>) -> (r: Option<u8>)
    ensures
        match r {
            Some(v) => octet_text_ok(t@) && v == decimal_value(t@),
            None => !octet_text_ok(t@),
        },
{
    let n = t.len();
    if n == 0 || n > 3 {
        return None;
    }
    if n > 1 && t[0] == '0' {
        return None;
    }
    let mut v: u32 = 0;
    for i in 0..n
        invariant
            n == t@.len(),
            1 <= n <= 3,
            v == decimal_value(t@.take(i as int)),
            all_digits(t@.take(i as int)),
            i == 0 ==> v == 0,
            i == 1 ==> v < 10,
            i == 2 ==> v < 100,
            v < 1000,
    {
        let c = t[i];
        if !('0' <= c && c <= '9') {
            assert(!is_ascii_digit(t@[i as int]));
            return None;
        }
        proof {
            lemma_decimal_value_push(t@.take(i as int), c);
            assert(t@.take(i + 1) =~= t@.take(i as int).push(c));
        }
        v = v * 10 + (c as u32 - 48);
    }
    assert(t@.take(n as int) =~= t@);
    if v > 255 {
        None
    } else {
        Some(v as u8)
    }
}

} // verus!
