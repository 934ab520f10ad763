//! Reading the output of `arp -a`: one line per neighbour, with the address
//! in parentheses and the MAC address after `" at "`, as printed on macOS
//! (`? (192.168.1.1) at aa:bb:cc:dd:ee:ff on en0 ifscope [ethernet]`) and on
//! Linux (`? (192.168.1.1) at aa:bb:cc:dd:ee:ff [ether] on eth0`).

use vstd::prelude::*;
use std::collections::HashMap;
use vstd::utf8::{decode_utf8, valid_utf8, is_ascii_chars};
use crate::ipv4::{Ipv4Addr, parse_ipv4};
use crate::text::{
    chars_equal_str, chars_of, find_char, find_pattern, first_index, first_match, lemma_first_index,
    lines_of, push_char, string_of, sub_chars, text_lines, views_of,
};

verus! {

broadcast use vstd::std_specs::hash::group_hash_axioms;

// ---------------------------------------------------------------------------
// Case mapping and decoding, by the standard library
// ---------------------------------------------------------------------------

/// The Unicode lowercase of a text (what `str::to_lowercase` returns).
pub uninterp spec fn unicode_lowercase(s: Seq<char>) -> Seq<char>;

/// The Unicode uppercase of a text (what `str::to_uppercase` returns).
pub uninterp spec fn unicode_uppercase(s: Seq<char>) -> Seq<char>;

/// The text of a byte string with every invalid UTF-8 sequence replaced by
/// U+FFFD (what `String::from_utf8_lossy` returns).
pub uninterp spec fn utf8_lossy(bytes: Seq<u8>) -> Seq<char>;

/// ASCII letters `'A'..='Z'` mapped to `'a'..='z'`, other characters kept.
pub open spec fn ascii_lowercase(s: Seq<char>) -> Seq<char> {
    s.map_values(|c: char| if 'A' <= c <= 'Z' { (c as u32 + 32) as char } else { c })
}

/// ASCII letters `'a'..='z'` mapped to `'A'..='Z'`, other characters kept.
pub open spec fn ascii_uppercase(s: Seq<char>) -> Seq<char> {
    s.map_values(|c: char| if 'a' <= c <= 'z' { (c as u32 - 32) as char } else { c })
}

/// `str::to_lowercase`.  Its result is named `unicode_lowercase`; for ASCII
/// text the Unicode mapping is the ASCII one, letter by letter.  Nothing
/// more is stated of non-ASCII text (the Unicode tables decide it).
#[verifier::external_body]
fn to_lowercase(s: &str) -> (r: String)
    ensures
        r@ == unicode_lowercase(s@),
        is_ascii_chars(s@) ==> r@ == ascii_lowercase(s@),
{
    s.to_lowercase()
}

/// `str::to_uppercase`.  Its result is named `unicode_uppercase`; for ASCII
/// text the Unicode mapping is the ASCII one, letter by letter.  Nothing
/// more is stated of non-ASCII text (the Unicode tables decide it).
#[verifier::external_body]
fn to_uppercase(s: &str) -> (r: String)
    ensures
        r@ == unicode_uppercase(s@),
        is_ascii_chars(s@) ==> r@ == ascii_uppercase(s@),
{
    s.to_uppercase()
}

/// `String::from_utf8_lossy`, made an owned `String`.  Its result is named
/// `utf8_lossy`; valid UTF-8 is decoded as it is.  How invalid sequences
/// are replaced is not stated.
#[verifier::external_body]
fn decode_lossy(bytes: &[u8]) -> (r: String)
    ensures
        r@ == utf8_lossy(bytes@),
        valid_utf8(bytes@) ==> r@ == decode_utf8(bytes@),
{
    String::from_utf8_lossy(bytes).into_owned()
}

// ---------------------------------------------------------------------------
// One line
// ---------------------------------------------------------------------------

/// The parser can take the line apart: when it holds both parentheses, the
/// first `'('` comes before the first `')'`.  (The address slice between
/// them would otherwise run backwards, which panics.)
pub open spec fn arp_line_well_formed(s: Seq<char>) -> bool {
    match (first_index(s, '('), first_index(s, ')')) {
        (Some(l), Some(r)) => l < r,
        _ => true,
    }
}

/// The MAC field of a line whose `" at "` starts at `at`: the text after it
/// up to the next space (or the end).
pub open spec fn mac_field(s: Seq<char>, at: int) -> Seq<char> {
    let after = s.skip(at + 4);
    match first_index(after, ' ') {
        Some(e) => after.take(e),
        None => after,
    }
}

/// A MAC field that marks an unresolved entry, given the field and its
/// lowercase.
pub open spec fn is_incomplete(mac: Seq<char>, lower: Seq<char>) -> bool {
    mac == "(incomplete)"@ || mac == "<incomplete>"@ || lower == "incomplete"@
}

/// Every `'-'` made a `':'`.
pub open spec fn dashes_to_colons(s: Seq<char>) -> Seq<char> {
    s.map_values(|c: char| if c == '-' { ':' } else { c })
}

/// What a line of `arp -a` gives: the address in the first parentheses and
/// the MAC address after `" at "`, with `'-'` made `':'`, in uppercase;
/// nothing when a part is missing, the address does not parse or the entry
/// is incomplete.
pub open spec fn parse_arp_line_spec(s: Seq<char>) -> Option<(u32, Seq<char>)> {
    match (first_index(s, '('), first_index(s, ')')) {
        (Some(l), Some(r)) => match parse_ipv4(s.subrange(l + 1, r)) {
            Some(ip) => match first_match(s, " at "@) {
                Some(at) => {
                    let mac = mac_field(s, at);
                    if is_incomplete(mac, unicode_lowercase(mac)) {
                        None
                    } else {
                        Some((ip, unicode_uppercase(dashes_to_colons(mac))))
                    }
                },
                None => None,
            },
            None => None,
        },
        _ => None,
    }
}

/// What an ASCII line of `arp -a` gives: as `parse_arp_line_spec`, with
/// the case mappings the ASCII ones, letter by letter.
pub open spec fn parse_arp_line_ascii_spec(s: Seq<char>) -> Option<(u32, Seq<char>)> {
    match (first_index(s, '('), first_index(s, ')')) {
        (Some(l), Some(r)) => match parse_ipv4(s.subrange(l + 1, r)) {
            Some(ip) => match first_match(s, " at "@) {
                Some(at) => {
                    let mac = mac_field(s, at);
                    if is_incomplete(mac, ascii_lowercase(mac)) {
                        None
                    } else {
                        Some((ip, ascii_uppercase(dashes_to_colons(mac))))
                    }
                },
                None => None,
            },
            None => None,
        },
        _ => None,
    }
}

/// Whether a MAC field marks an unresolved entry (`"(incomplete)"`,
/// `"<incomplete>"`, or `"incomplete"` in any case), given the field and
/// its lowercase.
pub fn is_incomplete_mac(mac: &Vec<char>, lower: &str) -> (r: bool)
    ensures
        r == is_incomplete(mac@, lower@),
{
    let lc = chars_of(lower);
    chars_equal_str(mac, "(incomplete)") || chars_equal_str(mac, "<incomplete>")
        || chars_equal_str(&lc, "incomplete")
}

/// Every `'-'` of the characters made a `':'`.
fn dashes_to_colons_chars(s: &Vec<char>) -> (r: Vec<char>)
    ensures
        r@ == dashes_to_colons(s@),
{
    let mut r: Vec<char> = Vec::new();
    for i in 0..s.len()
        invariant
            r@ == dashes_to_colons(s@.take(i as int)),
    {
        let c = s[i];
        r.push(if c == '-' {
            ':'
        } else {
            c
        });
        assert(dashes_to_colons(s@.take(i + 1)) =~= dashes_to_colons(s@.take(i as int)).push(
            if c == '-' {
                ':'
            } else {
                c
            },
        ));
    }
    assert(s@.take(s@.len() as int) =~= s@);
    r
}

/// Whether a line of `arp -a` can be taken apart (see
/// `arp_line_well_formed`).
pub fn arp_line_is_well_formed(s: &Vec<char>) -> (r: bool)
    ensures
        r == arp_line_well_formed(s@),
{
    match (find_char(s, '('), find_char(s, ')')) {
        (Some(l), Some(r)) => l < r,
        _ => true,
    }
}

/// A MAC text in normal form: no `'-'` and no lowercase ASCII letter.
pub open spec fn mac_normalized(m: Seq<char>) -> bool {
    forall|i: int| 0 <= i < m.len() ==> #[trigger] m[i] != '-' && !('a' <= m[i] <= 'z')
}

/// Parses a line of characters of `arp -a` (see `parse_arp_line_spec`).
/// The MAC address of an ASCII line comes out in normal form.
pub fn parse_arp_chars(s: &Vec<char>) -> (r: Option<(Ipv4Addr, String)>)
    requires
        arp_line_well_formed(s@),
    ensures
        match parse_arp_line_spec(s@) {
            Some((ip, mac)) => r matches Some((a, m)) && a@ == ip && m@ == mac,
            None => r is None,
        },
        is_ascii_chars(s@) ==> (r matches Some((_, m)) ==> mac_normalized(m@)),
        is_ascii_chars(s@) ==> parse_arp_line_spec(s@) == parse_arp_line_ascii_spec(s@),
{
    proof {
        lemma_first_index(s@, '(');
        lemma_first_index(s@, ')');
    }
    let l = match find_char(s, '(') {
        Some(i) => i,
        None => return None,
    };
    let r = match find_char(s, ')') {
        Some(i) => i,
        None => return None,
    };
    let ip_text = sub_chars(s, l + 1, r);
    let ip = match Ipv4Addr::parse_chars(&ip_text) {
        Some(ip) => ip,
        None => return None,
    };
    let pat = chars_of(" at ");
    let at = match find_pattern(s, &pat) {
        Some(i) => i,
        None => return None,
    };
    proof {
        reveal_strlit(" at ");
        crate::text::lemma_first_match(s@, pat@);
    }
    let n = s.len();
    assert(at + 4 <= n);
    let after = sub_chars(s, at + 4, n);
    assert(after@ =~= s@.skip(at + 4));
    let mac_end = match find_char(&after, ' ') {
        Some(e) => e,
        None => after.len(),
    };
    proof {
        lemma_first_index(after@, ' ');
    }
    let mac = sub_chars(&after, 0, mac_end);
    assert(mac@ =~= mac_field(s@, at as int));
    let mac_text = string_of(&mac);
    proof {
        if is_ascii_chars(s@) {
            assert forall|i: int| 0 <= i < mac@.len() implies '\0' <= #[trigger] mac@[i]
                <= '\u{7f}' by {
                assert(mac@[i] == s@[at + 4 + i]);
            }
        }
    }
    let lower = to_lowercase(mac_text.as_str());
    if is_incomplete_mac(&mac, lower.as_str()) {
        return None;
    }
    let replaced = dashes_to_colons_chars(&mac);
    let replaced_text = string_of(&replaced);
    let upper = to_uppercase(replaced_text.as_str());
    proof {
        if is_ascii_chars(s@) {
            assert forall|i: int| 0 <= i < replaced@.len() implies '\0' <= #[trigger] replaced@[i]
                <= '\u{7f}' && replaced@[i] != '-' by {
                assert(mac@[i] == s@[at + 4 + i]);
            }
            assert(is_ascii_chars(replaced@));
            assert(mac_normalized(upper@));
        }
    }
    Some((ip, upper))
}

/// Parses a line of `arp -a`: the address in the first parentheses and the
/// MAC address after `" at "`, normalised to uppercase with `':'`
/// separators; `None` for incomplete entries and lines without those parts.
pub fn parse_arp_line(line: &str) -> (r: Option<(Ipv4Addr, String)>)
    requires
        arp_line_well_formed(line@),
    ensures
        match parse_arp_line_spec(line@) {
            Some((ip, mac)) => r matches Some((a, m)) && a@ == ip && m@ == mac,
            None => r is None,
        },
        is_ascii_chars(line@) ==> (r matches Some((_, m)) ==> mac_normalized(m@)),
        is_ascii_chars(line@) ==> match parse_arp_line_ascii_spec(line@) {
            Some((ip, mac)) => r matches Some((a, m)) && a@ == ip && m@ == mac,
            None => r is None,
        },
{
    let s = chars_of(line);
    parse_arp_chars(&s)
}

// ---------------------------------------------------------------------------
// The whole output
// ---------------------------------------------------------------------------

/// Every line can be taken apart.
pub open spec fn all_well_formed(lines: Seq<Seq<char>>) -> bool {
    forall|i: int| 0 <= i < lines.len() ==> arp_line_well_formed(#[trigger] lines[i])
}

/// The ARP table that lines give: the MAC address of each address, a later
/// line for the same address replacing an earlier one.
pub open spec fn arp_table_spec(lines: Seq<Seq<char>>) -> Map<u32, Seq<char>>
    decreases lines.len(),
{
    if lines.len() == 0 {
        Map::empty()
    } else {
        let m = arp_table_spec(lines.drop_last());
        match parse_arp_line_spec(lines.last()) {
            Some((ip, mac)) => m.insert(ip, mac),
            None => m,
        }
    }
}

/// A map from address numbers to texts holds the table `t`.
pub open spec fn holds_table(m: Map<u32, String>, t: Map<u32, Seq<char>>) -> bool {
    &&& m.dom() == t.dom()
    &&& forall|k: u32| #[trigger] m.contains_key(k) ==> m[k]@ == t[k]
}

/// The ARP table of the given lines, keyed by address number; `None` when
/// a line cannot be taken apart.
pub fn arp_table_from_lines(lines: &Vec<Vec<char>>) -> (r: Option<HashMap<u32, String>>)
    ensures
        match r {
            Some(m) => all_well_formed(views_of(lines@)) && holds_table(
                m@,
                arp_table_spec(views_of(lines@)),
            ),
            None => !all_well_formed(views_of(lines@)),
        },
{
    let ghost ls = views_of(lines@);
    let mut table: HashMap<u32, String> = HashMap::new();
    for i in 0..lines.len()
        invariant
            ls == views_of(lines@),
            all_well_formed(ls.take(i as int)),
            holds_table(table@, arp_table_spec(ls.take(i as int))),
    {
        let line = &lines[i];
        assert(ls[i as int] == line@);
        if !arp_line_is_well_formed(line) {
            return None;
        }
        let ghost prev = ls.take(i as int);
        assert(ls.take(i + 1).drop_last() =~= prev);
        assert(ls.take(i + 1).last() == line@);
        match parse_arp_chars(line) {
            Some((ip, mac)) => {
                table.insert(ip.to_bits(), mac);
            },
            None => {},
        }
        assert(all_well_formed(ls.take(i + 1))) by {
            assert forall|k: int| 0 <= k < i + 1 implies arp_line_well_formed(
                #[trigger] ls.take(i + 1)[k],
            ) by {
                if k < i {
                    assert(ls.take(i + 1)[k] == prev[k]);
                }
            }
        }
        assert(holds_table(table@, arp_table_spec(ls.take(i + 1))));
    }
    assert(ls.take(lines@.len() as int) =~= ls);
    Some(table)
}

/// The ARP table in the output of `arp -a`, keyed by address number (the
/// bytes are read as UTF-8, invalid sequences replaced); `None` when a line
/// cannot be taken apart.
pub fn arp_table_from_output(stdout: &[u8]) -> (r: Option<HashMap<u32, String>>)
    ensures
        match r {
            Some(m) => all_well_formed(text_lines(utf8_lossy(stdout@))) && holds_table(
                m@,
                arp_table_spec(text_lines(utf8_lossy(stdout@))),
            ),
            None => !all_well_formed(text_lines(utf8_lossy(stdout@))),
        },
{
    let text = decode_lossy(stdout);
    let cs = chars_of(text.as_str());
    let lines = lines_of(&cs);
    arp_table_from_lines(&lines)
}

/// The MAC address that lines give for `ip`: that of the first line naming
/// it; `Some(None)` when no line does; `None` when a line before the
/// first one naming it (or that line) cannot be taken apart.
pub open spec fn arp_search(lines: Seq<Seq<char>>, ip: u32) -> Option<Option<Seq<char>>>
    decreases lines.len(),
{
    if lines.len() == 0 {
        Some(None)
    } else if !arp_line_well_formed(lines[0]) {
        None
    } else {
        match parse_arp_line_spec(lines[0]) {
            Some((a, mac)) => if a == ip {
                Some(Some(mac))
            } else {
                arp_search(lines.drop_first(), ip)
            },
            None => arp_search(lines.drop_first(), ip),
        }
    }
}

/// Looks up the MAC address of `ip` in lines of `arp -a` (see `arp_search`).
pub fn mac_from_lines(lines: &Vec<Vec<char>>, ip: Ipv4Addr) -> (r: Option<Option<String>>)
    ensures
        match arp_search(views_of(lines@), ip@) {
            Some(Some(mac)) => r matches Some(Some(m)) && m@ == mac,
            Some(None) => r matches Some(None),
            None => r is None,
        },
{
    let ghost ls = views_of(lines@);
    assert(ls.skip(0) =~= ls);
    for i in 0..lines.len()
        invariant
            ls == views_of(lines@),
            arp_search(ls, ip@) == arp_search(ls.skip(i as int), ip@),
    {
        let line = &lines[i];
        assert(ls[i as int] == line@);
        let ghost rest = ls.skip(i as int);
        assert(rest[0] == line@);
        assert(rest.drop_first() =~= ls.skip(i + 1));
        if !arp_line_is_well_formed(line) {
            return None;
        }
        match parse_arp_chars(line) {
            Some((a, mac)) => {
                if a.to_bits() == ip.to_bits() {
                    return Some(Some(mac));
                }
            },
            None => {},
        }
    }
    assert(ls.skip(lines@.len() as int) =~= Seq::<Seq<char>>::empty());
    Some(None)
}

/// Looks up the MAC address of `ip` in the output of `arp -a` (the bytes
/// read as UTF-8, invalid sequences replaced; see `arp_search`).
pub fn mac_from_output(stdout: &[u8], ip: Ipv4Addr) -> (r: Option<Option<String>>)
    ensures
        match arp_search(text_lines(utf8_lossy(stdout@)), ip@) {
            Some(Some(mac)) => r matches Some(Some(m)) && m@ == mac,
            Some(None) => r matches Some(None),
            None => r is None,
        },
{
    let text = decode_lossy(stdout);
    let cs = chars_of(text.as_str());
    let lines = lines_of(&cs);
    mac_from_lines(&lines, ip)
}

/// How long to wait before each look into the ARP table for a fresh
/// address, in milliseconds.
pub fn arp_retry_delays_ms() -> (r: Vec<u64>)
    ensures
        r@ == seq![50u64, 100u64, 200u64],
{
    let mut r: Vec<u64> = Vec::new();
    r.push(50);
    r.push(100);
    r.push(200);
    assert(r@ =~= seq![50u64, 100u64, 200u64]);
    r
}

} // verus!
