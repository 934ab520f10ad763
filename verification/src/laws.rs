//! Properties of the library that span several calls or hold of every
//! state, proved over the specifications that the functions' contracts use.

use vstd::prelude::*;
use vstd::view::View as _;
use crate::app::{
    App, RangeInputField, ScanState, View, update_hostname_post, update_vendor_post, active_text, add_device_post, apply_range_input_post, cidr24_text,
    cidr_outcome, cursor_editable, cursor_erasable, cursor_left_post, cursor_right_post,
    devices_after_add, open_range_input_post, range_input_outcome, range_input_pop_post,
    range_input_push_post, scan_range_of, select_next_post, select_previous_post,
    toggle_field_post,
};
use crate::cidr::{block_network, block_size, cidr_range, lemma_block_bounds};
use crate::device::{
    Device, find_device, insert_pos, ips_sorted, ips_unique, lemma_find_device, lemma_insert_pos,
    lemma_insert_pos_sorted, lemma_sort_by_ip_of_sorted, lemma_sort_by_ip_permutes,
    lemma_sort_by_ip_sorted, sort_by_ip,
};
use crate::ipv4::{
    Ipv4Addr, ipv4_text, lemma_ipv4_text_chars, lemma_ipv4_view_eq, lemma_octets,
    lemma_octets_of_value, lemma_parse_ipv4_text, octet, octets_value, parse_ipv4,
};
use crate::arp::{
    ascii_lowercase, ascii_uppercase, dashes_to_colons, mac_field, parse_arp_line_ascii_spec,
    parse_arp_line_spec,
};
use crate::events::{Key, KeyFollowUp, key_handleable, key_post};
use crate::scanner::{bits_of, chunks_of, ip_range};
use crate::text::{
    byte_len, char_at_byte, decimal_text, decimal_value, first_index, is_ascii_digit,
    lemma_byte_len_concat, lemma_char_at_byte_is_prefix, lemma_char_at_byte_of_prefix,
    lemma_char_width, lemma_decimal_text, lemma_first_index, lemma_split_concat,
    lemma_split_without_sep, parse_u8_text, split_on, first_match, matches_at, lemma_first_index_at,
    lemma_first_match, lemma_first_match_at,
};
use vstd::arithmetic::power2::{pow2, lemma2_to64};
use vstd::arithmetic::div_mod::lemma_small_mod;

verus! {

// ---------------------------------------------------------------------------
// The device list
// ---------------------------------------------------------------------------

/// Some device of `s` has address `ip`.
pub open spec fn lists_ip(s: Seq<Device>, ip: Ipv4Addr) -> bool {
    exists|i: int| 0 <= i < s.len() && #[trigger] s[i].ip == ip
}

/// Sorting keeps the set of listed addresses.
proof fn lemma_sort_lists_same_ips(s: Seq<Device>, ip: Ipv4Addr)
    ensures
        lists_ip(sort_by_ip(s), ip) <==> lists_ip(s, ip),
    decreases s.len(),
{
    if s.len() > 0 {
        let d = s.drop_last();
        let t = sort_by_ip(d);
        lemma_sort_lists_same_ips(d, ip);
        lemma_sort_by_ip_sorted(d);
        let x = s.last();
        let p = insert_pos(t, x.ip@);
        lemma_insert_pos(t, x.ip@);
        let r = t.insert(p, x);
        if lists_ip(r, ip) {
            let i = choose|i: int| 0 <= i < r.len() && #[trigger] r[i].ip == ip;
            if i < p {
                assert(t[i] == r[i]);
                assert(lists_ip(t, ip));
                let j = choose|j: int| 0 <= j < d.len() && #[trigger] d[j].ip == ip;
                assert(s[j] == d[j]);
            } else if i == p {
                assert(s[s.len() - 1].ip == ip);
            } else {
                assert(t[i - 1] == r[i]);
                assert(lists_ip(t, ip));
                let j = choose|j: int| 0 <= j < d.len() && #[trigger] d[j].ip == ip;
                assert(s[j] == d[j]);
            }
        }
        if lists_ip(s, ip) {
            let j = choose|j: int| 0 <= j < s.len() && #[trigger] s[j].ip == ip;
            if j < s.len() - 1 {
                assert(d[j] == s[j]);
                assert(lists_ip(d, ip));
                let i = choose|i: int| 0 <= i < t.len() && #[trigger] t[i].ip == ip;
                if i < p {
                    assert(r[i] == t[i]);
                } else {
                    assert(r[i + 1] == t[i]);
                }
            } else {
                assert(r[p] == x);
            }
        }
    }
}

/// Sorting a list whose addresses are unique keeps them unique.
proof fn lemma_sort_keeps_unique(s: Seq<Device>)
    requires
        ips_unique(s),
    ensures
        ips_unique(sort_by_ip(s)),
    decreases s.len(),
{
    if s.len() > 0 {
        let d = s.drop_last();
        assert(ips_unique(d)) by {
            assert forall|i: int, j: int| 0 <= i < j < d.len() implies d[i].ip != d[j].ip by {
                assert(d[i] == s[i] && d[j] == s[j]);
            }
        }
        lemma_sort_keeps_unique(d);
        let t = sort_by_ip(d);
        let x = s.last();
        lemma_sort_by_ip_sorted(d);
        let p = insert_pos(t, x.ip@);
        lemma_insert_pos(t, x.ip@);
        lemma_sort_lists_same_ips(d, x.ip);
        assert(!lists_ip(d, x.ip)) by {
            if lists_ip(d, x.ip) {
                let j = choose|j: int| 0 <= j < d.len() && #[trigger] d[j].ip == x.ip;
                assert(s[j] == d[j]);
                assert(s[s.len() - 1] == x);
            }
        }
        let r = t.insert(p, x);
        assert forall|i: int, j: int| 0 <= i < j < r.len() implies r[i].ip != r[j].ip by {
            if i < p && j < p {
                assert(r[i] == t[i] && r[j] == t[j]);
            } else if i < p && j == p {
                assert(r[i] == t[i]);
            } else if i < p {
                assert(r[i] == t[i] && r[j] == t[j - 1]);
            } else if i == p {
                assert(r[j] == t[j - 1]);
            } else {
                assert(r[i] == t[i - 1] && r[j] == t[j - 1]);
            }
        }
    }
}

/// Adding a device keeps the list in address order, and a device with a
/// new address always leaves the list in address order.
pub proof fn law_add_device_keeps_order(s: Seq<Device>, d: Device)
    ensures
        find_device(s, d.ip) is None ==> ips_sorted(devices_after_add(s, d)),
        ips_sorted(s) ==> ips_sorted(devices_after_add(s, d)),
{
    lemma_find_device(s, d.ip);
    match find_device(s, d.ip) {
        Some(i) => {
            let r = devices_after_add(s, d);
            assert forall|a: int, b: int| 0 <= a <= b < r.len() implies r[a].ip == s[a].ip && r[b].ip
                == s[b].ip by {}
        },
        None => {
            lemma_sort_by_ip_sorted(s.push(d));
        },
    }
}

/// A device added to a list in address order is inserted after the
/// devices with a lower or equal address, the others keeping their order.
pub proof fn law_add_new_device_to_sorted_list(s: Seq<Device>, d: Device)
    requires
        ips_sorted(s),
        find_device(s, d.ip) is None,
    ensures
        devices_after_add(s, d) == s.insert(insert_pos(s, d.ip@), d),
{
    lemma_sort_by_ip_of_sorted(s);
    assert(s.push(d).drop_last() =~= s);
}

/// Adding a device lists its address exactly once (when addresses were
/// unique before), and grows the list only when the address is new.
pub proof fn law_add_device_lists_once(s: Seq<Device>, d: Device)
    requires
        ips_unique(s),
    ensures
        ips_unique(devices_after_add(s, d)),
        lists_ip(devices_after_add(s, d), d.ip),
        devices_after_add(s, d).len() == s.len() + (if find_device(s, d.ip) is None {
            1int
        } else {
            0int
        }),
{
    lemma_find_device(s, d.ip);
    let r = devices_after_add(s, d);
    match find_device(s, d.ip) {
        Some(i) => {
            assert forall|a: int, b: int| 0 <= a < b < r.len() implies r[a].ip != r[b].ip by {
                assert(r[a].ip == s[a].ip && r[b].ip == s[b].ip);
            }
            assert(r[i].ip == d.ip);
        },
        None => {
            let x = s.push(d);
            assert(ips_unique(x)) by {
                assert forall|a: int, b: int| 0 <= a < b < x.len() implies x[a].ip != x[b].ip by {
                    if b < s.len() {
                        assert(x[a] == s[a] && x[b] == s[b]);
                    } else {
                        assert(x[a] == s[a]);
                    }
                }
            }
            lemma_sort_keeps_unique(x);
            lemma_sort_by_ip_sorted(x);
            lemma_sort_lists_same_ips(x, d.ip);
            assert(x[s.len() as int].ip == d.ip);
        },
    }
}

/// Adding a device lists exactly the addresses listed before and the
/// device's own.  A device with a new address joins the list as it is, the
/// others staying as they were; a device already listed under its address
/// refreshes only that entry's last-seen time and response time and marks
/// it known, every other entry staying as it was.
pub proof fn law_add_device_contents(s: Seq<Device>, d: Device)
    ensures
        forall|ip: Ipv4Addr|
            lists_ip(#[trigger] devices_after_add(s, d), ip) <==> (lists_ip(s, ip) || ip == d.ip),
        find_device(s, d.ip) is None ==> devices_after_add(s, d).to_multiset() == s.push(
            d,
        ).to_multiset(),
        find_device(s, d.ip) matches Some(i) ==> {
            &&& devices_after_add(s, d).len() == s.len()
            &&& forall|j: int|
                0 <= j < s.len() && j != i ==> #[trigger] devices_after_add(s, d)[j] == s[j]
            &&& devices_after_add(s, d)[i] == (Device {
                last_seen: d.last_seen,
                response_time: d.response_time,
                is_new: false,
                ..s[i]
            })
        },
{
    lemma_find_device(s, d.ip);
    let r = devices_after_add(s, d);
    match find_device(s, d.ip) {
        Some(i) => {
            assert forall|ip: Ipv4Addr| lists_ip(r, ip) <==> (lists_ip(s, ip) || ip == d.ip) by {
                if lists_ip(r, ip) {
                    let k = choose|k: int| 0 <= k < r.len() && #[trigger] r[k].ip == ip;
                    assert(s[k].ip == ip);
                }
                if lists_ip(s, ip) {
                    let k = choose|k: int| 0 <= k < s.len() && #[trigger] s[k].ip == ip;
                    assert(r[k].ip == ip);
                }
                if ip == d.ip {
                    assert(r[i].ip == ip);
                }
            }
        },
        None => {
            let x = s.push(d);
            lemma_sort_by_ip_permutes(x);
            assert forall|ip: Ipv4Addr| lists_ip(r, ip) <==> (lists_ip(s, ip) || ip == d.ip) by {
                lemma_sort_lists_same_ips(x, ip);
                if lists_ip(x, ip) {
                    let k = choose|k: int| 0 <= k < x.len() && #[trigger] x[k].ip == ip;
                    if k < s.len() {
                        assert(s[k] == x[k]);
                    }
                }
                if lists_ip(s, ip) {
                    let k = choose|k: int| 0 <= k < s.len() && #[trigger] s[k].ip == ip;
                    assert(x[k] == s[k]);
                }
                if ip == d.ip {
                    assert(x[s.len() as int] == d);
                }
            }
        },
    }
}

/// Adding a device twice lists it once: the second time only refreshes it
/// and it is no longer new.
pub proof fn law_add_device_twice(a: App, b: App, c: App, d1: Device, d2: Device)
    requires
        add_device_post(a, b, d1),
        add_device_post(b, c, d2),
        d1.ip == d2.ip,
    ensures
        c.devices@.len() == b.devices@.len(),
        b.devices@.len() <= a.devices@.len() + 1,
        exists|i: int|
            0 <= i < c.devices@.len() && #[trigger] c.devices@[i].ip == d2.ip
                && !c.devices@[i].is_new && c.devices@[i].response_time == d2.response_time,
{
    lemma_find_device(a.devices@, d1.ip);
    lemma_find_device(b.devices@, d2.ip);
    match find_device(a.devices@, d1.ip) {
        Some(i) => {
            assert(b.devices@[i].ip == d1.ip);
        },
        None => {
            let x = a.devices@.push(d1);
            lemma_sort_by_ip_sorted(x);
            lemma_sort_lists_same_ips(x, d1.ip);
            assert(x[a.devices@.len() as int].ip == d1.ip);
            assert(lists_ip(x, d1.ip));
        },
    }
    assert(lists_ip(b.devices@, d1.ip));
    match find_device(b.devices@, d2.ip) {
        Some(i) => {
            assert(c.devices@[i].ip == d2.ip);
        },
        None => {
            let i = choose|i: int| 0 <= i < b.devices@.len() && #[trigger] b.devices@[i].ip == d1.ip;
            assert(b.devices@[i].ip != d2.ip);
        },
    }
}

// ---------------------------------------------------------------------------
// Selection
// ---------------------------------------------------------------------------

/// Moving the selection keeps it within a non-empty list.
pub proof fn law_selection_stays_in_list(a: App, b: App, c: App)
    requires
        a.selected_index < a.devices@.len() <= usize::MAX,
        select_next_post(a, b),
        select_previous_post(a, c),
    ensures
        b.selected_index < b.devices@.len(),
        c.selected_index < c.devices@.len(),
{
}

/// Moving the selection down and then up (or up and then down) comes back
/// to the same device.
pub proof fn law_selection_round_trip(a: App, b: App, c: App, d: App, e: App)
    requires
        a.selected_index < a.devices@.len() <= usize::MAX,
        select_next_post(a, b),
        select_previous_post(b, c),
        select_previous_post(a, d),
        select_next_post(d, e),
    ensures
        c == a,
        e == a,
{
    let n = a.devices@.len() as int;
    let i = a.selected_index as int;
    if i + 1 < n {
        lemma_small_mod((i + 1) as nat, n as nat);
    } else {
        assert((i + 1) % n == 0);
    }
    assert(c.selected_index == a.selected_index);
    if i == 0 {
        assert(d.selected_index == n - 1);
        assert(n % n == 0);
    } else {
        lemma_small_mod(i as nat, n as nat);
    }
    assert(e.selected_index == a.selected_index);
    assert(c == (App { selected_index: c.selected_index, ..a }));
    assert(e == (App { selected_index: e.selected_index, ..a }));
}

// ---------------------------------------------------------------------------
// The range dialog
// ---------------------------------------------------------------------------

/// The byte length of a text with a character inserted.
proof fn lemma_byte_len_insert(t: Seq<char>, k: int, c: char)
    requires
        0 <= k <= t.len(),
    ensures
        byte_len(t.insert(k, c)) == byte_len(t) + byte_len(seq![c]),
        t.insert(k, c).take(k) == t.take(k),
{
    let a = t.take(k);
    let b = t.skip(k);
    assert(t =~= a + b);
    assert(t.insert(k, c) =~= a + (seq![c] + b));
    lemma_byte_len_concat(a, b);
    lemma_byte_len_concat(seq![c], b);
    lemma_byte_len_concat(a, seq![c] + b);
    assert(t.insert(k, c).take(k) =~= a);
}

/// Typing an ASCII character and erasing it again gives back the text and
/// the cursor of the focused field.
pub proof fn law_push_then_pop(a: App, b: App, d: App, c: char)
    requires
        cursor_editable(a),
        a.range_input_cursor < usize::MAX,
        '\0' <= c <= '\u{7f}',
        range_input_push_post(a, b, c),
        range_input_pop_post(b, d),
    ensures
        cursor_erasable(b),
        d.range_input_start@ == a.range_input_start@,
        d.range_input_end@ == a.range_input_end@,
        d == (App {
            range_input_start: d.range_input_start,
            range_input_end: d.range_input_end,
            range_input_error: None,
            ..a
        }),
{
    let t = active_text(a);
    let cur = a.range_input_cursor as int;
    lemma_char_width(c);
    if cur >= byte_len(t) {
        lemma_byte_len_concat(t, seq![c]);
        assert(t + seq![c] =~= t.push(c));
        assert(t.push(c).drop_last() =~= t);
    } else {
        lemma_char_at_byte_is_prefix(t, cur);
        let k = char_at_byte(t, cur)->0;
        lemma_byte_len_insert(t, k, c);
        let n = t.insert(k, c);
        lemma_char_at_byte_of_prefix(n, k);
        assert(n.remove(k) =~= t);
    }
}

/// Moving the cursor left and then right, from within the focused text,
/// comes back to the same position.
pub proof fn law_cursor_left_then_right(a: App, b: App, c: App)
    requires
        0 < a.range_input_cursor <= byte_len(active_text(a)),
        cursor_left_post(a, b),
        cursor_right_post(b, c),
    ensures
        c == a,
{
}

/// Switching the focus twice comes back to the same field, with the cursor
/// at the end of its text.
pub proof fn law_toggle_twice(a: App, b: App, c: App)
    requires
        toggle_field_post(a, b),
        toggle_field_post(b, c),
    ensures
        c.range_input_field == a.range_input_field,
        c.range_input_cursor == byte_len(active_text(a)),
        c == (App { range_input_cursor: c.range_input_cursor, ..a }),
{
}

/// Opening the range dialog and applying it unchanged keeps the scan range
/// (when it is in order), closes the dialog and succeeds.
pub proof fn law_open_then_apply_keeps_range(a: App, b: App, c: App, r: bool)
    requires
        a.scan_range.0@ <= a.scan_range.1@,
        open_range_input_post(a, b),
        apply_range_input_post(b, c, r),
    ensures
        r,
        c.scan_range == a.scan_range,
{
    let s = a.scan_range.0@;
    let e = a.scan_range.1@;
    lemma_parse_ipv4_text(s);
    lemma_parse_ipv4_text(e);
    lemma_ipv4_text_chars(s);
    lemma_first_index(ipv4_text(s), '/');
    if first_index(ipv4_text(s), '/') is Some {
        let i = first_index(ipv4_text(s), '/')->0;
        assert(is_ascii_digit(ipv4_text(s)[i]) || ipv4_text(s)[i] == '.');
    }
    assert(range_input_outcome(b.range_input_start@, b.range_input_end@) == Ok::<
        (int, int),
        Seq<char>,
    >((s as int, e as int)));
    lemma_ipv4_view_eq(c.scan_range.0, a.scan_range.0);
    lemma_ipv4_view_eq(c.scan_range.1, a.scan_range.1);
}

/// A failed application of the range dialog keeps the scan range and
/// everything else but the error shown.
pub proof fn law_failed_apply_keeps_state(a: App, b: App)
    requires
        apply_range_input_post(a, b, false),
    ensures
        b == (App { range_input_error: b.range_input_error, ..a }),
        b.range_input_error is Some,
{
}

// ---------------------------------------------------------------------------
// Address ranges
// ---------------------------------------------------------------------------

/// The host range of a CIDR block runs forwards.
pub proof fn law_cidr_range_in_order(s: Seq<char>)
    requires
        cidr_outcome(s) is Ok,
    ensures
        cidr_outcome(s)->Ok_0.0 <= cidr_outcome(s)->Ok_0.1,
{
    let p = split_on(s, '/');
    let ip = parse_ipv4(p[0])->0;
    let prefix = parse_u8_text(p[1])->0;
    lemma_block_bounds(ip, prefix);
}

/// The /24 text of the scan range of an address parses back to that scan
/// range.
pub proof fn law_scan_range_cidr_text(ip: u32)
    ensures
        cidr_outcome(cidr24_text(ip)) == Ok::<(int, int), Seq<char>>(
            (scan_range_of(ip).0 as int, scan_range_of(ip).1 as int),
        ),
{
    lemma_octets(ip);
    let o0 = octet(ip, 0);
    let o1 = octet(ip, 1);
    let o2 = octet(ip, 2);
    let v = octets_value(o0, o1, o2, 0);
    lemma_octets_of_value(o0, o1, o2, 0);
    let vu = v as u32;
    let x = ipv4_text(vu);
    reveal_strlit(".0/24");
    reveal_strlit("24");
    assert(decimal_text(0) == seq!['0']);
    assert(".0/24"@ =~= seq!['.'] + decimal_text(0) + seq!['/'] + "24"@);
    assert(cidr24_text(ip) =~= x + seq!['/'] + "24"@);
    lemma_ipv4_text_chars(vu);
    assert forall|i: int| 0 <= i < x.len() implies x[i] != '/' by {
        assert(is_ascii_digit(x[i]) || x[i] == '.');
    }
    lemma_split_without_sep(x, '/');
    lemma_split_without_sep("24"@, '/');
    lemma_split_concat(x, "24"@, '/');
    let p = split_on(cidr24_text(ip), '/');
    assert(p =~= seq![x, "24"@]);
    lemma_parse_ipv4_text(vu);
    assert(decimal_value("24"@) == 24) by {
        assert("24"@ =~= seq!['2', '4']);
        assert("24"@.drop_last() =~= seq!['2']);
        assert("24"@.last() == '4');
        assert(seq!['2'].drop_last() =~= Seq::<char>::empty());
        assert(seq!['2'].last() == '2');
        assert(decimal_value(Seq::<char>::empty()) == 0);
        assert(decimal_value(seq!['2']) == 2);
    }
    assert(parse_u8_text("24"@) == Some(24nat));
    lemma2_to64();
    assert(block_size(24) == 256);
    assert(v == 256 * (o0 * 65536 + o1 * 256 + o2));
    assert(block_network(vu, 24) == v) by {
        assert((v / 256) == o0 * 65536 + o1 * 256 + o2);
    }
}

// ---------------------------------------------------------------------------
// Progress and batches
// ---------------------------------------------------------------------------

/// Progress never exceeds 100 percent while no more addresses are counted
/// than there are.
pub proof fn law_progress_at_most_100(scanned: nat, total: nat)
    requires
        scanned <= total,
        total > 0,
    ensures
        (scanned * 100) / total <= 100,
{
    assert((scanned * 100) / total <= 100) by (nonlinear_arith)
        requires
            scanned <= total,
            total > 0,
    ;
}

/// The pieces of a sequence joined again.
pub open spec fn flatten<A>(p: Seq<Seq<A>>) -> Seq<A>
    decreases p.len(),
{
    if p.len() == 0 {
        Seq::empty()
    } else {
        p[0] + flatten(p.drop_first())
    }
}

/// The batches of a scan cover the range exactly, in order, each holding
/// between one and `n` addresses.
pub proof fn law_batches_cover_range<A>(s: Seq<A>, n: nat)
    requires
        n > 0,
    ensures
        flatten(chunks_of(s, n)) == s,
        forall|i: int|
            0 <= i < chunks_of(s, n).len() ==> 1 <= #[trigger] chunks_of(s, n)[i].len() <= n,
    decreases s.len(),
{
    if s.len() == 0 {
        assert(s =~= Seq::<A>::empty());
    } else if s.len() <= n {
        assert(chunks_of(s, n).drop_first() =~= Seq::<Seq<A>>::empty());
        assert(flatten(Seq::<Seq<A>>::empty()) == Seq::<A>::empty());
        assert(s + Seq::<A>::empty() =~= s);
    } else {
        let rest = s.skip(n as int);
        law_batches_cover_range(rest, n);
        let c = chunks_of(s, n);
        assert(c.drop_first() =~= chunks_of(rest, n));
        assert(s.take(n as int) + rest =~= s);
        assert forall|i: int| 0 <= i < c.len() implies 1 <= #[trigger] c[i].len() <= n by {
            if i > 0 {
                assert(c[i] == chunks_of(rest, n)[i - 1]);
            }
        }
    }
}

// ---------------------------------------------------------------------------
// Key presses
// ---------------------------------------------------------------------------

/// The characters that the range dialog takes: ASCII digits, `'.'` and `'/'`.
pub open spec fn address_char(c: char) -> bool {
    ('0' <= c && c <= '9') || c == '.' || c == '/'
}

/// In the range dialog, a key for an ASCII digit, `'.'` or `'/'` types that
/// character at the cursor (at the end of the text it is appended and the
/// cursor moves past it); every other character key changes nothing.
pub proof fn law_range_dialog_types_address_chars(a: App, b: App, c: char, out: KeyFollowUp)
    requires
        a.current_view == View::RangeInput,
        key_handleable(a, Key::Char(c)),
        key_post(a, b, Key::Char(c), out),
    ensures
        out is Nothing,
        address_char(c) ==> range_input_push_post(a, b, c),
        address_char(c) ==> b.range_input_cursor == a.range_input_cursor + 1,
        address_char(c) && a.range_input_cursor >= byte_len(active_text(a)) ==> active_text(b)
            == active_text(a).push(c),
        !address_char(c) ==> b == a,
{
}

/// Pressing `'c'` on the main view with continuous mode on turns it off.  A
/// wait for the next round is cancelled (the application goes idle); a scan
/// that runs, or an idle application, keeps its state, and no scan starts.
pub proof fn law_continuous_mode_off(a: App, b: App, out: KeyFollowUp)
    requires
        a.current_view == View::Main,
        a.continuous_mode,
        key_post(a, b, Key::Char('c'), out),
    ensures
        !b.continuous_mode,
        out is Nothing,
        b.status_message@ == "Continuous mode OFF"@,
        a.scan_state == ScanState::Waiting ==> b.scan_state == ScanState::Idle
            && b.wait_started is None,
        a.scan_state != ScanState::Waiting ==> b.scan_state == a.scan_state && b.wait_started
            == a.wait_started,
        b.devices == a.devices,
        b.scan_range == a.scan_range,
{
}

/// Pressing `'c'` on the main view with continuous mode off turns it on; an
/// idle application starts scanning its range at once, a busy one keeps
/// its state.
pub proof fn law_continuous_mode_on(a: App, b: App, out: KeyFollowUp)
    requires
        a.current_view == View::Main,
        !a.continuous_mode,
        key_post(a, b, Key::Char('c'), out),
    ensures
        b.continuous_mode,
        b.status_message@ == "Continuous mode ON"@,
        a.scan_state == ScanState::Idle ==> b.scan_state == ScanState::Scanning && out == (
        KeyFollowUp::StartScan { start: a.scan_range.0, end: a.scan_range.1 }),
        a.scan_state != ScanState::Idle ==> b.scan_state == a.scan_state && out is Nothing,
        b.wait_started == a.wait_started,
        b.devices == a.devices,
{
}

// ---------------------------------------------------------------------------
// Hostnames and vendors of listed devices
// ---------------------------------------------------------------------------

/// Recording a hostname for `ip` sets it on the first device with that
/// address and on no other: every other device, and the rest of the state,
/// stays as it was.
pub proof fn law_update_hostname_touches_only_that_device(
    a: App,
    b: App,
    ip: Ipv4Addr,
    h: Option<String>,
)
    requires
        update_hostname_post(a, b, ip, h),
    ensures
        b.devices@.len() == a.devices@.len(),
        forall|j: int|
            0 <= j < a.devices@.len() && a.devices@[j].ip != ip ==> #[trigger] b.devices@[j]
                == a.devices@[j],
        forall|j: int|
            0 <= j < a.devices@.len() && a.devices@[j].ip == ip && (forall|k: int|
                0 <= k < j ==> a.devices@[k].ip != ip) ==> #[trigger] b.devices@[j] == (Device {
                hostname: h,
                ..a.devices@[j]
            }),
        forall|j: int, k: int|
            0 <= k < j < a.devices@.len() && #[trigger] a.devices@[k].ip == ip && a.devices@[j].ip
                == ip ==> #[trigger] b.devices@[j] == a.devices@[j],
        b == (App { devices: b.devices, ..a }),
{
    lemma_find_device(a.devices@, ip);
}

/// Recording a vendor for `ip` sets it on the first device with that
/// address and on no other: every other device, and the rest of the state,
/// stays as it was.
pub proof fn law_update_vendor_touches_only_that_device(
    a: App,
    b: App,
    ip: Ipv4Addr,
    v: Option<String>,
)
    requires
        update_vendor_post(a, b, ip, v),
    ensures
        b.devices@.len() == a.devices@.len(),
        forall|j: int|
            0 <= j < a.devices@.len() && a.devices@[j].ip != ip ==> #[trigger] b.devices@[j]
                == a.devices@[j],
        forall|j: int|
            0 <= j < a.devices@.len() && a.devices@[j].ip == ip && (forall|k: int|
                0 <= k < j ==> a.devices@[k].ip != ip) ==> #[trigger] b.devices@[j] == (Device {
                vendor: v,
                ..a.devices@[j]
            }),
        forall|j: int, k: int|
            0 <= k < j < a.devices@.len() && #[trigger] a.devices@[k].ip == ip && a.devices@[j].ip
                == ip ==> #[trigger] b.devices@[j] == a.devices@[j],
        b == (App { devices: b.devices, ..a }),
{
    lemma_find_device(a.devices@, ip);
}

// ---------------------------------------------------------------------------
// The addresses of a scan
// ---------------------------------------------------------------------------

/// Some address of `v` has the number `x`.
pub open spec fn holds_address(v: Seq<Ipv4Addr>, x: u32) -> bool {
    exists|i: int| 0 <= i < v.len() && #[trigger] v[i]@ == x
}

/// The addresses of a scan from `start` to `end` are every address between
/// them, both included, in order, each once; none when `start` is after
/// `end`.
pub proof fn law_ip_range_is_every_address(start: Ipv4Addr, end: Ipv4Addr, v: Seq<Ipv4Addr>)
    requires
        bits_of(v) == ip_range(start@, end@),
    ensures
        start@ <= end@ ==> v.len() == end@ - start@ + 1,
        start@ > end@ ==> v.len() == 0,
        forall|i: int| 0 <= i < v.len() ==> #[trigger] v[i]@ == start@ + i,
        forall|x: u32| start@ <= x <= end@ ==> #[trigger] holds_address(v, x),
{
    assert(bits_of(v).len() == v.len());
    assert forall|i: int| 0 <= i < v.len() implies #[trigger] v[i]@ == start@ + i by {
        assert(bits_of(v)[i] == v[i]@);
    }
    assert forall|x: u32| start@ <= x <= end@ implies #[trigger] holds_address(v, x) by {
        let i = x - start@;
        assert(bits_of(v)[i] == v[i]@);
        assert(v[i]@ == x);
    }
}

// ---------------------------------------------------------------------------
// Lines of `arp -a`
// ---------------------------------------------------------------------------

/// A text before the first `'('` of a line that holds no parenthesis and no
/// `" at "` (such as `"? "` or the hostname of a named entry).
pub open spec fn plain_prefix(p: Seq<char>) -> bool {
    &&& forall|i: int| 0 <= i < p.len() ==> #[trigger] p[i] != '(' && p[i] != ')'
    &&& forall|k: int| !#[trigger] matches_at(p, " at "@, k)
}

/// Parsing a line that starts at its `'('` with a plain prefix before it.
proof fn lemma_arp_line_prefix(p: Seq<char>, t: Seq<char>)
    requires
        plain_prefix(p),
        t.len() > 0,
        t[0] == '(',
    ensures
        parse_arp_line_spec(p + t) == parse_arp_line_spec(t),
{
    reveal_strlit(" at ");
    let s = p + t;
    let n = p.len() as int;
    assert(s[n] == '(');
    lemma_first_index_at(s, '(', n);
    lemma_first_index_at(t, '(', 0);
    lemma_first_index(t, ')');
    lemma_first_index(s, ')');
    match first_index(t, ')') {
        Some(j) => {
            assert(s[n + j] == ')');
            assert forall|k: int| 0 <= k < n + j implies s[k] != ')' by {
                if k < n {
                    assert(s[k] == p[k]);
                } else {
                    assert(s[k] == t[k - n]);
                }
            }
            lemma_first_index_at(s, ')', n + j);
            if j >= 1 {
                assert(s.subrange(n + 1, n + j) =~= t.subrange(1, j));
            }
        },
        None => {
            if first_index(s, ')') is Some {
                let k = first_index(s, ')')->0;
                if k < n {
                    assert(s[k] == p[k]);
                } else {
                    assert(s[k] == t[k - n]);
                }
            }
        },
    }
    let pat = " at "@;
    assert forall|k: int| k >= n implies matches_at(s, pat, k) == matches_at(t, pat, k - n) by {
        if k + 4 <= s.len() {
            assert(s.subrange(k, k + 4) =~= t.subrange(k - n, k - n + 4));
        }
    }
    assert forall|k: int| k < n implies !matches_at(s, pat, k) by {
        if matches_at(s, pat, k) {
            if k + 4 <= n {
                assert(p.subrange(k, k + 4) =~= s.subrange(k, k + 4));
                assert(matches_at(p, pat, k));
            } else {
                assert(s.subrange(k, k + 4)[n - k] == s[n]);
                assert(pat[n - k] != '(');
            }
        }
    }
    lemma_first_match(t, pat);
    lemma_first_match(s, pat);
    match first_match(t, pat) {
        Some(a) => {
            assert(matches_at(s, pat, n + a));
            assert forall|k: int| 0 <= k < n + a implies !matches_at(s, pat, k) by {
                if k >= n {
                    assert(!matches_at(t, pat, k - n));
                }
            }
            lemma_first_match_at(s, pat, n + a);
            assert(s.skip(n + a + 4) =~= t.skip(a + 4));
            assert(mac_field(s, n + a) == mac_field(t, a));
        },
        None => {
            if first_match(s, pat) is Some {
                let k = first_match(s, pat)->0;
                if k >= n {
                    assert(!matches_at(t, pat, k - n));
                }
            }
        },
    }
}

/// What a line of `arp -a` gives does not depend on the text before its
/// address: an unnamed entry (`"? (..."`) and an entry named by its
/// hostname (`"router (..."`) with the same rest give the same address and
/// MAC address, or are both skipped.
pub proof fn law_arp_line_ignores_the_name(p: Seq<char>, q: Seq<char>, t: Seq<char>)
    requires
        plain_prefix(p),
        plain_prefix(q),
        t.len() > 0,
        t[0] == '(',
    ensures
        parse_arp_line_spec(p + t) == parse_arp_line_spec(q + t),
{
    lemma_arp_line_prefix(p, t);
    lemma_arp_line_prefix(q, t);
}

/// An ASCII line of `arp -a` that gives an address in parentheses and,
/// after `" at "`, a MAC field (up to the next space or the end of the
/// line) that does not mark an unresolved entry gives that address and the
/// MAC field in uppercase with `'-'` made `':'`.
pub proof fn law_arp_line_gives_address_and_mac(x: u32, m: Seq<char>, rest: Seq<char>)
    requires
        forall|i: int| 0 <= i < m.len() ==> #[trigger] m[i] != ' ',
        rest.len() == 0 || rest[0] == ' ',
        m != "(incomplete)"@,
        m != "<incomplete>"@,
        ascii_lowercase(m) != "incomplete"@,
    ensures
        parse_arp_line_ascii_spec(seq!['('] + ipv4_text(x) + ") at "@ + m + rest) == Some(
            (x, ascii_uppercase(dashes_to_colons(m))),
        ),
{
    reveal_strlit(") at ");
    reveal_strlit(" at ");
    let ip = ipv4_text(x);
    let n = ip.len() as int;
    let t = seq!['('] + ip + ") at "@ + m + rest;
    lemma_ipv4_text_chars(x);
    lemma_parse_ipv4_text(x);
    assert(t[0] == '(');
    lemma_first_index_at(t, '(', 0);
    assert(t[n + 1] == ')');
    assert forall|k: int| 0 <= k < n + 1 implies t[k] != ')' by {
        if k > 0 {
            assert(t[k] == ip[k - 1]);
            assert(is_ascii_digit(ip[k - 1]) || ip[k - 1] == '.');
        }
    }
    lemma_first_index_at(t, ')', n + 1);
    assert(t.subrange(1, n + 1) =~= ip);
    let pat = " at "@;
    assert(t.subrange(n + 2, n + 6) =~= pat);
    assert forall|k: int| 0 <= k < n + 2 implies !matches_at(t, pat, k) by {
        if matches_at(t, pat, k) {
            assert(t.subrange(k, k + 4)[0] == t[k]);
            if k > 0 && k < n + 1 {
                assert(t[k] == ip[k - 1]);
                assert(is_ascii_digit(ip[k - 1]) || ip[k - 1] == '.');
            }
        }
    }
    lemma_first_match_at(t, pat, n + 2);
    let after = t.skip(n + 6);
    assert(after =~= m + rest);
    lemma_first_index(after, ' ');
    if rest.len() > 0 {
        assert(after[m.len() as int] == ' ');
        assert forall|k: int| 0 <= k < m.len() implies after[k] != ' ' by {
            assert(after[k] == m[k]);
        }
        lemma_first_index_at(after, ' ', m.len() as int);
        assert(after.take(m.len() as int) =~= m);
    } else {
        assert(after =~= m);
        if first_index(after, ' ') is Some {
            let k = first_index(after, ' ')->0;
            assert(after[k] == m[k]);
        }
    }
    assert(mac_field(t, n + 2) == m);
}

} // verus!
