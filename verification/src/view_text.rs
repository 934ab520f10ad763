//! The texts that the screen shows: the header, the status bar, the cells
//! of a device row, the fields of the device details and the input fields
//! of the range dialog with their cursor.

use vstd::prelude::*;
use vstd::view::View as _;
use crate::app::{App, ScanState, cidr24_text, spinner_frame};
use crate::device::Device;
use crate::ipv4::ipv4_text;
use crate::text::{
    byte_len, char_at_byte, chars_of, decimal_text, lemma_byte_len_concat,
    lemma_char_at_byte_of_prefix, push_char, push_chars, push_decimal, push_str, string_from,
    sub_chars,
};

verus! {

/// The header line.
pub open spec fn header_spec(app: App) -> Seq<char> {
    "scanet - LAN Device Scanner    ["@ + cidr24_text(app.scan_range.0@) + "]"@
}

/// The progress in percent shown while scanning.
pub open spec fn percent_spec(app: App) -> nat {
    if app.total_count == 0 {
        0
    } else {
        ((app.scanned_count * 100) / app.total_count as int) as nat
    }
}

/// The scan part of the status bar, given the seconds since the last scan
/// and the seconds left of a wait.
pub open spec fn scan_status_spec(app: App, since_last: Option<u64>, remaining: u64) -> Seq<
    char,
> {
    match app.scan_state {
        ScanState::Scanning => seq![spinner_frame(app.spinner_index as int)] + " Scanning"@ + (
        match app.current_scanning_ip {
            Some(ip) => " ["@ + ipv4_text(ip@) + "]"@,
            None => Seq::<char>::empty(),
        }) + " "@ + decimal_text(app.scanned_count as nat) + "/"@ + decimal_text(
            app.total_count as nat,
        ) + " ("@ + decimal_text(percent_spec(app)) + "%)"@,
        ScanState::Waiting => seq![spinner_frame(app.spinner_index as int)] + " Waiting... "@
            + decimal_text(remaining as nat) + "s"@,
        ScanState::Idle => match since_last {
            Some(s) => "Last scan: "@ + decimal_text(s as nat) + "s ago"@,
            None => "Not scanned yet"@,
        },
    }
}

/// The continuous-mode indicator of the status bar.
pub open spec fn continuous_spec(app: App) -> Seq<char> {
    if app.continuous_mode {
        "ON ("@ + decimal_text(app.scan_interval_secs as nat) + "s)"@
    } else {
        "OFF"@
    }
}

/// The status bar, given the seconds since the last scan and the seconds
/// left of a wait.
pub open spec fn status_bar_spec(app: App, since_last: Option<u64>, remaining: u64) -> Seq<char> {
    match app.scan_state {
        ScanState::Idle => "Devices: "@ + decimal_text(app.devices@.len()) + " | "@
            + scan_status_spec(app, since_last, remaining) + " | "@ + app.status_message@
            + " | [S]can [C]ontinuous: "@ + continuous_spec(app) + " [Q]uit"@,
        _ => "Devices: "@ + decimal_text(app.devices@.len()) + " | "@ + scan_status_spec(
            app,
            since_last,
            remaining,
        ) + " | [C]ontinuous: "@ + continuous_spec(app) + " | [Q]uit"@,
    }
}

/// The status bar can be built: the spinner frame exists while a scan runs
/// or waits, and the percentage does not overflow.
pub open spec fn status_bar_ready(app: App) -> bool {
    &&& app.scan_state != ScanState::Idle ==> app.spinner_index < 10
    &&& app.scanned_count * 100 <= usize::MAX
    &&& app.devices@.len() <= u64::MAX
}

/// An optional text, or a placeholder when there is none.
pub open spec fn text_or_spec(t: Option<String>, placeholder: Seq<char>) -> Seq<char> {
    match t {
        Some(s) => s@,
        None => placeholder,
    }
}

/// The text of an input field, with `'|'` at the cursor (clamped to the
/// end of the text) when the field has the focus.
pub open spec fn input_display_spec(v: Seq<char>, cursor: Option<usize>) -> Seq<char> {
    match cursor {
        None => v,
        Some(p) => {
            let b = if p >= byte_len(v) {
                byte_len(v) as int
            } else {
                p as int
            };
            let k = char_at_byte(v, b)->0;
            v.take(k) + seq!['|'] + v.skip(k)
        },
    }
}

/// The cursor of an input field stands on a character boundary of its text,
/// or at its end or beyond.
pub open spec fn input_cursor_ok(v: Seq<char>, cursor: Option<usize>) -> bool {
    match cursor {
        None => true,
        Some(p) => p >= byte_len(v) || char_at_byte(v, p as int) is Some,
    }
}

/// The number of bytes that a character takes in UTF-8.
fn char_width(c: char) -> (r: usize)
    ensures
        r == byte_len(seq![c]),
{
    let v = c as u32;
    proof {
        assert(seq![c].drop_first() =~= Seq::<char>::empty());
        assert(seq![c][0] == c);
        assert(vstd::utf8::encode_utf8(seq![c].drop_first()) =~= Seq::<u8>::empty());
        assert(vstd::utf8::encode_utf8(seq![c]) =~= vstd::utf8::encode_scalar(c as u32));
    }
    if v < 0x80 {
        1
    } else if v < 0x800 {
        2
    } else if v < 0x10000 {
        3
    } else {
        4
    }
}

/// The character index at which the cursor of an input field stands: at
/// byte position `p` of the text, or at its end when `p` lies beyond it.
fn cursor_char_index(v: &Vec<char>, p: usize) -> (r: usize)
    requires
        input_cursor_ok(v@, Some(p)),
    ensures
        r == char_at_byte(
            v@,
            if p >= byte_len(v@) {
                byte_len(v@) as int
            } else {
                p as int
            },
        )->0,
{
    let ghost b: int = if p >= byte_len(v@) {
        byte_len(v@) as int
    } else {
        p as int
    };
    proof {
        assert(v@.take(v@.len() as int) =~= v@);
        lemma_char_at_byte_of_prefix(v@, v@.len() as int);
        assert(v@.skip(0) =~= v@);
        assert(v@.take(0) =~= Seq::<char>::empty());
    }
    let mut k: usize = 0;
    let mut acc: usize = 0;
    let n = v.len();
    while k < n && acc < p
        invariant
            n == v@.len(),
            k <= n,
            acc == byte_len(v@.take(k as int)),
            acc <= b <= p,
            b <= byte_len(v@),
            b == (if p >= byte_len(v@) {
                byte_len(v@) as int
            } else {
                p as int
            }),
            char_at_byte(v@.skip(k as int), b - acc) is Some,
            char_at_byte(v@, b)->0 == k + char_at_byte(v@.skip(k as int), b - acc)->0,
        decreases n - k,
    {
        let ghost t = v@.skip(k as int);
        proof {
            assert(v@.take(k as int) + t =~= v@);
            lemma_byte_len_concat(v@.take(k as int), t);
            assert(t.len() > 0);
            assert(t[0] == v@[k as int]);
            assert(seq![t[0]] + t.drop_first() =~= t);
            lemma_byte_len_concat(seq![t[0]], t.drop_first());
            crate::text::lemma_char_width(t[0]);
            assert(b - acc > 0);
            assert(t.drop_first() =~= v@.skip(k + 1));
        }
        let w = char_width(v[k]);
        proof {
            assert(char_at_byte(t.drop_first(), b - acc - w) is Some);
            assert(v@.take(k + 1) =~= v@.take(k as int) + seq![t[0]]);
            lemma_byte_len_concat(v@.take(k as int), seq![t[0]]);
        }
        acc = acc + w;
        k = k + 1;
    }
    proof {
        if k == n {
            assert(v@.take(k as int) =~= v@);
        }
    }
    k
}

impl App {
    /// The header line: the program name and the /24 being scanned.
    pub fn header_text(&self) -> (r: String)
        ensures
            r@ == header_spec(*self),
    {
        let mut s = string_from("scanet - LAN Device Scanner    [");
        let cidr = self.scan_range_cidr();
        push_str(&mut s, cidr.as_str());
        push_str(&mut s, "]");
        s
    }

    /// The status bar, given the seconds since the last scan and the
    /// seconds left of a wait.
    pub fn status_text_at(&self, since_last: Option<u64>, remaining: u64) -> (r: String)
        requires
            status_bar_ready(*self),
        ensures
            r@ == status_bar_spec(*self, since_last, remaining),
    {
        let mut scan = String::new();
        match self.scan_state {
            ScanState::Scanning => {
                push_char(&mut scan, self.spinner_char());
                push_str(&mut scan, " Scanning");
                match self.current_scanning_ip {
                    Some(ip) => {
                        push_str(&mut scan, " [");
                        ip.push_text(&mut scan);
                        push_str(&mut scan, "]");
                    },
                    None => {},
                }
                push_str(&mut scan, " ");
                push_decimal(&mut scan, self.scanned_count as u64);
                push_str(&mut scan, "/");
                push_decimal(&mut scan, self.total_count as u64);
                push_str(&mut scan, " (");
                push_decimal(&mut scan, self.progress_percent() as u64);
                push_str(&mut scan, "%)");
            },
            ScanState::Waiting => {
                push_char(&mut scan, self.spinner_char());
                push_str(&mut scan, " Waiting... ");
                push_decimal(&mut scan, remaining);
                push_str(&mut scan, "s");
            },
            ScanState::Idle => {
                match since_last {
                    Some(secs) => {
                        push_str(&mut scan, "Last scan: ");
                        push_decimal(&mut scan, secs);
                        push_str(&mut scan, "s ago");
                    },
                    None => {
                        push_str(&mut scan, "Not scanned yet");
                    },
                }
            },
        }
        assert(scan@ =~= scan_status_spec(*self, since_last, remaining));
        let mut cont = String::new();
        if self.continuous_mode {
            push_str(&mut cont, "ON (");
            push_decimal(&mut cont, self.scan_interval_secs);
            push_str(&mut cont, "s)");
        } else {
            push_str(&mut cont, "OFF");
        }
        assert(cont@ =~= continuous_spec(*self));
        let mut s = string_from("Devices: ");
        push_decimal(&mut s, self.devices.len() as u64);
        push_str(&mut s, " | ");
        push_str(&mut s, scan.as_str());
        match self.scan_state {
            ScanState::Idle => {
                push_str(&mut s, " | ");
                push_str(&mut s, self.status_message.as_str());
                push_str(&mut s, " | [S]can [C]ontinuous: ");
                push_str(&mut s, cont.as_str());
                push_str(&mut s, " [Q]uit");
            },
            _ => {
                push_str(&mut s, " | [C]ontinuous: ");
                push_str(&mut s, cont.as_str());
                push_str(&mut s, " | [Q]uit");
            },
        }
        assert(s@ =~= status_bar_spec(*self, since_last, remaining));
        s
    }

    /// The status bar, with the clock read for the time since the last
    /// scan and the time left of a wait.
    pub fn status_text(&self) -> (r: String)
        requires
            status_bar_ready(*self),
        ensures
            exists|since: Option<u64>, remaining: u64|
                r@ == status_bar_spec(*self, since, remaining) && (since is Some
                    <==> self.last_scan is Some) && remaining <= self.scan_interval_secs,
    {
        let since = self.time_since_last_scan();
        let remaining = self.wait_remaining_secs();
        self.status_text_at(since, remaining)
    }
}

/// An optional text, or a placeholder when there is none (`"-"` in the
/// device list, `"Unknown"` in the details).
pub fn text_or(t: &Option<String>, placeholder: &str) -> (r: String)
    ensures
        r@ == text_or_spec(*t, placeholder@),
{
    match t {
        Some(s) => s.clone(),
        None => string_from(placeholder),
    }
}

/// The cells of a device row of the list, but for the response time:
/// address, MAC address, hostname and vendor, `"-"` where unknown.
pub fn device_row_cells(d: &Device) -> (r: Vec<String>)
    ensures
        r@.len() == 4,
        r@[0]@ == ipv4_text(d.ip@),
        r@[1]@ == text_or_spec(d.mac, "-"@),
        r@[2]@ == text_or_spec(d.hostname, "-"@),
        r@[3]@ == text_or_spec(d.vendor, "-"@),
{
    let mut r: Vec<String> = Vec::new();
    r.push(d.ip.to_string());
    r.push(text_or(&d.mac, "-"));
    r.push(text_or(&d.hostname, "-"));
    r.push(text_or(&d.vendor, "-"));
    r
}

/// The status shown in the details of a device.
pub fn device_status_text(d: &Device) -> (r: &'static str)
    ensures
        r@ == (if d.is_new {
            "New"@
        } else {
            "Known"@
        }),
{
    if d.is_new {
        "New"
    } else {
        "Known"
    }
}

/// A label left-aligned in a column of fifteen characters (padded with
/// spaces; a longer label is kept whole).
pub open spec fn padded_label(label: Seq<char>) -> Seq<char> {
    if label.len() < 15 {
        label + Seq::new((15 - label.len()) as nat, |i: int| ' ')
    } else {
        label
    }
}

/// The label of a line of the device details, indented by two spaces and
/// padded to fifteen characters; the value follows it on the line.
pub fn detail_label_text(label: &str) -> (r: String)
    ensures
        r@ == "  "@ + padded_label(label@),
{
    let cs = chars_of(label);
    let mut s = string_from("  ");
    push_str(&mut s, label);
    let mut n: usize = cs.len();
    while n < 15
        invariant
            cs@ == label@,
            label@.len() <= n <= 15 || (n == label@.len() && n >= 15),
            s@ == "  "@ + label@ + Seq::new((n - label@.len()) as nat, |i: int| ' '),
        decreases 15 - n,
    {
        push_char(&mut s, ' ');
        assert(s@ =~= "  "@ + label@ + Seq::new((n + 1 - label@.len()) as nat, |i: int| ' '));
        n = n + 1;
    }
    proof {
        if label@.len() >= 15 {
            assert(Seq::new(0nat, |i: int| ' ') =~= Seq::<char>::empty());
            assert(s@ =~= "  "@ + label@);
        }
    }
    assert(s@ =~= "  "@ + padded_label(label@));
    s
}

/// How long ago a device was last seen, in the device details.
pub fn seen_ago_text(secs: u64) -> (r: String)
    ensures
        r@ == decimal_text(secs as nat) + " seconds ago"@,
{
    let mut s = String::new();
    push_decimal(&mut s, secs);
    push_str(&mut s, " seconds ago");
    s
}

/// The text of an input field of the range dialog: with `'|'` at the
/// cursor when the field has the focus (`cursor` is `Some`), the cursor
/// clamped to the end of the text.
pub fn input_field_text(value: &str, cursor: Option<usize>) -> (r: String)
    requires
        input_cursor_ok(value@, cursor),
    ensures
        r@ == input_display_spec(value@, cursor),
{
    match cursor {
        None => string_from(value),
        Some(p) => {
            let v = chars_of(value);
            let k = cursor_char_index(&v, p);
            proof {
                let b = if p >= byte_len(v@) {
                    byte_len(v@) as int
                } else {
                    p as int
                };
                assert(v@.take(v@.len() as int) =~= v@);
                lemma_char_at_byte_of_prefix(v@, v@.len() as int);
                crate::text::lemma_char_at_byte_is_prefix(v@, b);
            }
            let before = sub_chars(&v, 0, k);
            let after = sub_chars(&v, k, v.len());
            let mut s = String::new();
            push_chars(&mut s, &before);
            push_char(&mut s, '|');
            push_chars(&mut s, &after);
            assert(s@ =~= v@.take(k as int) + seq!['|'] + v@.skip(k as int));
            s
        },
    }
}

} // verus!
