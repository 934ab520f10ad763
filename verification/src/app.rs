//! The state of the terminal application: the device list and selection,
//! scan progress, continuous mode, the current view and the scan-range
//! input dialog.

use vstd::prelude::*;
use vstd::view::View as _;
use std::time::Duration;
use std::time::Instant;
use crate::cidr::{cidr_host_range, cidr_range, lemma_block_bounds};
use crate::device::{Device, find_device, find_device_index, lemma_find_device, sort_by_ip, sort_devices_by_ip};
use crate::ipv4::{Ipv4Addr, ipv4_text, octet, octets_value, parse_ipv4, lemma_octets};
use crate::text::{
    byte_len, char_at_byte, chars_of, decimal_text, find_char, first_index, parse_u8_chars,
    parse_u8_text, push_char, push_decimal, push_str, split_chars, split_on, string_byte_len,
    string_from, string_insert, string_pop, string_remove, views_of,
};

verus! {

/// Whether a scan runs, waits for the next round, or nothing happens.
#[derive(Debug, Clone, Copy, PartialEq, Eq, Structural)]
pub enum ScanState {
    Idle,
    Scanning,
    Waiting,
}

/// The screen shown.
#[derive(Debug, Clone, Copy, PartialEq, Eq, Structural)]
pub enum View {
    Main,
    Help,
    DeviceDetail,
    RangeInput,
}

/// The field of the range dialog that has the focus.
#[derive(Debug, Clone, Copy, PartialEq, Eq, Structural)]
pub enum RangeInputField {
    Start,
    End,
}

/// The application state.
pub struct App {
    pub devices: Vec<Device>,
    pub selected_index: usize,
    pub scan_state: ScanState,
    pub last_scan: Option<Instant>,
    pub scan_range: (Ipv4Addr, Ipv4Addr),
    pub status_message: String,
    pub should_quit: bool,
    pub scanned_count: usize,
    pub total_count: usize,
    pub spinner_index: usize,
    pub current_scanning_ip: Option<Ipv4Addr>,
    pub continuous_mode: bool,
    pub scan_interval_secs: u64,
    pub wait_started: Option<Instant>,
    pub current_view: View,
    pub range_input_start: String,
    pub range_input_end: String,
    pub range_input_field: RangeInputField,
    pub range_input_error: Option<String>,
    pub range_input_cursor: usize,
}

// ---------------------------------------------------------------------------
// Specifications
// ---------------------------------------------------------------------------

/// The /24 around an address: its first three octets with last octet 1 to
/// 254.
pub open spec fn scan_range_of(ip: u32) -> (nat, nat) {
    (
        octets_value(octet(ip, 0), octet(ip, 1), octet(ip, 2), 1),
        octets_value(octet(ip, 0), octet(ip, 1), octet(ip, 2), 254),
    )
}

/// The text `"a.b.c.0/24"` for the /24 of an address.
pub open spec fn cidr24_text(ip: u32) -> Seq<char> {
    decimal_text(octet(ip, 0)) + seq!['.'] + decimal_text(octet(ip, 1)) + seq!['.']
        + decimal_text(octet(ip, 2)) + ".0/24"@
}

/// What `parse_cidr` answers for a text: the host range, or the message of
/// the first check that fails.
pub open spec fn cidr_outcome(s: Seq<char>) -> Result<(int, int), Seq<char>> {
    let p = split_on(s, '/');
    if p.len() != 2 {
        Err("Invalid CIDR format"@)
    } else {
        match parse_ipv4(p[0]) {
            None => Err("Invalid IP address"@),
            Some(ip) => match parse_u8_text(p[1]) {
                None => Err("Invalid prefix length"@),
                Some(prefix) => if prefix > 32 {
                    Err("Prefix must be 0-32"@)
                } else {
                    Ok(cidr_range(ip, prefix))
                },
            },
        }
    }
}

/// What applying the range dialog answers: a CIDR block when the start
/// field holds a `'/'`, else the two addresses, which must be in order.
pub open spec fn range_input_outcome(start: Seq<char>, end: Seq<char>) -> Result<
    (int, int),
    Seq<char>,
> {
    if first_index(start, '/') is Some {
        cidr_outcome(start)
    } else {
        match (parse_ipv4(start), parse_ipv4(end)) {
            (Some(s), Some(e)) => if s > e {
                Err("Start must be <= End"@)
            } else {
                Ok((s as int, e as int))
            },
            (None, _) => Err("Invalid start IP"@),
            (_, None) => Err("Invalid end IP"@),
        }
    }
}

/// The status line after a range is set.
pub open spec fn range_set_text(s: u32, e: u32) -> Seq<char> {
    "Range set: "@ + ipv4_text(s) + " - "@ + ipv4_text(e)
}

/// The greeting status line of a new application.
pub open spec fn greeting_text() -> Seq<char> {
    "Press 's' to start scanning, 'c' for continuous mode"@
}

/// The spinner animation frames (braille dots).
pub open spec fn spinner_frame(i: int) -> char {
    seq![
        '\u{280B}',
        '\u{2819}',
        '\u{2839}',
        '\u{2838}',
        '\u{283C}',
        '\u{2834}',
        '\u{2826}',
        '\u{2827}',
        '\u{2807}',
        '\u{280F}',
    ][i]
}

/// The device list after adding `d`: a device already listed under its
/// address takes its last-seen time and response time and is no longer
/// new; otherwise `d` joins the list, which is then sorted by address.
pub open spec fn devices_after_add(s: Seq<Device>, d: Device) -> Seq<Device> {
    match find_device(s, d.ip) {
        Some(i) => s.update(
            i,
            Device { last_seen: d.last_seen, response_time: d.response_time, is_new: false, ..s[i] },
        ),
        None => sort_by_ip(s.push(d)),
    }
}

/// The device list after setting the hostname of the first device with
/// address `ip`.
pub open spec fn devices_with_hostname(s: Seq<Device>, ip: Ipv4Addr, h: Option<String>) -> Seq<
    Device,
> {
    match find_device(s, ip) {
        Some(i) => s.update(i, Device { hostname: h, ..s[i] }),
        None => s,
    }
}

/// The device list after setting the vendor of the first device with
/// address `ip`.
pub open spec fn devices_with_vendor(s: Seq<Device>, ip: Ipv4Addr, v: Option<String>) -> Seq<
    Device,
> {
    match find_device(s, ip) {
        Some(i) => s.update(i, Device { vendor: v, ..s[i] }),
        None => s,
    }
}

/// The text of the range field that has the focus.
pub open spec fn active_text(app: App) -> Seq<char> {
    match app.range_input_field {
        RangeInputField::Start => app.range_input_start@,
        RangeInputField::End => app.range_input_end@,
    }
}

/// The text of the range field that does not have the focus.
pub open spec fn inactive_text(app: App) -> Seq<char> {
    match app.range_input_field {
        RangeInputField::Start => app.range_input_end@,
        RangeInputField::End => app.range_input_start@,
    }
}

/// The cursor (a byte position) stands at the end of the focused text or
/// beyond, or on a character boundary of it, so the field can be edited.
pub open spec fn cursor_editable(app: App) -> bool {
    app.range_input_cursor >= byte_len(active_text(app)) || char_at_byte(
        active_text(app),
        app.range_input_cursor as int,
    ) is Some
}

/// A text after typing `c` at byte position `cursor`: appended at the end
/// (or beyond it), else inserted at that character boundary.
pub open spec fn text_after_push(t: Seq<char>, cursor: nat, c: char) -> Seq<char> {
    if cursor >= byte_len(t) {
        t.push(c)
    } else {
        t.insert(char_at_byte(t, cursor as int)->0, c)
    }
}

/// A text after a backspace at byte position `cursor` (not 0): the last
/// character when the cursor is at the end or beyond, else the character
/// that starts one byte before the cursor.
pub open spec fn text_after_pop(t: Seq<char>, cursor: nat) -> Seq<char> {
    if cursor >= byte_len(t) {
        if t.len() > 0 {
            t.drop_last()
        } else {
            t
        }
    } else {
        t.remove(char_at_byte(t, cursor - 1)->0)
    }
}

/// A backspace at `cursor` (not 0) cannot fail: at the end or beyond, or
/// one byte before the cursor is a character boundary.
pub open spec fn cursor_erasable(app: App) -> bool {
    app.range_input_cursor >= byte_len(active_text(app)) || char_at_byte(
        active_text(app),
        app.range_input_cursor - 1,
    ) is Some
}

/// The range fields after editing: the focused one holds `t`, the other is
/// unchanged.
pub open spec fn fields_hold(old_app: App, new_app: App, t: Seq<char>) -> bool {
    match old_app.range_input_field {
        RangeInputField::Start => new_app.range_input_start@ == t && new_app.range_input_end
            == old_app.range_input_end,
        RangeInputField::End => new_app.range_input_end@ == t && new_app.range_input_start
            == old_app.range_input_start,
    }
}

// ---------------------------------------------------------------------------
// What the state-changing methods leave
// ---------------------------------------------------------------------------

/// What `App::select_next` leaves: the state before and after the call.
pub open spec fn select_next_post(old_app: App, new_app: App) -> bool {
    &&& new_app.selected_index == (if old_app.devices@.len() > 0 {
            ((old_app.selected_index + 1) % (old_app.devices@.len() as int)) as usize
        } else {
            old_app.selected_index
        })
    &&& new_app == (App { selected_index: new_app.selected_index, ..old_app })
}

/// What `App::select_previous` leaves: the state before and after the call.
pub open spec fn select_previous_post(old_app: App, new_app: App) -> bool {
    &&& new_app.selected_index == (if old_app.devices@.len() == 0 {
            old_app.selected_index
        } else if old_app.selected_index == 0 {
            (old_app.devices@.len() - 1) as usize
        } else {
            (old_app.selected_index - 1) as usize
        })
    &&& new_app == (App { selected_index: new_app.selected_index, ..old_app })
}

/// What `App::add_device` leaves: the state before and after the call.
pub open spec fn add_device_post(old_app: App, new_app: App, device: Device) -> bool {
    &&& new_app.devices@ == devices_after_add(old_app.devices@, device)
    &&& new_app == (App { devices: new_app.devices, ..old_app })
}

/// What `App::update_device_hostname` leaves: the state before and after the call.
pub open spec fn update_hostname_post(old_app: App, new_app: App, ip: Ipv4Addr, hostname: Option<String>) -> bool {
    &&& new_app.devices@ == devices_with_hostname(old_app.devices@, ip, hostname)
    &&& new_app == (App { devices: new_app.devices, ..old_app })
}

/// What `App::update_device_vendor` leaves: the state before and after the call.
pub open spec fn update_vendor_post(old_app: App, new_app: App, ip: Ipv4Addr, vendor: Option<String>) -> bool {
    &&& new_app.devices@ == devices_with_vendor(old_app.devices@, ip, vendor)
    &&& new_app == (App { devices: new_app.devices, ..old_app })
}

/// What `App::clear_devices` leaves: the state before and after the call.
pub open spec fn clear_devices_post(old_app: App, new_app: App) -> bool {
    &&& new_app.devices@.len() == 0
    &&& new_app.selected_index == 0
    &&& new_app == (App {
            devices: new_app.devices,
            selected_index: 0,
            ..old_app
        })
}

/// What `App::update_progress` leaves: the state before and after the call.
pub open spec fn update_progress_post(old_app: App, new_app: App, scanned: usize, total: usize, current_ip: Option<Ipv4Addr>) -> bool {
    &&& new_app == (App {
            scanned_count: scanned,
            total_count: total,
            current_scanning_ip: current_ip,
            ..old_app
        })
}

/// What `App::tick_spinner` leaves: the state before and after the call.
pub open spec fn tick_spinner_post(old_app: App, new_app: App) -> bool {
    &&& new_app == (App {
            spinner_index: ((old_app.spinner_index + 1) % 10) as usize,
            ..old_app
        })
}

/// What `App::open_range_input` leaves: the state before and after the call.
pub open spec fn open_range_input_post(old_app: App, new_app: App) -> bool {
    &&& new_app.range_input_start@ == ipv4_text(old_app.scan_range.0@)
    &&& new_app.range_input_end@ == ipv4_text(old_app.scan_range.1@)
    &&& new_app.range_input_cursor == byte_len(new_app.range_input_start@)
    &&& new_app == (App {
            range_input_start: new_app.range_input_start,
            range_input_end: new_app.range_input_end,
            range_input_field: RangeInputField::Start,
            range_input_cursor: new_app.range_input_cursor,
            range_input_error: None,
            current_view: View::RangeInput,
            ..old_app
        })
}

/// What `App::toggle_range_input_field` leaves: the state before and after the call.
pub open spec fn toggle_field_post(old_app: App, new_app: App) -> bool {
    &&& new_app.range_input_field == (match old_app.range_input_field {
            RangeInputField::Start => RangeInputField::End,
            RangeInputField::End => RangeInputField::Start,
        })
    &&& new_app.range_input_cursor == byte_len(inactive_text(old_app))
    &&& new_app == (App {
            range_input_field: new_app.range_input_field,
            range_input_cursor: new_app.range_input_cursor,
            ..old_app
        })
}

/// What `App::apply_range_input` leaves: the state before and after the call.
pub open spec fn apply_range_input_post(old_app: App, new_app: App, r: bool) -> bool {
    &&& r == range_input_outcome(
            old_app.range_input_start@,
            old_app.range_input_end@,
        ) is Ok
    &&& match range_input_outcome(old_app.range_input_start@, old_app.range_input_end@) {
            Ok((s, e)) => {
                &&& new_app.scan_range.0@ == s
                &&& new_app.scan_range.1@ == e
                &&& new_app.status_message@ == range_set_text(s as u32, e as u32)
                &&& new_app == (App {
                    scan_range: new_app.scan_range,
                    range_input_error: None,
                    current_view: View::Main,
                    status_message: new_app.status_message,
                    ..old_app
                })
            },
            Err(m) => {
                &&& new_app.range_input_error matches Some(e) && e@ == m
                &&& new_app == (App {
                    range_input_error: new_app.range_input_error,
                    ..old_app
                })
            },
        }
}

/// What `App::range_input_push` leaves: the state before and after the call.
pub open spec fn range_input_push_post(old_app: App, new_app: App, c: char) -> bool {
    &&& fields_hold(
            old_app,
            new_app,
            text_after_push(active_text(old_app), old_app.range_input_cursor as nat, c),
        )
    &&& new_app == (App {
            range_input_start: new_app.range_input_start,
            range_input_end: new_app.range_input_end,
            range_input_cursor: (old_app.range_input_cursor + 1) as usize,
            range_input_error: None,
            ..old_app
        })
}

/// What `App::range_input_pop` leaves: the state before and after the call.
pub open spec fn range_input_pop_post(old_app: App, new_app: App) -> bool {
    &&& old_app.range_input_cursor == 0 ==> new_app == old_app
    &&& old_app.range_input_cursor > 0 ==> {
            &&& fields_hold(
                old_app,
                new_app,
                text_after_pop(active_text(old_app), old_app.range_input_cursor as nat),
            )
            &&& new_app == (App {
                range_input_start: new_app.range_input_start,
                range_input_end: new_app.range_input_end,
                range_input_cursor: (old_app.range_input_cursor - 1) as usize,
                range_input_error: None,
                ..old_app
            })
        }
}

/// What `App::range_input_cursor_left` leaves: the state before and after the call.
pub open spec fn cursor_left_post(old_app: App, new_app: App) -> bool {
    &&& new_app == (App {
            range_input_cursor: (if old_app.range_input_cursor > 0 {
                old_app.range_input_cursor - 1
            } else {
                0
            }) as usize,
            ..old_app
        })
}

/// What `App::range_input_cursor_right` leaves: the state before and after the call.
pub open spec fn cursor_right_post(old_app: App, new_app: App) -> bool {
    &&& new_app == (App {
            range_input_cursor: (if old_app.range_input_cursor < byte_len(
                active_text(old_app),
            ) {
                old_app.range_input_cursor + 1
            } else {
                old_app.range_input_cursor as int
            }) as usize,
            ..old_app
        })
}

// ---------------------------------------------------------------------------
// Clock readings
// ---------------------------------------------------------------------------

/// The time elapsed since an instant (`Instant::elapsed`).  Nothing is
/// stated of it: it depends on the clock.
#[verifier::external_body]
fn elapsed_since(t: &Instant) -> Duration {
    t.elapsed()
}

/// The whole seconds of a duration (`Duration::as_secs`).  Nothing is
/// stated of the value: the duration is opaque here.
#[verifier::external_body]
fn whole_seconds(d: &Duration) -> u64 {
    d.as_secs()
}

/// What is left of a wait of `interval` seconds after `elapsed` seconds
/// (never below zero).
pub open spec fn remaining_after(interval: u64, elapsed: u64) -> u64 {
    if elapsed >= interval {
        0
    } else {
        (interval - elapsed) as u64
    }
}

/// What is left of a wait of `interval` seconds after `elapsed` seconds
/// (never below zero).
pub fn remaining_wait(interval: u64, elapsed: u64) -> (r: u64)
    ensures
        r == (if elapsed >= interval {
            0
        } else {
            interval - elapsed
        }),
{
    interval.saturating_sub(elapsed)
}

impl App {
    /// A new application whose scan range is the /24 of `local_ip`.
    pub fn new(local_ip: Ipv4Addr) -> (r: App)
        ensures
            r.devices@.len() == 0,
            r.selected_index == 0,
            r.scan_state == ScanState::Idle,
            r.last_scan is None,
            r.scan_range.0@ == scan_range_of(local_ip@).0,
            r.scan_range.1@ == scan_range_of(local_ip@).1,
            r.status_message@ == greeting_text(),
            !r.should_quit,
            r.scanned_count == 0,
            r.total_count == 0,
            r.spinner_index == 0,
            r.current_scanning_ip is None,
            !r.continuous_mode,
            r.scan_interval_secs == 10,
            r.wait_started is None,
            r.current_view == View::Main,
            r.range_input_start@ == ipv4_text(r.scan_range.0@),
            r.range_input_end@ == ipv4_text(r.scan_range.1@),
            r.range_input_field == RangeInputField::Start,
            r.range_input_error is None,
            r.range_input_cursor == 0,
    {
        let (start, end) = Self::calculate_scan_range(local_ip);
        App {
            devices: Vec::new(),
            selected_index: 0,
            scan_state: ScanState::Idle,
            last_scan: None,
            scan_range: (start, end),
            status_message: string_from("Press 's' to start scanning, 'c' for continuous mode"),
            should_quit: false,
            scanned_count: 0,
            total_count: 0,
            spinner_index: 0,
            current_scanning_ip: None,
            continuous_mode: false,
            scan_interval_secs: 10,
            wait_started: None,
            current_view: View::Main,
            range_input_start: start.to_string(),
            range_input_end: end.to_string(),
            range_input_field: RangeInputField::Start,
            range_input_error: None,
            range_input_cursor: 0,
        }
    }

    /// The hosts .1 to .254 of the /24 of `ip`.
    pub fn calculate_scan_range(ip: Ipv4Addr) -> (r: (Ipv4Addr, Ipv4Addr))
        ensures
            r.0@ == scan_range_of(ip@).0,
            r.1@ == scan_range_of(ip@).1,
    {
        let o = ip.octets();
        proof {
            lemma_octets(ip@);
        }
        (Ipv4Addr::new(o[0], o[1], o[2], 1), Ipv4Addr::new(o[0], o[1], o[2], 254))
    }

    /// Moves the selection down, wrapping to the top.
    pub fn select_next(&mut self)
        requires
            old(self).devices@.len() > 0 ==> old(self).selected_index < usize::MAX,
        ensures
            select_next_post(*old(self), *final(self)),
    {
        if self.devices.len() > 0 {
            self.selected_index = (self.selected_index + 1) % self.devices.len();
        }
    }

    /// Moves the selection up, wrapping to the bottom.
    pub fn select_previous(&mut self)
        ensures
            select_previous_post(*old(self), *final(self)),
    {
        if self.devices.len() > 0 {
            self.selected_index = if self.selected_index == 0 {
                self.devices.len() - 1
            } else {
                self.selected_index - 1
            };
        }
    }

    /// Records a device that answered: refreshes a listed device with the
    /// same address, or adds it and keeps the list sorted by address.
    pub fn add_device(&mut self, device: Device)
        ensures
            add_device_post(*old(self), *final(self), device),
    {
        proof {
            lemma_find_device(self.devices@, device.ip);
        }
        match find_device_index(&self.devices, device.ip) {
            Some(i) => {
                let old_device = self.devices.remove(i);
                let updated = Device {
                    last_seen: device.last_seen,
                    response_time: device.response_time,
                    is_new: false,
                    ..old_device
                };
                self.devices.insert(i, updated);
                assert(self.devices@ =~= devices_after_add(old(self).devices@, device));
            },
            None => {
                self.devices.push(device);
                sort_devices_by_ip(&mut self.devices);
            },
        }
    }

    /// Sets the hostname of the first device with address `ip`, if listed.
    pub fn update_device_hostname(&mut self, ip: Ipv4Addr, hostname: Option<String>)
        ensures
            update_hostname_post(*old(self), *final(self), ip, hostname),
    {
        proof {
            lemma_find_device(self.devices@, ip);
        }
        match find_device_index(&self.devices, ip) {
            Some(i) => {
                let old_device = self.devices.remove(i);
                let updated = Device { hostname, ..old_device };
                self.devices.insert(i, updated);
                assert(self.devices@ =~= devices_with_hostname(old(self).devices@, ip, hostname));
            },
            None => {},
        }
    }

    /// Sets the vendor of the first device with address `ip`, if listed.
    pub fn update_device_vendor(&mut self, ip: Ipv4Addr, vendor: Option<String>)
        ensures
            update_vendor_post(*old(self), *final(self), ip, vendor),
    {
        proof {
            lemma_find_device(self.devices@, ip);
        }
        match find_device_index(&self.devices, ip) {
            Some(i) => {
                let old_device = self.devices.remove(i);
                let updated = Device { vendor, ..old_device };
                self.devices.insert(i, updated);
                assert(self.devices@ =~= devices_with_vendor(old(self).devices@, ip, vendor));
            },
            None => {},
        }
    }

    /// Forgets all devices and resets the selection.
    pub fn clear_devices(&mut self)
        ensures
            clear_devices_post(*old(self), *final(self)),
    {
        self.devices.clear();
        self.selected_index = 0;
    }

    /// Whole seconds since the last completed scan, if any scan completed.
    /// The number read depends on the clock.
    pub fn time_since_last_scan(&self) -> (r: Option<u64>)
        ensures
            r is Some <==> self.last_scan is Some,
    {
        match &self.last_scan {
            Some(t) => {
                let d = elapsed_since(t);
                Some(whole_seconds(&d))
            },
            None => None,
        }
    }

    /// The /24 of the start of the scan range, as `"a.b.c.0/24"`.
    pub fn scan_range_cidr(&self) -> (r: String)
        ensures
            r@ == cidr24_text(self.scan_range.0@),
    {
        let o = self.scan_range.0.octets();
        let mut s = String::new();
        push_decimal(&mut s, o[0] as u64);
        push_char(&mut s, '.');
        push_decimal(&mut s, o[1] as u64);
        push_char(&mut s, '.');
        push_decimal(&mut s, o[2] as u64);
        push_str(&mut s, ".0/24");
        assert(s@ =~= cidr24_text(self.scan_range.0@));
        s
    }

    /// Records scan progress.
    pub fn update_progress(&mut self, scanned: usize, total: usize, current_ip: Option<Ipv4Addr>)
        ensures
            update_progress_post(*old(self), *final(self), scanned, total, current_ip),
    {
        self.scanned_count = scanned;
        self.total_count = total;
        self.current_scanning_ip = current_ip;
    }

    /// Advances the spinner by one of its ten frames.
    pub fn tick_spinner(&mut self)
        requires
            old(self).spinner_index < usize::MAX,
        ensures
            tick_spinner_post(*old(self), *final(self)),
    {
        self.spinner_index = (self.spinner_index + 1) % 10;
    }

    /// The current spinner frame.
    pub fn spinner_char(&self) -> (r: char)
        requires
            self.spinner_index < 10,
        ensures
            r == spinner_frame(self.spinner_index as int),
    {
        let i = self.spinner_index;
        if i == 0 {
            '\u{280B}'
        } else if i == 1 {
            '\u{2819}'
        } else if i == 2 {
            '\u{2839}'
        } else if i == 3 {
            '\u{2838}'
        } else if i == 4 {
            '\u{283C}'
        } else if i == 5 {
            '\u{2834}'
        } else if i == 6 {
            '\u{2826}'
        } else if i == 7 {
            '\u{2827}'
        } else if i == 8 {
            '\u{2807}'
        } else {
            '\u{280F}'
        }
    }

    /// Scan progress in whole percent (0 when nothing is to be scanned).
    pub fn progress_percent(&self) -> (r: usize)
        requires
            self.scanned_count * 100 <= usize::MAX,
        ensures
            r == (if self.total_count == 0 {
                0
            } else {
                (self.scanned_count * 100) / self.total_count as int
            }),
    {
        if self.total_count == 0 {
            0
        } else {
            (self.scanned_count * 100) / self.total_count
        }
    }

    /// Seconds left before the next round of continuous scanning (0 when
    /// not waiting).  The number read depends on the clock.
    pub fn wait_remaining_secs(&self) -> (r: u64)
        ensures
            self.wait_started is None ==> r == 0,
            self.wait_started is Some ==> exists|elapsed: u64|
                r == #[trigger] remaining_after(self.scan_interval_secs, elapsed),
            r <= self.scan_interval_secs,
    {
        match &self.wait_started {
            Some(started) => {
                let d = elapsed_since(started);
                let elapsed = whole_seconds(&d);
                let r = remaining_wait(self.scan_interval_secs, elapsed);
                assert(r == remaining_after(self.scan_interval_secs, elapsed));
                r
            },
            None => 0,
        }
    }

    /// The selected device, if the selection is within the list.
    pub fn selected_device(&self) -> (r: Option<&Device>)
        ensures
            r == (if self.selected_index < self.devices@.len() {
                Some(&self.devices@[self.selected_index as int])
            } else {
                None
            }),
    {
        if self.selected_index < self.devices.len() {
            Some(&self.devices[self.selected_index])
        } else {
            None
        }
    }

    /// Opens the range dialog on the current scan range, focus on the
    /// start field with the cursor at its end.
    pub fn open_range_input(&mut self)
        ensures
            open_range_input_post(*old(self), *final(self)),
    {
        self.range_input_start = self.scan_range.0.to_string();
        self.range_input_end = self.scan_range.1.to_string();
        self.range_input_field = RangeInputField::Start;
        self.range_input_cursor = string_byte_len(&self.range_input_start);
        self.range_input_error = None;
        self.current_view = View::RangeInput;
    }

    /// Moves the focus to the other range field, cursor at its end.
    pub fn toggle_range_input_field(&mut self)
        ensures
            toggle_field_post(*old(self), *final(self)),
    {
        self.range_input_field = match self.range_input_field {
            RangeInputField::Start => {
                self.range_input_cursor = string_byte_len(&self.range_input_end);
                RangeInputField::End
            },
            RangeInputField::End => {
                self.range_input_cursor = string_byte_len(&self.range_input_start);
                RangeInputField::Start
            },
        };
    }

    /// Applies the range dialog: a CIDR block in the start field, or a
    /// start and an end address.  On success the scan range is set, the
    /// dialog closes and the status line names the range; on failure the
    /// dialog shows why.
    pub fn apply_range_input(&mut self) -> (r: bool)
        ensures
            apply_range_input_post(*old(self), *final(self), r),
    {
        let start_chars = chars_of(self.range_input_start.as_str());
        if find_char(&start_chars, '/').is_some() {
            match Self::parse_cidr(self.range_input_start.as_str()) {
                Ok((start, end)) => {
                    self.set_range(start, end);
                    return true;
                },
                Err(e) => {
                    self.range_input_error = Some(e);
                    return false;
                },
            }
        }
        let start = Ipv4Addr::parse(self.range_input_start.as_str());
        let end = Ipv4Addr::parse(self.range_input_end.as_str());
        match (start, end) {
            (Some(s), Some(e)) => {
                if s.to_bits() > e.to_bits() {
                    self.range_input_error = Some(string_from("Start must be <= End"));
                    false
                } else {
                    self.set_range(s, e);
                    true
                }
            },
            (None, _) => {
                self.range_input_error = Some(string_from("Invalid start IP"));
                false
            },
            (_, None) => {
                self.range_input_error = Some(string_from("Invalid end IP"));
                false
            },
        }
    }

    /// Sets the scan range, closes the dialog and reports the range.
    fn set_range(&mut self, start: Ipv4Addr, end: Ipv4Addr)
        ensures
            final(self).status_message@ == range_set_text(start@, end@),
            *final(self) == (App {
                scan_range: (start, end),
                range_input_error: None,
                current_view: View::Main,
                status_message: final(self).status_message,
                ..*old(self)
            }),
    {
        self.scan_range = (start, end);
        self.range_input_error = None;
        self.current_view = View::Main;
        let mut msg = string_from("Range set: ");
        start.push_text(&mut msg);
        push_str(&mut msg, " - ");
        end.push_text(&mut msg);
        assert(msg@ =~= range_set_text(start@, end@));
        self.status_message = msg;
    }

    /// The host range of a CIDR block given as `"address/prefix"`, or why
    /// the text is not one.
    pub fn parse_cidr(cidr: &str) -> (r: Result<(Ipv4Addr, Ipv4Addr), String>)
        ensures
            match cidr_outcome(cidr@) {
                Ok((s, e)) => r matches Ok((a, b)) && a@ == s && b@ == e,
                Err(m) => r matches Err(msg) && msg@ == m,
            },
    {
        let cs = chars_of(cidr);
        let parts = split_chars(&cs, '/');
        if parts.len() != 2 {
            return Err(string_from("Invalid CIDR format"));
        }
        proof {
            assert(views_of(parts@)[0] == parts@[0]@);
            assert(views_of(parts@)[1] == parts@[1]@);
        }
        let ip = match Ipv4Addr::parse_chars(&parts[0]) {
            Some(ip) => ip,
            None => return Err(string_from("Invalid IP address")),
        };
        let prefix = match parse_u8_chars(&parts[1]) {
            Some(p) => p,
            None => return Err(string_from("Invalid prefix length")),
        };
        if prefix > 32 {
            return Err(string_from("Prefix must be 0-32"));
        }
        proof {
            lemma_block_bounds(ip@, prefix as nat);
        }
        let (start, end) = cidr_host_range(ip.to_bits(), prefix);
        Ok((Ipv4Addr::from_bits(start), Ipv4Addr::from_bits(end)))
    }

    /// Types `c` into the focused range field at the cursor and moves the
    /// cursor one byte right.
    pub fn range_input_push(&mut self, c: char)
        requires
            old(self).range_input_cursor < usize::MAX,
            cursor_editable(*old(self)),
        ensures
            range_input_push_post(*old(self), *final(self), c),
    {
        let cursor = self.range_input_cursor;
        match self.range_input_field {
            RangeInputField::Start => {
                let len = string_byte_len(&self.range_input_start);
                if cursor >= len {
                    push_char(&mut self.range_input_start, c);
                } else {
                    string_insert(&mut self.range_input_start, cursor, c);
                }
            },
            RangeInputField::End => {
                let len = string_byte_len(&self.range_input_end);
                if cursor >= len {
                    push_char(&mut self.range_input_end, c);
                } else {
                    string_insert(&mut self.range_input_end, cursor, c);
                }
            },
        }
        self.range_input_cursor = cursor + 1;
        self.range_input_error = None;
    }

    /// Erases the character before the cursor in the focused range field
    /// and moves the cursor one byte left; nothing happens at position 0.
    pub fn range_input_pop(&mut self)
        requires
            old(self).range_input_cursor > 0 ==> cursor_erasable(*old(self)),
        ensures
            range_input_pop_post(*old(self), *final(self)),
    {
        let cursor = self.range_input_cursor;
        if cursor == 0 {
            return;
        }
        proof {
            if cursor < byte_len(active_text(*old(self))) {
                crate::text::lemma_char_at_byte_is_prefix(active_text(*old(self)), cursor - 1);
                let t = active_text(*old(self));
                assert(t.take(t.len() as int) =~= t);
            }
        }
        match self.range_input_field {
            RangeInputField::Start => {
                let len = string_byte_len(&self.range_input_start);
                if cursor >= len {
                    string_pop(&mut self.range_input_start);
                } else {
                    string_remove(&mut self.range_input_start, cursor - 1);
                }
            },
            RangeInputField::End => {
                let len = string_byte_len(&self.range_input_end);
                if cursor >= len {
                    string_pop(&mut self.range_input_end);
                } else {
                    string_remove(&mut self.range_input_end, cursor - 1);
                }
            },
        }
        self.range_input_cursor = cursor - 1;
        self.range_input_error = None;
    }

    /// Moves the range-dialog cursor one byte left, if not at 0.
    pub fn range_input_cursor_left(&mut self)
        ensures
            cursor_left_post(*old(self), *final(self)),
    {
        if self.range_input_cursor > 0 {
            self.range_input_cursor = self.range_input_cursor - 1;
        }
    }

    /// Moves the range-dialog cursor one byte right, up to the end of the
    /// focused text.
    pub fn range_input_cursor_right(&mut self)
        ensures
            cursor_right_post(*old(self), *final(self)),
    {
        let len = match self.range_input_field {
            RangeInputField::Start => string_byte_len(&self.range_input_start),
            RangeInputField::End => string_byte_len(&self.range_input_end),
        };
        if self.range_input_cursor < len {
            self.range_input_cursor = self.range_input_cursor + 1;
        }
    }
}

} // verus!
