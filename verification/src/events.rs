//! The decisions of the application loop: what each message of a running
//! scan and each key press do to the state, and what the loop must do next
//! (start a scan, schedule the next round, look a vendor up online).

use vstd::prelude::*;
use vstd::view::View as _;
use crate::app::{
    App, RangeInputField, ScanState, View, add_device_post, apply_range_input_post,
    clear_devices_post, cursor_editable, cursor_erasable, cursor_left_post, cursor_right_post,
    open_range_input_post, range_input_pop_post, range_input_push_post, select_next_post,
    select_previous_post, tick_spinner_post, toggle_field_post, update_hostname_post,
    update_progress_post, update_vendor_post,
};
use crate::device::{Device, instant_now};
use crate::ipv4::Ipv4Addr;
use crate::text::{decimal_text, push_decimal, push_str, string_from};

verus! {

/// A message from a running scan to the application loop.
pub enum ScanMessage {
    /// The scan is reading the ARP table.
    Initializing,
    /// The scan starts pinging.
    ScanStarted,
    /// A device answered (with its MAC address and vendor if known).
    Device(Device),
    /// The reverse lookup of a device found a hostname.
    UpdateDevice { ip: Ipv4Addr, hostname: Option<String> },
    /// The online lookup found the vendor of a device.
    UpdateVendor { ip: Ipv4Addr, vendor: String },
    /// One more address was pinged.
    Progress { scanned: usize, total: usize, current_ip: Ipv4Addr },
    /// All addresses were pinged.
    ScanComplete,
}

/// What the loop does after a scan message.
pub enum ScanFollowUp {
    Nothing,
    /// Continuous mode: start the next scan of `start..=end` after
    /// `delay_secs` seconds.
    RestartScan { delay_secs: u64, start: Ipv4Addr, end: Ipv4Addr },
}

/// A key press, as far as the application tells keys apart.
#[derive(Debug, Clone, Copy, PartialEq, Eq, Structural)]
pub enum Key {
    Char(char),
    Enter,
    Esc,
    Tab,
    Up,
    Down,
    Left,
    Right,
    Backspace,
    Other,
}

/// What the loop does after a key press.
pub enum KeyFollowUp {
    Nothing,
    /// Start scanning `start..=end`.
    StartScan { start: Ipv4Addr, end: Ipv4Addr },
    /// Look the vendor of the device at `ip` up online by its MAC address.
    LookupVendor { ip: Ipv4Addr, mac: String },
}

/// The status line after a scan ends outside continuous mode.
pub open spec fn found_text(n: nat) -> Seq<char> {
    "Found "@ + decimal_text(n) + " devices"@
}

/// The status line after the scan interval changes.
pub open spec fn interval_text(secs: nat) -> Seq<char> {
    "Interval: "@ + decimal_text(secs) + "s"@
}

/// What handling a scan message leaves, and what the loop does next.
pub open spec fn scan_message_post(
    old_app: App,
    new_app: App,
    msg: ScanMessage,
    out: ScanFollowUp,
) -> bool {
    match msg {
        ScanMessage::Initializing => {
            &&& new_app.status_message@ == "Loading ARP table..."@
            &&& new_app == (App {
                scan_state: ScanState::Scanning,
                status_message: new_app.status_message,
                ..old_app
            })
            &&& out is Nothing
        },
        ScanMessage::ScanStarted => {
            &&& if old_app.scan_state == ScanState::Idle && !old_app.continuous_mode {
                new_app == old_app
            } else {
                new_app == (App {
                    scan_state: ScanState::Scanning,
                    wait_started: None,
                    ..old_app
                })
            }
            &&& out is Nothing
        },
        ScanMessage::Device(d) => add_device_post(old_app, new_app, d) && out is Nothing,
        ScanMessage::UpdateDevice { ip, hostname } => update_hostname_post(
            old_app,
            new_app,
            ip,
            hostname,
        ) && out is Nothing,
        ScanMessage::UpdateVendor { ip, vendor } => update_vendor_post(
            old_app,
            new_app,
            ip,
            Some(vendor),
        ) && out is Nothing,
        ScanMessage::Progress { scanned, total, current_ip } => update_progress_post(
            old_app,
            new_app,
            scanned,
            total,
            Some(current_ip),
        ) && out is Nothing,
        ScanMessage::ScanComplete => {
            &&& new_app.last_scan is Some
            &&& if old_app.continuous_mode {
                &&& out == (ScanFollowUp::RestartScan {
                    delay_secs: old_app.scan_interval_secs,
                    start: old_app.scan_range.0,
                    end: old_app.scan_range.1,
                })
                &&& if old_app.scan_interval_secs > 0 {
                    &&& new_app.wait_started is Some
                    &&& new_app == (App {
                        last_scan: new_app.last_scan,
                        scan_state: ScanState::Waiting,
                        wait_started: new_app.wait_started,
                        ..old_app
                    })
                } else {
                    new_app == (App { last_scan: new_app.last_scan, ..old_app })
                }
            } else {
                &&& out is Nothing
                &&& new_app.status_message@ == found_text(old_app.devices@.len())
                &&& new_app == (App {
                    last_scan: new_app.last_scan,
                    scan_state: ScanState::Idle,
                    status_message: new_app.status_message,
                    ..old_app
                })
            }
        },
    }
}

/// A character that the range dialog accepts: a digit, `'.'` or `'/'`.
pub open spec fn range_char(c: char) -> bool {
    ('0' <= c && c <= '9') || c == '.' || c == '/'
}

/// The key can be handled without an arithmetic overflow or a text edit
/// off a character boundary.
pub open spec fn key_handleable(app: App, key: Key) -> bool {
    match app.current_view {
        View::Main => (key == Key::Down || key == Key::Char('j')) ==> (app.devices@.len() > 0
            ==> app.selected_index < usize::MAX),
        View::RangeInput => match key {
            Key::Char(c) => range_char(c) ==> app.range_input_cursor < usize::MAX
                && cursor_editable(app),
            Key::Backspace => app.range_input_cursor > 0 ==> cursor_erasable(app),
            _ => true,
        },
        _ => true,
    }
}

/// What a key press on the main view leaves, and what the loop does next.
pub open spec fn main_key_post(old_app: App, new_app: App, key: Key, out: KeyFollowUp) -> bool {
    if key == Key::Char('q') {
        new_app == (App { should_quit: true, ..old_app }) && out is Nothing
    } else if key == Key::Char('?') {
        new_app == (App { current_view: View::Help, ..old_app }) && out is Nothing
    } else if key == Key::Enter {
        if old_app.devices@.len() > 0 {
            &&& new_app == (App { current_view: View::DeviceDetail, ..old_app })
            &&& if old_app.selected_index < old_app.devices@.len() && old_app.devices@[old_app.selected_index as int].vendor is None
                && old_app.devices@[old_app.selected_index as int].mac is Some {
                out == (KeyFollowUp::LookupVendor {
                    ip: old_app.devices@[old_app.selected_index as int].ip,
                    mac: old_app.devices@[old_app.selected_index as int].mac->0,
                })
            } else {
                out is Nothing
            }
        } else {
            new_app == old_app && out is Nothing
        }
    } else if key == Key::Char('c') {
        &&& new_app.continuous_mode == !old_app.continuous_mode
        &&& if !old_app.continuous_mode {
            &&& new_app.status_message@ == "Continuous mode ON"@
            &&& if old_app.scan_state == ScanState::Idle {
                &&& new_app == (App {
                    continuous_mode: true,
                    status_message: new_app.status_message,
                    scan_state: ScanState::Scanning,
                    ..old_app
                })
                &&& out == (KeyFollowUp::StartScan {
                    start: old_app.scan_range.0,
                    end: old_app.scan_range.1,
                })
            } else {
                &&& new_app == (App {
                    continuous_mode: true,
                    status_message: new_app.status_message,
                    ..old_app
                })
                &&& out is Nothing
            }
        } else {
            &&& new_app.status_message@ == "Continuous mode OFF"@
            &&& out is Nothing
            &&& if old_app.scan_state == ScanState::Waiting {
                new_app == (App {
                    continuous_mode: false,
                    status_message: new_app.status_message,
                    scan_state: ScanState::Idle,
                    wait_started: None,
                    ..old_app
                })
            } else {
                new_app == (App {
                    continuous_mode: false,
                    status_message: new_app.status_message,
                    ..old_app
                })
            }
        }
    } else if key == Key::Char('s') {
        if old_app.scan_state == ScanState::Idle {
            &&& clear_devices_post(old_app, new_app)
            &&& out == (KeyFollowUp::StartScan {
                start: old_app.scan_range.0,
                end: old_app.scan_range.1,
            })
        } else {
            new_app == old_app && out is Nothing
        }
    } else if key == Key::Down || key == Key::Char('j') {
        select_next_post(old_app, new_app) && out is Nothing
    } else if key == Key::Up || key == Key::Char('k') {
        select_previous_post(old_app, new_app) && out is Nothing
    } else if key == Key::Char('+') || key == Key::Char('=') {
        let secs = if old_app.scan_interval_secs == u64::MAX {
            u64::MAX
        } else {
            (old_app.scan_interval_secs + 1) as u64
        };
        &&& new_app.status_message@ == interval_text(secs as nat)
        &&& new_app == (App {
            scan_interval_secs: secs,
            status_message: new_app.status_message,
            ..old_app
        })
        &&& out is Nothing
    } else if key == Key::Char('-') || key == Key::Char('_') {
        let secs = if old_app.scan_interval_secs == 0 {
            0
        } else {
            (old_app.scan_interval_secs - 1) as u64
        };
        &&& new_app.status_message@ == interval_text(secs as nat)
        &&& new_app == (App {
            scan_interval_secs: secs,
            status_message: new_app.status_message,
            ..old_app
        })
        &&& out is Nothing
    } else if key == Key::Char('r') {
        &&& if old_app.scan_state == ScanState::Idle {
            open_range_input_post(old_app, new_app)
        } else {
            new_app == old_app
        }
        &&& out is Nothing
    } else {
        new_app == old_app && out is Nothing
    }
}

/// What a key press in the range dialog leaves.
pub open spec fn range_key_post(old_app: App, new_app: App, key: Key) -> bool {
    match key {
        Key::Esc => new_app == (App { current_view: View::Main, ..old_app }),
        Key::Enter => exists|r: bool| apply_range_input_post(old_app, new_app, r),
        Key::Tab | Key::Down | Key::Up => toggle_field_post(old_app, new_app),
        Key::Left => cursor_left_post(old_app, new_app),
        Key::Right => cursor_right_post(old_app, new_app),
        Key::Backspace => range_input_pop_post(old_app, new_app),
        Key::Char(c) => if range_char(c) {
            range_input_push_post(old_app, new_app, c)
        } else {
            new_app == old_app
        },
        Key::Other => new_app == old_app,
    }
}

/// What a key press leaves, by view, and what the loop does next.
pub open spec fn key_post(old_app: App, new_app: App, key: Key, out: KeyFollowUp) -> bool {
    match old_app.current_view {
        View::Help => new_app == (App { current_view: View::Main, ..old_app }) && out is Nothing,
        View::DeviceDetail => {
            &&& if key == Key::Esc || key == Key::Enter {
                new_app == (App { current_view: View::Main, ..old_app })
            } else {
                new_app == old_app
            }
            &&& out is Nothing
        },
        View::Main => main_key_post(old_app, new_app, key, out),
        View::RangeInput => range_key_post(old_app, new_app, key) && out is Nothing,
    }
}

impl App {
    /// Applies a message of a running scan to the state; in continuous
    /// mode a completed scan asks for the next one.
    pub fn handle_scan_message(&mut self, msg: ScanMessage) -> (out: ScanFollowUp)
        ensures
            scan_message_post(*old(self), *final(self), msg, out),
    {
        match msg {
            ScanMessage::Initializing => {
                self.scan_state = ScanState::Scanning;
                self.status_message = string_from("Loading ARP table...");
                ScanFollowUp::Nothing
            },
            ScanMessage::ScanStarted => {
                if self.scan_state == ScanState::Idle && !self.continuous_mode {
                    return ScanFollowUp::Nothing;
                }
                self.scan_state = ScanState::Scanning;
                self.wait_started = None;
                ScanFollowUp::Nothing
            },
            ScanMessage::Device(device) => {
                self.add_device(device);
                ScanFollowUp::Nothing
            },
            ScanMessage::UpdateDevice { ip, hostname } => {
                self.update_device_hostname(ip, hostname);
                ScanFollowUp::Nothing
            },
            ScanMessage::UpdateVendor { ip, vendor } => {
                self.update_device_vendor(ip, Some(vendor));
                ScanFollowUp::Nothing
            },
            ScanMessage::Progress { scanned, total, current_ip } => {
                self.update_progress(scanned, total, Some(current_ip));
                ScanFollowUp::Nothing
            },
            ScanMessage::ScanComplete => {
                self.last_scan = Some(instant_now());
                if self.continuous_mode {
                    let interval = self.scan_interval_secs;
                    let (start, end) = self.scan_range;
                    if interval > 0 {
                        self.scan_state = ScanState::Waiting;
                        self.wait_started = Some(instant_now());
                    }
                    ScanFollowUp::RestartScan { delay_secs: interval, start, end }
                } else {
                    self.scan_state = ScanState::Idle;
                    let mut msg = string_from("Found ");
                    push_decimal(&mut msg, self.devices.len() as u64);
                    push_str(&mut msg, " devices");
                    assert(msg@ =~= found_text(self.devices@.len()));
                    self.status_message = msg;
                    ScanFollowUp::Nothing
                }
            },
        }
    }

    /// Sets the scan interval and reports it on the status line.
    fn set_interval(&mut self, secs: u64)
        ensures
            final(self).status_message@ == interval_text(secs as nat),
            *final(self) == (App {
                scan_interval_secs: secs,
                status_message: final(self).status_message,
                ..*old(self)
            }),
    {
        self.scan_interval_secs = secs;
        let mut msg = string_from("Interval: ");
        push_decimal(&mut msg, secs);
        push_str(&mut msg, "s");
        assert(msg@ =~= interval_text(secs as nat));
        self.status_message = msg;
    }

    /// Handles a key press on the main view.
    fn handle_main_key(&mut self, key: Key) -> (out: KeyFollowUp)
        requires
            old(self).current_view == View::Main,
            key_handleable(*old(self), key),
        ensures
            main_key_post(*old(self), *final(self), key, out),
    {
        if key == Key::Char('q') {
            self.should_quit = true;
            KeyFollowUp::Nothing
        } else if key == Key::Char('?') {
            self.current_view = View::Help;
            KeyFollowUp::Nothing
        } else if key == Key::Enter {
            if self.devices.len() > 0 {
                self.current_view = View::DeviceDetail;
                match self.selected_device() {
                    Some(device) => {
                        if device.vendor.is_none() {
                            match &device.mac {
                                Some(mac) => {
                                    return KeyFollowUp::LookupVendor {
                                        ip: device.ip,
                                        mac: mac.clone(),
                                    };
                                },
                                None => {},
                            }
                        }
                    },
                    None => {},
                }
            }
            KeyFollowUp::Nothing
        } else if key == Key::Char('c') {
            self.continuous_mode = !self.continuous_mode;
            if self.continuous_mode {
                self.status_message = string_from("Continuous mode ON");
                if self.scan_state == ScanState::Idle {
                    self.scan_state = ScanState::Scanning;
                    let (start, end) = self.scan_range;
                    return KeyFollowUp::StartScan { start, end };
                }
            } else {
                self.status_message = string_from("Continuous mode OFF");
                if self.scan_state == ScanState::Waiting {
                    self.scan_state = ScanState::Idle;
                    self.wait_started = None;
                }
            }
            KeyFollowUp::Nothing
        } else if key == Key::Char('s') {
            if self.scan_state == ScanState::Idle {
                self.clear_devices();
                let (start, end) = self.scan_range;
                return KeyFollowUp::StartScan { start, end };
            }
            KeyFollowUp::Nothing
        } else if key == Key::Down || key == Key::Char('j') {
            self.select_next();
            KeyFollowUp::Nothing
        } else if key == Key::Up || key == Key::Char('k') {
            self.select_previous();
            KeyFollowUp::Nothing
        } else if key == Key::Char('+') || key == Key::Char('=') {
            let secs = self.scan_interval_secs.saturating_add(1);
            self.set_interval(secs);
            KeyFollowUp::Nothing
        } else if key == Key::Char('-') || key == Key::Char('_') {
            let secs = self.scan_interval_secs.saturating_sub(1);
            self.set_interval(secs);
            KeyFollowUp::Nothing
        } else if key == Key::Char('r') {
            if self.scan_state == ScanState::Idle {
                self.open_range_input();
            }
            KeyFollowUp::Nothing
        } else {
            KeyFollowUp::Nothing
        }
    }

    /// Handles a key press in the range dialog.
    fn handle_range_key(&mut self, key: Key)
        requires
            old(self).current_view == View::RangeInput,
            key_handleable(*old(self), key),
        ensures
            range_key_post(*old(self), *final(self), key),
    {
        match key {
            Key::Esc => {
                self.current_view = View::Main;
            },
            Key::Enter => {
                let _ = self.apply_range_input();
            },
            Key::Tab | Key::Down | Key::Up => {
                self.toggle_range_input_field();
            },
            Key::Left => {
                self.range_input_cursor_left();
            },
            Key::Right => {
                self.range_input_cursor_right();
            },
            Key::Backspace => {
                self.range_input_pop();
            },
            Key::Char(c) => {
                if ('0' <= c && c <= '9') || c == '.' || c == '/' {
                    self.range_input_push(c);
                }
            },
            Key::Other => {},
        }
    }

    /// Handles a key press according to the view shown.
    pub fn handle_key(&mut self, key: Key) -> (out: KeyFollowUp)
        requires
            key_handleable(*old(self), key),
        ensures
            key_post(*old(self), *final(self), key, out),
    {
        match self.current_view {
            View::Help => {
                self.current_view = View::Main;
                KeyFollowUp::Nothing
            },
            View::DeviceDetail => {
                if key == Key::Esc || key == Key::Enter {
                    self.current_view = View::Main;
                }
                KeyFollowUp::Nothing
            },
            View::Main => self.handle_main_key(key),
            View::RangeInput => {
                self.handle_range_key(key);
                KeyFollowUp::Nothing
            },
        }
    }

    /// One frame of the loop: the spinner turns while a scan runs or waits.
    pub fn on_tick(&mut self)
        requires
            old(self).scan_state != ScanState::Idle ==> old(self).spinner_index < usize::MAX,
        ensures
            if old(self).scan_state == ScanState::Scanning || old(self).scan_state
                == ScanState::Waiting {
                tick_spinner_post(*old(self), *final(self))
            } else {
                *final(self) == *old(self)
            },
    {
        if self.scan_state == ScanState::Scanning || self.scan_state == ScanState::Waiting {
            self.tick_spinner();
        }
    }
}

} // verus!
