//! The decisions of a scan: which addresses are pinged and in which
//! batches, the `ping` command line, the reverse-lookup query and which
//! hostname to keep, the vendor query and which reply to keep, and the
//! vendor lookup in the OUI database.

use vstd::prelude::*;
use std::collections::HashMap;
use std::time::Duration;
use mac_oui::Oui;
use crate::device::Device;
use crate::ipv4::{Ipv4Addr, ipv4_text, octets_value};
use crate::text::{decimal_text, push_decimal, push_str, string_from};

verus! {

/// Pings hosts through the system `ping` command, a batch at a time.
pub struct PingScanner {
    timeout_ms: u64,
    concurrency: usize,
}

/// The addresses from `start` to `end` (none when `start` is after `end`).
pub open spec fn ip_range(start: u32, end: u32) -> Seq<u32> {
    Seq::new(
        (if start <= end {
            end - start + 1
        } else {
            0
        }) as nat,
        |i: int| (start + i) as u32,
    )
}

/// The pieces of `s` of `n` items each, in order, the last one possibly
/// shorter (`slice::chunks`).
pub open spec fn chunks_of<A>(s: Seq<A>, n: nat) -> Seq<Seq<A>>
    decreases s.len(),
{
    if s.len() == 0 {
        Seq::empty()
    } else if s.len() <= n || n == 0 {
        seq![s]
    } else {
        seq![s.take(n as int)] + chunks_of(s.skip(n as int), n)
    }
}

/// The address numbers of a sequence of addresses.
pub open spec fn bits_of(s: Seq<Ipv4Addr>) -> Seq<u32> {
    s.map_values(|a: Ipv4Addr| a@)
}

/// The address numbers of each batch.
pub open spec fn batches_bits(b: Seq<Vec<Ipv4Addr>>) -> Seq<Seq<u32>> {
    b.map_values(|v: Vec<Ipv4Addr>| bits_of(v@))
}

/// How many whole seconds `ping` waits for a reply: the timeout in whole
/// seconds, at least one.
pub open spec fn ping_wait_secs(timeout_ms: u64) -> u64 {
    if timeout_ms / 1000 > 1 {
        (timeout_ms / 1000) as u64
    } else {
        1
    }
}

impl PingScanner {
    /// The scanner pings in batches of at least one host.
    #[verifier::type_invariant]
    spec fn batches_nonempty(self) -> bool {
        self.concurrency > 0
    }

    /// How long a ping waits for a reply, in milliseconds.
    pub closed spec fn timeout_ms_spec(self) -> u64 {
        self.timeout_ms
    }

    /// How many hosts are pinged at once.
    pub closed spec fn concurrency_spec(self) -> usize {
        self.concurrency
    }

    /// A scanner with a 500 ms timeout that pings 50 hosts at once.
    pub fn new() -> (r: PingScanner)
        ensures
            r.timeout_ms_spec() == 500,
            r.concurrency_spec() == 50,
    {
        PingScanner { timeout_ms: 500, concurrency: 50 }
    }

    /// How long a ping waits for a reply, in milliseconds.
    pub fn timeout_ms(&self) -> (r: u64)
        ensures
            r == self.timeout_ms_spec(),
    {
        self.timeout_ms
    }

    /// How many hosts are pinged at once (at least one).
    pub fn concurrency(&self) -> (r: usize)
        ensures
            r == self.concurrency_spec(),
            r > 0,
    {
        proof {
            use_type_invariant(self);
        }
        self.concurrency
    }

    /// The addresses from `start` to `end`, in order (none when `start` is
    /// after `end`).
    pub fn generate_ip_range(start: Ipv4Addr, end: Ipv4Addr) -> (r: Vec<Ipv4Addr>)
        ensures
            bits_of(r@) == ip_range(start@, end@),
    {
        let mut v: Vec<Ipv4Addr> = Vec::new();
        let s = start.to_bits();
        let e = end.to_bits();
        if s > e {
            assert(bits_of(v@) =~= ip_range(s, e));
            return v;
        }
        let mut cur: u32 = s;
        loop
            invariant_except_break
                v@.len() == cur - s,
            invariant
                s <= cur <= e,
                forall|i: int| 0 <= i < v@.len() ==> #[trigger] v@[i]@ == s + i,
            ensures
                v@.len() == e - s + 1,
                forall|i: int| 0 <= i < v@.len() ==> #[trigger] v@[i]@ == s + i,
            decreases e - cur,
        {
            v.push(Ipv4Addr::from_bits(cur));
            if cur == e {
                break;
            }
            cur = cur + 1;
        }
        assert(bits_of(v@) =~= ip_range(s, e));
        v
    }

    /// The addresses from `start` to `end` in the batches that are pinged
    /// together: `concurrency` addresses each, the last batch possibly
    /// smaller.
    pub fn scan_batches(&self, start: Ipv4Addr, end: Ipv4Addr) -> (r: Vec<Vec<Ipv4Addr>>)
        ensures
            batches_bits(r@) == chunks_of(ip_range(start@, end@), self.concurrency_spec() as nat),
    {
        proof {
            use_type_invariant(self);
        }
        let ips = Self::generate_ip_range(start, end);
        let n = self.concurrency;
        let len = ips.len();
        let ghost all = bits_of(ips@);
        let mut batches: Vec<Vec<Ipv4Addr>> = Vec::new();
        let mut j: usize = 0;
        assert(all.skip(0) =~= all);
        while j < len
            invariant
                n > 0,
                len == ips@.len(),
                all == bits_of(ips@),
                j <= len,
                chunks_of(all, n as nat) == batches_bits(batches@) + chunks_of(
                    all.skip(j as int),
                    n as nat,
                ),
            decreases len - j,
        {
            let stop = if len - j > n {
                j + n
            } else {
                len
            };
            let mut batch: Vec<Ipv4Addr> = Vec::new();
            for k in j..stop
                invariant
                    stop <= len,
                    len == ips@.len(),
                    bits_of(batch@) == all.subrange(j as int, k as int),
                    all == bits_of(ips@),
                    all.len() == len,
                    j <= k,
                    batch@.len() == k - j,
            {
                assert(all[k as int] == ips@[k as int]@);
                let ghost prev = batch@;
                batch.push(ips[k]);
                assert forall|t: int| 0 <= t < batch@.len() implies bits_of(batch@)[t]
                    == all.subrange(j as int, k + 1)[t] by {
                    if t < prev.len() {
                        assert(batch@[t] == prev[t]);
                        assert(bits_of(prev)[t] == all.subrange(j as int, k as int)[t]);
                    }
                }
                assert(bits_of(batch@) =~= all.subrange(j as int, k + 1));
            }
            proof {
                let rest = all.skip(j as int);
                if len - j > n {
                    assert(rest.take(n as int) =~= all.subrange(j as int, stop as int));
                    assert(rest.skip(n as int) =~= all.skip(stop as int));
                } else {
                    assert(rest =~= all.subrange(j as int, stop as int));
                    assert(all.skip(stop as int) =~= Seq::<u32>::empty());
                }
            }
            let ghost before = batches@;
            batches.push(batch);
            assert(batches_bits(batches@) =~= batches_bits(before).push(bits_of(batch@)));
            j = stop;
        }
        assert(all.skip(len as int) =~= Seq::<u32>::empty());
        assert(batches_bits(batches@) + chunks_of(Seq::<u32>::empty(), n as nat) =~= batches_bits(
            batches@,
        ));
        batches
    }

    /// How many whole seconds `ping` waits for a reply (at least one).
    pub fn ping_wait_secs(&self) -> (r: u64)
        ensures
            r == ping_wait_secs(self.timeout_ms_spec()),
    {
        let t = self.timeout_ms / 1000;
        if t > 1 {
            t
        } else {
            1
        }
    }

    /// The arguments of the `ping` command for one host: one echo request,
    /// waiting `ping_wait_secs` seconds.
    pub fn ping_args(&self, ip: Ipv4Addr) -> (r: Vec<String>)
        ensures
            r@.len() == 5,
            r@[0]@ == "-c"@,
            r@[1]@ == "1"@,
            r@[2]@ == "-W"@,
            r@[3]@ == decimal_text(ping_wait_secs(self.timeout_ms_spec()) as nat),
            r@[4]@ == ipv4_text(ip@),
    {
        let mut wait = String::new();
        push_decimal(&mut wait, self.ping_wait_secs());
        assert(wait@ =~= decimal_text(ping_wait_secs(self.timeout_ms_spec()) as nat));
        let mut r: Vec<String> = Vec::new();
        r.push(string_from("-c"));
        r.push(string_from("1"));
        r.push(string_from("-W"));
        r.push(wait);
        r.push(ip.to_string());
        r
    }
}

impl Default for PingScanner {
    /// The same scanner as `PingScanner::new`.
    fn default() -> (r: PingScanner)
        ensures
            r.timeout_ms_spec() == 500,
            r.concurrency_spec() == 50,
    {
        PingScanner::new()
    }
}

/// The device that a ping found: one when the host answered, with the time
/// the answer took; none otherwise.
pub fn device_if_answered(ip: Ipv4Addr, answered: bool, elapsed: Duration) -> (r: Option<
    Device,
>)
    ensures
        answered <==> r is Some,
        r matches Some(d) ==> d.ip == ip && d.response_time == elapsed && d.mac is None
            && d.hostname is None && d.vendor is None && d.is_new,
{
    if answered {
        Some(Device::new(ip, elapsed))
    } else {
        None
    }
}

/// The MAC address of `ip` in an ARP table read before the scan.
pub fn cached_mac(table: &HashMap<u32, String>, ip: Ipv4Addr) -> (r: Option<String>)
    ensures
        r == table@.get(ip@),
{
    let key = ip.to_bits();
    proof {
        broadcast use vstd::std_specs::hash::group_hash_axioms;
    }
    match table.get(&key) {
        Some(mac) => Some(mac.clone()),
        None => None,
    }
}

/// A found device completed with its MAC address and the vendor of that
/// address in the OUI database (when there are both).
pub fn with_mac_and_vendor(device: Device, mac: Option<String>, db: Option<&Oui>) -> (r: Device)
    ensures
        r.mac == mac,
        (mac is None || db is None) ==> r.vendor is None,
        (mac is Some && db is Some) ==> (r.vendor is Some <==> has_vendor(*db->0, mac->0@)),
        (mac is Some && db is Some) ==> (r.vendor matches Some(v) ==> v@ == oui_companies(
            *db->0,
        )[mac_number(mac->0@)->0]),
        r.ip == device.ip,
        r.hostname == device.hostname,
        r.response_time == device.response_time,
        r.last_seen == device.last_seen,
        r.is_new == device.is_new,
{
    let vendor = match (&mac, db) {
        (Some(m), Some(d)) => lookup_vendor(d, m.as_str()),
        _ => None,
    };
    let mut device = device;
    device.mac = mac;
    device.vendor = vendor;
    device
}

// ---------------------------------------------------------------------------
// Hostnames
// ---------------------------------------------------------------------------

/// The host-and-port text resolved before a reverse lookup: the address
/// with port 0.
pub fn reverse_lookup_query(ip: Ipv4Addr) -> (r: String)
    ensures
        r@ == ipv4_text(ip@) + ":0"@,
{
    let mut s = ip.to_string();
    push_str(&mut s, ":0");
    s
}

/// The hostname that a reverse lookup found, kept unless it is only the
/// address again.
pub fn hostname_if_named(ip: Ipv4Addr, hostname: String) -> (r: Option<String>)
    ensures
        hostname@ == ipv4_text(ip@) ==> r is None,
        hostname@ != ipv4_text(ip@) ==> r == Some(hostname),
{
    let text = ip.to_string();
    if hostname == text {
        None
    } else {
        Some(hostname)
    }
}

// ---------------------------------------------------------------------------
// Vendors
// ---------------------------------------------------------------------------

/// The URL of the online vendor lookup for a MAC address.
pub fn vendor_lookup_url(mac: &str) -> (r: String)
    ensures
        r@ == "https://api.macvendors.com/"@ + mac@,
{
    let mut s = string_from("https://api.macvendors.com/");
    push_str(&mut s, mac);
    s
}

/// The vendor name in a reply of the online lookup: the body of a
/// successful reply, unless it is empty.
pub fn vendor_from_reply(success: bool, body: Option<String>) -> (r: Option<String>)
    ensures
        r == (if success && body is Some && body->0@.len() > 0 {
            body
        } else {
            None
        }),
{
    if success {
        match body {
            Some(text) => {
                if text.as_str().is_empty() {
                    None
                } else {
                    Some(text)
                }
            },
            None => None,
        }
    } else {
        None
    }
}

/// `mac_oui::Oui`, the OUI database, carried as an opaque value.
#[verifier::external_type_specification]
#[verifier::external_body]
pub struct ExOui(Oui);

/// The number (the six bytes, big-endian) of the MAC address that a text
/// denotes, as `Oui::lookup_by_mac` reads it (through the `macaddr`
/// crate's parser); `None` when the text is refused.
pub uninterp spec fn mac_number(mac: Seq<char>) -> Option<u64>;

/// What an OUI database holds: for each MAC number that one of its address
/// blocks covers, the name of the company that registered the block.
pub uninterp spec fn oui_companies(db: Oui) -> Map<u64, Seq<char>>;

/// `Oui::lookup_by_mac`, with the company name of a found entry taken out.
/// The MAC text is read as `mac_number`; a refused text gives an error
/// (whose message is not stated), else the company of the block that
/// covers the number, if the database has one.
#[verifier::external_body]
fn oui_company(db: &Oui, mac: &str) -> (r: Result<Option<String>, String>)
    ensures
        match r {
            Err(_) => mac_number(mac@) is None,
            Ok(found) => mac_number(mac@) matches Some(n) && match found {
                Some(name) => oui_companies(*db).contains_key(n) && name@ == oui_companies(
                    *db,
                )[n],
                None => !oui_companies(*db).contains_key(n),
            },
        },
{
    match db.lookup_by_mac(mac) {
        Ok(Some(entry)) => Ok(Some(entry.company_name.clone())),
        Ok(None) => Ok(None),
        Err(e) => Err(e),
    }
}

/// The vendor in an answer of the OUI database: the company of a found
/// entry; nothing when no entry matches or the MAC text is refused.
pub fn vendor_from_lookup(answer: Result<Option<String>, String>) -> (r: Option<String>)
    ensures
        r == (match answer {
            Ok(Some(name)) => Some(name),
            _ => None,
        }),
{
    match answer {
        Ok(Some(name)) => Some(name),
        _ => None,
    }
}

/// Whether the OUI database has a company for the MAC address a text
/// denotes.
pub open spec fn has_vendor(db: Oui, mac: Seq<char>) -> bool {
    mac_number(mac) matches Some(n) && oui_companies(db).contains_key(n)
}

/// The vendor of a MAC address in the OUI database, if it has one: the
/// company of the block that covers the address; none when the text is not
/// a MAC address or no block covers it.
pub fn lookup_vendor(db: &Oui, mac: &str) -> (r: Option<String>)
    ensures
        r is Some <==> has_vendor(*db, mac@),
        r matches Some(name) ==> name@ == oui_companies(*db)[mac_number(mac@)->0],
{
    let answer = oui_company(db, mac);
    vendor_from_lookup(answer)
}

/// The address whose /24 is scanned at start: the local IPv4 address, or
/// 192.168.1.1 when the local address is not IPv4.
pub fn scan_origin(local_v4: Option<Ipv4Addr>) -> (r: Ipv4Addr)
    ensures
        r@ == (match local_v4 {
            Some(ip) => ip@ as nat,
            None => octets_value(192, 168, 1, 1),
        }),
{
    match local_v4 {
        Some(ip) => ip,
        None => Ipv4Addr::new(192, 168, 1, 1),
    }
}

} // verus!
