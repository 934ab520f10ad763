//! A device found on the network, and the device list kept in address
//! order.

use vstd::prelude::*;
use std::time::Duration;
use std::time::Instant;
use crate::ipv4::Ipv4Addr;

verus! {

/// `std::time::Instant`, carried through the library as an opaque value.
#[verifier::external_type_specification]
#[verifier::external_body]
pub struct ExInstant(Instant);

/// Reads the clock (`Instant::now`).  Nothing is stated of the value: it
/// depends on the time of the call.
#[verifier::external_body]
pub(crate) fn instant_now() -> Instant {
    Instant::now()
}

/// A device that answered a ping.
#[derive(Debug)]
pub struct Device {
    pub ip: Ipv4Addr,
    pub mac: Option<String>,
    pub hostname: Option<String>,
    pub vendor: Option<String>,
    pub response_time: Duration,
    pub last_seen: Instant,
    pub is_new: bool,
}

impl Device {
    /// A newly seen device: no MAC, hostname or vendor yet, seen now.
    pub fn new(ip: Ipv4Addr, response_time: Duration) -> (r: Device)
        ensures
            r.ip == ip,
            r.response_time == response_time,
            r.mac is None,
            r.hostname is None,
            r.vendor is None,
            r.is_new,
    {
        Device {
            ip,
            mac: None,
            hostname: None,
            vendor: None,
            response_time,
            last_seen: instant_now(),
            is_new: true,
        }
    }
}

/// A copy of an optional text.
fn clone_text(t: &Option<String>) -> (r: Option<String>)
    ensures
        r == *t,
{
    match t {
        Some(s) => Some(s.clone()),
        None => None,
    }
}

impl Clone for Device {
    /// A field-by-field copy.
    fn clone(&self) -> (r: Device)
        ensures
            r == *self,
    {
        Device {
            ip: self.ip,
            mac: clone_text(&self.mac),
            hostname: clone_text(&self.hostname),
            vendor: clone_text(&self.vendor),
            response_time: self.response_time,
            last_seen: self.last_seen,
            is_new: self.is_new,
        }
    }
}

// ---------------------------------------------------------------------------
// Looking a device up by address
// ---------------------------------------------------------------------------

/// The index of the first device with address `ip`, if any.
pub open spec fn find_device(s: Seq<Device>, ip: Ipv4Addr) -> Option<int>
    decreases s.len(),
{
    if s.len() == 0 {
        None
    } else if s[0].ip == ip {
        Some(0)
    } else {
        match find_device(s.drop_first(), ip) {
            Some(i) => Some(i + 1),
            None => None,
        }
    }
}

/// `find_device` finds the first device with the address, and misses only
/// when there is none.
pub proof fn lemma_find_device(s: Seq<Device>, ip: Ipv4Addr)
    ensures
        match find_device(s, ip) {
            Some(i) => 0 <= i < s.len() && s[i].ip == ip && forall|j: int|
                0 <= j < i ==> s[j].ip != ip,
            None => forall|j: int| 0 <= j < s.len() ==> s[j].ip != ip,
        },
    decreases s.len(),
{
    if s.len() > 0 && s[0].ip != ip {
        let t = s.drop_first();
        lemma_find_device(t, ip);
        match find_device(t, ip) {
            Some(i) => {
                assert forall|j: int| 0 <= j < i + 1 implies s[j].ip != ip by {
                    if j > 0 {
                        assert(s[j] == t[j - 1]);
                    }
                }
            },
            None => {
                assert forall|j: int| 0 <= j < s.len() implies s[j].ip != ip by {
                    if j > 0 {
                        assert(s[j] == t[j - 1]);
                    }
                }
            },
        }
    }
}

/// The first device with address `ip` in a vector.
pub fn find_device_index(v: &Vec<Device>, ip: Ipv4Addr) -> (r: Option<usize>)
    ensures
        match r {
            Some(i) => find_device(v@, ip) == Some(i as int),
            None => find_device(v@, ip) is None,
        },
{
    proof {
        lemma_find_device(v@, ip);
    }
    for i in 0..v.len()
        invariant
            forall|j: int| 0 <= j < i ==> v@[j].ip != ip,
    {
        if v[i].ip == ip {
            proof {
                lemma_find_device(v@, ip);
                match find_device(v@, ip) {
                    Some(k) => {
                        if k < i {
                        } else if k > i {
                        }
                    },
                    None => {},
                }
            }
            return Some(i);
        }
    }
    None
}

// ---------------------------------------------------------------------------
// Keeping the list in address order
// ---------------------------------------------------------------------------

/// Where a device with address number `key` goes in `s` when the list is
/// sorted stably: after the last device whose address is not greater.
/// (Scanning from the end, skip the devices with a greater address.)
pub open spec fn insert_pos(s: Seq<Device>, key: u32) -> int
    decreases s.len(),
{
    if s.len() == 0 {
        0
    } else if key < s.last().ip@ {
        insert_pos(s.drop_last(), key)
    } else {
        s.len() as int
    }
}

/// The devices of `s`, stably sorted by address: devices with the same
/// address keep their relative order.
pub open spec fn sort_by_ip(s: Seq<Device>) -> Seq<Device>
    decreases s.len(),
{
    if s.len() == 0 {
        s
    } else {
        let t = sort_by_ip(s.drop_last());
        t.insert(insert_pos(t, s.last().ip@), s.last())
    }
}

/// The devices are in address order.
pub open spec fn ips_sorted(s: Seq<Device>) -> bool {
    forall|i: int, j: int| 0 <= i <= j < s.len() ==> s[i].ip@ <= s[j].ip@
}

/// No two devices share an address.
pub open spec fn ips_unique(s: Seq<Device>) -> bool {
    forall|i: int, j: int| 0 <= i < j < s.len() ==> s[i].ip != s[j].ip
}

/// The insertion position splits `s`: the devices from it on have a greater
/// address, and the one before it does not.
pub proof fn lemma_insert_pos(s: Seq<Device>, key: u32)
    ensures
        0 <= insert_pos(s, key) <= s.len(),
        forall|i: int| insert_pos(s, key) <= i < s.len() ==> key < #[trigger] s[i].ip@,
        insert_pos(s, key) > 0 ==> s[insert_pos(s, key) - 1].ip@ <= key,
    decreases s.len(),
{
    if s.len() > 0 && key < s.last().ip@ {
        let d = s.drop_last();
        lemma_insert_pos(d, key);
        assert forall|i: int| insert_pos(s, key) <= i < s.len() implies key < #[trigger] s[i].ip@ by {
            if i < s.len() - 1 {
                assert(s[i] == d[i]);
            }
        }
    }
}

/// In a list in address order, everything before the insertion position has
/// an address that is not greater.
pub proof fn lemma_insert_pos_sorted(s: Seq<Device>, key: u32)
    requires
        ips_sorted(s),
    ensures
        forall|i: int| 0 <= i < insert_pos(s, key) ==> #[trigger] s[i].ip@ <= key,
{
    lemma_insert_pos(s, key);
    let p = insert_pos(s, key);
    assert forall|i: int| 0 <= i < p implies #[trigger] s[i].ip@ <= key by {
        assert(s[i].ip@ <= s[p - 1].ip@);
    }
}

/// Stable sorting yields a list in address order.
pub proof fn lemma_sort_by_ip_sorted(s: Seq<Device>)
    ensures
        ips_sorted(sort_by_ip(s)),
        sort_by_ip(s).len() == s.len(),
    decreases s.len(),
{
    if s.len() > 0 {
        let t = sort_by_ip(s.drop_last());
        lemma_sort_by_ip_sorted(s.drop_last());
        let x = s.last();
        let p = insert_pos(t, x.ip@);
        lemma_insert_pos(t, x.ip@);
        lemma_insert_pos_sorted(t, x.ip@);
        let r = t.insert(p, x);
        assert forall|i: int, j: int| 0 <= i <= j < r.len() implies r[i].ip@ <= r[j].ip@ by {
            if i < p && j < p {
                assert(r[i] == t[i] && r[j] == t[j]);
            } else if i < p && j == p {
                assert(r[i] == t[i]);
            } else if i < p {
                assert(r[i] == t[i] && r[j] == t[j - 1]);
            } else if i == p && j == p {
            } else if i == p {
                assert(r[j] == t[j - 1]);
            } else {
                assert(r[i] == t[i - 1] && r[j] == t[j - 1]);
            }
        }
    }
}

/// Stable sorting only reorders: the same devices, each as often.
pub proof fn lemma_sort_by_ip_permutes(s: Seq<Device>)
    ensures
        sort_by_ip(s).to_multiset() == s.to_multiset(),
    decreases s.len(),
{
    broadcast use vstd::seq_lib::group_to_multiset_ensures;

    if s.len() > 0 {
        let d = s.drop_last();
        let t = sort_by_ip(d);
        lemma_sort_by_ip_permutes(d);
        lemma_sort_by_ip_sorted(d);
        let x = s.last();
        let p = insert_pos(t, x.ip@);
        lemma_insert_pos(t, x.ip@);
        let r = t.insert(p, x);
        assert(r.remove(p) =~= t);
        assert(r.to_multiset().remove(x) == t.to_multiset());
        assert(r.to_multiset().count(x) > 0) by {
            assert(r[p] == x);
            assert(r.contains(x));
        }
        assert(d.push(x) =~= s);
        assert(r.to_multiset() =~= t.to_multiset().insert(x));
    }
}

/// A list already in address order is left as it is by sorting.
pub proof fn lemma_sort_by_ip_of_sorted(s: Seq<Device>)
    requires
        ips_sorted(s),
    ensures
        sort_by_ip(s) == s,
    decreases s.len(),
{
    if s.len() > 0 {
        let d = s.drop_last();
        assert(ips_sorted(d)) by {
            assert forall|i: int, j: int| 0 <= i <= j < d.len() implies d[i].ip@ <= d[j].ip@ by {
                assert(d[i] == s[i] && d[j] == s[j]);
            }
        }
        lemma_sort_by_ip_of_sorted(d);
        let x = s.last();
        if d.len() > 0 {
            assert(d.last() == s[s.len() - 2]);
            assert(d.last().ip@ <= x.ip@);
        }
        assert(insert_pos(d, x.ip@) == d.len());
        assert(d.insert(d.len() as int, x) =~= s);
    }
}

/// Where a device with address number `key` goes in a vector.
fn insertion_position(v: &Vec<Device>, key: u32) -> (r: usize)
    ensures
        r == insert_pos(v@, key),
{
    let mut j: usize = v.len();
    assert(v@.take(j as int) =~= v@);
    while j > 0 && key < v[j - 1].ip.to_bits()
        invariant
            j <= v@.len(),
            insert_pos(v@, key) == insert_pos(v@.take(j as int), key),
        decreases j,
    {
        proof {
            let t = v@.take(j as int);
            assert(t.last() == v@[j - 1]);
            assert(t.drop_last() =~= v@.take(j - 1));
        }
        j = j - 1;
    }
    proof {
        if j > 0 {
            let t = v@.take(j as int);
            assert(t.last() == v@[j - 1]);
        } else {
            assert(v@.take(0) =~= Seq::<Device>::empty());
        }
    }
    j
}

/// Sorts a device vector stably by address.
pub fn sort_devices_by_ip(v: &mut Vec<Device>)
    ensures
        final(v)@ == sort_by_ip(old(v)@),
{
    let ghost orig = v@;
    let mut rest: Vec<Device> = Vec::new();
    std::mem::swap(v, &mut rest);
    let n = rest.len();
    assert(orig.take(0) =~= Seq::<Device>::empty());
    assert(orig.skip(0) =~= orig);
    for i in 0..n
        invariant
            n == orig.len(),
            v@ == sort_by_ip(orig.take(i as int)),
            rest@ == orig.skip(i as int),
    {
        let d = rest.remove(0);
        let pos = insertion_position(v, d.ip.to_bits());
        proof {
            lemma_insert_pos(v@, d.ip@);
            assert(orig.take(i + 1).drop_last() =~= orig.take(i as int));
            assert(orig.take(i + 1).last() == d);
            assert(rest@ =~= orig.skip(i + 1));
        }
        v.insert(pos, d);
    }
    assert(orig.take(n as int) =~= orig);
}

} // verus!
