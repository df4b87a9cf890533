//! The interface reporter: enumerates the host's configured network
//! interfaces, discards loopback entries, and builds one record per
//! surviving interface/address pair.
//!
//! The OS enumeration itself comes from the `if_addrs` crate through
//! trusted declarations; everything downstream of it is verified.

use vstd::prelude::*;

verus! {

/// One interface/address pair as the OS enumeration reported it:
/// the interface name, the textual IP address bound to it, and
/// whether the OS flags the pair as loopback.
#[derive(Debug)]
pub struct RawInterface {
    pub name: String,
    pub ip: String,
    pub loopback: bool,
}

/// One discovered, non-loopback network interface: its name, its
/// textual IP address, and its textual hardware address (or the
/// sentinel `"N/A"` when that could not be resolved).
#[derive(Debug)]
pub struct NetworkInterface {
    pub name: String,
    pub ip: String,
    pub mac: String,
}

/// The entries of `s` not flagged loopback, in order.
pub open spec fn keep_non_loopback(s: Seq<RawInterface>) -> Seq<RawInterface>
    decreases s.len(),
{
    if s.len() == 0 {
        Seq::<RawInterface>::empty()
    } else if s.last().loopback {
        keep_non_loopback(s.drop_last())
    } else {
        keep_non_loopback(s.drop_last()).push(s.last())
    }
}

/// Law: no entry that survives the filter is flagged loopback.
pub proof fn lemma_keep_non_loopback_sound(s: Seq<RawInterface>)
    ensures
        forall|i: int|
            0 <= i < keep_non_loopback(s).len() ==> !(#[trigger] keep_non_loopback(s)[i]).loopback,
    decreases s.len(),
{
    if s.len() > 0 {
        lemma_keep_non_loopback_sound(s.drop_last());
        let k = keep_non_loopback(s);
        let kd = keep_non_loopback(s.drop_last());
        if !s.last().loopback {
            assert forall|i: int| 0 <= i < k.len() implies !(#[trigger] k[i]).loopback by {
                if i < kd.len() {
                    assert(k[i] == kd[i]);
                } else {
                    assert(k[i] == s.last());
                }
            }
        }
    }
}

/// Law: an empty enumeration yields an empty report, not an error.
pub proof fn lemma_empty_enumeration(s: Seq<RawInterface>)
    ensures
        s.len() == 0 ==> keep_non_loopback(s) == Seq::<RawInterface>::empty(),
{
}

/// Drops every pair the OS flagged as loopback, keeping the rest in
/// the order the enumeration gave them.
pub fn filter_non_loopback(ifaces: Vec<RawInterface>) -> (r: Vec<RawInterface>)
    ensures
        r@ == keep_non_loopback(ifaces@),
{
    let mut r: Vec<RawInterface> = Vec::new();
    let mut i: usize = 0;
    while i < ifaces.len()
        invariant
            i <= ifaces@.len(),
            r@ == keep_non_loopback(ifaces@.take(i as int)),
        decreases ifaces@.len() - i,
    {
        proof {
            assert(ifaces@.take(i + 1).drop_last() =~= ifaces@.take(i as int));
            assert(ifaces@.take(i + 1).last() == ifaces@[i as int]);
        }
        if !ifaces[i].loopback {
            let entry = RawInterface {
                name: ifaces[i].name.clone(),
                ip: ifaces[i].ip.clone(),
                loopback: false,
            };
            proof {
                assert(entry == ifaces@[i as int]);
            }
            r.push(entry);
        }
        i = i + 1;
    }
    proof {
        assert(ifaces@.take(ifaces@.len() as int) =~= ifaces@);
    }
    r
}

/// The text recorded for an optional hardware address: the address
/// itself, or the sentinel.
pub open spec fn mac_or_sentinel(m: Option<String>) -> Seq<char> {
    match m {
        Some(s) => s@,
        None => "N/A"@,
    }
}

/// Builds the record for one surviving interface/address pair: an
/// unresolved hardware address becomes the sentinel `"N/A"`, never a
/// missing record.
pub fn make_record(iface: RawInterface, mac: Option<String>) -> (r: NetworkInterface)
    ensures
        r.name == iface.name,
        r.ip == iface.ip,
        r.mac@ == mac_or_sentinel(mac),
{
    let mac_text = match mac {
        Some(m) => m,
        None => {
            let mut s = String::new();
            s.append("N/A");
            s
        },
    };
    NetworkInterface { name: iface.name, ip: iface.ip, mac: mac_text }
}

/// Builds one record per surviving pair, in order, pairing each with
/// its resolved hardware address.
pub fn build_records(ifaces: Vec<RawInterface>, macs: Vec<Option<String>>) -> (r: Vec<
    NetworkInterface,
>)
    requires
        ifaces@.len() == macs@.len(),
    ensures
        r@.len() == ifaces@.len(),
        forall|i: int|
            0 <= i < r@.len() ==> (#[trigger] r@[i]).name == ifaces@[i].name && r@[i].ip
                == ifaces@[i].ip && r@[i].mac@ == mac_or_sentinel(macs@[i]),
{
    let mut r: Vec<NetworkInterface> = Vec::new();
    let mut i: usize = 0;
    while i < ifaces.len()
        invariant
            ifaces@.len() == macs@.len(),
            i <= ifaces@.len(),
            r@.len() == i,
            forall|j: int|
                0 <= j < i ==> (#[trigger] r@[j]).name == ifaces@[j].name && r@[j].ip
                    == ifaces@[j].ip && r@[j].mac@ == mac_or_sentinel(macs@[j]),
        decreases ifaces@.len() - i,
    {
        let entry = RawInterface {
            name: ifaces[i].name.clone(),
            ip: ifaces[i].ip.clone(),
            loopback: ifaces[i].loopback,
        };
        let mac = match &macs[i] {
            Some(m) => Some(m.clone()),
            None => None,
        };
        proof {
            assert(mac_or_sentinel(mac) == mac_or_sentinel(macs@[i as int]));
        }
        r.push(make_record(entry, mac));
        i = i + 1;
    }
    r
}

/// One interface/address pair as the `if_addrs` crate reports it.
#[verifier::external_type_specification]
#[verifier::external_body]
pub struct ExIfAddrsInterface(if_addrs::Interface);

/// Relies on `if_addrs::get_if_addrs`: enumerates the host's
/// configured interface/address pairs; `Err` when the OS query fails.
/// The outcome depends on ambient OS state, so nothing is promised
/// of it.
#[verifier::external_body]
fn query_os_interfaces() -> (r: Option<Vec<if_addrs::Interface>>) {
    if_addrs::get_if_addrs().ok()
}

/// Relies on the `name` field of `if_addrs::Interface`: the
/// OS-reported interface name.
#[verifier::external_body]
fn interface_name(i: &if_addrs::Interface) -> (r: String) {
    i.name.clone()
}

/// Relies on `if_addrs::Interface::ip` and std's `Display` for IP
/// addresses: the textual form of the address bound to the pair.
#[verifier::external_body]
fn interface_ip_text(i: &if_addrs::Interface) -> (r: String) {
    i.ip().to_string()
}

/// Relies on `if_addrs::Interface::is_loopback`: whether the OS
/// flags the pair's address as loopback.
#[verifier::external_body]
fn interface_is_loopback(i: &if_addrs::Interface) -> (r: bool) {
    i.is_loopback()
}

/// Queries the OS for all configured interface/address pairs and
/// discards those flagged loopback. Never fails: a failed OS query
/// degrades to an empty result. Whatever the OS reported, no returned
/// pair is flagged loopback.
pub fn discover_interfaces() -> (r: Vec<RawInterface>)
    ensures
        forall|i: int| 0 <= i < r@.len() ==> !(#[trigger] r@[i]).loopback,
{
    match query_os_interfaces() {
        None => Vec::new(),
        Some(list) => {
            let mut raw: Vec<RawInterface> = Vec::new();
            let mut i: usize = 0;
            while i < list.len()
                decreases list@.len() - i,
            {
                raw.push(
                    RawInterface {
                        name: interface_name(&list[i]),
                        ip: interface_ip_text(&list[i]),
                        loopback: interface_is_loopback(&list[i]),
                    },
                );
                i = i + 1;
            }
            let ghost all = raw@;
            let r = filter_non_loopback(raw);
            proof {
                lemma_keep_non_loopback_sound(all);
            }
            r
        },
    }
}

} // verus!
