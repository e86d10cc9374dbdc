//! Decisions of the mDNS watchers that find bridges and cast devices: what
//! an announcement stands for, which names map to which ids, and when a
//! silent discovered bridge is dropped.

use vstd::prelude::*;
use crate::bridges::BridgeConfigResolved;
use crate::strings::{chars_of, string_from_chars};
use crate::table::StringTable;
use crate::tags::{is_bridge_version_compatible, opt_string_view, version_compatible};
use crate::text::{decimal, push_decimal_i64, push_str_chars, sub_chars};
use crate::media::opt_str_view as opt_view;

verus! {

/// A discovered bridge that has not answered for this long (and is not the
/// active one) is dropped, in milliseconds.
pub const DISCOVERED_STALE_MS: u64 = 60000;

/// An address an announcement resolved to, as far as discovery reads it.
#[derive(Debug, Clone, Copy, PartialEq, Eq, Structural)]
pub enum AnnouncedAddress {
    V4(u8, u8, u8, u8),
    V6,
}

/// Why an announced bridge is not taken.
#[derive(Debug, Clone, Copy, PartialEq, Eq, Structural)]
pub enum AnnouncementSkip {
    /// Its major version differs from the server's, or it has none.
    IncompatibleVersion,
    /// It resolved to no IPv4 address.
    NoIpv4,
}

/// A discovered cast device.
#[derive(Debug, Clone)]
pub struct CastAnnouncement {
    pub id: String,
    pub name: String,
    /// IPv4 address, else the host name without its final dot.
    pub host: Option<String>,
    pub port: u16,
}

/// A TXT value without a leading `key=`.
pub open spec fn property_spec(value: Seq<char>, key: Seq<char>) -> Seq<char> {
    let prefix = key + "="@;
    if prefix.is_prefix_of(value) {
        value.skip(prefix.len() as int)
    } else {
        value
    }
}

/// Reads a TXT property value, dropping a `key=` prefix that some
/// announcers repeat.
pub fn property_value(value: &str, key: &str) -> (r: String)
    ensures
        r@ == property_spec(value@, key@),
{
    let v = chars_of(value);
    let mut prefix: Vec<char> = Vec::new();
    push_str_chars(&mut prefix, key);
    prefix.push('=');
    assert(prefix@ =~= key@ + "="@) by {
        reveal_strlit("=");
    }
    if prefix.len() <= v.len() {
        let head = sub_chars(v.as_slice(), 0, prefix.len());
        if crate::text::chars_eq(head.as_slice(), prefix.as_slice()) {
            let rest = sub_chars(v.as_slice(), prefix.len(), v.len());
            assert(head@ =~= v@.take(prefix@.len() as int));
            assert(rest@ =~= v@.skip(prefix@.len() as int));
            return string_from_chars(rest.as_slice());
        }
        assert(head@ =~= v@.take(prefix@.len() as int));
    }
    string_from_chars(v.as_slice())
}

/// The first IPv4 address among the resolved ones.
pub open spec fn first_ipv4_spec(addrs: Seq<AnnouncedAddress>) -> Option<(u8, u8, u8, u8)>
    decreases addrs.len(),
{
    if addrs.len() == 0 {
        None
    } else {
        match addrs[0] {
            AnnouncedAddress::V4(a, b, c, d) => Some((a, b, c, d)),
            AnnouncedAddress::V6 => first_ipv4_spec(addrs.drop_first()),
        }
    }
}

/// Picks the first IPv4 address.
pub fn first_ipv4_addr(addrs: &Vec<AnnouncedAddress>) -> (r: Option<(u8, u8, u8, u8)>)
    ensures
        r == first_ipv4_spec(addrs@),
{
    let mut i: usize = 0;
    assert(addrs@.subrange(0, addrs@.len() as int) =~= addrs@);
    while i < addrs.len()
        invariant
            i <= addrs@.len(),
            first_ipv4_spec(addrs@) == first_ipv4_spec(addrs@.subrange(i as int, addrs@.len() as int)),
        decreases addrs@.len() - i,
    {
        let ghost rest = addrs@.subrange(i as int, addrs@.len() as int);
        assert(rest[0] == addrs@[i as int]);
        assert(rest.drop_first() =~= addrs@.subrange(i + 1, addrs@.len() as int));
        match addrs[i] {
            AnnouncedAddress::V4(a, b, c, d) => {
                return Some((a, b, c, d));
            },
            AnnouncedAddress::V6 => {},
        }
        i = i + 1;
    }
    None
}

/// Dotted text of an IPv4 address.
pub open spec fn ipv4_text(a: u8, b: u8, c: u8, d: u8) -> Seq<char> {
    decimal(a as int) + "."@ + decimal(b as int) + "."@ + decimal(c as int) + "."@ + decimal(d as int)
}

/// `ip:port` of an IPv4 address.
pub open spec fn socket_text(ip: (u8, u8, u8, u8), port: u16) -> Seq<char> {
    ipv4_text(ip.0, ip.1, ip.2, ip.3) + ":"@ + decimal(port as int)
}

fn push_ipv4(out: &mut Vec<char>, ip: (u8, u8, u8, u8))
    ensures
        final(out)@ == old(out)@ + ipv4_text(ip.0, ip.1, ip.2, ip.3),
{
    push_decimal_i64(out, ip.0 as i64);
    push_str_chars(out, ".");
    push_decimal_i64(out, ip.1 as i64);
    push_str_chars(out, ".");
    push_decimal_i64(out, ip.2 as i64);
    push_str_chars(out, ".");
    push_decimal_i64(out, ip.3 as i64);
    assert(out@ =~= old(out)@ + ipv4_text(ip.0, ip.1, ip.2, ip.3));
}

/// Writes an IPv4 address as text.
pub fn ipv4_string(ip: (u8, u8, u8, u8)) -> (r: String)
    ensures
        r@ == ipv4_text(ip.0, ip.1, ip.2, ip.3),
{
    let mut out: Vec<char> = Vec::new();
    push_ipv4(&mut out, ip);
    string_from_chars(out.as_slice())
}

/// Writes `ip:port`.
pub fn socket_string(ip: (u8, u8, u8, u8), port: u16) -> (r: String)
    ensures
        r@ == socket_text(ip, port),
{
    let mut out: Vec<char> = Vec::new();
    push_ipv4(&mut out, ip);
    push_str_chars(&mut out, ":");
    push_decimal_i64(&mut out, port as i64);
    assert(out@ =~= socket_text(ip, port));
    string_from_chars(out.as_slice())
}

/// The bridge an announcement stands for: its `id` property (else its
/// full name), its `name` property (else the id), at its first IPv4
/// address and port; refused when its version is not compatible with the
/// server's, then when it has no IPv4 address.
pub open spec fn announced_bridge_spec(
    fullname: Seq<char>,
    id: Option<Seq<char>>,
    name: Option<Seq<char>>,
    version: Option<Seq<char>>,
    addrs: Seq<AnnouncedAddress>,
    port: u16,
    server_version: Seq<char>,
) -> Result<(Seq<char>, Seq<char>, Seq<char>), AnnouncementSkip> {
    let bid = match id {
        Some(i) => i,
        None => fullname,
    };
    let bname = match name {
        Some(n) => n,
        None => bid,
    };
    if !version_compatible(version, server_version) {
        Err(AnnouncementSkip::IncompatibleVersion)
    } else {
        match first_ipv4_spec(addrs) {
            Some(ip) => Ok((bid, bname, socket_text(ip, port))),
            None => Err(AnnouncementSkip::NoIpv4),
        }
    }
}

/// Decides what a resolved bridge announcement stands for.
pub fn announced_bridge(
    fullname: &str,
    id: Option<String>,
    name: Option<String>,
    version: Option<&str>,
    addrs: &Vec<AnnouncedAddress>,
    port: u16,
    server_version: &str,
) -> (r: Result<BridgeConfigResolved, AnnouncementSkip>)
    ensures
        match r {
            Ok(b) => announced_bridge_spec(
                fullname@,
                opt_string_view(id),
                opt_string_view(name),
                opt_view(version),
                addrs@,
                port,
                server_version@,
            ) == Ok::<(Seq<char>, Seq<char>, Seq<char>), AnnouncementSkip>((b.id@, b.name@, b.http_addr@)),
            Err(e) => announced_bridge_spec(
                fullname@,
                opt_string_view(id),
                opt_string_view(name),
                opt_view(version),
                addrs@,
                port,
                server_version@,
            ) == Err::<(Seq<char>, Seq<char>, Seq<char>), AnnouncementSkip>(e),
        },
{
    let bid = match id {
        Some(i) => i,
        None => string_from_chars(chars_of(fullname).as_slice()),
    };
    let bname = match name {
        Some(n) => n,
        None => bid.clone(),
    };
    if !is_bridge_version_compatible(version, server_version) {
        return Err(AnnouncementSkip::IncompatibleVersion);
    }
    match first_ipv4_addr(addrs) {
        Some(ip) => Ok(BridgeConfigResolved { id: bid, name: bname, http_addr: socket_string(ip, port) }),
        None => Err(AnnouncementSkip::NoIpv4),
    }
}

/// A host name without its final dot; none when it has none.
pub open spec fn strip_final_dot(host: Seq<char>) -> Option<Seq<char>> {
    if host.len() > 0 && host.last() == '.' {
        Some(host.drop_last())
    } else {
        None
    }
}

/// The cast device an announcement stands for: its `id` property (else
/// its full name), its `fn` property (else the id), its first IPv4 address
/// (else its host name without the final dot) and port.
pub fn announced_cast(
    fullname: &str,
    id: Option<String>,
    friendly_name: Option<String>,
    addrs: &Vec<AnnouncedAddress>,
    hostname: &str,
    port: u16,
) -> (r: CastAnnouncement)
    ensures
        r.id@ == match id {
            Some(i) => i@,
            None => fullname@,
        },
        r.name@ == match friendly_name {
            Some(n) => n@,
            None => r.id@,
        },
        opt_string_view(r.host) == match first_ipv4_spec(addrs@) {
            Some(ip) => Some(ipv4_text(ip.0, ip.1, ip.2, ip.3)),
            None => strip_final_dot(hostname@),
        },
        r.port == port,
{
    let cid = match id {
        Some(i) => i,
        None => string_from_chars(chars_of(fullname).as_slice()),
    };
    let name = match friendly_name {
        Some(n) => n,
        None => cid.clone(),
    };
    let host = match first_ipv4_addr(addrs) {
        Some(ip) => Some(ipv4_string(ip)),
        None => {
            let h = chars_of(hostname);
            if h.len() > 0 && h[h.len() - 1] == '.' {
                let t = sub_chars(h.as_slice(), 0, h.len() - 1);
                assert(t@ =~= h@.drop_last());
                Some(string_from_chars(t.as_slice()))
            } else {
                None
            }
        },
    };
    CastAnnouncement { id: cid, name, host, port }
}

/// What the health check does with a discovered bridge.
#[derive(Debug, Clone, Copy, PartialEq, Eq, Structural)]
pub enum HealthAction {
    /// It answered: mark it seen now.
    Refresh,
    /// It did not answer but may still come back.
    Keep,
    /// Drop it and its cached devices and status.
    Remove,
}

/// Decides the fate of a discovered bridge after a health ping: refreshed
/// when it answered; removed when it has been silent over a minute and is
/// not the active bridge; kept otherwise.
pub fn health_action(answered: bool, silent_ms: u64, is_active: bool) -> (r: HealthAction)
    ensures
        r == if answered {
            HealthAction::Refresh
        } else if silent_ms > DISCOVERED_STALE_MS && !is_active {
            HealthAction::Remove
        } else {
            HealthAction::Keep
        },
{
    if answered {
        HealthAction::Refresh
    } else if silent_ms > DISCOVERED_STALE_MS && !is_active {
        HealthAction::Remove
    } else {
        HealthAction::Keep
    }
}

/// Ids of announced services by their full mDNS name.
pub struct ServiceNames {
    names: StringTable<String>,
}

impl View for ServiceNames {
    type V = Map<Seq<char>, String>;

    closed spec fn view(&self) -> Map<Seq<char>, String> {
        self.names@
    }
}

impl ServiceNames {
    /// No names known.
    pub fn new() -> (r: Self)
        ensures
            r@ == Map::<Seq<char>, String>::empty(),
    {
        ServiceNames { names: StringTable::new() }
    }

    /// A service was found again: the id it resolved to before, whose
    /// entry is to be marked seen.
    pub fn on_found(&self, fullname: &str) -> (r: Option<String>)
        ensures
            match r {
                Some(id) => self@.contains_key(fullname@) && self@[fullname@] == id,
                None => !self@.contains_key(fullname@),
            },
    {
        match self.names.get(fullname) {
            Some(id) => Some(id.clone()),
            None => None,
        }
    }

    /// A service resolved to an id.
    pub fn on_resolved(&mut self, fullname: String, id: String)
        ensures
            final(self)@ == old(self)@.insert(fullname@, id),
    {
        self.names.insert(fullname, id);
    }

    /// A service went away: the id to drop, if it had resolved.
    pub fn on_removed(&mut self, fullname: &str) -> (r: Option<String>)
        ensures
            final(self)@ == old(self)@.remove(fullname@),
            r == if old(self)@.contains_key(fullname@) {
                Some(old(self)@[fullname@])
            } else {
                None
            },
    {
        self.names.remove(fullname)
    }
}

} // verus!
