//! Bridge ids, the merged list of configured and discovered bridges, and
//! the policies of the watchers that follow each bridge's device and status
//! streams.

use vstd::prelude::*;
use crate::strings::{chars_of, string_from_chars};
use crate::text::{chars_eq, chars_eq_str, split_once_chars, split_once_spec, push_str_chars};

verus! {

/// A discovered bridge is dropped after this many failed device-stream
/// attempts in a row.
pub const MAX_DISCOVERED_FAILURES: usize = 5;

/// Base of the reconnect delay, in seconds.
pub const RETRY_BASE_DELAY_SECS: u64 = 2;

/// Longest reconnect delay, in seconds.
pub const RETRY_MAX_DELAY_SECS: u64 = 60;

/// A bridge with its HTTP address (`host:port`).
#[derive(Debug, Clone)]
pub struct BridgeConfigResolved {
    pub id: String,
    pub name: String,
    pub http_addr: String,
}

/// Bridge and device of an output id `bridge:{bridge}:{device}`; both must
/// be non-empty, and the device keeps any further `:`.
pub open spec fn output_id_spec(id: Seq<char>) -> Option<(Seq<char>, Seq<char>)> {
    match split_once_spec(id, ':') {
        Some((kind, rest)) => if kind == "bridge"@ {
            match split_once_spec(rest, ':') {
                Some((b, d)) => if b.len() > 0 && d.len() > 0 {
                    Some((b, d))
                } else {
                    None
                },
                None => None,
            }
        } else {
            None
        },
        None => None,
    }
}

/// Bridge of a provider id `bridge:{bridge}`, which must be non-empty (and
/// keeps any further `:`).
pub open spec fn provider_id_spec(id: Seq<char>) -> Option<Seq<char>> {
    match split_once_spec(id, ':') {
        Some((kind, rest)) => if kind == "bridge"@ && rest.len() > 0 {
            Some(rest)
        } else {
            None
        },
        None => None,
    }
}

fn message(text: &str) -> (r: String)
    ensures
        r@ == text@,
{
    let c = chars_of(text);
    string_from_chars(c.as_slice())
}

/// Parses a bridge output id into bridge id and device id.
pub fn parse_output_id(id: &str) -> (r: Result<(String, String), String>)
    ensures
        match r {
            Ok((b, d)) => output_id_spec(id@) == Some((b@, d@)),
            Err(e) => output_id_spec(id@) is None && e@ == "invalid output id"@,
        },
{
    let c = chars_of(id);
    if let Some((kind, rest)) = split_once_chars(c.as_slice(), ':') {
        if chars_eq_str(kind.as_slice(), "bridge") {
            if let Some((b, d)) = split_once_chars(rest.as_slice(), ':') {
                if b.len() > 0 && d.len() > 0 {
                    return Ok((string_from_chars(b.as_slice()), string_from_chars(d.as_slice())));
                }
            }
        }
    }
    Err(message("invalid output id"))
}

/// Parses a bridge provider id into its bridge id.
pub fn parse_provider_id(id: &str) -> (r: Result<String, String>)
    ensures
        match r {
            Ok(b) => provider_id_spec(id@) == Some(b@),
            Err(e) => provider_id_spec(id@) is None && e@ == "invalid provider id"@,
        },
{
    let c = chars_of(id);
    if let Some((kind, rest)) = split_once_chars(c.as_slice(), ':') {
        if chars_eq_str(kind.as_slice(), "bridge") && rest.len() > 0 {
            return Ok(string_from_chars(rest.as_slice()));
        }
    }
    Err(message("invalid provider id"))
}

/// Whether some bridge of the list has this id.
pub open spec fn has_id(bridges: Seq<BridgeConfigResolved>, id: Seq<char>) -> bool {
    exists|i: int| 0 <= i < bridges.len() && #[trigger] bridges[i].id@ == id
}

/// Whether some bridge of the list has this address.
pub open spec fn has_addr(bridges: Seq<BridgeConfigResolved>, addr: Seq<char>) -> bool {
    exists|i: int| 0 <= i < bridges.len() && #[trigger] bridges[i].http_addr@ == addr
}

/// Configured bridges, then each discovered bridge (in the given order)
/// whose id is not configured and whose address is not taken by a bridge
/// already listed.
pub open spec fn merge_spec(
    configured: Seq<BridgeConfigResolved>,
    discovered: Seq<(String, BridgeConfigResolved)>,
) -> Seq<BridgeConfigResolved>
    decreases discovered.len(),
{
    if discovered.len() == 0 {
        configured
    } else {
        let merged = merge_spec(configured, discovered.drop_last());
        let (id, b) = discovered.last();
        if has_id(configured, id@) || has_addr(merged, b.http_addr@) {
            merged
        } else {
            merged.push(b)
        }
    }
}

fn copy_bridge(b: &BridgeConfigResolved) -> (r: BridgeConfigResolved)
    ensures
        r == *b,
{
    BridgeConfigResolved { id: b.id.clone(), name: b.name.clone(), http_addr: b.http_addr.clone() }
}

fn contains_id(bridges: &Vec<BridgeConfigResolved>, id: &String) -> (r: bool)
    ensures
        r == has_id(bridges@, id@),
{
    let mut i: usize = 0;
    while i < bridges.len()
        invariant
            i <= bridges@.len(),
            forall|k: int| 0 <= k < i ==> bridges@[k].id@ != id@,
        decreases bridges@.len() - i,
    {
        if bridges[i].id == *id {
            return true;
        }
        i = i + 1;
    }
    false
}

fn contains_addr(bridges: &Vec<BridgeConfigResolved>, addr: &String) -> (r: bool)
    ensures
        r == has_addr(bridges@, addr@),
{
    let mut i: usize = 0;
    while i < bridges.len()
        invariant
            i <= bridges@.len(),
            forall|k: int| 0 <= k < i ==> bridges@[k].http_addr@ != addr@,
        decreases bridges@.len() - i,
    {
        if bridges[i].http_addr == *addr {
            return true;
        }
        i = i + 1;
    }
    false
}

/// Merges configured and discovered bridges, preferring configured ones.
pub fn merge_bridges(
    configured: &Vec<BridgeConfigResolved>,
    discovered: &Vec<(String, BridgeConfigResolved)>,
) -> (r: Vec<BridgeConfigResolved>)
    ensures
        r@ == merge_spec(configured@, discovered@),
{
    let mut merged: Vec<BridgeConfigResolved> = Vec::new();
    let mut i: usize = 0;
    while i < configured.len()
        invariant
            i <= configured@.len(),
            merged@ == configured@.take(i as int),
        decreases configured@.len() - i,
    {
        merged.push(copy_bridge(&configured[i]));
        assert(configured@.take(i + 1) =~= configured@.take(i as int).push(configured@[i as int]));
        i = i + 1;
    }
    assert(configured@.take(configured@.len() as int) =~= configured@);
    let mut j: usize = 0;
    while j < discovered.len()
        invariant
            j <= discovered@.len(),
            merged@ == merge_spec(configured@, discovered@.take(j as int)),
        decreases discovered@.len() - j,
    {
        let ghost t = discovered@.take(j + 1);
        assert(t.drop_last() =~= discovered@.take(j as int));
        assert(t.last() == discovered@[j as int]);
        let entry = &discovered[j];
        if !contains_id(configured, &entry.0) && !contains_addr(&merged, &entry.1.http_addr) {
            merged.push(copy_bridge(&entry.1));
        }
        j = j + 1;
    }
    assert(discovered@.take(discovered@.len() as int) =~= discovered@);
    merged
}

/// Whether a bridge id is configured.
pub fn is_configured_bridge(configured: &Vec<BridgeConfigResolved>, bridge_id: &String) -> (r: bool)
    ensures
        r == has_id(configured@, bridge_id@),
{
    contains_id(configured, bridge_id)
}

/// Address of the first bridge in the list with this id.
pub open spec fn addr_in(bridges: Seq<BridgeConfigResolved>, id: Seq<char>) -> Option<String>
    decreases bridges.len(),
{
    if bridges.len() == 0 {
        None
    } else if bridges[0].id@ == id {
        Some(bridges[0].http_addr)
    } else {
        addr_in(bridges.drop_first(), id)
    }
}

/// Address of the first bridge in the list with this id.
pub fn find_addr(bridges: &Vec<BridgeConfigResolved>, id: &String) -> (r: Option<String>)
    ensures
        r == addr_in(bridges@, id@),
{
    let mut i: usize = 0;
    assert(bridges@.subrange(0, bridges@.len() as int) =~= bridges@);
    while i < bridges.len()
        invariant
            i <= bridges@.len(),
            addr_in(bridges@, id@) == addr_in(bridges@.subrange(i as int, bridges@.len() as int), id@),
        decreases bridges@.len() - i,
    {
        let ghost rest = bridges@.subrange(i as int, bridges@.len() as int);
        assert(rest[0] == bridges@[i as int]);
        assert(rest.drop_first() =~= bridges@.subrange(i + 1, bridges@.len() as int));
        if bridges[i].id == *id {
            return Some(bridges[i].http_addr.clone());
        }
        i = i + 1;
    }
    None
}

/// Address of a bridge: a configured one first, else a discovered one.
pub fn resolve_bridge_addr(
    configured: &Vec<BridgeConfigResolved>,
    discovered: &Vec<BridgeConfigResolved>,
    bridge_id: &String,
) -> (r: Option<String>)
    ensures
        r == match addr_in(configured@, bridge_id@) {
            Some(a) => Some(a),
            None => addr_in(discovered@, bridge_id@),
        },
{
    match find_addr(configured, bridge_id) {
        Some(a) => Some(a),
        None => find_addr(discovered, bridge_id),
    }
}

/// Session that holds a bridge, from the `(bridge, session)` lock list:
/// the first entry for the bridge.
pub open spec fn session_for_bridge_spec(locks: Seq<(String, String)>, bridge_id: Seq<char>) -> Option<String>
    decreases locks.len(),
{
    if locks.len() == 0 {
        None
    } else if locks[0].0@ == bridge_id {
        Some(locks[0].1)
    } else {
        session_for_bridge_spec(locks.drop_first(), bridge_id)
    }
}

/// Finds the session that holds a bridge.
pub fn session_for_bridge(locks: &Vec<(String, String)>, bridge_id: &String) -> (r: Option<String>)
    ensures
        r == session_for_bridge_spec(locks@, bridge_id@),
{
    let mut i: usize = 0;
    assert(locks@.subrange(0, locks@.len() as int) =~= locks@);
    while i < locks.len()
        invariant
            i <= locks@.len(),
            session_for_bridge_spec(locks@, bridge_id@) == session_for_bridge_spec(
                locks@.subrange(i as int, locks@.len() as int),
                bridge_id@,
            ),
        decreases locks@.len() - i,
    {
        let ghost rest = locks@.subrange(i as int, locks@.len() as int);
        assert(rest[0] == locks@[i as int]);
        assert(rest.drop_first() =~= locks@.subrange(i + 1, locks@.len() as int));
        if locks[i].0 == *bridge_id {
            return Some(locks[i].1.clone());
        }
        i = i + 1;
    }
    None
}

/// Whether an output id is one of this bridge's: it starts with
/// `bridge:{bridge_id}:`.
pub fn is_bridge_output(output_id: &str, bridge_id: &str) -> (r: bool)
    ensures
        r == (("bridge:"@ + bridge_id@ + ":"@).is_prefix_of(output_id@)),
{
    let mut prefix: Vec<char> = Vec::new();
    push_str_chars(&mut prefix, "bridge:");
    push_str_chars(&mut prefix, bridge_id);
    push_str_chars(&mut prefix, ":");
    let c = chars_of(output_id);
    if prefix.len() > c.len() {
        return false;
    }
    let head = crate::text::sub_chars(c.as_slice(), 0, prefix.len());
    let r = chars_eq(head.as_slice(), prefix.as_slice());
    assert(r == (prefix@.is_prefix_of(c@))) by {
        assert(head@ =~= c@.take(prefix@.len() as int));
    }
    r
}

/// Delay before reconnecting a stream after `failures` failures in a row:
/// two seconds per failure (at least one), at most a minute.
pub open spec fn retry_delay_spec(failures: nat) -> nat {
    let f: nat = if failures == 0 {
        1
    } else {
        failures
    };
    if 2 * f > 60 {
        60
    } else {
        2 * f
    }
}

/// Reconnect delay in seconds.
pub fn retry_delay_secs(failures: usize) -> (r: u64)
    ensures
        r == retry_delay_spec(failures as nat),
{
    let f: u64 = if failures == 0 {
        1
    } else {
        failures as u64
    };
    if f > 30 {
        RETRY_MAX_DELAY_SECS
    } else {
        RETRY_BASE_DELAY_SECS * f
    }
}

/// Failure count of a device stream after an attempt ended: reset when the
/// stream had delivered an event, one more when it failed without any, the
/// same when it ended cleanly.
pub fn device_stream_failures(failures: usize, failed: bool, seen_event: bool) -> (r: usize)
    ensures
        r == if !failed {
            failures as int
        } else if seen_event {
            0
        } else if failures == usize::MAX {
            failures as int
        } else {
            failures + 1
        },
{
    if !failed {
        failures
    } else if seen_event {
        0
    } else if failures == usize::MAX {
        failures
    } else {
        failures + 1
    }
}

/// Failure count of a status stream after an attempt ended: one more when
/// it failed, reset otherwise.
pub fn status_stream_failures(failures: usize, failed: bool) -> (r: usize)
    ensures
        r == if !failed {
            0
        } else if failures == usize::MAX {
            failures as int
        } else {
            failures + 1
        },
{
    if !failed {
        0
    } else if failures == usize::MAX {
        failures
    } else {
        failures + 1
    }
}

/// A discovered (not configured) bridge is dropped after repeated failures.
pub fn should_drop_discovered(is_configured: bool, failures: usize) -> (r: bool)
    ensures
        r == (!is_configured && failures >= MAX_DISCOVERED_FAILURES),
{
    !is_configured && failures >= MAX_DISCOVERED_FAILURES
}

/// What the status watcher does with a changed status of a bridge.
pub struct RemoteStatusPlan {
    /// The status concerns this server at all.
    pub relevant: bool,
    /// Ask the bound session for its next track and play it.
    pub session_advance: bool,
    /// New value of the session auto-advance flag.
    pub in_flight: bool,
    /// Feed the status to the active playback (the bridge is active).
    pub update_active: bool,
}

/// The plan for a changed bridge status: ignored unless the bridge is the
/// active one or a session is bound to one of its outputs; the session
/// moves on when the file ended and no advance is under way; the flag
/// clears when the file did not end.
pub open spec fn remote_status_plan_spec(is_active: bool, session_bound: bool, eof: bool, in_flight: bool) -> RemoteStatusPlan {
    if !is_active && !session_bound {
        RemoteStatusPlan { relevant: false, session_advance: false, in_flight, update_active: false }
    } else {
        RemoteStatusPlan {
            relevant: true,
            session_advance: eof && !in_flight && session_bound,
            in_flight: if eof {
                in_flight
            } else {
                false
            },
            update_active: is_active,
        }
    }
}

/// Plans the handling of a changed bridge status. When the plan asks for
/// a session advance and it is dispatched, the flag becomes set.
pub fn plan_remote_status(is_active: bool, session_bound: bool, eof: bool, in_flight: bool) -> (r:
    RemoteStatusPlan)
    ensures
        r == remote_status_plan_spec(is_active, session_bound, eof, in_flight),
{
    if !is_active && !session_bound {
        return RemoteStatusPlan { relevant: false, session_advance: false, in_flight, update_active: false };
    }
    let flag = if eof {
        in_flight
    } else {
        false
    };
    RemoteStatusPlan {
        relevant: true,
        session_advance: eof && !in_flight && session_bound,
        in_flight: flag,
        update_active: is_active,
    }
}

/// The output-switch guard: while its deadline lies ahead the queue must
/// not advance on its own; once it has passed the guard is cleared.
/// Returns (suppress auto-advance, clear the guard).
pub fn output_switch_guard(guard_set: bool, before_deadline: bool) -> (r: (bool, bool))
    ensures
        r == if !guard_set {
            (false, false)
        } else if before_deadline {
            (true, false)
        } else {
            (false, true)
        },
{
    if !guard_set {
        (false, false)
    } else if before_deadline {
        (true, false)
    } else {
        (false, true)
    }
}

/// The queue may advance on its own after a status of the active bridge
/// unless a switch is under way or a session holds the bridge.
pub fn queue_may_advance(suppress: bool, session_bound: bool) -> (r: bool)
    ensures
        r == (!suppress && !session_bound),
{
    !suppress && !session_bound
}

} // verus!
