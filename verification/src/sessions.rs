//! Checks and shapes of the session endpoints: what a session request must
//! carry, who views the session list, and the listing of session locks.

use vstd::prelude::*;
use crate::models::{SessionCreateRequest, SessionLockInfo, SessionLocksResponse};
use crate::strings::{chars_of, string_from_chars};
use crate::text::{trim, trim_chars};

verus! {

/// The name, client id and app version of a session request, trimmed;
/// `None` when one is blank (400, "name, client_id, and app_version are
/// required").
pub fn validate_session_create(req: &SessionCreateRequest) -> (r: Option<(String, String, String)>)
    ensures
        (trim(req.name@).len() == 0 || trim(req.client_id@).len() == 0 || trim(req.app_version@).len() == 0)
            ==> r is None,
        !(trim(req.name@).len() == 0 || trim(req.client_id@).len() == 0 || trim(req.app_version@).len() == 0)
            ==> (r matches Some((n, c, v)) && n@ == trim(req.name@) && c@ == trim(req.client_id@) && v@ == trim(
            req.app_version@,
        )),
{
    let n = trim_chars(chars_of(req.name.as_str()).as_slice());
    let c = trim_chars(chars_of(req.client_id.as_str()).as_slice());
    let v = trim_chars(chars_of(req.app_version.as_str()).as_slice());
    if n.len() == 0 || c.len() == 0 || v.len() == 0 {
        return None;
    }
    Some((string_from_chars(n.as_slice()), string_from_chars(c.as_slice()), string_from_chars(v.as_slice())))
}

/// The client viewing sessions: its id trimmed, none when blank or
/// missing.
pub fn viewer_client_id(client_id: Option<&str>) -> (r: Option<String>)
    ensures
        match client_id {
            Some(c) => if trim(c@).len() == 0 {
                r is None
            } else {
                r matches Some(x) && x@ == trim(c@)
            },
            None => r is None,
        },
{
    match client_id {
        Some(c) => {
            let t = trim_chars(chars_of(c).as_slice());
            if t.len() == 0 {
                None
            } else {
                Some(string_from_chars(t.as_slice()))
            }
        },
        None => None,
    }
}

/// The heartbeat state of a session, trimmed; `None` when blank (400,
/// "state is required").
pub fn heartbeat_state(state: &str) -> (r: Option<String>)
    ensures
        trim(state@).len() == 0 ==> r is None,
        trim(state@).len() != 0 ==> (r matches Some(x) && x@ == trim(state@)),
{
    let t = trim_chars(chars_of(state).as_slice());
    if t.len() == 0 {
        None
    } else {
        Some(string_from_chars(t.as_slice()))
    }
}

/// A lock listed as plain values.
pub open spec fn lock_view(l: SessionLockInfo) -> (Seq<char>, Seq<char>) {
    (l.key@, l.session_id@)
}

fn lock_infos(locks: &Vec<(String, String)>) -> (r: Vec<SessionLockInfo>)
    ensures
        r@.len() == locks@.len(),
        forall|i: int| 0 <= i < r@.len() ==> lock_view(#[trigger] r@[i]) == (locks@[i].0@, locks@[i].1@),
{
    let mut out: Vec<SessionLockInfo> = Vec::new();
    let mut i: usize = 0;
    while i < locks.len()
        invariant
            i <= locks@.len(),
            out@.len() == i,
            forall|j: int| 0 <= j < i ==> lock_view(#[trigger] out@[j]) == (locks@[j].0@, locks@[j].1@),
        decreases locks@.len() - i,
    {
        out.push(SessionLockInfo { key: locks[i].0.clone(), session_id: locks[i].1.clone() });
        i = i + 1;
    }
    out
}

/// The lock listing: output locks and bridge locks, each a `(key,
/// session)` pair, in the order given.
pub fn session_locks_response(output_locks: &Vec<(String, String)>, bridge_locks: &Vec<(String, String)>) -> (r: SessionLocksResponse)
    ensures
        r.output_locks@.len() == output_locks@.len(),
        forall|i: int|
            0 <= i < r.output_locks@.len() ==> lock_view(#[trigger] r.output_locks@[i]) == (
                output_locks@[i].0@,
                output_locks@[i].1@,
            ),
        r.bridge_locks@.len() == bridge_locks@.len(),
        forall|i: int|
            0 <= i < r.bridge_locks@.len() ==> lock_view(#[trigger] r.bridge_locks@[i]) == (
                bridge_locks@[i].0@,
                bridge_locks@[i].1@,
            ),
{
    SessionLocksResponse { output_locks: lock_infos(output_locks), bridge_locks: lock_infos(bridge_locks) }
}

} // verus!
