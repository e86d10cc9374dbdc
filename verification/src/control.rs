//! Decisions of output control: which output a request may use and what a
//! refusal is answered, the plan of a session's output switch, and what a
//! settings update or a bridge's unregistration changes.

use vstd::prelude::*;
use crate::bridges::{find_addr, is_bridge_output, merge_bridges, output_id_spec, parse_output_id, parse_provider_id, provider_id_spec, addr_in, merge_spec, BridgeConfigResolved};
use crate::models::{OutputInfo, OutputSettings, OutputsResponse, SessionMode};
use crate::strings::{chars_of, string_from_chars};
use crate::text::{push_str_chars, str_eq, str_starts_with, trim, trim_chars};

verus! {

/// Why a playback request is refused before it reaches an output.
#[derive(Debug, Clone)]
pub enum OutputControlError {
    /// No output is selected (503).
    NoActiveOutput,
    /// The request names another output than the active one (400).
    UnsupportedOutput { requested: String, active: String },
    /// The active output cannot be reached (503).
    OutputOffline { output_id: String },
    /// The player did not take the command (500).
    PlayerOffline,
}

/// The HTTP status of a refusal.
pub open spec fn control_status(e: OutputControlError) -> u16 {
    match e {
        OutputControlError::NoActiveOutput => 503,
        OutputControlError::UnsupportedOutput { .. } => 400,
        OutputControlError::OutputOffline { .. } => 503,
        OutputControlError::PlayerOffline => 500,
    }
}

/// The body of a refusal.
pub open spec fn control_message(e: OutputControlError) -> Seq<char> {
    match e {
        OutputControlError::NoActiveOutput => "no active output selected"@,
        OutputControlError::UnsupportedOutput { requested, active } => "unsupported output id: "@
            + requested@ + " (active: "@ + active@ + ")"@,
        OutputControlError::OutputOffline { output_id } => "output offline: "@ + output_id@,
        OutputControlError::PlayerOffline => "player offline"@,
    }
}

impl OutputControlError {
    /// The HTTP status of the refusal.
    pub fn status_code(&self) -> (r: u16)
        ensures
            r == control_status(*self),
    {
        match self {
            OutputControlError::NoActiveOutput => 503,
            OutputControlError::UnsupportedOutput { .. } => 400,
            OutputControlError::OutputOffline { .. } => 503,
            OutputControlError::PlayerOffline => 500,
        }
    }

    /// The body of the refusal.
    pub fn message(&self) -> (r: String)
        ensures
            r@ == control_message(*self),
    {
        let mut out: Vec<char> = Vec::new();
        match self {
            OutputControlError::NoActiveOutput => {
                push_str_chars(&mut out, "no active output selected");
            },
            OutputControlError::UnsupportedOutput { requested, active } => {
                push_str_chars(&mut out, "unsupported output id: ");
                push_str_chars(&mut out, requested.as_str());
                push_str_chars(&mut out, " (active: ");
                push_str_chars(&mut out, active.as_str());
                push_str_chars(&mut out, ")");
                assert(out@ =~= control_message(*self));
            },
            OutputControlError::OutputOffline { output_id } => {
                push_str_chars(&mut out, "output offline: ");
                push_str_chars(&mut out, output_id.as_str());
                assert(out@ =~= control_message(*self));
            },
            OutputControlError::PlayerOffline => {
                push_str_chars(&mut out, "player offline");
            },
        }
        string_from_chars(out.as_slice())
    }
}

/// The active output a request may use, before its connection is checked:
/// there must be one, and a requested id must name it.
pub fn check_requested_output(active: Option<String>, requested: Option<&str>) -> (r: Result<String, OutputControlError>)
    ensures
        match active {
            None => r matches Err(OutputControlError::NoActiveOutput),
            Some(a) => match requested {
                Some(q) => if q@ != a@ {
                    r matches Err(OutputControlError::UnsupportedOutput { requested: rq, active: ra }) && rq@ == q@ && ra@ == a@
                } else {
                    r matches Ok(id) && id@ == a@
                },
                None => r matches Ok(id) && id@ == a@,
            },
        },
{
    let active_id = match active {
        None => {
            return Err(OutputControlError::NoActiveOutput);
        },
        Some(a) => a,
    };
    match requested {
        Some(q) => {
            if !str_eq(q, active_id.as_str()) {
                return Err(
                    OutputControlError::UnsupportedOutput {
                        requested: q.to_string(),
                        active: active_id,
                    },
                );
            }
        },
        None => {},
    }
    Ok(active_id)
}

/// The active output a request may use: `connected` is the outcome of the
/// connection check, made once the first two checks passed.
pub fn resolve_active_output_id(active: Option<String>, requested: Option<&str>, connected: bool) -> (r: Result<String, OutputControlError>)
    ensures
        match active {
            None => r matches Err(OutputControlError::NoActiveOutput),
            Some(a) => if requested matches Some(q) && q@ != a@ {
                r matches Err(OutputControlError::UnsupportedOutput { requested: rq, active: ra }) && rq@
                    == requested.unwrap()@ && ra@ == a@
            } else if !connected {
                r matches Err(OutputControlError::OutputOffline { output_id: o }) && o@ == a@
            } else {
                r matches Ok(id) && id@ == a@
            },
        },
{
    let id = check_requested_output(active, requested)?;
    if !connected {
        return Err(OutputControlError::OutputOffline { output_id: id });
    }
    Ok(id)
}

/// Whether some output of the list has this id.
pub open spec fn lists_output(outputs: Seq<OutputInfo>, id: Seq<char>) -> bool {
    exists|i: int| 0 <= i < outputs.len() && #[trigger] outputs[i].id@ == id
}

fn find_output(outputs: &Vec<OutputInfo>, id: &str) -> (r: bool)
    ensures
        r == lists_output(outputs@, id@),
{
    let mut i: usize = 0;
    while i < outputs.len()
        invariant
            i <= outputs@.len(),
            forall|j: int| 0 <= j < i ==> #[trigger] outputs@[j].id@ != id@,
        decreases outputs@.len() - i,
    {
        if str_eq(outputs[i].id.as_str(), id) {
            return true;
        }
        i = i + 1;
    }
    false
}

/// An outputs listing whose active id names no listed output reports no
/// active output.
pub fn normalize_outputs_response(resp: OutputsResponse) -> (r: OutputsResponse)
    ensures
        r.outputs == resp.outputs,
        r.active_id == match resp.active_id {
            Some(a) => if lists_output(resp.outputs@, a@) {
                Some(a)
            } else {
                None
            },
            None => None,
        },
{
    let OutputsResponse { active_id, outputs } = resp;
    let active_id = match active_id {
        Some(a) => {
            if find_output(&outputs, a.as_str()) {
                Some(a)
            } else {
                None
            }
        },
        None => None,
    };
    OutputsResponse { active_id, outputs }
}

/// Why a session's output selection is refused.
#[derive(Debug, Clone, Copy, PartialEq, Eq, Structural)]
pub enum SelectOutputError {
    /// The output id is blank (400).
    OutputIdRequired,
    /// The session is unknown (404).
    SessionNotFound,
    /// A browser output was asked for by a remote session (400).
    BrowserNeedsLocalSession,
}

/// The HTTP status of a selection refusal.
pub open spec fn select_status(e: SelectOutputError) -> u16 {
    match e {
        SelectOutputError::OutputIdRequired => 400,
        SelectOutputError::SessionNotFound => 404,
        SelectOutputError::BrowserNeedsLocalSession => 400,
    }
}

/// The body of a selection refusal.
pub open spec fn select_message(e: SelectOutputError) -> Seq<char> {
    match e {
        SelectOutputError::OutputIdRequired => "output_id is required"@,
        SelectOutputError::SessionNotFound => "session not found"@,
        SelectOutputError::BrowserNeedsLocalSession => "browser outputs can only be selected by local sessions"@,
    }
}

impl SelectOutputError {
    /// The HTTP status of the refusal.
    pub fn status_code(&self) -> (r: u16)
        ensures
            r == select_status(*self),
    {
        match self {
            SelectOutputError::OutputIdRequired => 400,
            SelectOutputError::SessionNotFound => 404,
            SelectOutputError::BrowserNeedsLocalSession => 400,
        }
    }

    /// The body of the refusal.
    pub fn message(&self) -> (r: String)
        ensures
            r@ == select_message(*self),
    {
        let text: &str = match self {
            SelectOutputError::OutputIdRequired => "output_id is required",
            SelectOutputError::SessionNotFound => "session not found",
            SelectOutputError::BrowserNeedsLocalSession => "browser outputs can only be selected by local sessions",
        };
        string_from_chars(chars_of(text).as_slice())
    }
}

/// The output a session asks for, trimmed: it must not be blank, and a
/// browser output (`browser:` prefix) needs an existing local session;
/// `session_mode` is the session's mode, `None` when it is unknown.
pub fn validate_output_selection(output_id: &str, session_mode: Option<SessionMode>) -> (r: Result<String, SelectOutputError>)
    ensures
        ({
            let t = trim(output_id@);
            if t.len() == 0 {
                r == Err::<String, SelectOutputError>(SelectOutputError::OutputIdRequired)
            } else if "browser:"@.is_prefix_of(t) && session_mode is None {
                r == Err::<String, SelectOutputError>(SelectOutputError::SessionNotFound)
            } else if "browser:"@.is_prefix_of(t) && session_mode == Some(SessionMode::Remote) {
                r == Err::<String, SelectOutputError>(SelectOutputError::BrowserNeedsLocalSession)
            } else {
                r matches Ok(id) && id@ == t
            }
        }),
{
    let tc = trim_chars(chars_of(output_id).as_slice());
    let t = string_from_chars(tc.as_slice());
    if tc.len() == 0 {
        return Err(SelectOutputError::OutputIdRequired);
    }
    if str_starts_with(t.as_str(), "browser:") {
        match session_mode {
            None => {
                return Err(SelectOutputError::SessionNotFound);
            },
            Some(SessionMode::Remote) => {
                return Err(SelectOutputError::BrowserNeedsLocalSession);
            },
            Some(SessionMode::Local) => {},
        }
    }
    Ok(t)
}

/// How playback resumes on the new output.
#[derive(Debug, Clone, Copy, PartialEq, Eq, Structural)]
pub struct ResumePlan {
    /// Position to start from; none when at the start.
    pub seek_ms: Option<u64>,
    pub paused: bool,
}

/// What a session's output switch does around binding the new output.
#[derive(Debug, Clone, Copy, PartialEq, Eq, Structural)]
pub struct OutputSwitchPlan {
    /// Stop the session's playback before binding.
    pub stop_first: bool,
    /// Play the current track again on the new output.
    pub resume: Option<ResumePlan>,
}

/// Plans an output switch: when a track was playing it is stopped first
/// (unless the output stays the same) and resumed on the new output at the
/// elapsed position (none at zero), paused as it was (`paused` is `None`
/// when the session's status could not be read).
pub fn plan_output_switch(
    previous_output_id: Option<&str>,
    output_id: &str,
    has_resume_path: bool,
    elapsed_ms: Option<u64>,
    paused: Option<bool>,
) -> (r: OutputSwitchPlan)
    ensures
        r.stop_first == (has_resume_path && !(previous_output_id matches Some(p) && p@ == output_id@)),
        has_resume_path ==> r.resume == Some(
            ResumePlan {
                seek_ms: match elapsed_ms {
                    Some(ms) => if ms > 0 {
                        Some(ms)
                    } else {
                        None
                    },
                    None => None,
                },
                paused: match paused {
                    Some(p) => p,
                    None => false,
                },
            },
        ),
        !has_resume_path ==> r.resume is None,
{
    let same = match previous_output_id {
        Some(p) => str_eq(p, output_id),
        None => false,
    };
    let resume = if has_resume_path {
        let seek_ms = match elapsed_ms {
            Some(ms) => if ms > 0 {
                Some(ms)
            } else {
                None
            },
            None => None,
        };
        let p = match paused {
            Some(p) => p,
            None => false,
        };
        Some(ResumePlan { seek_ms, paused: p })
    } else {
        None
    };
    OutputSwitchPlan { stop_first: has_resume_path && !same, resume }
}

/// What unregistering a bridge clears.
#[derive(Debug, Clone)]
pub struct UnregisterPlan {
    /// The bridge id, trimmed.
    pub bridge_id: String,
    /// The active output belongs to the bridge, or the bridge is the active
    /// one: both are cleared and playback stops silently.
    pub clear_active_output: bool,
    /// Sessions bound to one of the bridge's outputs, released in order.
    pub release_sessions: Vec<String>,
}

/// `bridge:{id}:`, the prefix of a bridge's output ids.
pub open spec fn output_prefix(bridge_id: Seq<char>) -> Seq<char> {
    "bridge:"@ + bridge_id + ":"@
}

/// Sessions bound to an output of the bridge, in order.
pub open spec fn sessions_on_bridge(sessions: Seq<(String, Option<String>)>, bridge_id: Seq<char>) -> Seq<Seq<char>>
    decreases sessions.len(),
{
    if sessions.len() == 0 {
        Seq::empty()
    } else {
        let rest = sessions_on_bridge(sessions.drop_last(), bridge_id);
        match sessions.last().1 {
            Some(o) => if output_prefix(bridge_id).is_prefix_of(o@) {
                rest.push(sessions.last().0@)
            } else {
                rest
            },
            None => rest,
        }
    }
}

/// Plans a bridge's unregistration; `None` when the id is blank (400,
/// "bridge_id is required"). `sessions` pairs each session id with its
/// bound output.
pub fn plan_bridge_unregister(
    bridge_id: &str,
    active_output_id: Option<&str>,
    active_bridge_id: Option<&str>,
    sessions: &Vec<(String, Option<String>)>,
) -> (r: Option<UnregisterPlan>)
    ensures
        trim(bridge_id@).len() == 0 <==> r is None,
        r matches Some(p) ==> ({
            let id = trim(bridge_id@);
            &&& p.bridge_id@ == id
            &&& p.clear_active_output == ((active_output_id matches Some(a) && output_prefix(id).is_prefix_of(a@))
                || (active_bridge_id matches Some(b) && b@ == id))
            &&& crate::playqueue::string_views(p.release_sessions@) == sessions_on_bridge(sessions@, id)
        }),
{
    let ic = trim_chars(chars_of(bridge_id).as_slice());
    let id = string_from_chars(ic.as_slice());
    if ic.len() == 0 {
        return None;
    }
    proof {
        reveal_strlit("bridge:");
        reveal_strlit(":");
    }
    let active_matches = match active_output_id {
        Some(a) => is_bridge_output(a, id.as_str()),
        None => false,
    };
    let bridge_matches = match active_bridge_id {
        Some(b) => str_eq(b, id.as_str()),
        None => false,
    };
    let mut release: Vec<String> = Vec::new();
    let mut i: usize = 0;
    while i < sessions.len()
        invariant
            i <= sessions@.len(),
            crate::playqueue::string_views(release@) == sessions_on_bridge(sessions@.take(i as int), id@),
        decreases sessions@.len() - i,
    {
        let ghost t = sessions@.take(i + 1);
        assert(t.drop_last() =~= sessions@.take(i as int));
        assert(t.last() == sessions@[i as int]);
        match &sessions[i].1 {
            Some(o) => {
                if is_bridge_output(o.as_str(), id.as_str()) {
                    let ghost before = release@;
                    let s = sessions[i].0.clone();
                    release.push(s);
                    proof {
                        crate::playqueue::lemma_views_push(before, sessions@[i as int].0);
                    }
                }
            },
            None => {},
        }
        i = i + 1;
    }
    assert(sessions@.take(sessions@.len() as int) =~= sessions@);
    Some(UnregisterPlan { bridge_id: id, clear_active_output: active_matches || bridge_matches, release_sessions: release })
}

/// Whether a list of output ids holds this one.
pub open spec fn holds_id(ids: Seq<String>, id: Seq<char>) -> bool {
    exists|i: int| 0 <= i < ids.len() && #[trigger] ids[i]@ == id
}

fn contains_id(ids: &Vec<String>, id: &str) -> (r: bool)
    ensures
        r == holds_id(ids@, id@),
{
    let mut i: usize = 0;
    while i < ids.len()
        invariant
            i <= ids@.len(),
            forall|j: int| 0 <= j < i ==> #[trigger] ids@[j]@ != id@,
        decreases ids@.len() - i,
    {
        if str_eq(ids[i].as_str(), id) {
            return true;
        }
        i = i + 1;
    }
    false
}

/// Whether new output settings disable the active output, which is then
/// cleared and stopped.
pub fn disables_active(settings: &OutputSettings, active_output_id: Option<&str>) -> (r: bool)
    ensures
        r == (active_output_id matches Some(a) && holds_id(settings.disabled@, a@)),
{
    match active_output_id {
        Some(a) => contains_id(&settings.disabled, a),
        None => false,
    }
}

/// Whether an output plays in exclusive mode.
pub fn is_exclusive(settings: &OutputSettings, output_id: &str) -> (r: bool)
    ensures
        r == holds_id(settings.exclusive@, output_id@),
{
    contains_id(&settings.exclusive, output_id)
}

/// Where exclusive mode is applied again after a settings update.
#[derive(Debug, Clone)]
pub struct ExclusiveTarget {
    pub http_addr: String,
    pub device_id: String,
    pub output_id: String,
    pub exclusive: bool,
}

/// The bridge device of the active output, with its exclusive setting,
/// when the active output is a bridge output of a listed bridge.
pub fn exclusive_target(
    settings: &OutputSettings,
    active_output_id: Option<&str>,
    bridges: &Vec<BridgeConfigResolved>,
) -> (r: Option<ExclusiveTarget>)
    ensures
        match active_output_id {
            None => r is None,
            Some(a) => match output_id_spec(a@) {
                None => r is None,
                Some((b, d)) => match addr_in(bridges@, b) {
                    None => r is None,
                    Some(addr) => r matches Some(t) && t.http_addr@ == addr@ && t.device_id@ == d
                        && t.output_id@ == a@ && t.exclusive == holds_id(settings.exclusive@, a@),
                },
            },
        },
{
    let a = match active_output_id {
        Some(a) => a,
        None => {
            return None;
        },
    };
    match parse_output_id(a) {
        Err(_) => None,
        Ok((bridge_id, device_id)) => match find_addr(bridges, &bridge_id) {
            None => None,
            Some(addr) => Some(
                ExclusiveTarget {
                    http_addr: addr,
                    device_id,
                    output_id: a.to_string(),
                    exclusive: is_exclusive(settings, a),
                },
            ),
        },
    }
}

/// The HTTP address shown for a provider: that of its bridge among the
/// configured and discovered ones.
pub fn provider_address(
    provider_id: &str,
    configured: &Vec<BridgeConfigResolved>,
    discovered: &Vec<(String, BridgeConfigResolved)>,
) -> (r: Option<String>)
    ensures
        match provider_id_spec(provider_id@) {
            None => r is None,
            Some(b) => r == addr_in(merge_spec(configured@, discovered@), b),
        },
{
    match parse_provider_id(provider_id) {
        Err(_) => None,
        Ok(bridge_id) => {
            let merged = merge_bridges(configured, discovered);
            find_addr(&merged, &bridge_id)
        },
    }
}

} // verus!
