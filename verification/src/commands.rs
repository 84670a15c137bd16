//! Remote commands received over MQTT (`/coach/command`).
use crate::std_str::{
    has_prefix, occurs_in, parsed_unsigned, split_commas, str_contains, str_from_utf8,
    str_parse_u16, str_parse_u64, str_split_commas, str_starts_with, str_strip_prefix, str_trim,
    trim_ws,
};
use crate::types::SessionLabel;
use vstd::prelude::*;
use vstd::utf8::{decode_utf8, valid_utf8};

verus! {

/// Capacity in bytes of the command text buffer.
pub const COMMAND_CAPACITY: usize = 128;

/// Epoch values (ms) above this are absolute times; smaller ones are not.
pub const EPOCH_THRESHOLD_MS: u64 = 1_000_000_000_000;

/// Longest session duration accepted, in minutes (one day).
pub const MAX_SESSION_MINUTES: u64 = 1440;

/// A decoded remote command.
#[derive(Clone, Copy, Debug, PartialEq, Eq, Structural)]
pub enum Command {
    /// Publish the list of session files.
    ListSessions,
    /// Stop the active session, then stream the given session file.
    Replay { session: u16 },
    /// Stop the active session.
    Stop,
    /// Synchronise the clock to an epoch time in milliseconds.
    SetTime { epoch: u64 },
    /// Optionally wipe the card; then, when a profile is given, start a new
    /// session with that profile, a duration in minutes (0 = unlimited) and
    /// an optional epoch time.
    Session { wipe: bool, duration_min: u32, epoch_ms: Option<u64>, profile: Option<SessionLabel> },
    /// Nothing to do.
    Ignored,
}

/// Text of a command payload: its UTF-8 text, or the empty text when the
/// payload is longer than the 128-byte command buffer; none when it is not
/// UTF-8.
pub open spec fn command_text(payload: Seq<u8>) -> Option<Seq<char>> {
    if !valid_utf8(payload) {
        None
    } else if payload.len() <= COMMAND_CAPACITY {
        Some(decode_utf8(payload))
    } else {
        Some(Seq::empty())
    }
}

pub open spec fn kw_list_sessions() -> Seq<char> {
    "LIST_SESSIONS"@
}

pub open spec fn kw_sessions() -> Seq<char> {
    "SESSIONS"@
}

pub open spec fn kw_replay() -> Seq<char> {
    "REPLAY"@
}

pub open spec fn kw_stop() -> Seq<char> {
    "STOP"@
}

pub open spec fn kw_time() -> Seq<char> {
    "TIME,"@
}

pub open spec fn kw_reset() -> Seq<char> {
    "RESET"@
}

pub open spec fn kw_eco() -> Seq<char> {
    "ECO"@
}

pub open spec fn kw_spt() -> Seq<char> {
    "SPT"@
}

pub open spec fn kw_nor() -> Seq<char> {
    "NOR"@
}

/// Which branch of the command grammar a text takes.
pub open spec fn is_list(t: Seq<char>) -> bool {
    has_prefix(t, kw_list_sessions()) || has_prefix(t, kw_sessions())
}

pub open spec fn is_replay(t: Seq<char>) -> bool {
    !is_list(t) && occurs_in(t, kw_replay())
}

pub open spec fn is_session(t: Seq<char>) -> bool {
    !is_list(t) && !occurs_in(t, kw_replay()) && !has_prefix(t, kw_stop()) && !has_prefix(
        t,
        kw_time(),
    )
}

/// A comma-separated field read as a 16-bit number (surrounding white
/// space ignored).
pub open spec fn field_u16(p: Seq<char>) -> Option<u16> {
    match parsed_unsigned(trim_ws(p)) {
        Some(v) => if v <= u16::MAX {
            Some(v as u16)
        } else {
            None
        },
        None => None,
    }
}

/// A comma-separated field read as a 64-bit number.
pub open spec fn field_u64(p: Seq<char>) -> Option<u64> {
    match parsed_unsigned(trim_ws(p)) {
        Some(v) => if v <= u64::MAX {
            Some(v as u64)
        } else {
            None
        },
        None => None,
    }
}

/// The session number of a replay command: the last field that reads as a
/// 16-bit number, else 1.
pub open spec fn replay_target(parts: Seq<Seq<char>>) -> u16
    decreases parts.len(),
{
    if parts.len() == 0 {
        1
    } else {
        match field_u16(parts.last()) {
            Some(v) => v,
            None => replay_target(parts.drop_last()),
        }
    }
}

/// The session duration of a command: the last field whose value is in
/// 1..=1440, else 0.
pub open spec fn duration_field(parts: Seq<Seq<char>>) -> u32
    decreases parts.len(),
{
    if parts.len() == 0 {
        0
    } else {
        match field_u64(parts.last()) {
            Some(v) => if 0 < v && v <= MAX_SESSION_MINUTES {
                v as u32
            } else {
                duration_field(parts.drop_last())
            },
            None => duration_field(parts.drop_last()),
        }
    }
}

/// The epoch time of a command: the last field whose value exceeds
/// 10^12, if any.
pub open spec fn epoch_field(parts: Seq<Seq<char>>) -> Option<u64>
    decreases parts.len(),
{
    if parts.len() == 0 {
        None
    } else {
        match field_u64(parts.last()) {
            Some(v) => if v > EPOCH_THRESHOLD_MS {
                Some(v)
            } else {
                epoch_field(parts.drop_last())
            },
            None => epoch_field(parts.drop_last()),
        }
    }
}

/// The profile named in a command: `ECO`, else `SPT`, else `NOR`,
/// anywhere in the text.
pub open spec fn profile_in(t: Seq<char>) -> Option<SessionLabel> {
    if occurs_in(t, kw_eco()) {
        Some(SessionLabel::Economico)
    } else if occurs_in(t, kw_spt()) {
        Some(SessionLabel::Esportivo)
    } else if occurs_in(t, kw_nor()) {
        Some(SessionLabel::Normal)
    } else {
        None
    }
}

/// The command a text stands for.
pub open spec fn command_of(t: Seq<char>) -> Command {
    if is_list(t) {
        Command::ListSessions
    } else if occurs_in(t, kw_replay()) {
        Command::Replay { session: replay_target(split_commas(t)) }
    } else if has_prefix(t, kw_stop()) {
        Command::Stop
    } else if has_prefix(t, kw_time()) {
        match field_u64(t.subrange(kw_time().len() as int, t.len() as int)) {
            Some(e) => Command::SetTime { epoch: e },
            None => Command::Ignored,
        }
    } else {
        let parts = split_commas(t);
        Command::Session {
            wipe: occurs_in(t, kw_reset()),
            duration_min: duration_field(parts),
            epoch_ms: epoch_field(parts),
            profile: profile_in(t),
        }
    }
}

/// The command of a payload.
pub open spec fn payload_command(payload: Seq<u8>) -> Command {
    match command_text(payload) {
        None => Command::Ignored,
        Some(t) => command_of(t),
    }
}

/// Whether a text has more comma-separated fields than its command's
/// field buffer holds (4 for a replay, 6 for a session command).
pub open spec fn text_overflows(t: Seq<char>) -> bool {
    (is_replay(t) && split_commas(t).len() > 4) || (is_session(t) && split_commas(t).len() > 6)
}

/// Whether a payload has more fields than its command's field buffer holds.
pub open spec fn payload_overflows(payload: Seq<u8>) -> bool {
    match command_text(payload) {
        None => false,
        Some(t) => text_overflows(t),
    }
}

fn empty_str() -> (r: &'static str)
    ensures
        r@ == Seq::<char>::empty(),
{
    proof {
        reveal_strlit("");
    }
    ""
}

/// The text of a payload, as the command buffer holds it.
fn payload_text(payload: &[u8]) -> (r: Option<&str>)
    ensures
        match command_text(payload@) {
            None => r is None,
            Some(t) => r matches Some(s) && s@ == t,
        },
{
    match str_from_utf8(payload) {
        Ok(text) => {
            proof {
                vstd::utf8::encode_utf8_decode_utf8(text@);
            }
            if payload.len() <= COMMAND_CAPACITY {
                Some(text)
            } else {
                Some(empty_str())
            }
        },
        Err(_) => None,
    }
}

/// Whether the payload's command has more fields than the firmware's field
/// buffer can collect (4 for a replay, 6 for a session command); the
/// firmware stops on such a command.
pub fn command_overflows(payload: &[u8]) -> (r: bool)
    ensures
        r == payload_overflows(payload@),
{
    let text = match payload_text(payload) {
        None => return false,
        Some(t) => t,
    };
    proof {
        reveal_strlit("LIST_SESSIONS");
        reveal_strlit("SESSIONS");
        reveal_strlit("REPLAY");
        reveal_strlit("STOP");
        reveal_strlit("TIME,");
    }
    let list = str_starts_with(text, "LIST_SESSIONS") || str_starts_with(text, "SESSIONS");
    if list {
        return false;
    }
    let parts = str_split_commas(text);
    let n = parts.len();
    assert(parts@.map_values(|p: &str| p@).len() == n);
    if str_contains(text, "REPLAY") {
        return n > 4;
    }
    if str_starts_with(text, "STOP") || str_starts_with(text, "TIME,") {
        return false;
    }
    n > 6
}

/// Decodes a command payload. A payload that is not UTF-8 is ignored; one
/// longer than 128 bytes reads as the empty command.
pub fn parse_command(payload: &[u8]) -> (r: Command)
    requires
        !payload_overflows(payload@),
    ensures
        r == payload_command(payload@),
{
    let text = match payload_text(payload) {
        None => return Command::Ignored,
        Some(t) => t,
    };
    let ghost t = text@;
    proof {
        reveal_strlit("LIST_SESSIONS");
        reveal_strlit("SESSIONS");
        reveal_strlit("REPLAY");
        reveal_strlit("STOP");
        reveal_strlit("TIME,");
    }
    if str_starts_with(text, "LIST_SESSIONS") || str_starts_with(text, "SESSIONS") {
        return Command::ListSessions;
    }
    if str_contains(text, "REPLAY") {
        let parts = str_split_commas(text);
        let ghost pv = parts@.map_values(|p: &str| p@);
        let mut target: u16 = 1;
        let mut i: usize = 0;
        assert(pv.subrange(0, 0) =~= Seq::<Seq<char>>::empty());
        while i < parts.len()
            invariant
                i <= parts@.len(),
                pv == parts@.map_values(|p: &str| p@),
                target == replay_target(pv.subrange(0, i as int)),
            decreases parts@.len() - i,
        {
            let field = str_trim(parts[i]);
            assert(pv[i as int] == parts@[i as int]@);
            assert(pv.subrange(0, i + 1).drop_last() =~= pv.subrange(0, i as int));
            assert(pv.subrange(0, i + 1).last() == pv[i as int]);
            match str_parse_u16(field) {
                Ok(num) => {
                    target = num;
                },
                Err(_) => {},
            }
            i = i + 1;
        }
        assert(pv.subrange(0, i as int) =~= pv);
        return Command::Replay { session: target };
    }
    if str_starts_with(text, "STOP") {
        return Command::Stop;
    }
    if str_starts_with(text, "TIME,") {
        match str_strip_prefix(text, "TIME,") {
            Some(rest) => {
                match str_parse_u64(str_trim(rest)) {
                    Ok(e) => {
                        return Command::SetTime { epoch: e };
                    },
                    Err(_) => {
                        return Command::Ignored;
                    },
                }
            },
            None => {
                return Command::Ignored;
            },
        }
    }
    proof {
        reveal_strlit("RESET");
        reveal_strlit("ECO");
        reveal_strlit("SPT");
        reveal_strlit("NOR");
    }
    let wipe = str_contains(text, "RESET");
    let parts = str_split_commas(text);
    let ghost pv = parts@.map_values(|p: &str| p@);
    let mut duration_min: u32 = 0;
    let mut epoch: Option<u64> = None;
    let mut i: usize = 0;
    assert(pv.subrange(0, 0) =~= Seq::<Seq<char>>::empty());
    while i < parts.len()
        invariant
            i <= parts@.len(),
            pv == parts@.map_values(|p: &str| p@),
            duration_min == duration_field(pv.subrange(0, i as int)),
            epoch == epoch_field(pv.subrange(0, i as int)),
        decreases parts@.len() - i,
    {
        let field = str_trim(parts[i]);
        assert(pv[i as int] == parts@[i as int]@);
        assert(pv.subrange(0, i + 1).drop_last() =~= pv.subrange(0, i as int));
        assert(pv.subrange(0, i + 1).last() == pv[i as int]);
        match str_parse_u64(field) {
            Ok(val) => {
                if val > EPOCH_THRESHOLD_MS {
                    epoch = Some(val);
                } else if val > 0 && val <= MAX_SESSION_MINUTES {
                    duration_min = val as u32;
                }
            },
            Err(_) => {},
        }
        i = i + 1;
    }
    assert(pv.subrange(0, i as int) =~= pv);
    let profile = if str_contains(text, "ECO") {
        Some(SessionLabel::Economico)
    } else if str_contains(text, "SPT") {
        Some(SessionLabel::Esportivo)
    } else if str_contains(text, "NOR") {
        Some(SessionLabel::Normal)
    } else {
        None
    };
    Command::Session { wipe, duration_min, epoch_ms: epoch, profile }
}

/// The session a command starts: its profile, duration in minutes (0 =
/// unlimited) and optional epoch time.
#[derive(Clone, Copy, Debug, PartialEq, Eq, Structural)]
pub struct SessionStart {
    pub label: SessionLabel,
    pub duration_min: u32,
    pub epoch_ms: Option<u64>,
}

/// What the firmware does for a command, in this order: stop the active
/// session (flush, publish `SESSION_STOPPED`); publish the session list;
/// stream a session file; set the clock; wipe the card; start a new
/// session (rotate the file, send the profile to the ECU emulator, publish
/// `SESSION_START` once the new file is open).
#[derive(Clone, Copy, Debug, PartialEq, Eq, Structural)]
pub struct CommandPlan {
    pub stop_session: bool,
    pub list_sessions: bool,
    pub replay: Option<u16>,
    pub set_time: Option<u64>,
    pub wipe: bool,
    pub start: Option<SessionStart>,
}

/// A plan that does nothing.
pub open spec fn idle_plan() -> CommandPlan {
    CommandPlan {
        stop_session: false,
        list_sessions: false,
        replay: None,
        set_time: None,
        wipe: false,
        start: None,
    }
}

/// The plan of a command, given whether a session is being recorded: a
/// replay first stops the active session (if any); `STOP` always stops and
/// announces; a session command wipes when asked, and starts a session
/// when it names a profile.
pub open spec fn plan_of(cmd: Command, session_active: bool) -> CommandPlan {
    match cmd {
        Command::ListSessions => CommandPlan { list_sessions: true, ..idle_plan() },
        Command::Replay { session } => CommandPlan {
            stop_session: session_active,
            replay: Some(session),
            ..idle_plan()
        },
        Command::Stop => CommandPlan { stop_session: true, ..idle_plan() },
        Command::SetTime { epoch } => CommandPlan { set_time: Some(epoch), ..idle_plan() },
        Command::Session { wipe, duration_min, epoch_ms, profile } => CommandPlan {
            wipe,
            start: match profile {
                Some(label) => Some(SessionStart { label, duration_min, epoch_ms }),
                None => None,
            },
            ..idle_plan()
        },
        Command::Ignored => idle_plan(),
    }
}

/// Decides what to do for a command.
pub fn plan_command(cmd: Command, session_active: bool) -> (r: CommandPlan)
    ensures
        r == plan_of(cmd, session_active),
        r.wipe <==> (cmd matches Command::Session { wipe, .. } && wipe),
        r.start is Some <==> (cmd matches Command::Session { profile, .. } && profile is Some),
{
    let mut plan = CommandPlan {
        stop_session: false,
        list_sessions: false,
        replay: None,
        set_time: None,
        wipe: false,
        start: None,
    };
    match cmd {
        Command::ListSessions => {
            plan.list_sessions = true;
        },
        Command::Replay { session } => {
            plan.stop_session = session_active;
            plan.replay = Some(session);
        },
        Command::Stop => {
            plan.stop_session = true;
        },
        Command::SetTime { epoch } => {
            plan.set_time = Some(epoch);
        },
        Command::Session { wipe, duration_min, epoch_ms, profile } => {
            plan.wipe = wipe;
            plan.start = match profile {
                Some(label) => Some(SessionStart { label, duration_min, epoch_ms }),
                None => None,
            };
        },
        Command::Ignored => {},
    }
    plan
}

/// What each command makes the firmware do: the card is wiped exactly for
/// a session command that asks for it (named profile or not); a session
/// starts exactly for a session command naming a profile, with that
/// profile, duration and epoch; the active session is stopped by `STOP`,
/// and by a replay while one is recorded; the list is published for
/// `LIST_SESSIONS`, the file of a replay is the one it names, and the clock
/// is set by `TIME`.
pub proof fn lemma_plan_follows_command(cmd: Command, session_active: bool)
    ensures
        plan_of(cmd, session_active).wipe <==> (cmd matches Command::Session { wipe, .. } && wipe),
        cmd matches Command::Session { profile: Some(label), duration_min, epoch_ms, .. }
            ==> plan_of(cmd, session_active).start == Some(
            SessionStart { label, duration_min, epoch_ms },
        ),
        plan_of(cmd, session_active).start is Some ==> (cmd matches Command::Session {
            profile,
            ..
        } && profile is Some),
        plan_of(cmd, session_active).stop_session <==> (cmd is Stop || (cmd is Replay
            && session_active)),
        plan_of(cmd, session_active).list_sessions <==> cmd is ListSessions,
        cmd matches Command::Replay { session } ==> plan_of(cmd, session_active).replay == Some(
            session,
        ),
        plan_of(cmd, session_active).replay is Some ==> cmd is Replay,
        cmd matches Command::SetTime { epoch } ==> plan_of(cmd, session_active).set_time == Some(
            epoch,
        ),
        plan_of(cmd, session_active).set_time is Some ==> cmd is SetTime,
        cmd is Ignored ==> plan_of(cmd, session_active) == idle_plan(),
{
}

/// A payload asks for a wipe exactly when it is a session command whose
/// text holds `RESET`: the plan of any payload wipes the card then, and
/// only then.
pub proof fn lemma_reset_wipes(payload: Seq<u8>, session_active: bool)
    ensures
        plan_of(payload_command(payload), session_active).wipe <==> (command_text(payload) matches Some(
            t,
        ) && is_session(t) && occurs_in(t, kw_reset())),
{
    lemma_plan_follows_command(payload_command(payload), session_active);
}

} // verus!
