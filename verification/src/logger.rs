//! The logger's routing of telemetry lines between the SD card, MQTT and
//! the reconnection backlog, driven by the connectivity state.
use crate::bounded_vec::{backlog_lines, lines_insert, lines_len, lines_new, lines_push, lines_remove};
use crate::csv::{diag_text, serialize_diag};
use crate::sd_buffer::{push_accepted, push_line, pushed, SdBuffer};
use crate::text::{decimal, decimal_string, lemma_ascii_utf8_len, lemma_decimal_ascii, utf8_len};
use crate::types::SessionLabel;
use vstd::prelude::*;
use vstd::string::{StringExecFns, StringSliceAdditionalSpecFns};
use vstd::utf8::encode_utf8;

verus! {

/// Connectivity state: Wi-Fi/MQTT down.
pub const CONN_DISCONNECTED: u8 = 0;

/// Connectivity state: MQTT connected.
pub const CONN_CONNECTED: u8 = 1;

/// Connectivity state: reconnected, backlog to be drained.
pub const CONN_RECONNECTING: u8 = 2;

/// Last notified state before any notification.
pub const CONN_UNKNOWN: u8 = 255;

/// Bytes reserved per backlog line.
pub const BACKLOG_LINE_BYTES: usize = 320;

/// Counters of the logger.
#[derive(Clone, Copy, Debug)]
pub struct LoggerStats {
    pub frames_received: u32,
    pub frames_to_sd: u32,
    pub frames_to_mqtt: u32,
    pub frames_lost: u32,
    pub overflow_count: u32,
    pub last_frame_ts_ms: u64,
}

/// A 32-bit counter after one increment (wrapping at 2^32).
pub open spec fn bump(x: u32) -> u32 {
    if x == u32::MAX {
        0
    } else {
        (x + 1) as u32
    }
}

fn bump_exec(x: u32) -> (r: u32)
    ensures
        r == bump(x),
{
    x.wrapping_add(1)
}

impl LoggerStats {
    /// All counters at zero.
    pub fn new() -> (r: LoggerStats)
        ensures
            r.frames_received == 0,
            r.frames_to_sd == 0,
            r.frames_to_mqtt == 0,
            r.frames_lost == 0,
            r.overflow_count == 0,
            r.last_frame_ts_ms == 0,
    {
        LoggerStats {
            frames_received: 0,
            frames_to_sd: 0,
            frames_to_mqtt: 0,
            frames_lost: 0,
            overflow_count: 0,
            last_frame_ts_ms: 0,
        }
    }
}

/// State of the logger between frames.
pub struct LoggerState {
    last_conn_notified: u8,
    backlog: heapless::Vec<String, 50>,
    stats: LoggerStats,
}

/// What the logger did with one frame, and what is left to do with it.
#[derive(Clone, Copy, Debug, PartialEq, Eq, Structural)]
pub struct Dispatch {
    /// The frame is to be published over MQTT (state Connected).
    pub publish: bool,
    /// The frame's line was accepted by the SD buffer.
    pub sd_success: bool,
    /// The connectivity state is to be set to Connected (the backlog was
    /// drained after a reconnection).
    pub set_connected: bool,
    /// The frame's line waits in the backlog for the SD card.
    pub queued: bool,
}

/// Bytes of a diagnostic line with the `Normal` label.
pub open spec fn diag_bytes(timestamp_ms: u64, msg: Seq<char>) -> Seq<u8> {
    encode_utf8(diag_text(timestamp_ms, SessionLabel::Normal, msg))
}

pub open spec fn msg_disconnected() -> Seq<char> {
    "WIFI_DISCONNECTED"@
}

pub open spec fn msg_sd_write_error() -> Seq<char> {
    "SD_WRITE_ERROR"@
}

pub open spec fn msg_reconnected_prefix() -> Seq<char> {
    "WIFI_RECONNECTED backlog="@
}

/// Message of the reconnection notice: the number of backlog lines.
pub open spec fn msg_reconnected(backlog_len: nat) -> Seq<char> {
    msg_reconnected_prefix() + decimal(backlog_len)
}

/// Bytes of a line of text.
pub open spec fn line_bytes(line: Seq<char>) -> Seq<u8> {
    encode_utf8(line)
}

/// SD contents and backlog after draining the backlog into the SD buffer:
/// lines leave the backlog from its front, in order, while the buffer
/// accepts them; the first line it refuses stays at the front.
pub open spec fn drain(sd: Seq<u8>, sd_ok: bool, backlog: Seq<Seq<char>>) -> (Seq<u8>, Seq<Seq<char>>)
    decreases backlog.len(),
{
    if backlog.len() == 0 {
        (sd, backlog)
    } else if push_accepted(sd, sd_ok, line_bytes(backlog[0])) {
        drain(sd + line_bytes(backlog[0]), sd_ok, backlog.drop_first())
    } else {
        (sd, backlog)
    }
}

/// Concatenated bytes of a list of lines.
pub open spec fn lines_bytes(lines: Seq<Seq<char>>) -> Seq<u8>
    decreases lines.len(),
{
    if lines.len() == 0 {
        Seq::empty()
    } else {
        line_bytes(lines[0]) + lines_bytes(lines.drop_first())
    }
}

/// Last notified connectivity state after a frame seen in `conn`.
pub open spec fn notified_after(last: u8, conn: u8) -> u8 {
    if conn == CONN_DISCONNECTED || conn == CONN_CONNECTED {
        conn
    } else {
        last
    }
}

/// SD contents after the connectivity notices for a frame seen in `conn`:
/// a `WIFI_DISCONNECTED` line when the link went down, a
/// `WIFI_RECONNECTED backlog=<n>` line (the lines waiting in the backlog)
/// when it is up, each only once per change.
pub open spec fn after_notices(
    sd: Seq<u8>,
    sd_ok: bool,
    last: u8,
    conn: u8,
    backlog_len: nat,
    timestamp_ms: u64,
) -> Seq<u8> {
    if conn == CONN_DISCONNECTED && last != CONN_DISCONNECTED {
        pushed(sd, sd_ok, diag_bytes(timestamp_ms, msg_disconnected()))
    } else if conn == CONN_CONNECTED && last != CONN_CONNECTED {
        pushed(sd, sd_ok, diag_bytes(timestamp_ms, msg_reconnected(backlog_len)))
    } else {
        sd
    }
}

/// SD contents, backlog, SD success and whether the line was queued, when
/// the line is routed without MQTT: the backlog is drained first (oldest
/// line first); the line then goes to the SD buffer when nothing older
/// waits and the buffer takes it, and otherwise joins the backlog (dropped
/// only when the backlog is full) with an `SD_WRITE_ERROR` notice.
pub open spec fn routed_offline(
    sd: Seq<u8>,
    sd_ok: bool,
    backlog: Seq<Seq<char>>,
    line: Seq<char>,
    timestamp_ms: u64,
) -> (Seq<u8>, Seq<Seq<char>>, bool, bool) {
    let d = drain(sd, sd_ok, backlog);
    if d.1.len() == 0 && push_accepted(d.0, sd_ok, line_bytes(line)) {
        (d.0 + line_bytes(line), d.1, true, false)
    } else {
        (
            pushed(d.0, sd_ok, diag_bytes(timestamp_ms, msg_sd_write_error())),
            if d.1.len() < 50 {
                d.1.push(line)
            } else {
                d.1
            },
            false,
            d.1.len() < 50,
        )
    }
}

/// SD contents, backlog, SD success and whether the line was queued, after
/// routing a frame's line: while connected it goes to the SD buffer (and to
/// MQTT); while disconnected or reconnecting it is routed without MQTT; in
/// any other state nothing happens.
pub open spec fn routed(
    sd: Seq<u8>,
    sd_ok: bool,
    backlog: Seq<Seq<char>>,
    conn: u8,
    line: Seq<char>,
    timestamp_ms: u64,
) -> (Seq<u8>, Seq<Seq<char>>, bool, bool) {
    if conn == CONN_CONNECTED {
        (
            pushed(sd, sd_ok, line_bytes(line)),
            backlog,
            push_accepted(sd, sd_ok, line_bytes(line)),
            false,
        )
    } else if conn == CONN_DISCONNECTED || conn == CONN_RECONNECTING {
        routed_offline(sd, sd_ok, backlog, line, timestamp_ms)
    } else {
        (sd, backlog, false, false)
    }
}

/// Whether the logger is done with a session whose timer expired: the timer
/// is active, has a duration, and at least that much time has passed since
/// the session started (elapsed time saturates at zero).
pub open spec fn session_expired_spec(timer_active: bool, start_ms: u64, duration_ms: u64, now_ms: u64) -> bool {
    timer_active && duration_ms > 0 && (if now_ms >= start_ms {
        now_ms - start_ms
    } else {
        0
    }) >= duration_ms
}

/// Whether a timed session has run out.
pub fn session_expired(timer_active: bool, start_ms: u64, duration_ms: u64, now_ms: u64) -> (r: bool)
    ensures
        r == session_expired_spec(timer_active, start_ms, duration_ms, now_ms),
{
    timer_active && duration_ms > 0 && now_ms.saturating_sub(start_ms) >= duration_ms
}

/// What the logger does with a frame, given the session state: whether the
/// session timer ran out with this frame (the session then stops, its
/// completion line is written and the buffer flushed), the session flags
/// afterwards, and whether the frame is recorded.
#[derive(Clone, Copy, Debug, PartialEq, Eq, Structural)]
pub struct SessionGate {
    pub expired: bool,
    pub timer_active: bool,
    pub session_active: bool,
    pub record: bool,
}

/// Decides a frame's fate from the session flags and times: a timed
/// session that ran out stops (timer and session off); only frames of an
/// active session are recorded.
pub fn session_gate(
    session_active: bool,
    timer_active: bool,
    start_ms: u64,
    duration_ms: u64,
    now_ms: u64,
) -> (r: SessionGate)
    ensures
        r.expired == session_expired_spec(timer_active, start_ms, duration_ms, now_ms),
        r.timer_active == (timer_active && !r.expired),
        r.session_active == (session_active && !r.expired),
        r.record == r.session_active,
{
    let expired = session_expired(timer_active, start_ms, duration_ms, now_ms);
    let active = session_active && !expired;
    SessionGate {
        expired,
        timer_active: timer_active && !expired,
        session_active: active,
        record: active,
    }
}

pub open spec fn msg_session_complete() -> Seq<char> {
    "SESSION_COMPLETE_DURATION_REACHED"@
}

/// The line written when a timed session runs out, with the frame's time
/// and label.
pub fn session_complete_line(timestamp_ms: u64, label: SessionLabel) -> (r: String)
    ensures
        r@ == diag_text(timestamp_ms, label, msg_session_complete()),
{
    proof {
        reveal_strlit("SESSION_COMPLETE_DURATION_REACHED");
        assert(vstd::utf8::is_ascii_chars(msg_session_complete()));
        lemma_ascii_utf8_len(msg_session_complete());
    }
    serialize_diag(timestamp_ms, &label, "SESSION_COMPLETE_DURATION_REACHED")
}

fn disconnected_str() -> (r: &'static str)
    ensures
        r@ == msg_disconnected(),
        utf8_len(r@) <= 64,
{
    proof {
        reveal_strlit("WIFI_DISCONNECTED");
        assert(vstd::utf8::is_ascii_chars(msg_disconnected()));
        lemma_ascii_utf8_len(msg_disconnected());
    }
    "WIFI_DISCONNECTED"
}

fn sd_write_error_str() -> (r: &'static str)
    ensures
        r@ == msg_sd_write_error(),
        utf8_len(r@) <= 64,
{
    proof {
        reveal_strlit("SD_WRITE_ERROR");
        assert(vstd::utf8::is_ascii_chars(msg_sd_write_error()));
        lemma_ascii_utf8_len(msg_sd_write_error());
    }
    "SD_WRITE_ERROR"
}

fn reconnected_msg(n: usize) -> (r: String)
    requires
        n <= 50,
    ensures
        r@ == msg_reconnected(n as nat),
        utf8_len(r@) <= 64,
{
    let mut s = String::from_str("WIFI_RECONNECTED backlog=");
    let digits = decimal_string(n as u64);
    s.append(digits.as_str());
    proof {
        reveal_strlit("WIFI_RECONNECTED backlog=");
        assert(vstd::utf8::is_ascii_chars(msg_reconnected_prefix()));
        lemma_decimal_ascii(n as nat);
        reveal_with_fuel(decimal, 3);
        assert(decimal(n as nat).len() <= 2);
        vstd::utf8::is_ascii_chars_concat(
            msg_reconnected(n as nat),
            msg_reconnected_prefix(),
            decimal(n as nat),
        );
        lemma_ascii_utf8_len(msg_reconnected(n as nat));
    }
    s
}

/// Pushes a `Normal`-labelled diagnostic line with a short message.
fn push_diag(sd: &mut SdBuffer, sd_ok: bool, timestamp_ms: u64, msg: &str)
    requires
        old(sd).wf(),
        utf8_len(msg@) <= 64,
    ensures
        final(sd).wf(),
        final(sd)@ == pushed(old(sd)@, sd_ok, diag_bytes(timestamp_ms, msg@)),
{
    let diag = serialize_diag(timestamp_ms, &SessionLabel::Normal, msg);
    let _ = push_line(sd, sd_ok, diag.as_str());
}

impl LoggerState {
    /// Last connectivity state for which a notice was written.
    pub closed spec fn last_notified(&self) -> u8 {
        self.last_conn_notified
    }

    /// The logger's counters.
    pub closed spec fn counters(&self) -> LoggerStats {
        self.stats
    }

    /// The logger's counters.
    pub fn stats(&self) -> (r: LoggerStats)
        ensures
            r == self.counters(),
    {
        self.stats
    }

    /// Lines waiting in the backlog, oldest first.
    pub closed spec fn backlog(&self) -> Seq<Seq<char>> {
        backlog_lines(self.backlog)
    }

    /// A fresh logger: no notice written yet, empty backlog, zero counters.
    pub fn new() -> (r: LoggerState)
        ensures
            r.last_notified() == CONN_UNKNOWN,
            r.backlog() == Seq::<Seq<char>>::empty(),
            r.counters().frames_received == 0,
            r.counters().frames_to_sd == 0,
            r.counters().frames_to_mqtt == 0,
            r.counters().frames_lost == 0,
            r.counters().overflow_count == 0,
            r.counters().last_frame_ts_ms == 0,
    {
        LoggerState {
            last_conn_notified: CONN_UNKNOWN,
            backlog: lines_new(),
            stats: LoggerStats::new(),
        }
    }

    /// Number of lines in the backlog.
    pub fn backlog_len(&self) -> (r: usize)
        ensures
            r == self.backlog().len(),
            r <= 50,
    {
        lines_len(&self.backlog)
    }

    /// Counts a frame taken from the telemetry channel.
    pub fn record_frame(&mut self, timestamp_ms: u64)
        ensures
            final(self).counters().frames_received == bump(old(self).counters().frames_received),
            final(self).counters().last_frame_ts_ms == timestamp_ms,
            final(self).counters().frames_to_sd == old(self).counters().frames_to_sd,
            final(self).counters().frames_to_mqtt == old(self).counters().frames_to_mqtt,
            final(self).counters().frames_lost == old(self).counters().frames_lost,
            final(self).counters().overflow_count == old(self).counters().overflow_count,
            final(self).last_notified() == old(self).last_notified(),
            final(self).backlog() == old(self).backlog(),
    {
        self.stats.frames_received = bump_exec(self.stats.frames_received);
        self.stats.last_frame_ts_ms = timestamp_ms;
    }

    /// Routes one telemetry line according to the connectivity state
    /// `conn_state`: writes the connectivity notices (Connected and
    /// Disconnected only), then
    /// - Connected: the line goes to the SD buffer and is to be published;
    /// - Disconnected and Reconnecting: the backlog is drained into the SD
    ///   buffer, oldest line first; the line then goes to the SD buffer when
    ///   nothing older waits and the buffer takes it, otherwise to the
    ///   backlog (dropped when the backlog is full) together with an
    ///   `SD_WRITE_ERROR` notice; after Reconnecting the state is to become
    ///   Connected;
    /// - any other state: nothing.
    pub fn dispatch(
        &mut self,
        sd: &mut SdBuffer,
        sd_ok: bool,
        conn_state: u8,
        csv_line: &str,
        timestamp_ms: u64,
    ) -> (d: Dispatch)
        requires
            old(sd).wf(),
        ensures
            final(sd).wf(),
            final(self).last_notified() == notified_after(old(self).last_notified(), conn_state),
            ({
                let notes = after_notices(
                    old(sd)@,
                    sd_ok,
                    old(self).last_notified(),
                    conn_state,
                    old(self).backlog().len(),
                    timestamp_ms,
                );
                let r = routed(notes, sd_ok, old(self).backlog(), conn_state, csv_line@, timestamp_ms);
                &&& final(sd)@ == r.0
                &&& final(self).backlog() == r.1
                &&& d.sd_success == r.2
                &&& d.queued == r.3
                &&& (conn_state == CONN_CONNECTED ==> d.sd_success == push_accepted(
                    notes,
                    sd_ok,
                    csv_line.spec_bytes(),
                ))
                &&& (d.sd_success ==> final(sd)@.len() >= csv_line.spec_bytes().len()
                    && final(sd)@.subrange(
                    final(sd)@.len() - csv_line.spec_bytes().len(),
                    final(sd)@.len() as int,
                ) == csv_line.spec_bytes())
            }),
            !sd_ok ==> !d.sd_success && final(sd)@ == old(sd)@,
            d.publish == (conn_state == CONN_CONNECTED),
            d.set_connected == (conn_state == CONN_RECONNECTING),
            final(self).counters().frames_to_sd == (if d.sd_success {
                bump(old(self).counters().frames_to_sd)
            } else {
                old(self).counters().frames_to_sd
            }),
            final(self).counters().frames_received == old(self).counters().frames_received,
            final(self).counters().frames_to_mqtt == old(self).counters().frames_to_mqtt,
            final(self).counters().frames_lost == old(self).counters().frames_lost,
            final(self).counters().overflow_count == old(self).counters().overflow_count,
            final(self).counters().last_frame_ts_ms == old(self).counters().last_frame_ts_ms,
    {
        let ghost sd0 = sd@;
        proof {
            let notes = after_notices(
                sd@,
                sd_ok,
                self.last_conn_notified,
                conn_state,
                backlog_lines(self.backlog).len(),
                timestamp_ms,
            );
            lemma_sd_success_means_written(notes, sd_ok, backlog_lines(self.backlog), conn_state, csv_line@, timestamp_ms);
            lemma_no_card_no_write(sd@, self.last_conn_notified, backlog_lines(self.backlog), conn_state, csv_line@, timestamp_ms);
        }
        if conn_state == CONN_DISCONNECTED && self.last_conn_notified != CONN_DISCONNECTED {
            self.last_conn_notified = CONN_DISCONNECTED;
            push_diag(sd, sd_ok, timestamp_ms, disconnected_str());
        }
        if conn_state == CONN_CONNECTED && self.last_conn_notified != CONN_CONNECTED {
            self.last_conn_notified = CONN_CONNECTED;
            let n = lines_len(&self.backlog);
            let msg = reconnected_msg(n);
            push_diag(sd, sd_ok, timestamp_ms, msg.as_str());
        }
        let mut sd_success = false;
        let mut queued = false;
        if conn_state == CONN_CONNECTED {
            if push_line(sd, sd_ok, csv_line).is_ok() {
                sd_success = true;
                self.stats.frames_to_sd = bump_exec(self.stats.frames_to_sd);
            }
        } else if conn_state == CONN_DISCONNECTED || conn_state == CONN_RECONNECTING {
            self.drain_backlog(sd, sd_ok);
            let waiting = lines_len(&self.backlog);
            if waiting == 0 && push_line(sd, sd_ok, csv_line).is_ok() {
                sd_success = true;
                self.stats.frames_to_sd = bump_exec(self.stats.frames_to_sd);
            } else {
                queued = lines_push(&mut self.backlog, String::from_str(csv_line)).is_ok();
                push_diag(sd, sd_ok, timestamp_ms, sd_write_error_str());
            }
        }
        Dispatch {
            publish: conn_state == CONN_CONNECTED,
            sd_success,
            set_connected: conn_state == CONN_RECONNECTING,
            queued,
        }
    }

    /// Moves backlog lines, oldest first, into the SD buffer until it
    /// refuses one; that line is put back at the front.
    fn drain_backlog(&mut self, sd: &mut SdBuffer, sd_ok: bool)
        requires
            old(sd).wf(),
        ensures
            final(sd).wf(),
            (final(sd)@, final(self).backlog()) == drain(old(sd)@, sd_ok, old(self).backlog()),
            final(self).last_notified() == old(self).last_notified(),
            final(self).counters() == old(self).counters(),
    {
        loop
            invariant
                sd.wf(),
                drain(sd@, sd_ok, self.backlog()) == drain(old(sd)@, sd_ok, old(self).backlog()),
                self.last_notified() == old(self).last_notified(),
                self.counters() == old(self).counters(),
            ensures
                sd.wf(),
                (sd@, self.backlog()) == drain(old(sd)@, sd_ok, old(self).backlog()),
                self.last_notified() == old(self).last_notified(),
                self.counters() == old(self).counters(),
            decreases self.backlog().len(),
        {
            let n = lines_len(&self.backlog);
            if n == 0 {
                break;
            }
            let ghost b = self.backlog();
            let ghost s = sd@;
            let line = lines_remove(&mut self.backlog, 0);
            assert(b.remove(0) =~= b.drop_first());
            if push_line(sd, sd_ok, line.as_str()).is_err() {
                let _ = lines_insert(&mut self.backlog, 0, line);
                assert(b.drop_first().insert(0, b[0]) =~= b);
                break;
            }
        }
    }

    /// Completes the accounting of a frame once its MQTT publication (if
    /// any) is done: counts the publication, and counts the frame as lost
    /// when neither the SD buffer nor MQTT took it (a line waiting in the
    /// backlog counts as lost until it is written).
    pub fn settle(&mut self, d: Dispatch, mqtt_ok: bool)
        requires
            mqtt_ok ==> d.publish,
        ensures
            final(self).counters().frames_to_mqtt == (if mqtt_ok {
                bump(old(self).counters().frames_to_mqtt)
            } else {
                old(self).counters().frames_to_mqtt
            }),
            final(self).counters().frames_lost == (if !d.sd_success && !mqtt_ok {
                bump(old(self).counters().frames_lost)
            } else {
                old(self).counters().frames_lost
            }),
            final(self).counters().frames_received == old(self).counters().frames_received,
            final(self).counters().frames_to_sd == old(self).counters().frames_to_sd,
            final(self).counters().overflow_count == old(self).counters().overflow_count,
            final(self).counters().last_frame_ts_ms == old(self).counters().last_frame_ts_ms,
            final(self).last_notified() == old(self).last_notified(),
            final(self).backlog() == old(self).backlog(),
    {
        if mqtt_ok {
            self.stats.frames_to_mqtt = bump_exec(self.stats.frames_to_mqtt);
        }
        if !d.sd_success && !mqtt_ok {
            self.stats.frames_lost = bump_exec(self.stats.frames_lost);
        }
    }
}

/// Bytes of RAM taken by the backlog (320 per line).
pub fn get_backlog_psram_bytes(state: &LoggerState) -> (r: usize)
    ensures
        r == state.backlog().len() * BACKLOG_LINE_BYTES,
        r <= 50 * BACKLOG_LINE_BYTES,
{
    let n = state.backlog_len();
    n * BACKLOG_LINE_BYTES
}

/// The backlog is drained in FIFO order: the lines that leave it are its
/// oldest ones, appended to the SD buffer in the order they were queued,
/// and the lines that stay keep their order; draining stops only at a line
/// the buffer refuses.
pub proof fn lemma_drain_fifo(sd: Seq<u8>, sd_ok: bool, backlog: Seq<Seq<char>>)
    ensures
        exists|k: int|
            0 <= k <= backlog.len() && #[trigger] drain(sd, sd_ok, backlog) == (
                sd + lines_bytes(backlog.take(k)),
                backlog.skip(k),
            ) && (k < backlog.len() ==> !push_accepted(
                sd + lines_bytes(backlog.take(k)),
                sd_ok,
                line_bytes(backlog[k]),
            )),
    decreases backlog.len(),
{
    if backlog.len() == 0 {
        assert(backlog.take(0) =~= Seq::<Seq<char>>::empty());
        assert(backlog.skip(0) =~= backlog);
        assert(sd + lines_bytes(backlog.take(0)) =~= sd);
        assert(drain(sd, sd_ok, backlog) == (sd + lines_bytes(backlog.take(0)), backlog.skip(0)));
    } else if push_accepted(sd, sd_ok, line_bytes(backlog[0])) {
        let rest = backlog.drop_first();
        let sd1 = sd + line_bytes(backlog[0]);
        lemma_drain_fifo(sd1, sd_ok, rest);
        let k = choose|k: int|
            0 <= k <= rest.len() && #[trigger] drain(sd1, sd_ok, rest) == (
                sd1 + lines_bytes(rest.take(k)),
                rest.skip(k),
            ) && (k < rest.len() ==> !push_accepted(
                sd1 + lines_bytes(rest.take(k)),
                sd_ok,
                line_bytes(rest[k]),
            ));
        assert(backlog.take(k + 1).drop_first() =~= rest.take(k));
        assert(backlog.take(k + 1)[0] == backlog[0]);
        assert(lines_bytes(backlog.take(k + 1)) == line_bytes(backlog[0]) + lines_bytes(
            rest.take(k),
        ));
        assert(sd + lines_bytes(backlog.take(k + 1)) =~= sd1 + lines_bytes(rest.take(k)));
        assert(backlog.skip(k + 1) =~= rest.skip(k));
        if k < rest.len() {
            assert(backlog[k + 1] == rest[k]);
        }
        assert(drain(sd, sd_ok, backlog) == (
            sd + lines_bytes(backlog.take(k + 1)),
            backlog.skip(k + 1),
        ));
    } else {
        assert(backlog.take(0) =~= Seq::<Seq<char>>::empty());
        assert(backlog.skip(0) =~= backlog);
        assert(sd + lines_bytes(backlog.take(0)) =~= sd);
        assert(drain(sd, sd_ok, backlog) == (sd + lines_bytes(backlog.take(0)), backlog.skip(0)));
    }
}

/// Draining with the card present and room for the whole backlog empties
/// it into the SD buffer, oldest line first.
pub proof fn lemma_drain_all(sd: Seq<u8>, backlog: Seq<Seq<char>>)
    requires
        sd.len() + lines_bytes(backlog).len() <= crate::sd_buffer::SD_BUFFER_CAPACITY,
    ensures
        drain(sd, true, backlog) == (sd + lines_bytes(backlog), Seq::<Seq<char>>::empty()),
    decreases backlog.len(),
{
    if backlog.len() == 0 {
        assert(sd + lines_bytes(backlog) =~= sd);
        assert(backlog =~= Seq::<Seq<char>>::empty());
    } else {
        let rest = backlog.drop_first();
        let sd1 = sd + line_bytes(backlog[0]);
        assert(sd1.len() + lines_bytes(rest).len() == sd.len() + lines_bytes(backlog).len());
        lemma_drain_all(sd1, rest);
        assert(sd1 + lines_bytes(rest) =~= sd + lines_bytes(backlog));
    }
}

/// A connectivity notice is written once per change: after a frame seen
/// while Connected or Disconnected, a next frame in the same state writes
/// no notice; a frame seen while reconnecting writes none.
pub proof fn lemma_notice_once(
    sd: Seq<u8>,
    sd_ok: bool,
    last: u8,
    conn: u8,
    backlog_len: nat,
    timestamp_ms: u64,
)
    requires
        conn == CONN_CONNECTED || conn == CONN_DISCONNECTED,
    ensures
        after_notices(sd, sd_ok, notified_after(last, conn), conn, backlog_len, timestamp_ms)
            == sd,
        after_notices(sd, sd_ok, last, CONN_RECONNECTING, backlog_len, timestamp_ms) == sd,
        notified_after(last, CONN_RECONNECTING) == last,
{
}

/// No line is lost while the link is down or coming back and the backlog
/// has room: it is written to the SD buffer after every older line, or it
/// becomes the newest backlog line.
pub proof fn lemma_offline_line_kept(
    sd: Seq<u8>,
    sd_ok: bool,
    backlog: Seq<Seq<char>>,
    line: Seq<char>,
    timestamp_ms: u64,
)
    requires
        backlog.len() < 50,
    ensures
        ({
            let r = routed_offline(sd, sd_ok, backlog, line, timestamp_ms);
            &&& r.2 || r.3
            &&& r.2 ==> r.1.len() == 0 && r.0 == sd + lines_bytes(backlog) + line_bytes(line)
            &&& r.3 ==> r.1.len() > 0 && r.1.last() == line
        }),
{
    lemma_drain_fifo(sd, sd_ok, backlog);
    let d = drain(sd, sd_ok, backlog);
    let k = choose|k: int|
        0 <= k <= backlog.len() && #[trigger] drain(sd, sd_ok, backlog) == (
            sd + lines_bytes(backlog.take(k)),
            backlog.skip(k),
        ) && (k < backlog.len() ==> !push_accepted(
            sd + lines_bytes(backlog.take(k)),
            sd_ok,
            line_bytes(backlog[k]),
        ));
    assert(d.1.len() <= backlog.len());
    if d.1.len() == 0 {
        assert(k == backlog.len());
        assert(backlog.take(k) =~= backlog);
    }
}

/// A line is reported written to the SD buffer only when it is: after
/// routing, a reported SD success means the line's bytes end the SD
/// buffer's contents; while connected, the line is written exactly when the
/// buffer accepts it, and otherwise the buffer is unchanged.
pub proof fn lemma_sd_success_means_written(
    sd: Seq<u8>,
    sd_ok: bool,
    backlog: Seq<Seq<char>>,
    conn: u8,
    line: Seq<char>,
    timestamp_ms: u64,
)
    ensures
        ({
            let r = routed(sd, sd_ok, backlog, conn, line, timestamp_ms);
            let lb = line_bytes(line);
            &&& r.2 ==> r.0.len() >= lb.len() && r.0.subrange(r.0.len() - lb.len(), r.0.len() as int)
                == lb
            &&& r.2 ==> sd_ok
            &&& conn == CONN_CONNECTED ==> (r.2 <==> push_accepted(sd, sd_ok, lb))
            &&& conn == CONN_CONNECTED && r.2 ==> r.0 == sd + lb
            &&& conn == CONN_CONNECTED && !r.2 ==> r.0 == sd
        }),
{
    let r = routed(sd, sd_ok, backlog, conn, line, timestamp_ms);
    let lb = line_bytes(line);
    if r.2 {
        assert(r.0.subrange(r.0.len() - lb.len(), r.0.len() as int) =~= lb);
    }
}

/// Without a card nothing reaches the SD buffer: the notices and the
/// routing of a frame leave it as it was, and no line is reported written.
pub proof fn lemma_no_card_no_write(
    sd: Seq<u8>,
    last: u8,
    backlog: Seq<Seq<char>>,
    conn: u8,
    line: Seq<char>,
    timestamp_ms: u64,
)
    ensures
        ({
            let notes = after_notices(sd, false, last, conn, backlog.len(), timestamp_ms);
            let r = routed(notes, false, backlog, conn, line, timestamp_ms);
            &&& notes == sd
            &&& r.0 == sd
            &&& !r.2
        }),
{
    if backlog.len() > 0 {
        assert(drain(sd, false, backlog) == (sd, backlog));
    }
}

} // verus!
