//! Decoding of received CAN frames (DBC broadcasts and OBD-II answers) and
//! construction of the frames the collector sends.
use crate::types::{label_number, CanFrame, DataSource, SessionLabel};
use vstd::prelude::*;

verus! {

/// DBC frame with vehicle speed and engine RPM.
pub const CAN_ID_SPEED_RPM: u32 = 0x100;

/// DBC frame with throttle position and engine load.
pub const CAN_ID_THROTTLE_LOAD: u32 = 0x200;

/// DBC frame with coolant temperature.
pub const CAN_ID_COOLANT_TEMP: u32 = 0x300;

/// Functional OBD-II request identifier.
pub const OBD_REQUEST_ID: u32 = 0x7DF;

/// OBD-II answer identifier of the ECU.
pub const OBD_RESPONSE_ID: u32 = 0x7E8;

/// Identifier of the driving-profile command sent to the ECU emulator.
pub const PROFILE_CMD_ID: u32 = 0x010;

/// OBD-II service used in requests (Mode 01, current data).
pub const OBD_MODE_REQUEST: u8 = 0x01;

/// OBD-II service expected in answers (Mode 01 + 0x40).
pub const OBD_MODE_RESPONSE: u8 = 0x41;

/// Number of polled PIDs.
pub const OBD_PID_COUNT: usize = 6;

/// Interval between two OBD-II requests, in milliseconds.
pub const OBD_POLL_INTERVAL_MS: u64 = 100;

/// Time an OBD-II answer is waited for, in milliseconds.
pub const OBD_TIMEOUT_MS: u64 = 50;

/// Exact value `num / den` of a decoded signal, in the signal's unit.
#[derive(Clone, Copy, Debug, PartialEq, Eq, Structural)]
pub struct Reading {
    pub num: i32,
    pub den: u32,
}

/// A decoded telemetry frame: each signal is present only when the frame
/// carries it. The OBD latency is in timer ticks (1 MHz, microseconds).
#[derive(Clone, Copy, Debug, PartialEq, Eq, Structural)]
pub struct DecodedFrame {
    pub timestamp_ms: u64,
    pub source: DataSource,
    pub can_id: u32,
    pub speed_kmh: Option<Reading>,
    pub rpm: Option<Reading>,
    pub throttle_pct: Option<Reading>,
    pub engine_load_pct: Option<Reading>,
    pub maf_g_s: Option<Reading>,
    pub coolant_temp_c: Option<Reading>,
    pub obd_latency_ticks: Option<u64>,
    pub session_label: SessionLabel,
}

/// A frame with no signal.
pub open spec fn empty_frame(
    timestamp_ms: u64,
    source: DataSource,
    can_id: u32,
    label: SessionLabel,
) -> DecodedFrame {
    DecodedFrame {
        timestamp_ms,
        source,
        can_id,
        speed_kmh: None,
        rpm: None,
        throttle_pct: None,
        engine_load_pct: None,
        maf_g_s: None,
        coolant_temp_c: None,
        obd_latency_ticks: None,
        session_label: label,
    }
}

impl DecodedFrame {
    /// A frame with no signal, for the given time, source, identifier and
    /// session label.
    pub fn new(timestamp_ms: u64, source: DataSource, can_id: u32, label: SessionLabel) -> (r:
        DecodedFrame)
        ensures
            r == empty_frame(timestamp_ms, source, can_id, label),
    {
        DecodedFrame {
            timestamp_ms,
            source,
            can_id,
            speed_kmh: None,
            rpm: None,
            throttle_pct: None,
            engine_load_pct: None,
            maf_g_s: None,
            coolant_temp_c: None,
            obd_latency_ticks: None,
            session_label: label,
        }
    }
}

/// Big-endian 16-bit value of two bytes.
pub open spec fn be16(hi: u8, lo: u8) -> int {
    hi as int * 256 + lo as int
}

/// A reading `num / den`.
pub open spec fn reading(num: int, den: int) -> Reading {
    Reading { num: num as i32, den: den as u32 }
}

/// A percentage coded on one byte (`a * 100 / 255`).
pub open spec fn percent(a: u8) -> Reading {
    reading(a as int * 100, 255)
}

/// A temperature coded with a 40 degree offset (`a - 40`).
pub open spec fn celsius(a: u8) -> Reading {
    reading(a as int - 40, 1)
}

/// Decoding of a DBC frame: `0x100` carries speed (bytes 0-1, big endian)
/// and RPM (bytes 2-3); `0x200` throttle (byte 0) and engine load (byte 1)
/// in percent; `0x300` coolant temperature (byte 0); any other identifier
/// is not decoded.
pub open spec fn dbc_decoding(frame: CanFrame, timestamp_ms: u64, label: SessionLabel) -> Option<
    DecodedFrame,
> {
    let d = frame.data@;
    let base = empty_frame(timestamp_ms, DataSource::CanDbc, frame.id, label);
    if frame.id == CAN_ID_SPEED_RPM {
        Some(
            DecodedFrame {
                speed_kmh: Some(reading(be16(d[0], d[1]), 1)),
                rpm: Some(reading(be16(d[2], d[3]), 1)),
                ..base
            },
        )
    } else if frame.id == CAN_ID_THROTTLE_LOAD {
        Some(
            DecodedFrame {
                throttle_pct: Some(percent(d[0])),
                engine_load_pct: Some(percent(d[1])),
                ..base
            },
        )
    } else if frame.id == CAN_ID_COOLANT_TEMP {
        Some(DecodedFrame { coolant_temp_c: Some(celsius(d[0])), ..base })
    } else {
        None
    }
}

fn be16_exec(hi: u8, lo: u8) -> (r: i32)
    ensures
        r as int == be16(hi, lo),
{
    (hi as i32) * 256 + (lo as i32)
}

fn percent_exec(a: u8) -> (r: Reading)
    ensures
        r == percent(a),
{
    Reading { num: (a as i32) * 100, den: 255 }
}

fn celsius_exec(a: u8) -> (r: Reading)
    ensures
        r == celsius(a),
{
    Reading { num: (a as i32) - 40, den: 1 }
}

/// Decodes a raw CAN frame with the project's DBC.
pub fn parse_dbc_frame(frame: &CanFrame, timestamp_ms: u64, label: SessionLabel) -> (r: Option<
    DecodedFrame,
>)
    ensures
        r == dbc_decoding(*frame, timestamp_ms, label),
{
    let d = &frame.data;
    if frame.id == CAN_ID_SPEED_RPM {
        let mut tf = DecodedFrame::new(timestamp_ms, DataSource::CanDbc, frame.id, label);
        tf.speed_kmh = Some(Reading { num: be16_exec(d[0], d[1]), den: 1 });
        tf.rpm = Some(Reading { num: be16_exec(d[2], d[3]), den: 1 });
        Some(tf)
    } else if frame.id == CAN_ID_THROTTLE_LOAD {
        let mut tf = DecodedFrame::new(timestamp_ms, DataSource::CanDbc, frame.id, label);
        tf.throttle_pct = Some(percent_exec(d[0]));
        tf.engine_load_pct = Some(percent_exec(d[1]));
        Some(tf)
    } else if frame.id == CAN_ID_COOLANT_TEMP {
        let mut tf = DecodedFrame::new(timestamp_ms, DataSource::CanDbc, frame.id, label);
        tf.coolant_temp_c = Some(celsius_exec(d[0]));
        Some(tf)
    } else {
        None
    }
}

/// Virtual identifier under which an OBD-II PID's answer is logged.
pub open spec fn obd_virtual_id(pid: u8) -> Option<u32> {
    if pid == 0x0D {
        Some(0x701u32)
    } else if pid == 0x0C {
        Some(0x702u32)
    } else if pid == 0x11 {
        Some(0x703u32)
    } else if pid == 0x04 {
        Some(0x704u32)
    } else if pid == 0x10 {
        Some(0x705u32)
    } else if pid == 0x05 {
        Some(0x706u32)
    } else {
        None
    }
}

/// Decoding of an OBD-II answer `[len, 0x41, PID, A, B, ...]`: it needs a
/// DLC of at least 4 and service 0x41; `B` counts only with a DLC above 4.
/// Speed is `A` km/h, RPM `(256 A + B) / 4`, throttle and load `A` in
/// percent of 255, MAF `(256 A + B) / 100` g/s, coolant `A - 40` degrees.
pub open spec fn obd_decoding(
    frame: CanFrame,
    timestamp_ms: u64,
    latency_ticks: u64,
    label: SessionLabel,
) -> Option<DecodedFrame> {
    let d = frame.data@;
    if frame.dlc < 4 || d[1] != OBD_MODE_RESPONSE {
        None
    } else {
        let pid = d[2];
        let a = d[3];
        let b: u8 = if frame.dlc > 4 {
            d[4]
        } else {
            0
        };
        match obd_virtual_id(pid) {
            None => None,
            Some(vid) => {
                let base = DecodedFrame {
                    obd_latency_ticks: Some(latency_ticks),
                    ..empty_frame(timestamp_ms, DataSource::ObdPid, vid, label)
                };
                Some(
                    if pid == 0x0D {
                        DecodedFrame { speed_kmh: Some(reading(a as int, 1)), ..base }
                    } else if pid == 0x0C {
                        DecodedFrame { rpm: Some(reading(be16(a, b), 4)), ..base }
                    } else if pid == 0x11 {
                        DecodedFrame { throttle_pct: Some(percent(a)), ..base }
                    } else if pid == 0x04 {
                        DecodedFrame { engine_load_pct: Some(percent(a)), ..base }
                    } else if pid == 0x10 {
                        DecodedFrame { maf_g_s: Some(reading(be16(a, b), 100)), ..base }
                    } else {
                        DecodedFrame { coolant_temp_c: Some(celsius(a)), ..base }
                    },
                )
            },
        }
    }
}

/// Decodes an OBD-II answer frame (`0x7E8`).
pub fn parse_obd_response(
    frame: &CanFrame,
    timestamp_ms: u64,
    latency_ticks: u64,
    label: SessionLabel,
) -> (r: Option<DecodedFrame>)
    ensures
        r == obd_decoding(*frame, timestamp_ms, latency_ticks, label),
{
    let d = &frame.data;
    if frame.dlc < 4 || d[1] != OBD_MODE_RESPONSE {
        return None;
    }
    let pid = d[2];
    let a = d[3];
    let b: u8 = if frame.dlc > 4 {
        d[4]
    } else {
        0
    };
    let virtual_id: u32 = if pid == 0x0D {
        0x701
    } else if pid == 0x0C {
        0x702
    } else if pid == 0x11 {
        0x703
    } else if pid == 0x04 {
        0x704
    } else if pid == 0x10 {
        0x705
    } else if pid == 0x05 {
        0x706
    } else {
        return None;
    };
    let mut tf = DecodedFrame::new(timestamp_ms, DataSource::ObdPid, virtual_id, label);
    tf.obd_latency_ticks = Some(latency_ticks);
    if pid == 0x0D {
        tf.speed_kmh = Some(Reading { num: a as i32, den: 1 });
    } else if pid == 0x0C {
        tf.rpm = Some(Reading { num: be16_exec(a, b), den: 4 });
    } else if pid == 0x11 {
        tf.throttle_pct = Some(percent_exec(a));
    } else if pid == 0x04 {
        tf.engine_load_pct = Some(percent_exec(a));
    } else if pid == 0x10 {
        tf.maf_g_s = Some(Reading { num: be16_exec(a, b), den: 100 });
    } else {
        tf.coolant_temp_c = Some(celsius_exec(a));
    }
    Some(tf)
}

/// What an OBD-II answer says, from its bytes `[len, 0x41, PID, A, B, ..]`:
/// it is decoded exactly when its DLC is at least 4, its service is 0x41
/// and its PID is one of the six polled; the frame then carries the
/// request's latency and exactly one signal, taken from the unsigned bytes
/// `A` and `B` (`B` only with a DLC above 4): speed `A` km/h, RPM
/// `(256 A + B) / 4`, throttle and load `100 A / 255` %, MAF
/// `(256 A + B) / 100` g/s, coolant `A - 40` degrees (from -40 to 215).
pub proof fn lemma_obd_answer_values(frame: CanFrame, timestamp_ms: u64, latency_ticks: u64, label: SessionLabel)
    ensures
        obd_decoding(frame, timestamp_ms, latency_ticks, label) is Some <==> (frame.dlc >= 4
            && frame.data@[1] == 0x41 && (frame.data@[2] == 0x0D || frame.data@[2] == 0x0C
            || frame.data@[2] == 0x11 || frame.data@[2] == 0x04 || frame.data@[2] == 0x10
            || frame.data@[2] == 0x05)),
        obd_decoding(frame, timestamp_ms, latency_ticks, label) matches Some(d) ==> ({
            let pid = frame.data@[2];
            let a = frame.data@[3] as int;
            let b = if frame.dlc > 4 {
                frame.data@[4] as int
            } else {
                0
            };
            &&& d.source == DataSource::ObdPid
            &&& d.timestamp_ms == timestamp_ms
            &&& d.obd_latency_ticks == Some(latency_ticks)
            &&& d.session_label == label
            &&& (pid == 0x0D) == (d.speed_kmh is Some)
            &&& (pid == 0x0C) == (d.rpm is Some)
            &&& (pid == 0x11) == (d.throttle_pct is Some)
            &&& (pid == 0x04) == (d.engine_load_pct is Some)
            &&& (pid == 0x10) == (d.maf_g_s is Some)
            &&& (pid == 0x05) == (d.coolant_temp_c is Some)
            &&& (d.speed_kmh matches Some(r) ==> r.num == a && r.den == 1)
            &&& (d.rpm matches Some(r) ==> r.num == 256 * a + b && r.den == 4)
            &&& (d.throttle_pct matches Some(r) ==> r.num == 100 * a && r.den == 255)
            &&& (d.engine_load_pct matches Some(r) ==> r.num == 100 * a && r.den == 255)
            &&& (d.maf_g_s matches Some(r) ==> r.num == 256 * a + b && r.den == 100)
            &&& (d.coolant_temp_c matches Some(r) ==> r.num == a - 40 && r.den == 1 && -40 <= r.num
                <= 215)
        }),
{
}

/// What a DBC broadcast says, from its first bytes `d0 d1 d2 d3`: `0x100`
/// carries speed `256 d0 + d1` km/h and RPM `256 d2 + d3`, `0x200`
/// throttle `100 d0 / 255` % and load `100 d1 / 255` %, `0x300` coolant
/// `d0 - 40` degrees (from -40 to 215); any other identifier is not
/// decoded.
pub proof fn lemma_dbc_values(frame: CanFrame, timestamp_ms: u64, label: SessionLabel)
    ensures
        dbc_decoding(frame, timestamp_ms, label) is Some <==> (frame.id == 0x100 || frame.id == 0x200
            || frame.id == 0x300),
        dbc_decoding(frame, timestamp_ms, label) matches Some(d) ==> ({
            let d0 = frame.data@[0] as int;
            let d1 = frame.data@[1] as int;
            let d2 = frame.data@[2] as int;
            let d3 = frame.data@[3] as int;
            &&& d.source == DataSource::CanDbc
            &&& d.can_id == frame.id
            &&& d.timestamp_ms == timestamp_ms
            &&& d.session_label == label
            &&& d.obd_latency_ticks is None
            &&& d.maf_g_s is None
            &&& (frame.id == 0x100) == (d.speed_kmh is Some && d.rpm is Some)
            &&& (frame.id == 0x200) == (d.throttle_pct is Some && d.engine_load_pct is Some)
            &&& (frame.id == 0x300) == (d.coolant_temp_c is Some)
            &&& (d.speed_kmh matches Some(r) ==> r.num == 256 * d0 + d1 && r.den == 1)
            &&& (d.rpm matches Some(r) ==> r.num == 256 * d2 + d3 && r.den == 1)
            &&& (d.throttle_pct matches Some(r) ==> r.num == 100 * d0 && r.den == 255)
            &&& (d.engine_load_pct matches Some(r) ==> r.num == 100 * d1 && r.den == 255)
            &&& (d.coolant_temp_c matches Some(r) ==> r.num == d0 - 40 && r.den == 1 && -40 <= r.num
                <= 215)
        }),
{
}

/// Round-trip time of an OBD-II request in timer ticks: zero when no
/// request was sent yet (`sent_ticks == 0`), otherwise the time since it
/// was sent (zero if the clock reads earlier).
pub fn obd_latency_ticks(now_ticks: u64, sent_ticks: u64) -> (r: u64)
    ensures
        sent_ticks == 0 ==> r == 0,
        sent_ticks > 0 && now_ticks >= sent_ticks ==> r == now_ticks - sent_ticks,
        sent_ticks > 0 && now_ticks < sent_ticks ==> r == 0,
{
    if sent_ticks > 0 {
        now_ticks.saturating_sub(sent_ticks)
    } else {
        0
    }
}

/// Decoding of any received frame: answers on `0x7E8` are OBD-II answers,
/// every other frame goes through the DBC.
pub open spec fn rx_decoding(
    frame: CanFrame,
    timestamp_ms: u64,
    latency_ticks: u64,
    label: SessionLabel,
) -> Option<DecodedFrame> {
    if frame.id == OBD_RESPONSE_ID {
        obd_decoding(frame, timestamp_ms, latency_ticks, label)
    } else {
        dbc_decoding(frame, timestamp_ms, label)
    }
}

/// Decodes a received frame, OBD-II answer or DBC broadcast.
pub fn decode_rx_frame(
    frame: &CanFrame,
    timestamp_ms: u64,
    latency_ticks: u64,
    label: SessionLabel,
) -> (r: Option<DecodedFrame>)
    ensures
        r == rx_decoding(*frame, timestamp_ms, latency_ticks, label),
{
    if frame.id == OBD_RESPONSE_ID {
        parse_obd_response(frame, timestamp_ms, latency_ticks, label)
    } else {
        parse_dbc_frame(frame, timestamp_ms, label)
    }
}

/// The polled PIDs, in round-robin order: speed, RPM, throttle, engine
/// load, MAF, coolant.
pub open spec fn obd_pid(i: int) -> u8 {
    if i == 0 {
        0x0D
    } else if i == 1 {
        0x0C
    } else if i == 2 {
        0x11
    } else if i == 3 {
        0x04
    } else if i == 4 {
        0x10
    } else {
        0x05
    }
}

/// The PID polled at position `index` of the round robin.
pub fn obd_pid_at(index: usize) -> (r: u8)
    requires
        index < OBD_PID_COUNT,
    ensures
        r == obd_pid(index as int),
{
    let pids: [u8; 6] = [0x0D, 0x0C, 0x11, 0x04, 0x10, 0x05];
    pids[index]
}

/// Position of the next PID in the round robin.
pub fn next_pid_index(index: usize) -> (r: usize)
    requires
        index < OBD_PID_COUNT,
    ensures
        r == (index + 1) % (OBD_PID_COUNT as int),
        r < OBD_PID_COUNT,
{
    (index + 1) % OBD_PID_COUNT
}

/// The OBD-II request for the PID at position `index`:
/// `[0x02, 0x01, PID, 0, 0, 0, 0, 0]` on `0x7DF`.
pub fn obd_request_frame(index: usize) -> (r: CanFrame)
    requires
        index < OBD_PID_COUNT,
    ensures
        r.id == OBD_REQUEST_ID,
        r.dlc == 8,
        r.data@ == seq![0x02u8, OBD_MODE_REQUEST, obd_pid(index as int), 0, 0, 0, 0, 0],
{
    let pid = obd_pid_at(index);
    let data: [u8; 8] = [0x02, OBD_MODE_REQUEST, pid, 0, 0, 0, 0, 0];
    let r = CanFrame::new(OBD_REQUEST_ID, &data);
    assert(r.data@ =~= seq![0x02u8, OBD_MODE_REQUEST, obd_pid(index as int), 0, 0, 0, 0, 0]);
    r
}

/// The driving-profile command for the ECU emulator: the label's number
/// as a one-byte payload on `0x010`.
pub fn profile_command_frame(label: SessionLabel) -> (r: CanFrame)
    ensures
        r.id == PROFILE_CMD_ID,
        r.dlc == 1,
        r.data@ == seq![label_number(label), 0u8, 0, 0, 0, 0, 0, 0],
{
    let code: [u8; 1] = [label.as_u8()];
    let r = CanFrame::new(PROFILE_CMD_ID, &code);
    assert(r.data@ =~= seq![label_number(label), 0u8, 0, 0, 0, 0, 0, 0]);
    r
}

/// The round robin polls every PID once in six consecutive requests,
/// whatever position it starts from.
pub proof fn lemma_round_robin_covers_all(start: int, target: int)
    requires
        0 <= start < 6,
        0 <= target < 6,
    ensures
        exists|k: int| 0 <= k < 6 && #[trigger] ((start + k) % 6) == target,
{
    let k = if target >= start {
        target - start
    } else {
        target + 6 - start
    };
    assert((start + k) % 6 == target);
}

/// Each polled PID is answered under its own virtual identifier.
pub proof fn lemma_virtual_ids_distinct(i: int, j: int)
    requires
        0 <= i < 6,
        0 <= j < 6,
        i != j,
    ensures
        obd_virtual_id(obd_pid(i)) is Some,
        obd_virtual_id(obd_pid(i)) != obd_virtual_id(obd_pid(j)),
{
}

} // verus!
