//! Core data types shared by every layer of the collector.
use crate::can_id::{standard_id_new, standard_id_raw};
use vstd::prelude::*;

verus! {

/// Where a telemetry reading came from.
#[derive(Clone, Copy, Debug, PartialEq, Eq, Structural)]
pub enum DataSource {
    /// Frame received passively and decoded with the DBC (0x100, 0x200, 0x300).
    CanDbc,
    /// Answer to an active OBD-II poll (0x7E8).
    ObdPid,
}

/// Text of a data source in the CSV `source` column.
pub open spec fn source_name(s: DataSource) -> Seq<char> {
    match s {
        DataSource::CanDbc => seq!['C', 'A', 'N', '_', 'D', 'B', 'C'],
        DataSource::ObdPid => seq!['O', 'B', 'D', '_', 'P', 'I', 'D'],
    }
}

impl DataSource {
    pub fn as_str(&self) -> (r: &'static str)
        ensures
            r@ == source_name(*self),
    {
        match self {
            DataSource::CanDbc => {
                proof {
                    reveal_strlit("CAN_DBC");
                }
                "CAN_DBC"
            },
            DataSource::ObdPid => {
                proof {
                    reveal_strlit("OBD_PID");
                }
                "OBD_PID"
            },
        }
    }
}

/// Driving profile of the active session.
#[derive(Clone, Copy, Debug, PartialEq, Eq, Structural)]
pub enum SessionLabel {
    Economico,
    Normal,
    Esportivo,
}

/// Human-readable name of a session label.
pub open spec fn label_name(l: SessionLabel) -> Seq<char> {
    match l {
        SessionLabel::Economico => seq!['E', 'c', 'o', 'n', 'o', 'm', 'i', 'c', 'o'],
        SessionLabel::Normal => seq!['N', 'o', 'r', 'm', 'a', 'l'],
        SessionLabel::Esportivo => seq!['E', 's', 'p', 'o', 'r', 't', 'i', 'v', 'o'],
    }
}

/// Three-letter code of a session label, as written in the CSV
/// `session_label` column and accepted in remote commands.
pub open spec fn label_code(l: SessionLabel) -> Seq<char> {
    match l {
        SessionLabel::Economico => seq!['E', 'C', 'O'],
        SessionLabel::Normal => seq!['N', 'O', 'R'],
        SessionLabel::Esportivo => seq!['S', 'P', 'T'],
    }
}

/// Numeric code of a label (also the byte sent to the ECU emulator).
pub open spec fn label_number(l: SessionLabel) -> u8 {
    match l {
        SessionLabel::Economico => 1,
        SessionLabel::Normal => 2,
        SessionLabel::Esportivo => 3,
    }
}

/// Label decoded from its numeric code; every unknown code means `Normal`.
pub open spec fn label_from_number(v: u8) -> SessionLabel {
    if v == 1 {
        SessionLabel::Economico
    } else if v == 3 {
        SessionLabel::Esportivo
    } else {
        SessionLabel::Normal
    }
}

impl SessionLabel {
    pub fn as_str(&self) -> (r: &'static str)
        ensures
            r@ == label_name(*self),
    {
        match self {
            SessionLabel::Economico => {
                proof {
                    reveal_strlit("Economico");
                }
                "Economico"
            },
            SessionLabel::Normal => {
                proof {
                    reveal_strlit("Normal");
                }
                "Normal"
            },
            SessionLabel::Esportivo => {
                proof {
                    reveal_strlit("Esportivo");
                }
                "Esportivo"
            },
        }
    }

    /// Three-letter code (`ECO`, `NOR`, `SPT`).
    pub fn code(&self) -> (r: &'static str)
        ensures
            r@ == label_code(*self),
    {
        match self {
            SessionLabel::Economico => {
                proof {
                    reveal_strlit("ECO");
                }
                "ECO"
            },
            SessionLabel::Normal => {
                proof {
                    reveal_strlit("NOR");
                }
                "NOR"
            },
            SessionLabel::Esportivo => {
                proof {
                    reveal_strlit("SPT");
                }
                "SPT"
            },
        }
    }

    pub fn from_u8(val: u8) -> (r: SessionLabel)
        ensures
            r == label_from_number(val),
    {
        match val {
            1 => SessionLabel::Economico,
            2 => SessionLabel::Normal,
            3 => SessionLabel::Esportivo,
            _ => SessionLabel::Normal,
        }
    }

    pub fn as_u8(&self) -> (r: u8)
        ensures
            r == label_number(*self),
            1 <= r <= 3,
    {
        match self {
            SessionLabel::Economico => 1,
            SessionLabel::Normal => 2,
            SessionLabel::Esportivo => 3,
        }
    }
}

impl Default for SessionLabel {
    fn default() -> (r: SessionLabel)
        ensures
            r == SessionLabel::Normal,
    {
        SessionLabel::Normal
    }
}

/// Decoding a label's numeric code gives the label back.
pub proof fn lemma_label_number_roundtrip(l: SessionLabel)
    ensures
        label_from_number(label_number(l)) == l,
{
}

/// Two labels with the same numeric code are the same label.
pub proof fn lemma_label_number_injective(a: SessionLabel, b: SessionLabel)
    ensures
        label_number(a) == label_number(b) ==> a == b,
{
}

/// Raw CAN frame: an 11-bit identifier and up to eight payload bytes.
#[derive(Clone, Copy, Debug)]
pub struct CanFrame {
    pub id: u32,
    pub data: [u8; 8],
    pub dlc: u8,
}

/// The eight payload bytes stored for `data`: its first bytes (at most
/// eight), then zeros.
pub open spec fn padded_payload(data: Seq<u8>) -> Seq<u8> {
    Seq::new(8, |i: int| if i < data.len() { data[i] } else { 0u8 })
}

pub open spec fn min_len(n: nat, cap: nat) -> nat {
    if n < cap {
        n
    } else {
        cap
    }
}

fn byte_or_zero(data: &[u8], i: usize) -> (b: u8)
    ensures
        b == (if i < data@.len() {
            data@[i as int]
        } else {
            0u8
        }),
{
    if i < data.len() {
        data[i]
    } else {
        0
    }
}

impl CanFrame {
    /// Builds a frame from an identifier and a payload; the payload is cut
    /// to eight bytes and the DLC is the number of bytes kept.
    pub fn new(id: u32, data: &[u8]) -> (r: CanFrame)
        ensures
            r.id == id,
            r.data@ == padded_payload(data@),
            r.dlc as nat == min_len(data@.len(), 8),
    {
        let len: usize = if data.len() < 8 {
            data.len()
        } else {
            8
        };
        let frame_data: [u8; 8] = [
            byte_or_zero(data, 0),
            byte_or_zero(data, 1),
            byte_or_zero(data, 2),
            byte_or_zero(data, 3),
            byte_or_zero(data, 4),
            byte_or_zero(data, 5),
            byte_or_zero(data, 6),
            byte_or_zero(data, 7),
        ];
        assert(frame_data@ =~= padded_payload(data@));
        CanFrame { id, data: frame_data, dlc: len as u8 }
    }
}

impl CanFrame {
    /// A frame as received by the controller: identifier, payload (first
    /// eight bytes kept) and the DLC it reported, cut to eight bits.
    pub fn from_received(id: u32, data: &[u8], dlc: usize) -> (r: CanFrame)
        ensures
            r.id == id,
            r.data@ == padded_payload(data@),
            r.dlc == dlc as u8,
    {
        let f = CanFrame::new(id, data);
        CanFrame { id, data: f.data, dlc: dlc as u8 }
    }

    /// The identifier and payload with which this frame is transmitted:
    /// the identifier, cut to 16 bits, must be a standard 11-bit one, and
    /// the payload is the first `dlc` data bytes.
    pub fn transmit_parts(&self) -> (r: Option<(embedded_can::StandardId, Vec<u8>)>)
        requires
            self.dlc <= 8,
        ensures
            r is Some <==> (self.id as u16) <= 0x7FF,
            r matches Some((sid, payload)) ==> standard_id_raw(sid) == self.id as u16
                && payload@ == self.data@.subrange(0, self.dlc as int),
    {
        let raw: u16 = self.id as u16;
        let sid = standard_id_new(raw)?;
        let mut payload: Vec<u8> = Vec::new();
        let mut i: usize = 0;
        let n: usize = self.dlc as usize;
        while i < n
            invariant
                i <= n,
                n == self.dlc,
                n <= 8,
                payload@ == self.data@.subrange(0, i as int),
            decreases n - i,
        {
            payload.push(self.data[i]);
            i = i + 1;
            assert(payload@ =~= self.data@.subrange(0, i as int));
        }
        Some((sid, payload))
    }
}

/// A standard frame whose bytes after the DLC are zero survives a trip
/// through the controller: `transmit_parts` hands over its identifier (a
/// standard one) and its first `dlc` bytes, and `from_received` on that
/// identifier, those bytes and their count gives the frame back.
pub proof fn lemma_frame_round_trip(f: CanFrame)
    requires
        f.id <= 0x7FF,
        f.dlc <= 8,
        forall|i: int| f.dlc <= i < 8 ==> f.data@[i] == 0,
    ensures
        (f.id as u16) <= 0x7FF,
        (f.id as u16) as u32 == f.id,
        padded_payload(f.data@.subrange(0, f.dlc as int)) == f.data@,
        (f.data@.subrange(0, f.dlc as int).len() as usize) as u8 == f.dlc,
{
    assert(padded_payload(f.data@.subrange(0, f.dlc as int)) =~= f.data@);
}

/// Errors of the CAN layer.
#[derive(Clone, Copy, Debug, PartialEq, Eq, Structural)]
pub enum CanError {
    /// The controller went Bus-Off (TEC > 255).
    BusOff,
    /// No answer in time (e.g. no OBD-II response within 50 ms).
    Timeout,
    /// The frame could not be transmitted.
    TxFailed,
    /// Any other error of the CAN peripheral.
    HalError,
}

/// Text under which a CAN error is reported.
pub open spec fn can_error_name(e: CanError) -> Seq<char> {
    match e {
        CanError::BusOff => seq!['C', 'A', 'N', '_', 'B', 'U', 'S', '_', 'O', 'F', 'F'],
        CanError::Timeout => seq!['C', 'A', 'N', '_', 'T', 'I', 'M', 'E', 'O', 'U', 'T'],
        CanError::TxFailed => seq!['C', 'A', 'N', '_', 'T', 'X', '_', 'F', 'A', 'I', 'L', 'E', 'D'],
        CanError::HalError => seq!['C', 'A', 'N', '_', 'H', 'A', 'L', '_', 'E', 'R', 'R', 'O', 'R'],
    }
}

impl CanError {
    /// The report text of this error (`CAN_BUS_OFF`, ...).
    pub fn as_str(&self) -> (r: &'static str)
        ensures
            r@ == can_error_name(*self),
    {
        match self {
            CanError::BusOff => {
                proof {
                    reveal_strlit("CAN_BUS_OFF");
                }
                "CAN_BUS_OFF"
            },
            CanError::Timeout => {
                proof {
                    reveal_strlit("CAN_TIMEOUT");
                }
                "CAN_TIMEOUT"
            },
            CanError::TxFailed => {
                proof {
                    reveal_strlit("CAN_TX_FAILED");
                }
                "CAN_TX_FAILED"
            },
            CanError::HalError => {
                proof {
                    reveal_strlit("CAN_HAL_ERROR");
                }
                "CAN_HAL_ERROR"
            },
        }
    }
}

} // verus!
