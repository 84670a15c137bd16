//! Self-diagnostics: heap statistics over a heartbeat window, Bus-Off and
//! logger-stall notices, and the periodic heartbeat line.
use crate::csv::{diag_text, serialize_diag};
use crate::text::{
    bounded, bounded_text, decimal, push_decimal, push_str_piece, utf8_len, views,
    lemma_ascii_utf8_len,
};
use crate::types::SessionLabel;
use vstd::prelude::*;

verus! {

/// Heap statistics over one heartbeat window (one sample every 5 s).
pub struct HeapTracker {
    pub min: usize,
    pub max: usize,
    pub sum: usize,
    pub samples: u32,
}

impl HeapTracker {
    /// The tracker's fields agree with its samples: with no sample the
    /// tracker is in its initial state; otherwise the sum lies between
    /// `samples * min` and `samples * max`.
    pub open spec fn wf(&self) -> bool {
        &&& self.samples == 0 ==> self.min == usize::MAX && self.max == 0 && self.sum == 0
        &&& self.samples > 0 ==> self.min <= self.max && self.min * self.samples <= self.sum
            <= self.max * self.samples
    }

    /// A tracker with no sample.
    pub fn new() -> (r: HeapTracker)
        ensures
            r.min == usize::MAX,
            r.max == 0,
            r.sum == 0,
            r.samples == 0,
            r.wf(),
    {
        HeapTracker { min: usize::MAX, max: 0, sum: 0, samples: 0 }
    }

    /// Records a sample of the free heap.
    pub fn sample(&mut self, heap_free: usize)
        requires
            old(self).sum + heap_free <= usize::MAX,
            old(self).samples < u32::MAX,
        ensures
            old(self).wf() ==> final(self).wf(),
            final(self).min == (if heap_free < old(self).min {
                heap_free
            } else {
                old(self).min
            }),
            final(self).max == (if heap_free > old(self).max {
                heap_free
            } else {
                old(self).max
            }),
            final(self).sum == old(self).sum + heap_free,
            final(self).samples == old(self).samples + 1,
            *final(self) == sample_spec(*old(self), heap_free),
    {
        let ghost n = self.samples as int;
        let ghost old_min = self.min as int;
        let ghost old_max = self.max as int;
        let ghost old_sum = self.sum as int;
        if heap_free < self.min {
            self.min = heap_free;
        }
        if heap_free > self.max {
            self.max = heap_free;
        }
        self.sum = self.sum + heap_free;
        self.samples = self.samples + 1;
        proof {
            let h = heap_free as int;
            let mn = self.min as int;
            let mx = self.max as int;
            if !old(self).wf() {
            } else if n > 0 {
                assert(mn * (n + 1) <= old_sum + h) by (nonlinear_arith)
                    requires
                        mn <= old_min,
                        mn <= h,
                        old_min * n <= old_sum,
                        n > 0,
                        mn >= 0,
                ;
                assert(old_sum + h <= mx * (n + 1)) by (nonlinear_arith)
                    requires
                        mx >= old_max,
                        mx >= h,
                        old_sum <= old_max * n,
                        n > 0,
                ;
                assert(mn <= mx);
            } else {
                assert(mn == h && mx == h);
                assert(self.samples == 1);
                assert(mn * 1 <= h <= mx * 1);
            }
            if old(self).wf() {
                assert(self.min * self.samples <= self.sum <= self.max * self.samples);
            }
        }
    }

    /// Average free heap over the window (0 with no sample).
    pub fn avg(&self) -> (r: usize)
        ensures
            self.samples > 0 ==> r == self.sum / (self.samples as usize),
            self.samples == 0 ==> r == 0,
    {
        if self.samples > 0 {
            self.sum / self.samples as usize
        } else {
            0
        }
    }

    /// Starts a new window.
    pub fn reset(&mut self)
        ensures
            final(self).min == usize::MAX,
            final(self).max == 0,
            final(self).sum == 0,
            final(self).samples == 0,
            final(self).wf(),
    {
        self.min = usize::MAX;
        self.max = 0;
        self.sum = 0;
        self.samples = 0;
    }

    /// Minimum reported in the heartbeat: 0 when no sample was taken.
    pub fn reported_min(&self) -> (r: usize)
        ensures
            r == (if self.min == usize::MAX {
                0
            } else {
                self.min
            }),
    {
        if self.min == usize::MAX {
            0
        } else {
            self.min
        }
    }
}

/// The average of a window lies between its minimum and maximum.
pub proof fn lemma_avg_between_min_and_max(t: HeapTracker)
    requires
        t.wf(),
        t.samples > 0,
    ensures
        t.min <= (t.sum as int) / (t.samples as int) <= t.max,
{
    let n = t.samples as int;
    let s = t.sum as int;
    let mn = t.min as int;
    let mx = t.max as int;
    assert(mn <= s / n <= mx) by (nonlinear_arith)
        requires
            n > 0,
            mn * n <= s,
            s <= mx * n,
            mn >= 0,
    ;
}

/// Sum of the samples.
pub open spec fn seq_sum(hs: Seq<usize>) -> nat
    decreases hs.len(),
{
    if hs.len() == 0 {
        0
    } else {
        seq_sum(hs.drop_last()) + hs.last() as nat
    }
}

/// Smallest sample (`usize::MAX` with none).
pub open spec fn seq_min(hs: Seq<usize>) -> usize
    decreases hs.len(),
{
    if hs.len() == 0 {
        usize::MAX
    } else if hs.last() < seq_min(hs.drop_last()) {
        hs.last()
    } else {
        seq_min(hs.drop_last())
    }
}

/// Largest sample (0 with none).
pub open spec fn seq_max(hs: Seq<usize>) -> usize
    decreases hs.len(),
{
    if hs.len() == 0 {
        0
    } else if hs.last() > seq_max(hs.drop_last()) {
        hs.last()
    } else {
        seq_max(hs.drop_last())
    }
}

/// A tracker after one more sample.
pub open spec fn sample_spec(t: HeapTracker, h: usize) -> HeapTracker {
    HeapTracker {
        min: if h < t.min {
            h
        } else {
            t.min
        },
        max: if h > t.max {
            h
        } else {
            t.max
        },
        sum: (t.sum + h) as usize,
        samples: (t.samples + 1) as u32,
    }
}

/// A new tracker after the samples `hs`, in order.
pub open spec fn sampled(hs: Seq<usize>) -> HeapTracker
    decreases hs.len(),
{
    if hs.len() == 0 {
        HeapTracker { min: usize::MAX, max: 0, sum: 0, samples: 0 }
    } else {
        sample_spec(sampled(hs.drop_last()), hs.last())
    }
}

/// A window's statistics are those of its samples: after the samples `hs`
/// a new tracker holds their count, sum, minimum and maximum (`usize::MAX`
/// and 0 with none), and with at least one sample the average lies between
/// the minimum and the maximum.
pub proof fn lemma_window_statistics(hs: Seq<usize>)
    requires
        seq_sum(hs) <= usize::MAX,
        hs.len() <= u32::MAX,
    ensures
        sampled(hs).samples == hs.len(),
        sampled(hs).sum == seq_sum(hs),
        sampled(hs).min == seq_min(hs),
        sampled(hs).max == seq_max(hs),
        sampled(hs).wf(),
        hs.len() > 0 ==> seq_min(hs) <= seq_sum(hs) / hs.len() <= seq_max(hs),
    decreases hs.len(),
{
    if hs.len() > 0 {
        let p = hs.drop_last();
        let h = hs.last();
        lemma_window_statistics(p);
        let t = sampled(p);
        let n = p.len() as int;
        let mn = seq_min(hs) as int;
        let mx = seq_max(hs) as int;
        let s = seq_sum(hs) as int;
        if n > 0 {
            assert(mn * (n + 1) <= s) by (nonlinear_arith)
                requires
                    mn <= t.min,
                    mn <= h,
                    t.min * n <= t.sum,
                    s == t.sum + h,
                    n > 0,
                    mn >= 0,
            ;
            assert(s <= mx * (n + 1)) by (nonlinear_arith)
                requires
                    mx >= t.max,
                    mx >= h,
                    t.sum <= t.max * n,
                    s == t.sum + h,
                    n > 0,
            ;
        } else {
            assert(mn == h && mx == h);
            assert(s == h);
            assert(mn * (n + 1) == mn && mx * (n + 1) == mx);
        }
        let r = sampled(hs);
        assert(r.samples == n + 1 && r.sum == s && r.min == mn && r.max == mx);
        assert(r.min <= r.max) by {
            if n > 0 {
                assert(t.min <= t.max);
            }
        }
        assert(mn <= s / (n + 1) <= mx) by (nonlinear_arith)
            requires
                n + 1 > 0,
                mn * (n + 1) <= s,
                s <= mx * (n + 1),
                mn >= 0,
        ;
    }
}

pub open spec fn msg_bus_off_recovered() -> Seq<char> {
    "BUS_OFF_RECOVERED_latency_ms=128"@
}

pub open spec fn msg_logger_stall() -> Seq<char> {
    "LOGGER_STALL"@
}

/// The notice written after a Bus-Off recovery.
pub fn bus_off_line(timestamp_ms: u64) -> (r: String)
    ensures
        r@ == diag_text(timestamp_ms, SessionLabel::Normal, msg_bus_off_recovered()),
{
    proof {
        reveal_strlit("BUS_OFF_RECOVERED_latency_ms=128");
        assert(vstd::utf8::is_ascii_chars(msg_bus_off_recovered()));
        lemma_ascii_utf8_len(msg_bus_off_recovered());
    }
    serialize_diag(timestamp_ms, &SessionLabel::Normal, "BUS_OFF_RECOVERED_latency_ms=128")
}

/// The notice written when the logger processed no frame for 30 s.
pub fn stall_line(timestamp_ms: u64) -> (r: String)
    ensures
        r@ == diag_text(timestamp_ms, SessionLabel::Normal, msg_logger_stall()),
{
    proof {
        reveal_strlit("LOGGER_STALL");
        assert(vstd::utf8::is_ascii_chars(msg_logger_stall()));
        lemma_ascii_utf8_len(msg_logger_stall());
    }
    serialize_diag(timestamp_ms, &SessionLabel::Normal, "LOGGER_STALL")
}

/// Outcome of the 30-second stall check: whether a stall is reported, and
/// the frame count to compare with next time. Only an active session is
/// checked; a stall is a frame count unchanged since the last check while
/// the card is present.
pub fn stall_check(session_active: bool, frames_now: u32, frames_before: u32, sd_ok: bool) -> (r: (
    bool,
    u32,
))
    ensures
        r.0 == (session_active && frames_now == frames_before && sd_ok),
        r.1 == (if session_active {
            frames_now
        } else {
            frames_before
        }),
{
    if session_active {
        (frames_now == frames_before && sd_ok, frames_now)
    } else {
        (false, frames_before)
    }
}

/// Bus-Off events counted so far after one more (wrapping at 2^32).
pub fn next_bus_off_count(count: u32) -> (r: u32)
    ensures
        r == crate::logger::bump(count),
{
    count.wrapping_add(1)
}

/// Metrics reported by the heartbeat line.
#[derive(Clone, Copy, Debug, PartialEq, Eq, Structural)]
pub struct Heartbeat {
    pub uptime_s: u64,
    pub frames_rx: u32,
    pub frames_sd: u32,
    pub frames_mqtt: u32,
    pub lost: u32,
    pub overflow: u32,
    pub bus_off: u32,
    pub heap_free: usize,
    pub heap_min: usize,
    pub heap_max: usize,
    pub heap_avg: usize,
    pub heap_used: usize,
    pub sd_write_offset: u32,
    pub psram: usize,
}

/// Pieces of the heartbeat line.
pub open spec fn heartbeat_pieces(timestamp_ms: u64, h: Heartbeat) -> Seq<Seq<char>> {
    seq![
        decimal(timestamp_ms as nat),
        ",DIAG,0x000,,,,,,,,NOR,HEARTBEAT up="@,
        decimal(h.uptime_s as nat),
        " rx="@,
        decimal(h.frames_rx as nat),
        " sd="@,
        decimal(h.frames_sd as nat),
        " mqtt="@,
        decimal(h.frames_mqtt as nat),
        " lost="@,
        decimal(h.lost as nat),
        " ovf="@,
        decimal(h.overflow as nat),
        " bo="@,
        decimal(h.bus_off as nat),
        " hf="@,
        decimal(h.heap_free as nat),
        " hmin="@,
        decimal(h.heap_min as nat),
        " hmax="@,
        decimal(h.heap_max as nat),
        " havg="@,
        decimal(h.heap_avg as nat),
        " hu="@,
        decimal(h.heap_used as nat),
        " sdwr="@,
        decimal(h.sd_write_offset as nat),
        " psram="@,
        decimal(h.psram as nat),
        "\n"@,
    ]
}

/// The heartbeat line (256-byte buffer).
pub fn heartbeat_line(timestamp_ms: u64, h: &Heartbeat) -> (r: String)
    ensures
        r@ == bounded_text(heartbeat_pieces(timestamp_ms, *h), 256),
        utf8_len(r@) <= 256,
{
    let mut p: Vec<String> = Vec::new();
    push_decimal(&mut p, timestamp_ms);
    push_str_piece(&mut p, ",DIAG,0x000,,,,,,,,NOR,HEARTBEAT up=");
    push_decimal(&mut p, h.uptime_s);
    push_str_piece(&mut p, " rx=");
    push_decimal(&mut p, h.frames_rx as u64);
    push_str_piece(&mut p, " sd=");
    push_decimal(&mut p, h.frames_sd as u64);
    push_str_piece(&mut p, " mqtt=");
    push_decimal(&mut p, h.frames_mqtt as u64);
    push_str_piece(&mut p, " lost=");
    push_decimal(&mut p, h.lost as u64);
    push_str_piece(&mut p, " ovf=");
    push_decimal(&mut p, h.overflow as u64);
    push_str_piece(&mut p, " bo=");
    push_decimal(&mut p, h.bus_off as u64);
    push_str_piece(&mut p, " hf=");
    push_decimal(&mut p, h.heap_free as u64);
    push_str_piece(&mut p, " hmin=");
    push_decimal(&mut p, h.heap_min as u64);
    push_str_piece(&mut p, " hmax=");
    push_decimal(&mut p, h.heap_max as u64);
    push_str_piece(&mut p, " havg=");
    push_decimal(&mut p, h.heap_avg as u64);
    push_str_piece(&mut p, " hu=");
    push_decimal(&mut p, h.heap_used as u64);
    push_str_piece(&mut p, " sdwr=");
    push_decimal(&mut p, h.sd_write_offset as u64);
    push_str_piece(&mut p, " psram=");
    push_decimal(&mut p, h.psram as u64);
    push_str_piece(&mut p, "\n");
    assert(views(p@) =~= heartbeat_pieces(timestamp_ms, *h));
    bounded(&p, 256)
}

} // verus!
