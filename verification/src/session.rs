//! Session bookkeeping: the clock (uptime or synchronised epoch), the
//! session timer, the choice of session files, and the replay of a session
//! file in newline-delimited blocks.
use crate::sd_buffer::flatten;
use vstd::prelude::*;

verus! {

/// Highest session file number (`S_9999.CSV`).
pub const MAX_SESSION_ID: u16 = 9999;

/// Most session files listed in one session list.
pub const MAX_LISTED_SESSIONS: usize = 32;

/// Milliseconds per minute.
pub const MS_PER_MINUTE: u64 = 60_000;

/// Current timestamp in ms: with an epoch base set (non-zero), the epoch
/// base plus the uptime elapsed since synchronisation (zero if the uptime
/// reads earlier); otherwise the uptime itself.
pub open spec fn timestamp_spec(now_uptime_ms: u64, epoch_base_ms: u64, sync_uptime_ms: u64) -> int {
    if epoch_base_ms > 0 {
        epoch_base_ms + (if now_uptime_ms >= sync_uptime_ms {
            now_uptime_ms - sync_uptime_ms
        } else {
            0
        })
    } else {
        now_uptime_ms as int
    }
}

/// The current timestamp in milliseconds.
pub fn current_timestamp_ms(now_uptime_ms: u64, epoch_base_ms: u64, sync_uptime_ms: u64) -> (r: u64)
    requires
        timestamp_spec(now_uptime_ms, epoch_base_ms, sync_uptime_ms) <= u64::MAX,
    ensures
        r == timestamp_spec(now_uptime_ms, epoch_base_ms, sync_uptime_ms),
{
    if epoch_base_ms > 0 {
        let elapsed = now_uptime_ms.saturating_sub(sync_uptime_ms);
        epoch_base_ms + elapsed
    } else {
        now_uptime_ms
    }
}

/// After synchronising, the timestamp advances with the uptime: it equals
/// the epoch base plus the time since synchronisation.
pub proof fn lemma_timestamp_follows_uptime(sync: u64, base: u64, later: u64)
    requires
        base > 0,
        sync <= later,
    ensures
        timestamp_spec(later, base, sync) == base + (later - sync),
        timestamp_spec(sync, base, sync) == base,
{
}

/// Timer settings of a session started for `duration_minutes` (0 means
/// unlimited): its duration in milliseconds and whether the timer runs.
pub fn session_timer(duration_minutes: u32) -> (r: (u64, bool))
    ensures
        r.0 == duration_minutes as int * MS_PER_MINUTE,
        r.1 == (duration_minutes > 0),
{
    if duration_minutes > 0 {
        ((duration_minutes as u64) * MS_PER_MINUTE, true)
    } else {
        (0, false)
    }
}

/// The session number and file number used by a rotation: the first free
/// file number found; when every number up to 9999 is taken, the file
/// `S_9999.CSV` is reopened and the session counter restarts at 1.
pub fn rotation_slot(first_free: Option<u16>) -> (r: (u16, u16))
    ensures
        first_free matches Some(id) ==> r == (id, id),
        first_free is None ==> r == (1u16, MAX_SESSION_ID),
{
    match first_free {
        Some(id) => (id, id),
        None => (1, MAX_SESSION_ID),
    }
}

/// The file number probed after `id` while scanning session files, if any.
pub fn next_session_id(id: u16) -> (r: Option<u16>)
    ensures
        id < MAX_SESSION_ID ==> r == Some((id + 1) as u16),
        id >= MAX_SESSION_ID ==> r is None,
        r == next_session_id_spec(id),
{
    if id < MAX_SESSION_ID {
        Some(id + 1)
    } else {
        None
    }
}

/// What the search for the first free session file does after probing
/// file `id`.
#[derive(Clone, Copy, Debug, PartialEq, Eq, Structural)]
pub enum ScanStep {
    /// File `id` does not exist: the scan stops here, at the first gap.
    Missing(u16),
    /// File `id` exists; probe this number next.
    Next(u16),
    /// File `id` exists and is the last possible number: the scan ends.
    End,
}

/// The step of the search for the first free session file: it goes up
/// one number at a time and stops at the first missing file, or after
/// `S_9999.CSV`.
pub open spec fn scan_step_spec(id: u16, exists: bool) -> ScanStep {
    if !exists {
        ScanStep::Missing(id)
    } else if id < MAX_SESSION_ID {
        ScanStep::Next((id + 1) as u16)
    } else {
        ScanStep::End
    }
}

/// Decides the next step of a scan after probing file `id`.
pub fn scan_step(id: u16, exists: bool) -> (r: ScanStep)
    ensures
        r == scan_step_spec(id, exists),
{
    if !exists {
        ScanStep::Missing(id)
    } else {
        match next_session_id(id) {
            Some(next) => ScanStep::Next(next),
            None => ScanStep::End,
        }
    }
}

/// Where a scan that starts at file `id` stops, for the files that
/// `on_card` says are on the card.
pub open spec fn scan_from(id: u16, on_card: spec_fn(u16) -> bool) -> ScanStep
    decreases MAX_SESSION_ID - id,
{
    match scan_step_spec(id, on_card(id)) {
        ScanStep::Next(n) => if id < MAX_SESSION_ID {
            scan_from(n, on_card)
        } else {
            ScanStep::End
        },
        other => other,
    }
}

/// A scan stops at the first missing file: when it stops at `m`, every
/// file from the start up to `m` exists and `m` does not; when it ends,
/// every file from the start to 9999 exists.
pub proof fn lemma_scan_stops_at_first_gap(id: u16, on_card: spec_fn(u16) -> bool)
    requires
        id <= MAX_SESSION_ID,
    ensures
        scan_from(id, on_card) matches ScanStep::Missing(m) ==> id <= m <= MAX_SESSION_ID && !on_card(m)
            && forall|k: u16| id <= k < m ==> #[trigger] on_card(k),
        scan_from(id, on_card) is End ==> forall|k: u16| id <= k <= MAX_SESSION_ID ==> #[trigger] on_card(k),
        !(scan_from(id, on_card) is Next),
    decreases MAX_SESSION_ID - id,
{
    if on_card(id) && id < MAX_SESSION_ID {
        lemma_scan_stops_at_first_gap((id + 1) as u16, on_card);
    }
}

/// When files 1 to `n` are on the card and no other, the search from file
/// 1 stops at `n + 1`: the rotation opens the next number.
pub proof fn lemma_scan_finds_next_number(n: u16, on_card: spec_fn(u16) -> bool)
    requires
        n < MAX_SESSION_ID,
        forall|k: u16| 1 <= k <= n ==> #[trigger] on_card(k),
        forall|k: u16| k > n ==> !#[trigger] on_card(k),
    ensures
        scan_from(1, on_card) == ScanStep::Missing((n + 1) as u16),
{
    lemma_scan_stops_at_first_gap(1, on_card);
    assert(!on_card((n + 1) as u16));
    match scan_from(1, on_card) {
        ScanStep::Missing(m) => {
            if m <= n {
                assert(on_card(m));
            }
            if m > n + 1 {
                assert(on_card((n + 1) as u16));
            }
        },
        ScanStep::End => {
            assert(on_card((n + 1) as u16));
        },
        ScanStep::Next(_) => {},
    }
}

/// The numbers of the session files on the card among `1..=n`, in
/// ascending order.
pub open spec fn present_upto(on_card: spec_fn(u16) -> bool, n: nat) -> Seq<u16>
    decreases n,
{
    if n == 0 {
        Seq::empty()
    } else {
        present_upto(on_card, (n - 1) as nat) + (if on_card(n as u16) {
            seq![n as u16]
        } else {
            Seq::empty()
        })
    }
}

/// The first (at most) 32 numbers of a list.
pub open spec fn first_listed(s: Seq<u16>) -> Seq<u16> {
    if s.len() <= MAX_LISTED_SESSIONS {
        s
    } else {
        s.take(MAX_LISTED_SESSIONS as int)
    }
}

/// The list built after probing files `1..=n`: a file on the card is
/// added while the list has room.
pub open spec fn listed_upto(on_card: spec_fn(u16) -> bool, n: nat) -> Seq<u16>
    decreases n,
{
    if n == 0 {
        Seq::empty()
    } else {
        let prev = listed_upto(on_card, (n - 1) as nat);
        if on_card(n as u16) && prev.len() < MAX_LISTED_SESSIONS {
            prev.push(n as u16)
        } else {
            prev
        }
    }
}

/// The step of the session listing after probing file `id`: the file is
/// added when it exists and the list has room; the listing goes on with
/// the next number until 9999, and stops early once a file no longer fits.
pub fn list_step(listed: &mut Vec<u16>, id: u16, exists: bool) -> (next: Option<u16>)
    requires
        old(listed)@.len() <= MAX_LISTED_SESSIONS,
    ensures
        final(listed)@ == (if exists && old(listed)@.len() < MAX_LISTED_SESSIONS {
            old(listed)@.push(id)
        } else {
            old(listed)@
        }),
        final(listed)@.len() <= MAX_LISTED_SESSIONS,
        next == (if exists && old(listed)@.len() == MAX_LISTED_SESSIONS {
            None
        } else {
            next_session_id_spec(id)
        }),
{
    if exists {
        if listed.len() == MAX_LISTED_SESSIONS {
            return None;
        }
        listed.push(id);
    }
    next_session_id(id)
}

/// The step of the card wipe after probing file `id`: the file is deleted
/// when it exists, and the wipe goes on with the next number until 9999.
pub fn wipe_step(id: u16, exists: bool) -> (r: (bool, Option<u16>))
    ensures
        r.0 == exists,
        r.1 == next_session_id_spec(id),
{
    (exists, next_session_id(id))
}

/// The number probed after `id` in a scan of every session file.
pub open spec fn next_session_id_spec(id: u16) -> Option<u16> {
    if id < MAX_SESSION_ID {
        Some((id + 1) as u16)
    } else {
        None
    }
}

/// The listing holds every file on the card, in ascending order, up to 32
/// files: after probing files `1..=n` the list is the first 32 numbers on
/// the card among them.
pub proof fn lemma_list_collects_present(on_card: spec_fn(u16) -> bool, n: nat)
    ensures
        listed_upto(on_card, n) == first_listed(present_upto(on_card, n)),
    decreases n,
{
    if n > 0 {
        lemma_list_collects_present(on_card, (n - 1) as nat);
        let p = present_upto(on_card, (n - 1) as nat);
        let prev = listed_upto(on_card, (n - 1) as nat);
        if on_card(n as u16) {
            let q = p + seq![n as u16];
            assert(present_upto(on_card, n) == q);
            if p.len() < MAX_LISTED_SESSIONS {
                assert(prev == p);
                assert(prev.push(n as u16) =~= q);
            } else {
                assert(q.take(MAX_LISTED_SESSIONS as int) =~= p.take(MAX_LISTED_SESSIONS as int));
                if p.len() == MAX_LISTED_SESSIONS {
                    assert(p.take(MAX_LISTED_SESSIONS as int) =~= p);
                }
            }
        } else {
            assert(present_upto(on_card, n) =~= p);
        }
    }
}

/// The file probed at the `k`-th step of a sweep that starts at file 1
/// and goes on with `next_session_id`; `None` once the sweep is over.
pub open spec fn sweep_probe(k: nat) -> Option<u16>
    decreases k,
{
    if k <= 1 {
        Some(1u16)
    } else {
        match sweep_probe((k - 1) as nat) {
            Some(id) => next_session_id_spec(id),
            None => None,
        }
    }
}

/// A sweep visits every session file number once, in order: its `k`-th
/// probe is file `k` for every `k` up to 9999, and it ends after file 9999.
/// The wipe deletes a probed file exactly when it exists (`wipe_step`), so
/// it deletes every session file on the card.
pub proof fn lemma_sweep_visits_every_file(k: nat)
    requires
        1 <= k <= MAX_SESSION_ID,
    ensures
        sweep_probe(k) == Some(k as u16),
        sweep_probe((MAX_SESSION_ID + 1) as nat) is None,
{
    lemma_sweep_prefix(k);
    lemma_sweep_ends();
}

proof fn lemma_sweep_ends()
    ensures
        sweep_probe((MAX_SESSION_ID + 1) as nat) is None,
{
    lemma_sweep_prefix(MAX_SESSION_ID as nat);
}

proof fn lemma_sweep_prefix(k: nat)
    requires
        1 <= k <= MAX_SESSION_ID,
    ensures
        sweep_probe(k) == Some(k as u16),
    decreases k,
{
    if k > 1 {
        lemma_sweep_prefix((k - 1) as nat);
    }
}

/// Bytes the replay buffer holds.
pub const REPLAY_BUFFER_BYTES: usize = 1536;

/// Largest read from the session file.
pub const REPLAY_READ_BYTES: usize = 512;

/// Position of the last newline in `s`, if any.
pub open spec fn last_newline(s: Seq<u8>) -> Option<int>
    decreases s.len(),
{
    if s.len() == 0 {
        None
    } else if s.last() == 10 {
        Some(s.len() - 1)
    } else {
        last_newline(s.drop_last())
    }
}

/// What the replay does after a read.
#[derive(Clone, Copy, Debug, PartialEq, Eq, Structural)]
pub enum ReplayStep {
    /// The file is exhausted and nothing is pending: the replay ends.
    End,
    /// No complete line yet: read more.
    More,
    /// Publish the first `len` pending bytes; when `last`, the replay ends
    /// after that.
    Send { len: usize, last: bool },
}

/// Bytes read from a session file and not yet published.
pub struct ReplayBuffer {
    pending: Vec<u8>,
}

impl View for ReplayBuffer {
    type V = Seq<u8>;

    closed spec fn view(&self) -> Seq<u8> {
        self.pending@
    }
}

/// What follows a read of `chunk` that left `pending` in the buffer: end
/// when nothing is pending; at end of file send everything; otherwise send
/// up to the last complete line, or read more if there is none.
pub open spec fn replay_step(pending: Seq<u8>, chunk_len: nat) -> ReplayStep {
    if pending.len() == 0 {
        ReplayStep::End
    } else if chunk_len == 0 {
        ReplayStep::Send { len: pending.len() as usize, last: true }
    } else {
        match last_newline(pending) {
            Some(i) => ReplayStep::Send { len: (i + 1) as usize, last: false },
            None => ReplayStep::More,
        }
    }
}

fn find_last_newline(s: &Vec<u8>) -> (r: Option<usize>)
    ensures
        match last_newline(s@) {
            Some(i) => r == Some(i as usize),
            None => r is None,
        },
{
    let mut i: usize = s.len();
    assert(s@.subrange(0, i as int) =~= s@);
    while i > 0
        invariant
            i <= s@.len(),
            last_newline(s@) == last_newline(s@.subrange(0, i as int)),
        decreases i,
    {
        let ghost pre = s@.subrange(0, i as int);
        if s[i - 1] == 10 {
            return Some(i - 1);
        }
        assert(pre.drop_last() =~= s@.subrange(0, i - 1));
        i = i - 1;
    }
    None
}

proof fn lemma_last_newline_bound(s: Seq<u8>)
    ensures
        last_newline(s) matches Some(i) ==> 0 <= i < s.len(),
    decreases s.len(),
{
    if s.len() > 0 && s.last() != 10 {
        lemma_last_newline_bound(s.drop_last());
    }
}

impl ReplayBuffer {
    /// The buffer never holds more than its capacity.
    pub closed spec fn wf(&self) -> bool {
        self.pending@.len() <= REPLAY_BUFFER_BYTES
    }

    /// An empty buffer.
    pub fn new() -> (r: ReplayBuffer)
        ensures
            r.wf(),
            r@ == Seq::<u8>::empty(),
    {
        ReplayBuffer { pending: Vec::new() }
    }

    /// How many bytes the next read may bring: what is left of the buffer,
    /// at most 512.
    pub fn read_window(&self) -> (r: usize)
        requires
            self.wf(),
        ensures
            r == (if REPLAY_BUFFER_BYTES - self@.len() < REPLAY_READ_BYTES {
                REPLAY_BUFFER_BYTES - self@.len()
            } else {
                REPLAY_READ_BYTES as int
            }),
    {
        let space = REPLAY_BUFFER_BYTES - self.pending.len();
        if space < REPLAY_READ_BYTES {
            space
        } else {
            REPLAY_READ_BYTES
        }
    }

    /// Adds the bytes of a read and decides what to do next.
    pub fn absorb(&mut self, chunk: &[u8]) -> (r: ReplayStep)
        requires
            old(self).wf(),
            old(self)@.len() + chunk@.len() <= REPLAY_BUFFER_BYTES,
        ensures
            final(self).wf(),
            final(self)@ == old(self)@ + chunk@,
            r == replay_step(final(self)@, chunk@.len()),
            r matches ReplayStep::Send { len, last } ==> 0 < len <= final(self)@.len(),
    {
        let mut k: usize = 0;
        let ghost start = self.pending@;
        while k < chunk.len()
            invariant
                k <= chunk@.len(),
                self.pending@ == start + chunk@.subrange(0, k as int),
                start.len() + chunk@.len() <= REPLAY_BUFFER_BYTES,
            decreases chunk@.len() - k,
        {
            self.pending.push(chunk[k]);
            k = k + 1;
            assert(self.pending@ =~= start + chunk@.subrange(0, k as int));
        }
        assert(chunk@.subrange(0, k as int) =~= chunk@);
        let len = self.pending.len();
        if len == 0 {
            return ReplayStep::End;
        }
        if chunk.len() == 0 {
            return ReplayStep::Send { len, last: true };
        }
        proof {
            lemma_last_newline_bound(self.pending@);
        }
        match find_last_newline(&self.pending) {
            Some(i) => ReplayStep::Send { len: i + 1, last: false },
            None => ReplayStep::More,
        }
    }

    /// Takes out the first `len` pending bytes for publication.
    pub fn take(&mut self, len: usize) -> (r: Vec<u8>)
        requires
            old(self).wf(),
            len <= old(self)@.len(),
        ensures
            final(self).wf(),
            r@ == old(self)@.subrange(0, len as int),
            final(self)@ == old(self)@.subrange(len as int, old(self)@.len() as int),
    {
        let mut head: Vec<u8> = Vec::new();
        let mut rest: Vec<u8> = Vec::new();
        let mut i: usize = 0;
        while i < self.pending.len()
            invariant
                i <= self.pending@.len(),
                self.pending@ == old(self)@,
                len <= self.pending@.len(),
                head@ == self.pending@.subrange(0, if i < len {
                    i as int
                } else {
                    len as int
                }),
                rest@ == self.pending@.subrange(len as int, if i < len {
                    len as int
                } else {
                    i as int
                }),
            decreases self.pending@.len() - i,
        {
            if i < len {
                head.push(self.pending[i]);
            } else {
                rest.push(self.pending[i]);
            }
            i = i + 1;
            assert(head@ =~= self.pending@.subrange(0, if i < len {
                i as int
            } else {
                len as int
            }));
            assert(rest@ =~= self.pending@.subrange(len as int, if i < len {
                len as int
            } else {
                i as int
            }));
        }
        self.pending = rest;
        head
    }
}

/// Bytes published and bytes left pending after the replay handled the
/// reads `reads` in order: each read is added to what is pending, and when
/// the step says so the announced prefix is taken out and published.
pub open spec fn replay_run(reads: Seq<Seq<u8>>) -> (Seq<u8>, Seq<u8>)
    decreases reads.len(),
{
    if reads.len() == 0 {
        (Seq::empty(), Seq::empty())
    } else {
        let prev = replay_run(reads.drop_last());
        let pending = prev.1 + reads.last();
        match replay_step(pending, reads.last().len()) {
            ReplayStep::Send { len, last } => (
                prev.0 + pending.subrange(0, len as int),
                pending.subrange(len as int, pending.len() as int),
            ),
            _ => (prev.0, pending),
        }
    }
}

/// Every byte read is published once, in file order: after any sequence
/// of reads, the bytes published followed by the bytes still pending are
/// exactly the bytes read.
pub proof fn lemma_replay_preserves_bytes(reads: Seq<Seq<u8>>)
    requires
        flatten(reads).len() <= usize::MAX,
    ensures
        replay_run(reads).0 + replay_run(reads).1 == flatten(reads),
    decreases reads.len(),
{
    if reads.len() == 0 {
        assert(Seq::<u8>::empty() + Seq::<u8>::empty() =~= flatten(reads));
    } else {
        let prev = replay_run(reads.drop_last());
        assert(flatten(reads) == flatten(reads.drop_last()) + reads.last());
        lemma_replay_preserves_bytes(reads.drop_last());
        let pending = prev.1 + reads.last();
        assert(prev.0 + pending =~= flatten(reads));
        lemma_last_newline_bound(pending);
        match replay_step(pending, reads.last().len()) {
            ReplayStep::Send { len, last } => {
                assert(len as int <= pending.len());
                assert(prev.0 + pending.subrange(0, len as int) + pending.subrange(
                    len as int,
                    pending.len() as int,
                ) =~= prev.0 + pending);
            },
            _ => {},
        }
    }
}

/// A block sent before the end of the file ends with a newline: only
/// complete lines are published while the file is being read.
pub proof fn lemma_block_ends_with_newline(pending: Seq<u8>, chunk_len: nat)
    requires
        chunk_len > 0,
        pending.len() <= REPLAY_BUFFER_BYTES,
        replay_step(pending, chunk_len) matches ReplayStep::Send { len, last } && !last,
    ensures
        ({
            let len = replay_step(pending, chunk_len)->len;
            0 < len <= pending.len() && pending[len - 1] == 10
        }),
{
    lemma_last_newline_is_newline(pending);
    let i = last_newline(pending)->0;
    assert(replay_step(pending, chunk_len)->len == (i + 1) as usize);
}

proof fn lemma_last_newline_is_newline(s: Seq<u8>)
    ensures
        last_newline(s) matches Some(i) ==> 0 <= i < s.len() && s[i] == 10,
    decreases s.len(),
{
    if s.len() > 0 && s.last() != 10 {
        lemma_last_newline_is_newline(s.drop_last());
    }
}

} // verus!
