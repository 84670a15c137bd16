use esp32s3_collector::session::{list_step, scan_step, wipe_step, ScanStep};
use esp32s3_collector::session::{
    current_timestamp_ms, next_session_id, rotation_slot, session_timer, ReplayBuffer, ReplayStep,
};

#[test]
fn timestamps() {
    assert_eq!(current_timestamp_ms(5000, 0, 0), 5000);
    assert_eq!(current_timestamp_ms(5000, 1_700_000_000_000, 2000), 1_700_000_003_000);
    assert_eq!(current_timestamp_ms(1000, 1_700_000_000_000, 2000), 1_700_000_000_000);
}

#[test]
fn timer_settings() {
    assert_eq!(session_timer(0), (0, false));
    assert_eq!(session_timer(30), (1_800_000, true));
    assert_eq!(session_timer(1440), (86_400_000, true));
}

#[test]
fn rotation_and_scan() {
    assert_eq!(rotation_slot(Some(4)), (4, 4));
    assert_eq!(rotation_slot(None), (1, 9999));
    assert_eq!(next_session_id(1), Some(2));
    assert_eq!(next_session_id(9998), Some(9999));
    assert_eq!(next_session_id(9999), None);
}

#[test]
fn replay_sends_complete_lines() {
    let mut rb = ReplayBuffer::new();
    assert_eq!(rb.read_window(), 512);
    assert_eq!(rb.absorb(b"a,1\nb,2\nc,"), ReplayStep::Send { len: 8, last: false });
    assert_eq!(rb.take(8), b"a,1\nb,2\n".to_vec());
    assert_eq!(rb.absorb(b"3"), ReplayStep::More);
    assert_eq!(rb.absorb(b""), ReplayStep::Send { len: 3, last: true });
    assert_eq!(rb.take(3), b"c,3".to_vec());
    assert_eq!(rb.absorb(b""), ReplayStep::End);
}

#[test]
fn replay_window_shrinks_when_full() {
    let mut rb = ReplayBuffer::new();
    let no_newline = vec![b'x'; 512];
    assert_eq!(rb.absorb(&no_newline), ReplayStep::More);
    assert_eq!(rb.absorb(&no_newline), ReplayStep::More);
    assert_eq!(rb.read_window(), 512);
    assert_eq!(rb.absorb(&no_newline[..500]), ReplayStep::More);
    assert_eq!(rb.read_window(), 12);
    assert_eq!(rb.absorb(&no_newline[..12]), ReplayStep::More);
    assert_eq!(rb.read_window(), 0);
    assert_eq!(rb.absorb(&[]), ReplayStep::Send { len: 1536, last: true });
}

#[test]
fn scan_stops_at_first_missing_file() {
    assert_eq!(scan_step(1, true), ScanStep::Next(2));
    assert_eq!(scan_step(3, false), ScanStep::Missing(3));
    assert_eq!(scan_step(9999, true), ScanStep::End);
    // Files 1..=3 on the card: a scan from 1 finds 4 free.
    let on_card = |id: u16| id <= 3;
    let mut id = 1u16;
    let stop = loop {
        match scan_step(id, on_card(id)) {
            ScanStep::Next(n) => id = n,
            other => break other,
        }
    };
    assert_eq!(stop, ScanStep::Missing(4));
}

#[test]
fn listing_and_wipe_visit_every_number() {
    // Files 1, 2, 5 and 9999 on the card: a gap does not stop either sweep.
    let on_card = |id: u16| id == 1 || id == 2 || id == 5 || id == 9999;
    let mut listed = Vec::new();
    let mut deleted = Vec::new();
    let mut id = Some(1u16);
    while let Some(current) = id {
        let (delete, next_wipe) = wipe_step(current, on_card(current));
        if delete {
            deleted.push(current);
        }
        let next_list = list_step(&mut listed, current, on_card(current));
        assert_eq!(next_list, next_wipe);
        id = next_wipe;
    }
    assert_eq!(listed, vec![1, 2, 5, 9999]);
    assert_eq!(deleted, vec![1, 2, 5, 9999]);
}

#[test]
fn listing_keeps_first_thirty_two() {
    let mut listed = Vec::new();
    let mut id = Some(1u16);
    let mut probes = 0;
    while let Some(current) = id {
        probes += 1;
        id = list_step(&mut listed, current, true);
    }
    assert_eq!(listed, (1..=32).collect::<Vec<u16>>());
    assert_eq!(probes, 33);
}
