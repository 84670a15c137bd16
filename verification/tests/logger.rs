use esp32s3_collector::logger::session_gate;
use esp32s3_collector::logger::session_complete_line;
use esp32s3_collector::types::SessionLabel;
use esp32s3_collector::logger::{
    get_backlog_psram_bytes, session_expired, LoggerState, CONN_CONNECTED, CONN_DISCONNECTED,
    CONN_RECONNECTING,
};
use esp32s3_collector::sd_buffer::{take_for_flush, SdBuffer};

fn contents(b: &SdBuffer) -> String {
    String::from_utf8(b.as_slice().to_vec()).unwrap()
}

#[test]
fn disconnect_notice_written_once() {
    let mut st = LoggerState::new();
    let mut sd = SdBuffer::new();
    let d = st.dispatch(&mut sd, true, CONN_DISCONNECTED, "L1\n", 1000);
    assert!(d.sd_success);
    assert!(!d.publish);
    assert!(!d.set_connected);
    assert_eq!(contents(&sd), "1000,DIAG,0x000,,,,,,,,NOR,WIFI_DISCONNECTED\nL1\n");
    let d = st.dispatch(&mut sd, true, CONN_DISCONNECTED, "L2\n", 1100);
    assert!(d.sd_success);
    assert_eq!(contents(&sd), "1000,DIAG,0x000,,,,,,,,NOR,WIFI_DISCONNECTED\nL1\nL2\n");
    assert_eq!(st.stats().frames_to_sd, 2);
}

#[test]
fn refused_lines_go_to_backlog_and_drain_in_order() {
    let mut st = LoggerState::new();
    let mut sd = SdBuffer::new();
    // Card absent: lines are queued and count as lost until written.
    for (i, line) in ["A\n", "B\n", "C\n"].iter().enumerate() {
        let d = st.dispatch(&mut sd, false, CONN_DISCONNECTED, line, i as u64);
        assert!(!d.sd_success);
        assert!(d.queued);
        st.settle(d, false);
    }
    assert_eq!(st.backlog_len(), 3);
    assert_eq!(get_backlog_psram_bytes(&st), 960);
    assert_eq!(st.stats().frames_lost, 3);
    assert_eq!(sd.len(), 0);
    // Reconnection: the backlog oldest first, then the new line.
    let d = st.dispatch(&mut sd, true, CONN_RECONNECTING, "D\n", 10);
    assert!(d.set_connected);
    assert!(d.sd_success);
    assert!(!d.queued);
    assert!(!d.publish);
    st.settle(d, false);
    assert_eq!(st.stats().frames_lost, 3);
    assert_eq!(contents(&sd), "A\nB\nC\nD\n");
    assert_eq!(st.backlog_len(), 0);
    // Connected: the reconnection notice, then the line.
    st.dispatch(&mut sd, true, CONN_CONNECTED, "E\n", 11);
    assert!(contents(&sd).ends_with("D\n11,DIAG,0x000,,,,,,,,NOR,WIFI_RECONNECTED backlog=0\nE\n"));
}

#[test]
fn card_recovery_drains_backlog_before_new_line() {
    let mut st = LoggerState::new();
    let mut sd = SdBuffer::new();
    let d = st.dispatch(&mut sd, false, CONN_DISCONNECTED, "A\n", 1);
    assert!(d.queued);
    let d = st.dispatch(&mut sd, true, CONN_DISCONNECTED, "B\n", 2);
    assert!(d.sd_success);
    assert_eq!(contents(&sd), "A\nB\n");
    assert_eq!(st.backlog_len(), 0);
}

#[test]
fn drain_stops_at_refused_line() {
    let mut st = LoggerState::new();
    let mut sd = SdBuffer::new();
    let long = "q".repeat(3000) + "\n";
    for line in ["first\n", long.as_str(), "third\n"] {
        st.dispatch(&mut sd, false, CONN_DISCONNECTED, line, 0);
    }
    assert_eq!(st.backlog_len(), 3);
    // Leave room for the first line only.
    let filler = "f".repeat(2000);
    esp32s3_collector::sd_buffer::push_line(&mut sd, true, &filler).unwrap();
    let d = st.dispatch(&mut sd, true, CONN_RECONNECTING, "x\n", 0);
    // The new line waits behind the refused one.
    assert!(!d.sd_success);
    assert!(d.queued);
    assert_eq!(st.backlog_len(), 3);
    assert!(contents(&sd).ends_with("ffffirst\n0,DIAG,0x000,,,,,,,,NOR,SD_WRITE_ERROR\n"));
    // After a flush everything fits, in order.
    let _ = take_for_flush(&mut sd, true);
    let d = st.dispatch(&mut sd, true, CONN_RECONNECTING, "y\n", 0);
    assert!(d.sd_success);
    assert_eq!(st.backlog_len(), 0);
    assert_eq!(contents(&sd), format!("{}third\nx\ny\n", long));
}

#[test]
fn reconnecting_frame_is_stored_not_lost() {
    let mut st = LoggerState::new();
    let mut sd = SdBuffer::new();
    let d = st.dispatch(&mut sd, true, CONN_RECONNECTING, "R\n", 5);
    assert!(d.sd_success);
    st.settle(d, false);
    assert_eq!(st.stats().frames_lost, 0);
    assert_eq!(st.stats().frames_to_sd, 1);
    assert_eq!(contents(&sd), "R\n");
}

#[test]
fn reconnect_notice_counts_backlog() {
    let mut st = LoggerState::new();
    let mut sd = SdBuffer::new();
    st.dispatch(&mut sd, false, CONN_DISCONNECTED, "A\n", 5);
    st.dispatch(&mut sd, false, CONN_DISCONNECTED, "B\n", 6);
    let d = st.dispatch(&mut sd, true, CONN_CONNECTED, "C\n", 7);
    assert!(d.publish);
    assert!(d.sd_success);
    assert_eq!(contents(&sd), "7,DIAG,0x000,,,,,,,,NOR,WIFI_RECONNECTED backlog=2\nC\n");
    st.settle(d, true);
    assert_eq!(st.stats().frames_to_mqtt, 1);
    assert_eq!(st.stats().frames_lost, 0);
    // Same state again: no second notice.
    st.dispatch(&mut sd, true, CONN_CONNECTED, "D\n", 8);
    assert_eq!(contents(&sd), "7,DIAG,0x000,,,,,,,,NOR,WIFI_RECONNECTED backlog=2\nC\nD\n");
}

#[test]
fn unknown_state_does_nothing() {
    let mut st = LoggerState::new();
    let mut sd = SdBuffer::new();
    let d = st.dispatch(&mut sd, true, 7, "A\n", 5);
    assert!(!d.publish && !d.sd_success && !d.set_connected);
    assert_eq!(sd.len(), 0);
    st.record_frame(123);
    assert_eq!(st.stats().frames_received, 1);
    assert_eq!(st.stats().last_frame_ts_ms, 123);
}

#[test]
fn backlog_holds_fifty_lines() {
    let mut st = LoggerState::new();
    let mut sd = SdBuffer::new();
    for i in 0..60u64 {
        st.dispatch(&mut sd, false, CONN_DISCONNECTED, "L\n", i);
    }
    assert_eq!(st.backlog_len(), 50);
    assert_eq!(get_backlog_psram_bytes(&st), 16000);
}

#[test]
fn session_timer_expiry() {
    assert!(!session_expired(false, 0, 1000, 5000));
    assert!(!session_expired(true, 0, 0, 5000));
    assert!(!session_expired(true, 1000, 1000, 1999));
    assert!(session_expired(true, 1000, 1000, 2000));
    assert!(!session_expired(true, 5000, 1000, 10));
}

#[test]
fn session_gate_decisions() {
    let g = session_gate(true, true, 1000, 60_000, 61_000);
    assert!(g.expired && !g.timer_active && !g.session_active && !g.record);
    let g = session_gate(true, true, 1000, 60_000, 60_999);
    assert!(!g.expired && g.timer_active && g.session_active && g.record);
    let g = session_gate(false, false, 0, 0, 5);
    assert!(!g.expired && !g.record);
    let g = session_gate(true, false, 0, 1, 5);
    assert!(!g.expired && g.record);
}

#[test]
fn session_completion_line() {
    assert_eq!(
        session_complete_line(600000, SessionLabel::Esportivo),
        "600000,DIAG,0x000,,,,,,,,SPT,SESSION_COMPLETE_DURATION_REACHED\n"
    );
}
