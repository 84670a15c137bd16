use esp32s3_collector::status::{
    replay_complete_json, session_filename, session_list_json, session_start_json,
    session_stopped_json, status_json, StatusReport,
};
use esp32s3_collector::types::SessionLabel;

#[test]
fn filenames() {
    assert_eq!(session_filename(1), "S_0001.CSV");
    assert_eq!(session_filename(9999), "S_9999.CSV");
    assert_eq!(session_filename(12345), "S_12345.CSV");
}

#[test]
fn stopped_and_replay_messages() {
    assert_eq!(session_stopped_json(7), "{\"event\":\"SESSION_STOPPED\",\"session_id\":\"S0007\"}");
    assert_eq!(
        replay_complete_json("S_0003.CSV", 4096),
        "{\"event\":\"REPLAY_COMPLETE\",\"session\":\"S_0003.CSV\",\"bytes_sent\":4096}"
    );
}

#[test]
fn start_message() {
    assert_eq!(
        session_start_json(12, SessionLabel::Esportivo, 30, 1_700_000_000_000),
        "{\"event\":\"SESSION_START\",\"session_id\":\"S0012\",\"mode\":\"Esportivo\",\"duration_min\":30,\"start_epoch_ms\":1700000000000}"
    );
}

#[test]
fn status_message() {
    let s = StatusReport {
        recording: true,
        session_id: 2,
        sd_ok: true,
        wifi_ok: false,
        frames_received: 1234,
        lost: 5,
        uptime_ms: 60000,
    };
    assert_eq!(
        status_json(&s),
        "{\"state\":\"RECORDING\",\"session_id\":\"S0002\",\"recording\":true,\"sd_ok\":true,\"wifi_ok\":false,\"frames_received\":1234,\"lost\":5,\"uptime_ms\":60000}"
    );
    let idle = StatusReport { recording: false, ..s };
    assert!(status_json(&idle).starts_with("{\"state\":\"STANDBY\""));
}

#[test]
fn session_list_message() {
    let files = vec!["S_0001.CSV".to_string(), "S_0002.CSV".to_string()];
    assert_eq!(
        session_list_json("S_0002.CSV", &files),
        "{\"event\":\"SESSION_LIST\",\"total\":2,\"active\":\"S_0002.CSV\",\"files\":[\"S_0001.CSV\",\"S_0002.CSV\"]}"
    );
    assert_eq!(
        session_list_json("S_0001.CSV", &vec![]),
        "{\"event\":\"SESSION_LIST\",\"total\":0,\"active\":\"S_0001.CSV\",\"files\":[]}"
    );
}

#[test]
fn session_list_is_cut_at_buffer() {
    let files: Vec<String> = (1..=32).map(|i| format!("S_{:04}.CSV", i)).collect();
    let json = session_list_json("S_0032.CSV", &files);
    assert!(json.len() <= 512);
    assert!(json.starts_with("{\"event\":\"SESSION_LIST\",\"total\":32,"));
}
