use esp32s3_collector::decoder::{
    decode_rx_frame, next_pid_index, obd_latency_ticks, obd_pid_at, obd_request_frame,
    parse_dbc_frame, parse_obd_response, profile_command_frame, DecodedFrame, Reading,
};
use esp32s3_collector::types::{CanFrame, DataSource, SessionLabel};

fn r(num: i32, den: u32) -> Option<Reading> {
    Some(Reading { num, den })
}

#[test]
fn dbc_speed_and_rpm() {
    let f = CanFrame::new(0x100, &[0x00, 0x55, 0x09, 0xC4, 0, 0, 0, 0]);
    let d = parse_dbc_frame(&f, 1500, SessionLabel::Normal).unwrap();
    assert_eq!(d.source, DataSource::CanDbc);
    assert_eq!(d.can_id, 0x100);
    assert_eq!(d.timestamp_ms, 1500);
    assert_eq!(d.speed_kmh, r(85, 1));
    assert_eq!(d.rpm, r(2500, 1));
    assert_eq!(d.throttle_pct, None);
    assert_eq!(d.obd_latency_ticks, None);
    assert_eq!(d.session_label, SessionLabel::Normal);
}

#[test]
fn dbc_throttle_load_and_coolant() {
    let f = CanFrame::new(0x200, &[255, 51]);
    let d = parse_dbc_frame(&f, 7, SessionLabel::Economico).unwrap();
    assert_eq!(d.throttle_pct, r(25500, 255));
    assert_eq!(d.engine_load_pct, r(5100, 255));
    assert_eq!(d.speed_kmh, None);
    let c = CanFrame::new(0x300, &[130]);
    let d = parse_dbc_frame(&c, 8, SessionLabel::Esportivo).unwrap();
    assert_eq!(d.coolant_temp_c, r(90, 1));
    let cold = CanFrame::new(0x300, &[0]);
    assert_eq!(parse_dbc_frame(&cold, 8, SessionLabel::Normal).unwrap().coolant_temp_c, r(-40, 1));
}

#[test]
fn dbc_unknown_id_is_not_decoded() {
    let f = CanFrame::new(0x123, &[1, 2, 3, 4]);
    assert!(parse_dbc_frame(&f, 0, SessionLabel::Normal).is_none());
}

#[test]
fn obd_each_pid() {
    let cases: [(u8, u32); 6] = [(0x0D, 0x701), (0x0C, 0x702), (0x11, 0x703), (0x04, 0x704), (0x10, 0x705), (0x05, 0x706)];
    for (pid, vid) in cases {
        let f = CanFrame::new(0x7E8, &[4, 0x41, pid, 0x1A, 0xF8, 0, 0, 0]);
        let d = parse_obd_response(&f, 2000, 1234, SessionLabel::Normal).unwrap();
        assert_eq!(d.can_id, vid);
        assert_eq!(d.source, DataSource::ObdPid);
        assert_eq!(d.obd_latency_ticks, Some(1234));
    }
    let speed = parse_obd_response(&CanFrame::new(0x7E8, &[3, 0x41, 0x0D, 80]), 0, 0, SessionLabel::Normal).unwrap();
    assert_eq!(speed.speed_kmh, r(80, 1));
    let rpm = parse_obd_response(&CanFrame::new(0x7E8, &[4, 0x41, 0x0C, 0x1A, 0xF8]), 0, 0, SessionLabel::Normal).unwrap();
    assert_eq!(rpm.rpm, r(0x1AF8, 4));
    let thr = parse_obd_response(&CanFrame::new(0x7E8, &[3, 0x41, 0x11, 51]), 0, 0, SessionLabel::Normal).unwrap();
    assert_eq!(thr.throttle_pct, r(5100, 255));
    let load = parse_obd_response(&CanFrame::new(0x7E8, &[3, 0x41, 0x04, 255]), 0, 0, SessionLabel::Normal).unwrap();
    assert_eq!(load.engine_load_pct, r(25500, 255));
    let maf = parse_obd_response(&CanFrame::new(0x7E8, &[4, 0x41, 0x10, 0x05, 0x91]), 0, 0, SessionLabel::Normal).unwrap();
    assert_eq!(maf.maf_g_s, r(1425, 100));
    let cool = parse_obd_response(&CanFrame::new(0x7E8, &[3, 0x41, 0x05, 125]), 0, 0, SessionLabel::Normal).unwrap();
    assert_eq!(cool.coolant_temp_c, r(85, 1));
}

#[test]
fn obd_second_byte_needs_dlc_above_four() {
    let f = CanFrame::new(0x7E8, &[4, 0x41, 0x0C, 0x1A]);
    assert_eq!(f.dlc, 4);
    let d = parse_obd_response(&f, 0, 0, SessionLabel::Normal).unwrap();
    assert_eq!(d.rpm, r(0x1A00, 4));
}

#[test]
fn obd_rejections() {
    let short = CanFrame::new(0x7E8, &[2, 0x41, 0x0D]);
    assert!(parse_obd_response(&short, 0, 0, SessionLabel::Normal).is_none());
    let wrong_mode = CanFrame::new(0x7E8, &[3, 0x42, 0x0D, 10]);
    assert!(parse_obd_response(&wrong_mode, 0, 0, SessionLabel::Normal).is_none());
    let unknown = CanFrame::new(0x7E8, &[3, 0x41, 0x2F, 10]);
    assert!(parse_obd_response(&unknown, 0, 0, SessionLabel::Normal).is_none());
}

#[test]
fn rx_routing() {
    let obd = CanFrame::new(0x7E8, &[3, 0x41, 0x0D, 42]);
    let d = decode_rx_frame(&obd, 10, 99, SessionLabel::Esportivo).unwrap();
    assert_eq!(d.can_id, 0x701);
    assert_eq!(d.session_label, SessionLabel::Esportivo);
    let dbc = CanFrame::new(0x300, &[40]);
    let d = decode_rx_frame(&dbc, 10, 99, SessionLabel::Normal).unwrap();
    assert_eq!(d.coolant_temp_c, r(0, 1));
    assert_eq!(d.obd_latency_ticks, None);
    assert!(decode_rx_frame(&CanFrame::new(0x7DF, &[1]), 0, 0, SessionLabel::Normal).is_none());
}

#[test]
fn latency_ticks() {
    assert_eq!(obd_latency_ticks(5000, 0), 0);
    assert_eq!(obd_latency_ticks(5000, 3766), 1234);
    assert_eq!(obd_latency_ticks(10, 20), 0);
}

#[test]
fn round_robin_and_requests() {
    let expected = [0x0D, 0x0C, 0x11, 0x04, 0x10, 0x05];
    let mut i = 0;
    for k in 0..12 {
        assert_eq!(obd_pid_at(i), expected[k % 6]);
        let req = obd_request_frame(i);
        assert_eq!(req.id, 0x7DF);
        assert_eq!(req.dlc, 8);
        assert_eq!(req.data, [0x02, 0x01, expected[k % 6], 0, 0, 0, 0, 0]);
        i = next_pid_index(i);
    }
    assert_eq!(next_pid_index(5), 0);
}

#[test]
fn profile_command() {
    let f = profile_command_frame(SessionLabel::Esportivo);
    assert_eq!(f.id, 0x010);
    assert_eq!(f.dlc, 1);
    assert_eq!(f.data, [3, 0, 0, 0, 0, 0, 0, 0]);
    assert_eq!(profile_command_frame(SessionLabel::Economico).data[0], 1);
}

#[test]
fn empty_decoded_frame() {
    let d = DecodedFrame::new(5, DataSource::ObdPid, 0x705, SessionLabel::Normal);
    assert_eq!(d.maf_g_s, None);
    assert_eq!(d.coolant_temp_c, None);
    assert_eq!(d.can_id, 0x705);
}
