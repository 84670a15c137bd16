use esp32s3_collector::binary::{batch_payload, select_value, telemetry_topic, BinaryFrame};
use esp32s3_collector::types::{DataSource, SessionLabel};

#[test]
fn select_first_present_value() {
    assert_eq!(select_value(Some(1), Some(2), Some(3)), 1);
    assert_eq!(select_value(None, Some(2), Some(3)), 2);
    assert_eq!(select_value(None, None, Some(3)), 3);
    assert_eq!(select_value(None, None, None), 0);
    assert_eq!(select_value(None, None, None), 0.0f32.to_bits());
}

#[test]
fn pack_truncates_timestamp_and_id() {
    let f = BinaryFrame::pack(0x1_2345_6789, 0x1_07E8, DataSource::ObdPid, SessionLabel::Esportivo, 7, 9, 12);
    assert_eq!(f.timestamp_ms, 0x2345_6789);
    assert_eq!(f.can_id, 0x07E8);
    assert_eq!(f.source, 1);
    assert_eq!(f.label, 3);
    assert_eq!(f.val1_bits, 7);
    assert_eq!(f.val2_bits, 9);
    assert_eq!(f.obd_latency, 12);
    let g = BinaryFrame::pack(5, 0x100, DataSource::CanDbc, SessionLabel::Economico, 0, 0, 0);
    assert_eq!(g.source, 0);
    assert_eq!(g.label, 1);
}

#[test]
fn record_layout_is_little_endian() {
    let f = BinaryFrame {
        timestamp_ms: 0x0403_0201,
        can_id: 0x0605,
        source: 7,
        label: 8,
        val1_bits: 85.5f32.to_bits(),
        val2_bits: 0x1211_100F,
        obd_latency: 0x1413,
    };
    let b = f.to_bytes();
    let v1 = 85.5f32.to_bits().to_le_bytes();
    assert_eq!(
        b,
        vec![1, 2, 3, 4, 5, 6, 7, 8, v1[0], v1[1], v1[2], v1[3], 0x0F, 0x10, 0x11, 0x12, 0x13, 0x14]
    );
    assert_eq!(BinaryFrame::from_bytes(&b), Some(f));
}

#[test]
fn from_bytes_needs_eighteen_bytes() {
    assert_eq!(BinaryFrame::from_bytes(&[0u8; 17]), None);
    assert_eq!(BinaryFrame::from_bytes(&[0u8; 19]), None);
    let z = BinaryFrame::from_bytes(&[0u8; 18]).unwrap();
    assert_eq!(z.timestamp_ms, 0);
    assert_eq!(z.to_bytes(), vec![0u8; 18]);
}

#[test]
fn batch_is_records_in_order() {
    let a = BinaryFrame::pack(1, 0x100, DataSource::CanDbc, SessionLabel::Normal, 1, 2, 0);
    let b = BinaryFrame::pack(2, 0x701, DataSource::ObdPid, SessionLabel::Normal, 3, 4, 5);
    let payload = batch_payload(&vec![a, b]);
    assert_eq!(payload.len(), 36);
    assert_eq!(&payload[..18], a.to_bytes().as_slice());
    assert_eq!(&payload[18..], b.to_bytes().as_slice());
    assert!(batch_payload(&vec![]).is_empty());
}

#[test]
fn topic_per_session() {
    assert_eq!(telemetry_topic(1), "/telemetry/S0001/raw");
    assert_eq!(telemetry_topic(42), "/telemetry/S0042/raw");
    assert_eq!(telemetry_topic(12345), "/telemetry/S12345/raw");
}
