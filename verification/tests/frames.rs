use esp32s3_collector::types::{CanError, CanFrame, DataSource, SessionLabel};

#[test]
fn label_codes_round_trip() {
    for l in [SessionLabel::Economico, SessionLabel::Normal, SessionLabel::Esportivo] {
        assert_eq!(SessionLabel::from_u8(l.as_u8()), l);
    }
    assert_eq!(SessionLabel::Economico.as_u8(), 1);
    assert_eq!(SessionLabel::Normal.as_u8(), 2);
    assert_eq!(SessionLabel::Esportivo.as_u8(), 3);
}

#[test]
fn unknown_label_code_means_normal() {
    assert_eq!(SessionLabel::from_u8(0), SessionLabel::Normal);
    assert_eq!(SessionLabel::from_u8(4), SessionLabel::Normal);
    assert_eq!(SessionLabel::from_u8(255), SessionLabel::Normal);
    assert_eq!(SessionLabel::default(), SessionLabel::Normal);
}

#[test]
fn label_and_source_texts() {
    assert_eq!(SessionLabel::Economico.as_str(), "Economico");
    assert_eq!(SessionLabel::Normal.as_str(), "Normal");
    assert_eq!(SessionLabel::Esportivo.as_str(), "Esportivo");
    assert_eq!(SessionLabel::Economico.code(), "ECO");
    assert_eq!(SessionLabel::Normal.code(), "NOR");
    assert_eq!(SessionLabel::Esportivo.code(), "SPT");
    assert_eq!(DataSource::CanDbc.as_str(), "CAN_DBC");
    assert_eq!(DataSource::ObdPid.as_str(), "OBD_PID");
}

#[test]
fn can_error_texts() {
    assert_eq!(CanError::BusOff.as_str(), "CAN_BUS_OFF");
    assert_eq!(CanError::Timeout.as_str(), "CAN_TIMEOUT");
    assert_eq!(CanError::TxFailed.as_str(), "CAN_TX_FAILED");
    assert_eq!(CanError::HalError.as_str(), "CAN_HAL_ERROR");
}

#[test]
fn frame_new_pads_and_truncates() {
    let f = CanFrame::new(0x100, &[1, 2, 3]);
    assert_eq!(f.id, 0x100);
    assert_eq!(f.dlc, 3);
    assert_eq!(f.data, [1, 2, 3, 0, 0, 0, 0, 0]);
    let g = CanFrame::new(0x200, &[9, 8, 7, 6, 5, 4, 3, 2, 1, 0]);
    assert_eq!(g.dlc, 8);
    assert_eq!(g.data, [9, 8, 7, 6, 5, 4, 3, 2]);
    let e = CanFrame::new(0x7DF, &[]);
    assert_eq!(e.dlc, 0);
    assert_eq!(e.data, [0; 8]);
}

#[test]
fn frame_from_received_keeps_reported_dlc() {
    let f = CanFrame::from_received(0x7E8, &[4, 0x41, 0x0D, 80], 4);
    assert_eq!(f.dlc, 4);
    assert_eq!(f.data, [4, 0x41, 0x0D, 80, 0, 0, 0, 0]);
    let g = CanFrame::from_received(0x7E8, &[1, 2], 300);
    assert_eq!(g.dlc, 44);
}

#[test]
fn transmit_parts_of_standard_frame() {
    let f = CanFrame::new(0x7DF, &[0x02, 0x01, 0x0D]);
    let (sid, payload) = f.transmit_parts().expect("standard id");
    assert_eq!(sid.as_raw(), 0x7DF);
    assert_eq!(payload, vec![0x02, 0x01, 0x0D]);
}

#[test]
fn transmit_parts_rejects_extended_id() {
    let f = CanFrame::new(0x800, &[1]);
    assert!(f.transmit_parts().is_none());
    let g = CanFrame::new(0xFFFF, &[1]);
    assert!(g.transmit_parts().is_none());
    // The identifier is cut to 16 bits before the check.
    let h = CanFrame::new(0x1_0010, &[7, 7]);
    let (sid, payload) = h.transmit_parts().expect("cut to 0x010");
    assert_eq!(sid.as_raw(), 0x010);
    assert_eq!(payload, vec![7, 7]);
}

#[test]
fn frame_round_trip_through_transmit_parts() {
    let f = CanFrame::new(0x7DF, &[0x02, 0x01, 0x0D]);
    let (sid, payload) = f.transmit_parts().unwrap();
    let back = CanFrame::from_received(sid.as_raw() as u32, &payload, payload.len());
    assert_eq!(back.id, f.id);
    assert_eq!(back.data, f.data);
    assert_eq!(back.dlc, f.dlc);
}
