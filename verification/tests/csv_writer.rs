use esp32s3_collector::csv::{csv_header, format_row, serialize_boot, serialize_diag};
use esp32s3_collector::types::{DataSource, SessionLabel};

#[test]
fn test_csv_header() {
    let header = csv_header();
    assert!(header.starts_with("timestamp_ms,source,can_id"));
    assert!(header.ends_with("\n"));
}

#[test]
fn test_serialize_diag() {
    let label = SessionLabel::Normal;
    let diag = serialize_diag(3000, &label, "WIFI_DISCONNECTED");
    assert_eq!(diag.as_str(), "3000,DIAG,0x000,,,,,,,,NOR,WIFI_DISCONNECTED\n");
}

#[test]
fn header_has_eleven_columns() {
    let header = csv_header();
    assert_eq!(header.len(), 122);
    assert_eq!(header.trim_end().split(',').count(), 11);
    assert_eq!(
        header,
        "timestamp_ms,source,can_id,speed_kmh,rpm,throttle_pct,engine_load_pct,maf_g_s,coolant_temp_c,session_label,obd_latency_ms\n"
    );
}

#[test]
fn diag_uses_label_code() {
    assert_eq!(
        serialize_diag(0, &SessionLabel::Economico, "X"),
        "0,DIAG,0x000,,,,,,,,ECO,X\n"
    );
    assert_eq!(
        serialize_diag(18446744073709551615, &SessionLabel::Esportivo, ""),
        "18446744073709551615,DIAG,0x000,,,,,,,,SPT,\n"
    );
}

#[test]
fn diag_long_message_is_dropped_when_it_does_not_fit() {
    // 128-byte line buffer: the message piece does not fit, so the line
    // stops before it (and before the final newline).
    let msg = "M".repeat(102);
    let diag = serialize_diag(3000, &SessionLabel::Normal, &msg);
    assert_eq!(diag, "3000,DIAG,0x000,,,,,,,,NOR,");
    // The message fits but the final newline does not.
    let msg = "M".repeat(101);
    let diag = serialize_diag(3000, &SessionLabel::Normal, &msg);
    assert_eq!(diag.len(), 128);
    assert!(diag.ends_with("MM"));
    // A message that exactly fills the buffer is kept.
    let prefix = "3000,DIAG,0x000,,,,,,,,NOR,";
    let fit = "M".repeat(128 - prefix.len() - 1);
    let line = serialize_diag(3000, &SessionLabel::Normal, &fit);
    assert_eq!(line.len(), 128);
    assert!(line.ends_with("M\n"));
}

#[test]
fn boot_line_format() {
    assert_eq!(serialize_boot(0, &SessionLabel::Normal), "0,DIAG,0x000,,,,,,Normal,\n");
    assert_eq!(serialize_boot(42, &SessionLabel::Esportivo), "42,DIAG,0x000,,,,,,Esportivo,\n");
}

fn fields(v: [&str; 6]) -> Vec<String> {
    v.iter().map(|s| s.to_string()).collect()
}

#[test]
fn test_serialize_obd_maf() {
    let row = format_row(
        2000,
        DataSource::ObdPid,
        0x7E8,
        &fields(["", "", "", "", "14.25", ""]),
        SessionLabel::Normal,
        "1.234",
    )
    .unwrap();
    assert!(row.contains("2000,OBD_PID,0x7e8,,,,,14.25,,NOR,1.234"));
    assert_eq!(row, "2000,OBD_PID,0x7e8,,,,,14.25,,NOR,1.234\n");
}

// The row has the header's eleven columns: after speed and rpm come the
// four empty columns throttle, engine load, MAF and coolant, then the label.
#[test]
fn test_serialize_can_dbc() {
    let row = format_row(
        1500,
        DataSource::CanDbc,
        0x100,
        &fields(["85.5", "2500", "", "", "", ""]),
        SessionLabel::Normal,
        "",
    )
    .unwrap();
    assert_eq!(row, "1500,CAN_DBC,0x100,85.5,2500,,,,,NOR,\n");
    let small = format_row(1, DataSource::CanDbc, 0x5, &fields(["", "", "", "", "", ""]), SessionLabel::Economico, "").unwrap();
    assert!(small.starts_with("1,CAN_DBC,0x005,"));
    let big = format_row(1, DataSource::CanDbc, 0x1ABCD, &fields(["", "", "", "", "", ""]), SessionLabel::Esportivo, "").unwrap();
    assert!(big.starts_with("1,CAN_DBC,0x1abcd,"));
    assert!(big.ends_with(",SPT,\n"));
}

#[test]
fn row_longer_than_line_buffer_is_refused() {
    // The fifth column fills the buffer: its separating comma no longer fits.
    let wide = "9".repeat(60);
    let f = fields([&wide, &wide, &wide, &wide, &wide, ""]);
    assert!(format_row(1, DataSource::CanDbc, 0x100, &f, SessionLabel::Normal, "").is_none());
    let f = fields([&wide, &wide, &wide, &wide, "", ""]);
    let row = format_row(1, DataSource::CanDbc, 0x100, &f, SessionLabel::Normal, "").unwrap();
    assert!(row.len() <= 320);
}

#[test]
fn column_that_does_not_fit_is_left_out() {
    let wide = "9".repeat(60);
    let wider = "8".repeat(61);
    let f = fields([&wide, &wide, &wide, &wide, &wider, ""]);
    let row = format_row(1, DataSource::CanDbc, 0x100, &f, SessionLabel::Normal, "1.5").unwrap();
    let expected = format!("1,CAN_DBC,0x100,{w},{w},{w},{w},,,NOR,1.5\n", w = wide);
    assert_eq!(row, expected);
    assert_eq!(row.len(), 270);
}
