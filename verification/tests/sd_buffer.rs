use esp32s3_collector::csv::{csv_header, serialize_boot};
use esp32s3_collector::sd_buffer::{
    advance_write_offset, clear_buffer, open_session, push_line, split_chunks, take_for_flush,
    SdBuffer,
};
use esp32s3_collector::types::SessionLabel;

#[test]
fn push_appends_and_reports_threshold() {
    let mut b = SdBuffer::new();
    assert_eq!(b.len(), 0);
    assert_eq!(push_line(&mut b, true, "abc\n"), Ok(false));
    assert_eq!(b.as_slice(), b"abc\n");
    let big = "x".repeat(3580);
    assert!(!b.flush_pending());
    assert_eq!(push_line(&mut b, true, &big), Ok(true));
    assert_eq!(b.len(), 3584);
    assert!(b.flush_pending());
    let _ = take_for_flush(&mut b, true);
    assert!(!b.flush_pending());
}

#[test]
fn push_refused_without_card_or_room() {
    let mut b = SdBuffer::new();
    assert_eq!(push_line(&mut b, false, "abc\n"), Err(()));
    assert_eq!(b.len(), 0);
    let fill = "y".repeat(4090);
    assert_eq!(push_line(&mut b, true, &fill), Ok(true));
    assert_eq!(push_line(&mut b, true, "1234567"), Err(()));
    assert_eq!(b.len(), 4090);
    assert_eq!(push_line(&mut b, true, "123456"), Ok(true));
    assert_eq!(b.len(), 4096);
    assert_eq!(push_line(&mut b, true, "z"), Err(()));
}

#[test]
fn take_and_clear() {
    let mut b = SdBuffer::new();
    push_line(&mut b, true, "one\n").unwrap();
    push_line(&mut b, true, "two\n").unwrap();
    let nothing = take_for_flush(&mut b, false);
    assert!(nothing.is_empty());
    assert_eq!(b.len(), 8);
    let taken = take_for_flush(&mut b, true);
    assert_eq!(taken.as_slice(), b"one\ntwo\n");
    assert_eq!(b.len(), 0);
    push_line(&mut b, true, "three\n").unwrap();
    clear_buffer(&mut b);
    assert_eq!(b.len(), 0);
}

#[test]
fn chunks_of_256() {
    let bytes: Vec<u8> = (0..600u32).map(|i| (i % 251) as u8).collect();
    let chunks = split_chunks(&bytes, 256);
    assert_eq!(chunks.len(), 3);
    assert_eq!(chunks[0].len(), 256);
    assert_eq!(chunks[1].len(), 256);
    assert_eq!(chunks[2].len(), 88);
    let joined: Vec<u8> = chunks.concat();
    assert_eq!(joined, bytes);
    assert!(split_chunks(&[], 256).is_empty());
    assert_eq!(split_chunks(&[1u8; 256], 256).len(), 1);
}

#[test]
fn write_offset_wraps() {
    assert_eq!(advance_write_offset(100, 256, true), 356);
    assert_eq!(advance_write_offset(100, 256, false), 100);
    assert_eq!(advance_write_offset(u32::MAX, 2, true), 1);
}

#[test]
fn session_opens_with_header_then_boot() {
    let mut b = SdBuffer::new();
    open_session(&mut b, true, SessionLabel::Esportivo);
    let expected = format!("{}{}", csv_header(), serialize_boot(0, &SessionLabel::Esportivo));
    assert_eq!(b.as_slice(), expected.as_bytes());
    assert!(expected.ends_with("0,DIAG,0x000,,,,,,Esportivo,\n"));
    let mut absent = SdBuffer::new();
    open_session(&mut absent, false, SessionLabel::Normal);
    assert_eq!(absent.len(), 0);
}
