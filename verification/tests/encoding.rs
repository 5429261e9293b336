use metriken_exposition::{append_newline, Error, Timestamp, TEXT_FRAME_BYTE};

#[test]
fn newline_is_appended() {
    let framed = append_newline(vec![1u8, 2u8, 3u8]);
    assert_eq!(framed, vec![1u8, 2u8, 3u8, b'\n']);
}

#[test]
fn empty_output_still_gets_newline() {
    let framed = append_newline(Vec::new());
    assert_eq!(framed, vec![TEXT_FRAME_BYTE]);
    assert_eq!(TEXT_FRAME_BYTE, b'\n');
}

#[test]
fn error_carries_diagnostic() {
    let e = Error::new(String::from("value cannot be represented"));
    assert_eq!(e.message(), "value cannot be represented");
}

#[test]
fn checked_nanos_exact_values() {
    let t = Timestamp::new(2, 5);
    assert_eq!(t.checked_epoch_nanos(), Some(2_000_000_005));
    let before = Timestamp::new(-5, 0);
    assert_eq!(before.checked_epoch_nanos(), None);
}
