//! Lifecycle sequences: every operation must put the exact documented
//! transaction stream on the wire, byte for byte.

use epd5in65f::color::OctColor;
use epd5in65f::driver::{EPD5in65f, DEFAULT_BACKGROUND_COLOR, FRAME_BYTES, HEIGHT, WIDTH};
use epd5in65f::interface::{DisplayInterface, Transaction};

fn init_txns() -> Vec<Transaction> {
    vec![
        Transaction::Reset { hold_ms: 2 },
        Transaction::Cmd { byte: 0x00 },
        Transaction::Data { bytes: vec![0xEF, 0x08] },
        Transaction::Cmd { byte: 0x01 },
        Transaction::Data { bytes: vec![0x37, 0x00, 0x23, 0x23] },
        Transaction::Cmd { byte: 0x03 },
        Transaction::Data { bytes: vec![0x00] },
        Transaction::Cmd { byte: 0x06 },
        Transaction::Data { bytes: vec![0xC7, 0xC7, 0x1D] },
        Transaction::Cmd { byte: 0x30 },
        Transaction::Data { bytes: vec![0x3C] },
        Transaction::Cmd { byte: 0x41 },
        Transaction::Data { bytes: vec![0x00] },
        Transaction::Cmd { byte: 0x50 },
        Transaction::Data { bytes: vec![0x37] },
        Transaction::Cmd { byte: 0x60 },
        Transaction::Data { bytes: vec![0x22] },
        Transaction::Cmd { byte: 0x61 },
        Transaction::Data { bytes: vec![0x02] },
        Transaction::Data { bytes: vec![0x58] },
        Transaction::Data { bytes: vec![0x01] },
        Transaction::Data { bytes: vec![0xC0] },
        Transaction::Cmd { byte: 0xE3 },
        Transaction::Data { bytes: vec![0xAA] },
        Transaction::Delay { ms: 100 },
        Transaction::Cmd { byte: 0x50 },
        Transaction::Data { bytes: vec![0x37] },
    ]
}

fn resolution_txns() -> Vec<Transaction> {
    vec![
        Transaction::Cmd { byte: 0x61 },
        Transaction::Data { bytes: vec![0x02] },
        Transaction::Data { bytes: vec![0x58] },
        Transaction::Data { bytes: vec![0x01] },
        Transaction::Data { bytes: vec![0xC0] },
    ]
}

fn display_txns() -> Vec<Transaction> {
    vec![
        Transaction::WaitBusy { busy_low: true },
        Transaction::Cmd { byte: 0x04 },
        Transaction::WaitBusy { busy_low: true },
        Transaction::Cmd { byte: 0x12 },
        Transaction::WaitBusy { busy_low: true },
        Transaction::Cmd { byte: 0x02 },
        Transaction::WaitBusy { busy_low: false },
    ]
}

#[test]
fn epd_size() {
    assert_eq!(WIDTH, 600);
    assert_eq!(HEIGHT, 448);
    assert_eq!(DEFAULT_BACKGROUND_COLOR, OctColor::White);
}

#[test]
fn accessors_report_fixed_resolution() {
    let epd = EPD5in65f::new(DisplayInterface::new()).unwrap();
    assert_eq!(epd.width(), 600);
    assert_eq!(epd.height(), 448);
    assert_eq!(FRAME_BYTES, 600 * 448 / 2);
}

#[test]
fn construction_emits_exact_init_sequence() {
    let epd = EPD5in65f::new(DisplayInterface::new()).unwrap();
    let expected = init_txns();
    assert_eq!(&epd.transactions()[..], &expected[..]);
}

#[test]
fn wake_twice_emits_two_identical_init_sequences() {
    let mut epd = EPD5in65f::new(DisplayInterface::new()).unwrap();
    epd.wake_up().unwrap();
    epd.wake_up().unwrap();
    let one = init_txns();
    let log = epd.transactions();
    assert_eq!(log.len(), 3 * one.len());
    assert_eq!(&log[..one.len()], &one[..]);
    assert_eq!(&log[one.len()..2 * one.len()], &one[..]);
    assert_eq!(&log[2 * one.len()..], &one[..]);
}

#[test]
fn display_frame_sequence_and_busy_waits() {
    let mut epd = EPD5in65f::new(DisplayInterface::new()).unwrap();
    let base = epd.transactions().len();
    epd.display_frame().unwrap();
    let tail = &epd.transactions()[base..];
    assert_eq!(tail, &display_txns()[..]);
    let waits = tail
        .iter()
        .filter(|t| matches!(t, Transaction::WaitBusy { .. }))
        .count();
    assert_eq!(waits, 4);
    assert_eq!(tail.last().unwrap(), &Transaction::WaitBusy { busy_low: false });
}

#[test]
fn sleep_emits_single_deep_sleep_pair() {
    let mut epd = EPD5in65f::new(DisplayInterface::new()).unwrap();
    let base = epd.transactions().len();
    epd.sleep().unwrap();
    let tail = &epd.transactions()[base..];
    assert_eq!(tail.len(), 2);
    assert_eq!(tail[0], Transaction::Cmd { byte: 0x07 });
    assert_eq!(tail[1], Transaction::Data { bytes: vec![0xA5] });
}

#[test]
fn sleep_then_wake_then_frame_ops_work_again() {
    let mut epd = EPD5in65f::new(DisplayInterface::new()).unwrap();
    epd.sleep().unwrap();
    epd.wake_up().unwrap();
    epd.display_frame().unwrap();
    let log = epd.transactions();
    let n = log.len();
    assert_eq!(&log[n - 7..], &display_txns()[..]);
}

#[test]
fn update_frame_streams_whole_buffer() {
    let mut epd = EPD5in65f::new(DisplayInterface::new()).unwrap();
    let buffer = vec![0x11u8; FRAME_BYTES as usize];
    let base = epd.transactions().len();
    epd.update_frame(&buffer).unwrap();
    let tail = &epd.transactions()[base..];
    let mut expected = vec![Transaction::WaitBusy { busy_low: true }];
    expected.extend(resolution_txns());
    expected.push(Transaction::Cmd { byte: 0x10 });
    expected.push(Transaction::Data { bytes: buffer.clone() });
    assert_eq!(tail, &expected[..]);
}

#[test]
fn update_and_display_is_update_then_display() {
    let mut epd = EPD5in65f::new(DisplayInterface::new()).unwrap();
    let buffer = vec![0x24u8; FRAME_BYTES as usize];
    let base = epd.transactions().len();
    epd.update_and_display_frame(&buffer).unwrap();
    let tail = &epd.transactions()[base..];
    let mut expected = vec![Transaction::WaitBusy { busy_low: true }];
    expected.extend(resolution_txns());
    expected.push(Transaction::Cmd { byte: 0x10 });
    expected.push(Transaction::Data { bytes: buffer.clone() });
    expected.extend(display_txns());
    assert_eq!(tail, &expected[..]);
}

#[test]
fn clear_frame_sequence_for_default_background() {
    let mut epd = EPD5in65f::new(DisplayInterface::new()).unwrap();
    let base = epd.transactions().len();
    epd.clear_frame().unwrap();
    let tail = &epd.transactions()[base..];
    let mut expected = vec![Transaction::WaitBusy { busy_low: true }];
    expected.extend(resolution_txns());
    expected.push(Transaction::Cmd { byte: 0x10 });
    expected.push(Transaction::Repeat { byte: 0x11, count: 600 * 448 / 2 });
    expected.extend(display_txns());
    assert_eq!(tail, &expected[..]);
}

#[test]
fn background_color_round_trip() {
    let mut epd = EPD5in65f::new(DisplayInterface::new()).unwrap();
    assert_eq!(*epd.background_color(), OctColor::White);
    epd.set_background_color(OctColor::Red);
    assert_eq!(*epd.background_color(), OctColor::Red);
}

#[test]
fn is_busy_reads_line_under_busy_low_polarity() {
    let mut iface = DisplayInterface::new();
    iface.set_busy_line(false);
    let mut epd = EPD5in65f::new(iface).unwrap();
    assert!(epd.is_busy());
    let buffer = vec![0x00u8; FRAME_BYTES as usize];
    epd.update_frame(&buffer).unwrap();
    assert!(!epd.is_busy());
    epd.display_frame().unwrap();
    assert!(epd.is_busy());
}
