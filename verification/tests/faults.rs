//! Fault injection and color encoding: a bus failure must halt an
//! operation at the failing write, surface the error, and leave the
//! earlier transactions — and only them — on the wire; clear fills must
//! encode the configured background for every color.

use epd5in65f::color::OctColor;
use epd5in65f::driver::{EPD5in65f, FRAME_BYTES};
use epd5in65f::interface::{DisplayInterface, Transaction, TransportError};

const INIT_WRITES: u32 = 25;

#[test]
fn colors_byte_packs_two_nibbles() {
    assert_eq!(OctColor::colors_byte(OctColor::Black, OctColor::Black), 0x00);
    assert_eq!(OctColor::colors_byte(OctColor::White, OctColor::White), 0x11);
    assert_eq!(OctColor::colors_byte(OctColor::HiZ, OctColor::HiZ), 0x77);
    assert_eq!(OctColor::colors_byte(OctColor::Black, OctColor::White), 0x01);
    assert_eq!(OctColor::colors_byte(OctColor::Green, OctColor::Blue), 0x23);
    assert_eq!(OctColor::colors_byte(OctColor::Orange, OctColor::Yellow), 0x65);
    assert_eq!(OctColor::colors_byte(OctColor::Red, OctColor::Black), 0x40);
}

#[test]
fn clear_fill_byte_matches_background_for_every_color() {
    let colors = [
        OctColor::Black,
        OctColor::White,
        OctColor::Green,
        OctColor::Blue,
        OctColor::Red,
        OctColor::Yellow,
        OctColor::Orange,
        OctColor::HiZ,
    ];
    for c in colors {
        let mut epd = EPD5in65f::new(DisplayInterface::new()).unwrap();
        epd.set_background_color(c);
        let base = epd.transactions().len();
        epd.clear_frame().unwrap();
        let fill = &epd.transactions()[base + 7];
        let expected = Transaction::Repeat {
            byte: OctColor::colors_byte(c, c),
            count: FRAME_BYTES,
        };
        assert_eq!(fill, &expected);
    }
}

#[test]
fn construction_fails_when_bus_fails_during_init() {
    let r = EPD5in65f::new(DisplayInterface::failing_after(3));
    assert_eq!(r.err(), Some(TransportError));
}

#[test]
fn construction_succeeds_with_exactly_enough_writes() {
    assert!(EPD5in65f::new(DisplayInterface::failing_after(INIT_WRITES)).is_ok());
    assert!(EPD5in65f::new(DisplayInterface::failing_after(INIT_WRITES - 1)).is_err());
}

#[test]
fn wake_failure_halts_at_first_failing_write() {
    let mut epd = EPD5in65f::new(DisplayInterface::failing_after(INIT_WRITES + 3)).unwrap();
    let base = epd.transactions().len();
    let r = epd.wake_up();
    assert_eq!(r, Err(TransportError));
    let tail = &epd.transactions()[base..];
    // Three more writes succeed: panel-setting command and data, then
    // the power-setting command.  The reset pulse costs no write.  The
    // power-setting data write fails, and nothing later is attempted.
    let expected = vec![
        Transaction::Reset { hold_ms: 2 },
        Transaction::Cmd { byte: 0x00 },
        Transaction::Data { bytes: vec![0xEF, 0x08] },
        Transaction::Cmd { byte: 0x01 },
    ];
    assert_eq!(tail, &expected[..]);
}

#[test]
fn sleep_failure_emits_nothing_after_failing_write() {
    let mut epd = EPD5in65f::new(DisplayInterface::failing_after(INIT_WRITES)).unwrap();
    let base = epd.transactions().len();
    let r = epd.sleep();
    assert_eq!(r, Err(TransportError));
    assert_eq!(epd.transactions().len(), base);
}

#[test]
fn display_frame_failure_halts_before_power_off() {
    let mut epd = EPD5in65f::new(DisplayInterface::failing_after(INIT_WRITES + 2)).unwrap();
    let base = epd.transactions().len();
    let r = epd.display_frame();
    assert_eq!(r, Err(TransportError));
    let tail = &epd.transactions()[base..];
    let expected = vec![
        Transaction::WaitBusy { busy_low: true },
        Transaction::Cmd { byte: 0x04 },
        Transaction::WaitBusy { busy_low: true },
        Transaction::Cmd { byte: 0x12 },
        Transaction::WaitBusy { busy_low: true },
    ];
    assert_eq!(tail, &expected[..]);
}

#[test]
fn update_frame_failure_halts_inside_resolution() {
    let mut epd = EPD5in65f::new(DisplayInterface::failing_after(INIT_WRITES + 2)).unwrap();
    let buffer = vec![0x33u8; FRAME_BYTES as usize];
    let base = epd.transactions().len();
    let r = epd.update_frame(&buffer);
    assert_eq!(r, Err(TransportError));
    let tail = &epd.transactions()[base..];
    let expected = vec![
        Transaction::WaitBusy { busy_low: true },
        Transaction::Cmd { byte: 0x61 },
        Transaction::Data { bytes: vec![0x02] },
    ];
    assert_eq!(tail, &expected[..]);
}

#[test]
fn clear_frame_failure_skips_the_refresh_cycle() {
    let mut epd = EPD5in65f::new(DisplayInterface::failing_after(INIT_WRITES + 6)).unwrap();
    let base = epd.transactions().len();
    let r = epd.clear_frame();
    assert_eq!(r, Err(TransportError));
    let tail = &epd.transactions()[base..];
    // The resolution block's five writes and the start-transmission
    // command succeed; the repeated fill write fails, so the refresh
    // cycle that would follow is never started.
    let expected = vec![
        Transaction::WaitBusy { busy_low: true },
        Transaction::Cmd { byte: 0x61 },
        Transaction::Data { bytes: vec![0x02] },
        Transaction::Data { bytes: vec![0x58] },
        Transaction::Data { bytes: vec![0x01] },
        Transaction::Data { bytes: vec![0xC0] },
        Transaction::Cmd { byte: 0x10 },
    ];
    assert_eq!(tail, &expected[..]);
}

#[test]
fn failed_wake_can_be_retried_to_full_readiness() {
    let mut epd = EPD5in65f::new(DisplayInterface::failing_after(INIT_WRITES + 3)).unwrap();
    assert!(epd.wake_up().is_err());
    // The fault schedule is exhausted, so every later write fails too.
    assert!(epd.wake_up().is_err());
}
