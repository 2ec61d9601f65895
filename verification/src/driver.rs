//! The panel driver: the state machine layered on the transport and the
//! command vocabulary.  Every lifecycle operation is a strict,
//! datasheet-mandated sequence of transactions; each operation's
//! contract names that sequence exactly, and the [`emits`] relation
//! states both the all-succeeded outcome and the cut made by the first
//! bus failure.

use vstd::prelude::*;

use crate::color::OctColor;
use crate::command::Command;
use crate::interface::{
    budget_allows, emits, spec_is_busy, write_count, DisplayInterface, InterfaceView,
    Transaction, TransactionView, TransportError,
};
use crate::interface::{lemma_emits_fail_widen, lemma_emits_seq};

verus! {

/// Width of the panel, in pixels.
pub const WIDTH: u32 = 600;

/// Height of the panel, in pixels.
pub const HEIGHT: u32 = 448;

/// Length of a full frame buffer: two pixels per byte.
pub const FRAME_BYTES: u32 = WIDTH * HEIGHT / 2;

/// Background color a fresh driver starts with.
pub const DEFAULT_BACKGROUND_COLOR: OctColor = OctColor::White;

/// This panel signals busy by driving the line low.
pub const IS_BUSY_LOW: bool = true;

/// How long the reset line is held asserted, in milliseconds.
pub const RESET_HOLD_MS: u8 = 2;

/// Settling delay inside the initialization sequence, in milliseconds.
pub const INIT_SETTLE_MS: u8 = 100;

/// Mathematical state of a driver: its transport, the configured
/// background color, and whether the panel is in the `Ready` state
/// (initialized, not sleeping, no sequence aborted by a bus failure).
pub struct DriverView {
    pub iface: InterfaceView,
    pub color: OctColor,
    pub ready: bool,
}

pub open spec fn cmd_t(c: Command) -> TransactionView {
    TransactionView::Cmd { byte: c.spec_byte() }
}

pub open spec fn data_t(bytes: Seq<u8>) -> TransactionView {
    TransactionView::Data { bytes }
}

pub open spec fn wait_t(busy_low: bool) -> TransactionView {
    TransactionView::WaitBusy { busy_low }
}

/// The resolution announcement: the panel requires its resolution to be
/// re-asserted before each data load.  One command, then the four bytes
/// of width and height, most significant byte first, each as its own
/// data transaction.
pub open spec fn resolution_events() -> Seq<TransactionView> {
    seq![
        cmd_t(Command::TconResolution),
        data_t(seq![0x02u8]),
        data_t(seq![0x58u8]),
        data_t(seq![0x01u8]),
        data_t(seq![0xC0u8]),
    ]
}

/// The full initialization sequence: hardware reset, the panel's fixed
/// configuration table in its exact order, a settling delay, and the
/// re-issued VCOM/data-interval setting.  These are transcribed vendor
/// constants; the panel validates nothing, so order and bytes are the
/// compatibility surface.
pub open spec fn init_events() -> Seq<TransactionView> {
    seq![
        TransactionView::Reset { hold_ms: RESET_HOLD_MS },
        cmd_t(Command::PanelSetting),
        data_t(seq![0xEFu8, 0x08u8]),
        cmd_t(Command::PowerSetting),
        data_t(seq![0x37u8, 0x00u8, 0x23u8, 0x23u8]),
        cmd_t(Command::PowerOffSequenceSetting),
        data_t(seq![0x00u8]),
        cmd_t(Command::BoosterSoftStart),
        data_t(seq![0xC7u8, 0xC7u8, 0x1Du8]),
        cmd_t(Command::PllControl),
        data_t(seq![0x3Cu8]),
        cmd_t(Command::TemperatureSensorEnable),
        data_t(seq![0x00u8]),
        cmd_t(Command::VcomAndDataIntervalSetting),
        data_t(seq![0x37u8]),
        cmd_t(Command::TconSetting),
        data_t(seq![0x22u8]),
        cmd_t(Command::TconResolution),
        data_t(seq![0x02u8]),
        data_t(seq![0x58u8]),
        data_t(seq![0x01u8]),
        data_t(seq![0xC0u8]),
        cmd_t(Command::FlashMode),
        data_t(seq![0xAAu8]),
        TransactionView::Delay { ms: INIT_SETTLE_MS },
        cmd_t(Command::VcomAndDataIntervalSetting),
        data_t(seq![0x37u8]),
    ]
}

/// Entering deep sleep: one command/data pair with the magic parameter.
pub open spec fn sleep_events() -> Seq<TransactionView> {
    seq![cmd_t(Command::DeepSleep), data_t(seq![0xA5u8])]
}

/// Loading a frame buffer into panel memory: wait until not busy,
/// re-assert the resolution, then stream the buffer under the
/// start-transmission command.  Nothing is read back.
pub open spec fn update_events(buffer: Seq<u8>) -> Seq<TransactionView> {
    seq![wait_t(true)] + resolution_events() + seq![
        cmd_t(Command::DataStartTransmission1),
        data_t(buffer),
    ]
}

/// A physical refresh cycle: power-on, refresh, power-off, each with a
/// busy wait before it, and a final not-busy confirmation under the
/// opposite polarity convention.  The asymmetric last wait is the
/// vendor sequence, preserved exactly.
pub open spec fn display_events() -> Seq<TransactionView> {
    seq![
        wait_t(true),
        cmd_t(Command::PowerOn),
        wait_t(true),
        cmd_t(Command::DisplayRefresh),
        wait_t(true),
        cmd_t(Command::PowerOff),
        wait_t(false),
    ]
}

/// Filling the panel with the configured background: like a frame load,
/// but the buffer is one encoded color pair repeated over the whole
/// frame, followed by a full display cycle.
pub open spec fn clear_events(c: OctColor) -> Seq<TransactionView> {
    seq![wait_t(true)] + resolution_events() + seq![
        cmd_t(Command::DataStartTransmission1),
        (TransactionView::Repeat {
            byte: OctColor::spec_colors_byte(c, c),
            count: FRAME_BYTES,
        }),
    ] + display_events()
}

/// Nothing but bus traffic happened: color and readiness are untouched.
pub open spec fn same_settings(pre: DriverView, post: DriverView) -> bool {
    post.color == pre.color && post.ready == pre.ready
}

/// An empty plan emits nothing and always succeeds.
proof fn lemma_emits_refl(v: InterfaceView, evs: Seq<TransactionView>)
    requires
        evs.len() == 0,
    ensures
        emits(v, v, evs, true),
{
    assert(v.log + evs =~= v.log);
}

/// One step of a planned sequence: if `evs.take(j)` has been emitted
/// and the step covering `evs[j .. j + step.len()]` runs next, then on
/// success the emitted prefix grows by the step, and on failure the
/// whole plan `evs` has been run to its failing write and no further.
proof fn lemma_step(
    v0: InterfaceView,
    pre: InterfaceView,
    post: InterfaceView,
    evs: Seq<TransactionView>,
    j: int,
    step: Seq<TransactionView>,
    ok: bool,
)
    requires
        0 <= j,
        j + step.len() <= evs.len(),
        emits(v0, pre, evs.take(j), true),
        emits(pre, post, step, ok),
        step == evs.subrange(j, j + step.len()),
    ensures
        ok ==> emits(v0, post, evs.take(j + step.len()), true),
        !ok ==> emits(v0, post, evs, false),
{
    lemma_emits_seq(v0, pre, post, evs.take(j), step, ok);
    assert(evs.take(j) + step =~= evs.take(j + step.len()));
    if !ok {
        lemma_emits_fail_widen(
            v0,
            post,
            evs.take(j + step.len()),
            evs.skip(j + step.len()),
        );
        assert(evs.take(j + step.len()) + evs.skip(j + step.len()) =~= evs);
    }
}

/// Driver for the 600x448 seven-color panel.  Constructed over a
/// transport it then exclusively owns; construction performs the full
/// initialization sequence before returning.
pub struct EPD5in65f {
    interface: DisplayInterface,
    color: OctColor,
    ready: bool,
}

impl View for EPD5in65f {
    type V = DriverView;

    closed spec fn view(&self) -> DriverView {
        DriverView { iface: self.interface@, color: self.color, ready: self.ready }
    }
}

impl EPD5in65f {
    /// Issue one opcode as a command transaction.
    fn command(&mut self, command: Command) -> (r: Result<(), TransportError>)
        ensures
            emits(old(self)@.iface, final(self)@.iface, seq![cmd_t(command)], r is Ok),
            same_settings(old(self)@, final(self)@),
            final(self)@.iface.line_high == old(self)@.iface.line_high,
    {
        self.interface.cmd(command)
    }

    /// Issue bytes as one data transaction.
    fn send_data(&mut self, data: &[u8]) -> (r: Result<(), TransportError>)
        ensures
            emits(old(self)@.iface, final(self)@.iface, seq![data_t(data@)], r is Ok),
            same_settings(old(self)@, final(self)@),
            final(self)@.iface.line_high == old(self)@.iface.line_high,
    {
        self.interface.data(data)
    }

    /// A command transaction followed by its parameter bytes.
    fn cmd_with_data(&mut self, command: Command, data: &[u8]) -> (r: Result<
        (),
        TransportError,
    >)
        ensures
            emits(
                old(self)@.iface,
                final(self)@.iface,
                seq![cmd_t(command), data_t(data@)],
                r is Ok,
            ),
            same_settings(old(self)@, final(self)@),
            final(self)@.iface.line_high == old(self)@.iface.line_high,
    {
        self.interface.cmd_with_data(command, data)
    }

    /// Block until the panel stops signalling busy under this panel's
    /// busy-low convention.
    fn wait_busy_high(&mut self)
        ensures
            emits(old(self)@.iface, final(self)@.iface, seq![wait_t(true)], true),
            same_settings(old(self)@, final(self)@),
            final(self)@.iface.line_high,
    {
        self.interface.wait_until_idle(true)
    }

    /// Block under the opposite polarity convention: used only to
    /// confirm power-off, exactly as the vendor sequence does.
    fn wait_busy_low(&mut self)
        ensures
            emits(old(self)@.iface, final(self)@.iface, seq![wait_t(false)], true),
            same_settings(old(self)@, final(self)@),
            !final(self)@.iface.line_high,
    {
        self.interface.wait_until_idle(false)
    }

    /// Re-assert the panel's resolution: required before every data
    /// load.
    fn send_resolution(&mut self) -> (r: Result<(), TransportError>)
        ensures
            emits(old(self)@.iface, final(self)@.iface, resolution_events(), r is Ok),
            same_settings(old(self)@, final(self)@),
            final(self)@.iface.line_high == old(self)@.iface.line_high,
    {
        let ghost evs = resolution_events();
        let ghost v0 = self.interface@;
        proof {
            lemma_emits_refl(v0, evs.take(0));
        }
        let w = self.width();
        let h = self.height();
        proof {
            assert(600u32 >> 8 == 2) by (bit_vector);
            assert(600u32 & 0xFF == 0x58) by (bit_vector);
            assert(448u32 >> 8 == 1) by (bit_vector);
            assert(448u32 & 0xFF == 0xC0) by (bit_vector);
        }
        let w_hi: u8 = (w >> 8) as u8;
        let w_lo: u8 = (w & 0xFF) as u8;
        let h_hi: u8 = (h >> 8) as u8;
        let h_lo: u8 = (h & 0xFF) as u8;

        let ghost p0 = self.interface@;
        let r0 = self.command(Command::TconResolution);
        proof {
            assert(seq![cmd_t(Command::TconResolution)] =~= evs.subrange(0, 1));
            lemma_step(v0, p0, self.interface@, evs, 0, seq![cmd_t(Command::TconResolution)], r0 is Ok);
        }
        if let Err(e) = r0 {
            return Err(e);
        }
        let ghost p1 = self.interface@;
        let bw_hi: [u8; 1] = [w_hi];
        let r1 = self.send_data(&bw_hi);
        proof {
            assert(bw_hi@ =~= seq![0x02u8]);
            assert(seq![data_t(bw_hi@)] =~= evs.subrange(1, 2));
            lemma_step(v0, p1, self.interface@, evs, 1, seq![data_t(bw_hi@)], r1 is Ok);
        }
        if let Err(e) = r1 {
            return Err(e);
        }
        let ghost p2 = self.interface@;
        let bw_lo: [u8; 1] = [w_lo];
        let r2 = self.send_data(&bw_lo);
        proof {
            assert(bw_lo@ =~= seq![0x58u8]);
            assert(seq![data_t(bw_lo@)] =~= evs.subrange(2, 3));
            lemma_step(v0, p2, self.interface@, evs, 2, seq![data_t(bw_lo@)], r2 is Ok);
        }
        if let Err(e) = r2 {
            return Err(e);
        }
        let ghost p3 = self.interface@;
        let bh_hi: [u8; 1] = [h_hi];
        let r3 = self.send_data(&bh_hi);
        proof {
            assert(bh_hi@ =~= seq![0x01u8]);
            assert(seq![data_t(bh_hi@)] =~= evs.subrange(3, 4));
            lemma_step(v0, p3, self.interface@, evs, 3, seq![data_t(bh_hi@)], r3 is Ok);
        }
        if let Err(e) = r3 {
            return Err(e);
        }
        let ghost p4 = self.interface@;
        let bh_lo: [u8; 1] = [h_lo];
        let r4 = self.send_data(&bh_lo);
        proof {
            assert(bh_lo@ =~= seq![0xC0u8]);
            assert(seq![data_t(bh_lo@)] =~= evs.subrange(4, 5));
            lemma_step(v0, p4, self.interface@, evs, 4, seq![data_t(bh_lo@)], r4 is Ok);
            assert(evs.take(5) =~= evs);
        }
        r4
    }

    /// Run the full initialization sequence.
    fn init(&mut self) -> (r: Result<(), TransportError>)
        ensures
            emits(old(self)@.iface, final(self)@.iface, init_events(), r is Ok),
            same_settings(old(self)@, final(self)@),
            final(self)@.iface.line_high == old(self)@.iface.line_high,
    {
        let ghost evs = init_events();
        let ghost v0 = self.interface@;
        proof {
            lemma_emits_refl(v0, evs.take(0));
        }

        let ghost p0 = self.interface@;
        self.interface.reset(RESET_HOLD_MS);
        proof {
            let step = seq![TransactionView::Reset { hold_ms: RESET_HOLD_MS }];
            assert(step =~= evs.subrange(0, 1));
            lemma_step(v0, p0, self.interface@, evs, 0, step, true);
        }

        let ghost p1 = self.interface@;
        let d1: &[u8] = &[0xEF, 0x08];
        let r1 = self.cmd_with_data(Command::PanelSetting, d1);
        proof {
            assert(d1@ =~= seq![0xEFu8, 0x08u8]);
            let step = seq![cmd_t(Command::PanelSetting), data_t(d1@)];
            assert(step =~= evs.subrange(1, 3));
            lemma_step(v0, p1, self.interface@, evs, 1, step, r1 is Ok);
        }
        if let Err(e) = r1 {
            return Err(e);
        }

        let ghost p2 = self.interface@;
        let d2: &[u8] = &[0x37, 0x00, 0x23, 0x23];
        let r2 = self.cmd_with_data(Command::PowerSetting, d2);
        proof {
            assert(d2@ =~= seq![0x37u8, 0x00u8, 0x23u8, 0x23u8]);
            let step = seq![cmd_t(Command::PowerSetting), data_t(d2@)];
            assert(step =~= evs.subrange(3, 5));
            lemma_step(v0, p2, self.interface@, evs, 3, step, r2 is Ok);
        }
        if let Err(e) = r2 {
            return Err(e);
        }

        let ghost p3 = self.interface@;
        let d3: &[u8] = &[0x00];
        let r3 = self.cmd_with_data(Command::PowerOffSequenceSetting, d3);
        proof {
            assert(d3@ =~= seq![0x00u8]);
            let step = seq![cmd_t(Command::PowerOffSequenceSetting), data_t(d3@)];
            assert(step =~= evs.subrange(5, 7));
            lemma_step(v0, p3, self.interface@, evs, 5, step, r3 is Ok);
        }
        if let Err(e) = r3 {
            return Err(e);
        }

        let ghost p4 = self.interface@;
        let d4: &[u8] = &[0xC7, 0xC7, 0x1D];
        let r4 = self.cmd_with_data(Command::BoosterSoftStart, d4);
        proof {
            assert(d4@ =~= seq![0xC7u8, 0xC7u8, 0x1Du8]);
            let step = seq![cmd_t(Command::BoosterSoftStart), data_t(d4@)];
            assert(step =~= evs.subrange(7, 9));
            lemma_step(v0, p4, self.interface@, evs, 7, step, r4 is Ok);
        }
        if let Err(e) = r4 {
            return Err(e);
        }

        let ghost p5 = self.interface@;
        let d5: &[u8] = &[0x3C];
        let r5 = self.cmd_with_data(Command::PllControl, d5);
        proof {
            assert(d5@ =~= seq![0x3Cu8]);
            let step = seq![cmd_t(Command::PllControl), data_t(d5@)];
            assert(step =~= evs.subrange(9, 11));
            lemma_step(v0, p5, self.interface@, evs, 9, step, r5 is Ok);
        }
        if let Err(e) = r5 {
            return Err(e);
        }

        let ghost p6 = self.interface@;
        let d6: &[u8] = &[0x00];
        let r6 = self.cmd_with_data(Command::TemperatureSensorEnable, d6);
        proof {
            assert(d6@ =~= seq![0x00u8]);
            let step = seq![cmd_t(Command::TemperatureSensorEnable), data_t(d6@)];
            assert(step =~= evs.subrange(11, 13));
            lemma_step(v0, p6, self.interface@, evs, 11, step, r6 is Ok);
        }
        if let Err(e) = r6 {
            return Err(e);
        }

        let ghost p7 = self.interface@;
        let d7: &[u8] = &[0x37];
        let r7 = self.cmd_with_data(Command::VcomAndDataIntervalSetting, d7);
        proof {
            assert(d7@ =~= seq![0x37u8]);
            let step = seq![cmd_t(Command::VcomAndDataIntervalSetting), data_t(d7@)];
            assert(step =~= evs.subrange(13, 15));
            lemma_step(v0, p7, self.interface@, evs, 13, step, r7 is Ok);
        }
        if let Err(e) = r7 {
            return Err(e);
        }

        let ghost p8 = self.interface@;
        let d8: &[u8] = &[0x22];
        let r8 = self.cmd_with_data(Command::TconSetting, d8);
        proof {
            assert(d8@ =~= seq![0x22u8]);
            let step = seq![cmd_t(Command::TconSetting), data_t(d8@)];
            assert(step =~= evs.subrange(15, 17));
            lemma_step(v0, p8, self.interface@, evs, 15, step, r8 is Ok);
        }
        if let Err(e) = r8 {
            return Err(e);
        }

        let ghost p9 = self.interface@;
        let r9 = self.send_resolution();
        proof {
            assert(resolution_events() =~= evs.subrange(17, 22));
            lemma_step(v0, p9, self.interface@, evs, 17, resolution_events(), r9 is Ok);
        }
        if let Err(e) = r9 {
            return Err(e);
        }

        let ghost p10 = self.interface@;
        let d10: &[u8] = &[0xAA];
        let r10 = self.cmd_with_data(Command::FlashMode, d10);
        proof {
            assert(d10@ =~= seq![0xAAu8]);
            let step = seq![cmd_t(Command::FlashMode), data_t(d10@)];
            assert(step =~= evs.subrange(22, 24));
            lemma_step(v0, p10, self.interface@, evs, 22, step, r10 is Ok);
        }
        if let Err(e) = r10 {
            return Err(e);
        }

        let ghost p11 = self.interface@;
        self.interface.delay_ms(INIT_SETTLE_MS);
        proof {
            let step = seq![TransactionView::Delay { ms: INIT_SETTLE_MS }];
            assert(step =~= evs.subrange(24, 25));
            lemma_step(v0, p11, self.interface@, evs, 24, step, true);
        }

        let ghost p12 = self.interface@;
        let d12: &[u8] = &[0x37];
        let r12 = self.cmd_with_data(Command::VcomAndDataIntervalSetting, d12);
        proof {
            assert(d12@ =~= seq![0x37u8]);
            let step = seq![cmd_t(Command::VcomAndDataIntervalSetting), data_t(d12@)];
            assert(step =~= evs.subrange(25, 27));
            lemma_step(v0, p12, self.interface@, evs, 25, step, r12 is Ok);
            assert(evs.take(27) =~= evs);
        }
        r12
    }

    /// Take exclusive ownership of a transport and bring the panel from
    /// power-on to `Ready` by running the full initialization sequence.
    /// Succeeds exactly when the bus completes every write of that
    /// sequence; the first bus error is propagated.
    pub fn new(interface: DisplayInterface) -> (r: Result<EPD5in65f, TransportError>)
        ensures
            match r {
                Ok(epd) => ({
                    &&& emits(interface@, epd@.iface, init_events(), true)
                    &&& epd@.color == DEFAULT_BACKGROUND_COLOR
                    &&& epd@.ready
                    &&& epd@.iface.line_high == interface@.line_high
                }),
                Err(_) => !budget_allows(interface@.writes_left, write_count(init_events())),
            },
    {
        let mut epd = EPD5in65f {
            interface,
            color: DEFAULT_BACKGROUND_COLOR,
            ready: false,
        };
        match epd.init() {
            Ok(()) => {
                epd.ready = true;
                Ok(epd)
            },
            Err(e) => Err(e),
        }
    }

    /// Re-run the full initialization sequence.  The panel has no
    /// lighter resume path, so waking is a complete re-initialization,
    /// whatever state the panel was in.
    pub fn wake_up(&mut self) -> (r: Result<(), TransportError>)
        ensures
            emits(old(self)@.iface, final(self)@.iface, init_events(), r is Ok),
            final(self)@.color == old(self)@.color,
            final(self)@.ready == (r is Ok),
            final(self)@.iface.line_high == old(self)@.iface.line_high,
    {
        match self.init() {
            Ok(()) => {
                self.ready = true;
                Ok(())
            },
            Err(e) => {
                self.ready = false;
                Err(e)
            },
        }
    }

    /// Put the panel into deep sleep: one command/data pair.  No frame
    /// operation is accepted again until a wake re-initializes the
    /// panel.
    pub fn sleep(&mut self) -> (r: Result<(), TransportError>)
        requires
            old(self)@.ready,
        ensures
            emits(old(self)@.iface, final(self)@.iface, sleep_events(), r is Ok),
            final(self)@.color == old(self)@.color,
            !final(self)@.ready,
            final(self)@.iface.line_high == old(self)@.iface.line_high,
    {
        let d: &[u8] = &[0xA5];
        let r = self.cmd_with_data(Command::DeepSleep, d);
        proof {
            assert(d@ =~= seq![0xA5u8]);
            assert(seq![cmd_t(Command::DeepSleep), data_t(d@)] =~= sleep_events());
        }
        self.ready = false;
        r
    }

    /// Load a frame buffer into panel memory.  The buffer must cover
    /// the panel exactly: two pixels per byte, most significant nibble
    /// first.  The panel is not yet visibly refreshed.
    pub fn update_frame(&mut self, buffer: &[u8]) -> (r: Result<(), TransportError>)
        requires
            old(self)@.ready,
            buffer@.len() == FRAME_BYTES,
        ensures
            emits(old(self)@.iface, final(self)@.iface, update_events(buffer@), r is Ok),
            final(self)@.color == old(self)@.color,
            final(self)@.ready == (r is Ok),
            final(self)@.iface.line_high,
    {
        let ghost evs = update_events(buffer@);
        let ghost v0 = self.interface@;
        proof {
            lemma_emits_refl(v0, evs.take(0));
        }

        let ghost p0 = self.interface@;
        self.wait_busy_high();
        proof {
            assert(seq![wait_t(true)] =~= evs.subrange(0, 1));
            lemma_step(v0, p0, self.interface@, evs, 0, seq![wait_t(true)], true);
        }

        let ghost p1 = self.interface@;
        let r1 = self.send_resolution();
        proof {
            assert(resolution_events() =~= evs.subrange(1, 6));
            lemma_step(v0, p1, self.interface@, evs, 1, resolution_events(), r1 is Ok);
        }
        if let Err(e) = r1 {
            self.ready = false;
            return Err(e);
        }

        let ghost p2 = self.interface@;
        let r2 = self.cmd_with_data(Command::DataStartTransmission1, buffer);
        proof {
            let step = seq![cmd_t(Command::DataStartTransmission1), data_t(buffer@)];
            assert(step =~= evs.subrange(6, 8));
            lemma_step(v0, p2, self.interface@, evs, 6, step, r2 is Ok);
            assert(evs.take(8) =~= evs);
        }
        match r2 {
            Ok(()) => Ok(()),
            Err(e) => {
                self.ready = false;
                Err(e)
            },
        }
    }

    /// Run a full physical refresh of what panel memory holds:
    /// power-on, refresh, power-off, each preceded by a busy wait, and
    /// a final not-busy confirmation under the opposite polarity.  The
    /// call blocks for the whole refresh.
    pub fn display_frame(&mut self) -> (r: Result<(), TransportError>)
        requires
            old(self)@.ready,
        ensures
            emits(old(self)@.iface, final(self)@.iface, display_events(), r is Ok),
            final(self)@.color == old(self)@.color,
            final(self)@.ready == (r is Ok),
            r is Ok ==> !final(self)@.iface.line_high,
            r is Err ==> final(self)@.iface.line_high,
    {
        let ghost evs = display_events();
        let ghost v0 = self.interface@;
        proof {
            lemma_emits_refl(v0, evs.take(0));
        }

        let ghost p0 = self.interface@;
        self.wait_busy_high();
        proof {
            assert(seq![wait_t(true)] =~= evs.subrange(0, 1));
            lemma_step(v0, p0, self.interface@, evs, 0, seq![wait_t(true)], true);
        }

        let ghost p1 = self.interface@;
        let r1 = self.command(Command::PowerOn);
        proof {
            assert(seq![cmd_t(Command::PowerOn)] =~= evs.subrange(1, 2));
            lemma_step(v0, p1, self.interface@, evs, 1, seq![cmd_t(Command::PowerOn)], r1 is Ok);
        }
        if let Err(e) = r1 {
            self.ready = false;
            return Err(e);
        }

        let ghost p2 = self.interface@;
        self.wait_busy_high();
        proof {
            assert(seq![wait_t(true)] =~= evs.subrange(2, 3));
            lemma_step(v0, p2, self.interface@, evs, 2, seq![wait_t(true)], true);
        }

        let ghost p3 = self.interface@;
        let r3 = self.command(Command::DisplayRefresh);
        proof {
            assert(seq![cmd_t(Command::DisplayRefresh)] =~= evs.subrange(3, 4));
            lemma_step(
                v0,
                p3,
                self.interface@,
                evs,
                3,
                seq![cmd_t(Command::DisplayRefresh)],
                r3 is Ok,
            );
        }
        if let Err(e) = r3 {
            self.ready = false;
            return Err(e);
        }

        let ghost p4 = self.interface@;
        self.wait_busy_high();
        proof {
            assert(seq![wait_t(true)] =~= evs.subrange(4, 5));
            lemma_step(v0, p4, self.interface@, evs, 4, seq![wait_t(true)], true);
        }

        let ghost p5 = self.interface@;
        let r5 = self.command(Command::PowerOff);
        proof {
            assert(seq![cmd_t(Command::PowerOff)] =~= evs.subrange(5, 6));
            lemma_step(v0, p5, self.interface@, evs, 5, seq![cmd_t(Command::PowerOff)], r5 is Ok);
        }
        if let Err(e) = r5 {
            self.ready = false;
            return Err(e);
        }

        let ghost p6 = self.interface@;
        self.wait_busy_low();
        proof {
            assert(seq![wait_t(false)] =~= evs.subrange(6, 7));
            lemma_step(v0, p6, self.interface@, evs, 6, seq![wait_t(false)], true);
            assert(evs.take(7) =~= evs);
        }
        Ok(())
    }

    /// Load a frame buffer and refresh the panel with it: the common
    /// caller-facing path.
    pub fn update_and_display_frame(&mut self, buffer: &[u8]) -> (r: Result<(), TransportError>)
        requires
            old(self)@.ready,
            buffer@.len() == FRAME_BYTES,
        ensures
            emits(
                old(self)@.iface,
                final(self)@.iface,
                update_events(buffer@) + display_events(),
                r is Ok,
            ),
            final(self)@.color == old(self)@.color,
            final(self)@.ready == (r is Ok),
            r is Ok ==> !final(self)@.iface.line_high,
            r is Err ==> final(self)@.iface.line_high,
    {
        let ghost v0 = self.interface@;
        match self.update_frame(buffer) {
            Err(e) => {
                proof {
                    lemma_emits_fail_widen(
                        v0,
                        self.interface@,
                        update_events(buffer@),
                        display_events(),
                    );
                }
                return Err(e);
            },
            Ok(()) => {},
        }
        let ghost mid = self.interface@;
        let r = self.display_frame();
        proof {
            lemma_emits_seq(
                v0,
                mid,
                self.interface@,
                update_events(buffer@),
                display_events(),
                r is Ok,
            );
        }
        r
    }

    /// Fill the panel with the configured background color and refresh:
    /// the fill byte encodes (background, background) and is repeated
    /// once per pair of pixels, without materializing a buffer.
    pub fn clear_frame(&mut self) -> (r: Result<(), TransportError>)
        requires
            old(self)@.ready,
        ensures
            emits(
                old(self)@.iface,
                final(self)@.iface,
                clear_events(old(self)@.color),
                r is Ok,
            ),
            final(self)@.color == old(self)@.color,
            final(self)@.ready == (r is Ok),
            r is Ok ==> !final(self)@.iface.line_high,
            r is Err ==> final(self)@.iface.line_high,
    {
        let ghost evs = clear_events(self@.color);
        let ghost v0 = self.interface@;
        proof {
            lemma_emits_refl(v0, evs.take(0));
        }
        let bg = OctColor::colors_byte(self.color, self.color);

        let ghost p0 = self.interface@;
        self.wait_busy_high();
        proof {
            assert(seq![wait_t(true)] =~= evs.subrange(0, 1));
            lemma_step(v0, p0, self.interface@, evs, 0, seq![wait_t(true)], true);
        }

        let ghost p1 = self.interface@;
        let r1 = self.send_resolution();
        proof {
            assert(resolution_events() =~= evs.subrange(1, 6));
            lemma_step(v0, p1, self.interface@, evs, 1, resolution_events(), r1 is Ok);
        }
        if let Err(e) = r1 {
            self.ready = false;
            return Err(e);
        }

        let ghost p2 = self.interface@;
        let r2 = self.command(Command::DataStartTransmission1);
        proof {
            assert(seq![cmd_t(Command::DataStartTransmission1)] =~= evs.subrange(6, 7));
            lemma_step(
                v0,
                p2,
                self.interface@,
                evs,
                6,
                seq![cmd_t(Command::DataStartTransmission1)],
                r2 is Ok,
            );
        }
        if let Err(e) = r2 {
            self.ready = false;
            return Err(e);
        }

        let ghost p3 = self.interface@;
        let r3 = self.interface.data_x_times(bg, WIDTH * HEIGHT / 2);
        proof {
            let step = seq![
                (TransactionView::Repeat {
                    byte: OctColor::spec_colors_byte(self@.color, self@.color),
                    count: FRAME_BYTES,
                }),
            ];
            assert(step =~= evs.subrange(7, 8));
            lemma_step(v0, p3, self.interface@, evs, 7, step, r3 is Ok);
        }
        if let Err(e) = r3 {
            self.ready = false;
            return Err(e);
        }

        let ghost p4 = self.interface@;
        let r = self.display_frame();
        proof {
            assert(display_events() =~= evs.subrange(8, 15));
            lemma_step(v0, p4, self.interface@, evs, 8, display_events(), r is Ok);
            assert(evs.take(15) =~= evs);
        }
        r
    }

    /// Set the background color used by clear operations.  Pure state
    /// mutation; no bus traffic.
    pub fn set_background_color(&mut self, color: OctColor)
        ensures
            final(self)@ == (DriverView { color, ..old(self)@ }),
    {
        self.color = color;
    }

    /// The configured background color.  No bus traffic.
    pub fn background_color(&self) -> (r: &OctColor)
        ensures
            *r == self@.color,
    {
        &self.color
    }

    /// The panel's fixed width, in pixels.
    pub fn width(&self) -> (r: u32)
        ensures
            r == WIDTH,
    {
        WIDTH
    }

    /// The panel's fixed height, in pixels.
    pub fn height(&self) -> (r: u32)
        ensures
            r == HEIGHT,
    {
        HEIGHT
    }

    /// Non-blocking read of the busy line under this panel's polarity.
    pub fn is_busy(&self) -> (r: bool)
        ensures
            r == spec_is_busy(self@.iface, IS_BUSY_LOW),
    {
        self.interface.is_busy(IS_BUSY_LOW)
    }

    /// The transaction stream the driver has emitted so far.
    pub fn transactions(&self) -> (r: &Vec<Transaction>)
        ensures
            r@.map_values(|t: Transaction| t@) == self@.iface.log,
    {
        self.interface.transactions()
    }
}

/// How many busy waits a transaction sequence performs.
pub open spec fn wait_count(s: Seq<TransactionView>) -> nat
    decreases s.len(),
{
    if s.len() == 0 {
        0
    } else {
        (if s[0] is WaitBusy {
            1nat
        } else {
            0nat
        }) + wait_count(s.skip(1))
    }
}

/// The refresh cycle's synchronization discipline: exactly four busy
/// waits and exactly three bus writes, a wait immediately before each
/// of the power-on, refresh and power-off commands, and a final
/// confirmation under the opposite polarity after power-off — whatever
/// time each wait takes.
pub proof fn lemma_display_frame_wait_discipline()
    ensures
        display_events().len() == 7,
        wait_count(display_events()) == 4,
        write_count(display_events()) == 3,
        display_events()[0] == wait_t(true),
        display_events()[1] == cmd_t(Command::PowerOn),
        display_events()[2] == wait_t(true),
        display_events()[3] == cmd_t(Command::DisplayRefresh),
        display_events()[4] == wait_t(true),
        display_events()[5] == cmd_t(Command::PowerOff),
        display_events().last() == wait_t(false),
{
    reveal_with_fuel(wait_count, 9);
    reveal_with_fuel(write_count, 9);
    let e = display_events();
    let s6 = seq![
        cmd_t(Command::PowerOn),
        wait_t(true),
        cmd_t(Command::DisplayRefresh),
        wait_t(true),
        cmd_t(Command::PowerOff),
        wait_t(false),
    ];
    let s5 = seq![
        wait_t(true),
        cmd_t(Command::DisplayRefresh),
        wait_t(true),
        cmd_t(Command::PowerOff),
        wait_t(false),
    ];
    let s4 = seq![cmd_t(Command::DisplayRefresh), wait_t(true), cmd_t(Command::PowerOff), wait_t(false)];
    let s3 = seq![wait_t(true), cmd_t(Command::PowerOff), wait_t(false)];
    let s2 = seq![cmd_t(Command::PowerOff), wait_t(false)];
    let s1 = seq![wait_t(false)];
    let s0 = Seq::<TransactionView>::empty();
    assert(e.skip(1) =~= s6);
    assert(s6.skip(1) =~= s5);
    assert(s5.skip(1) =~= s4);
    assert(s4.skip(1) =~= s3);
    assert(s3.skip(1) =~= s2);
    assert(s2.skip(1) =~= s1);
    assert(s1.skip(1) =~= s0);
    assert(wait_count(s0) == 0 && write_count(s0) == 0);
    assert(wait_count(e) == 4);
    assert(write_count(e) == 3);
}

/// Waking has no "already awake" shortcut: two successful wakes in a
/// row put two full, identical initialization sequences on the wire,
/// back to back.
pub proof fn lemma_wake_twice_emits_two_full_inits(
    a: InterfaceView,
    b: InterfaceView,
    c: InterfaceView,
)
    requires
        emits(a, b, init_events(), true),
        emits(b, c, init_events(), true),
    ensures
        c.log == a.log + init_events() + init_events(),
        c.log.subrange(a.log.len() as int, a.log.len() as int + init_events().len() as int) == c.log.subrange(
            a.log.len() as int + init_events().len() as int,
            c.log.len() as int,
        ),
{
    assert(c.log =~= a.log + init_events() + init_events());
    assert(c.log.subrange(a.log.len() as int, a.log.len() as int + init_events().len() as int) =~= init_events());
    assert(c.log.subrange(a.log.len() as int + init_events().len() as int, c.log.len() as int)
        =~= init_events());
}

/// The fill byte of a clear operation is the transport encoding of
/// (background, background), and it is repeated exactly once per pair
/// of pixels — for every configured background color.
pub proof fn lemma_clear_fill_matches_background(c: OctColor)
    ensures
        clear_events(c)[7] == (TransactionView::Repeat {
            byte: OctColor::spec_colors_byte(c, c),
            count: FRAME_BYTES,
        }),
        FRAME_BYTES == WIDTH * HEIGHT / 2,
{
}

} // verus!
