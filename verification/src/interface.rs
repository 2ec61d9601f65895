//! The transport layer: command-write and data-write primitives, a timed
//! hardware reset, and the blocking busy-line wait.
//!
//! The panel gives no acknowledgement and no error signal, so the only
//! observable behaviour of the transport is the stream of transactions
//! it puts on the wire.  [`DisplayInterface`] is a recorded-transaction
//! double of that wire: it keeps the stream as data, simulates the busy
//! line's level, and can be armed to fail a chosen bus write, which is
//! the one failure the real bus can produce.  Every contract in this
//! crate is stated over that stream through the [`emits`] relation.

use vstd::prelude::*;
use vstd::slice::slice_to_vec;

use crate::command::Command;

verus! {

/// The single failure kind of this driver: the underlying byte-write
/// capability refused a transaction.  It is propagated unchanged; the
/// protocol offers nothing to wrap around it.
#[derive(Clone, Copy, PartialEq, Eq, Structural, Debug)]
pub struct TransportError;

/// One unit of communication with the panel, as recorded by the
/// transport double.
#[derive(Debug)]
pub enum Transaction {
    /// A timed pulse on the reset line; `hold_ms` is how long the line
    /// is held asserted.
    Reset { hold_ms: u8 },
    /// A single opcode byte written with the command/data line in
    /// command mode.
    Cmd { byte: u8 },
    /// A byte sequence written with the command/data line in data mode.
    Data { bytes: Vec<u8> },
    /// `byte` written `count` times as one data transaction, without
    /// materializing the buffer.
    Repeat { byte: u8, count: u32 },
    /// A blocking poll of the busy line until it leaves the given busy
    /// level (`busy_low` names the polarity that means "busy").
    WaitBusy { busy_low: bool },
    /// A plain settling delay, in milliseconds.
    Delay { ms: u8 },
}

/// Mathematical image of one [`Transaction`].
pub enum TransactionView {
    Reset { hold_ms: u8 },
    Cmd { byte: u8 },
    Data { bytes: Seq<u8> },
    Repeat { byte: u8, count: u32 },
    WaitBusy { busy_low: bool },
    Delay { ms: u8 },
}

impl View for Transaction {
    type V = TransactionView;

    open spec fn view(&self) -> TransactionView {
        match self {
            Transaction::Reset { hold_ms } => TransactionView::Reset { hold_ms: *hold_ms },
            Transaction::Cmd { byte } => TransactionView::Cmd { byte: *byte },
            Transaction::Data { bytes } => TransactionView::Data { bytes: bytes@ },
            Transaction::Repeat { byte, count } => (TransactionView::Repeat {
                byte: *byte,
                count: *count,
            }),
            Transaction::WaitBusy { busy_low } => TransactionView::WaitBusy {
                busy_low: *busy_low,
            },
            Transaction::Delay { ms } => TransactionView::Delay { ms: *ms },
        }
    }
}

fn vec_u8_eq(a: &Vec<u8>, b: &Vec<u8>) -> (r: bool)
    ensures
        r == (a@ == b@),
{
    if a.len() != b.len() {
        return false;
    }
    let mut i: usize = 0;
    while i < a.len()
        invariant
            i <= a.len(),
            a.len() == b.len(),
            forall|j: int| 0 <= j < i ==> a@[j] == b@[j],
        decreases a.len() - i,
    {
        if a[i] != b[i] {
            return false;
        }
        i = i + 1;
    }
    proof {
        assert(a@ =~= b@);
    }
    true
}

impl PartialEq for Transaction {
    fn eq(&self, other: &Transaction) -> (r: bool) {
        match (self, other) {
            (Transaction::Reset { hold_ms: a }, Transaction::Reset { hold_ms: b }) => a == b,
            (Transaction::Cmd { byte: a }, Transaction::Cmd { byte: b }) => a == b,
            (Transaction::Data { bytes: a }, Transaction::Data { bytes: b }) => vec_u8_eq(a, b),
            (
                Transaction::Repeat { byte: a, count: n },
                Transaction::Repeat { byte: b, count: m },
            ) => a == b && n == m,
            (Transaction::WaitBusy { busy_low: a }, Transaction::WaitBusy { busy_low: b }) => a
                == b,
            (Transaction::Delay { ms: a }, Transaction::Delay { ms: b }) => a == b,
            _ => false,
        }
    }
}

impl vstd::std_specs::cmp::PartialEqSpecImpl for Transaction {
    open spec fn obeys_eq_spec() -> bool {
        true
    }

    open spec fn eq_spec(&self, other: &Transaction) -> bool {
        self@ == other@
    }
}

/// Does the transaction reach the bus's byte-write capability (and so
/// consume the fault schedule)?  Waits, delays and the reset pulse only
/// touch control lines and cannot fail.
pub open spec fn is_write(t: TransactionView) -> bool {
    t is Cmd || t is Data || t is Repeat
}

/// How many bus writes a transaction sequence performs.
pub open spec fn write_count(s: Seq<TransactionView>) -> nat
    decreases s.len(),
{
    if s.len() == 0 {
        0
    } else {
        (if is_write(s[0]) {
            1nat
        } else {
            0nat
        }) + write_count(s.skip(1))
    }
}

/// The transactions that actually happen when only `budget` bus writes
/// can still succeed: the sequence is cut immediately before its
/// `budget + 1`-th write, and nothing after that point is attempted.
pub open spec fn emitted_prefix(s: Seq<TransactionView>, budget: nat) -> Seq<TransactionView>
    decreases s.len(),
{
    if s.len() == 0 {
        Seq::<TransactionView>::empty()
    } else if is_write(s[0]) && budget == 0 {
        Seq::<TransactionView>::empty()
    } else if is_write(s[0]) {
        seq![s[0]] + emitted_prefix(s.skip(1), (budget - 1) as nat)
    } else {
        seq![s[0]] + emitted_prefix(s.skip(1), budget)
    }
}

/// Does a fault schedule allow `n` more bus writes?
pub open spec fn budget_allows(writes_left: Option<u32>, n: nat) -> bool {
    match writes_left {
        None => true,
        Some(k) => n <= k,
    }
}

/// Mathematical state of the transport double: the transaction stream
/// emitted so far, the fault schedule (`None` means the bus never
/// fails; `Some(n)` means `n` more writes succeed and the next one
/// after them fails), and the busy line's current level.
pub struct InterfaceView {
    pub log: Seq<TransactionView>,
    pub writes_left: Option<u32>,
    pub line_high: bool,
}

/// The one relation every operation's contract is stated over: running
/// the transaction sequence `evs` from transport state `pre` succeeds
/// exactly when the fault schedule covers all its writes (`ok`), and
/// either appends all of `evs` to the stream, or — on the scheduled
/// failure — appends exactly the prefix that stands before the failing
/// write and stops.
pub open spec fn emits(
    pre: InterfaceView,
    post: InterfaceView,
    evs: Seq<TransactionView>,
    ok: bool,
) -> bool {
    match pre.writes_left {
        None => ok && post.log == pre.log + evs && post.writes_left == None::<u32>,
        Some(n) => if write_count(evs) <= n {
            ok && post.log == pre.log + evs && post.writes_left == Some(
                (n - write_count(evs)) as u32,
            )
        } else {
            !ok && post.log == pre.log + emitted_prefix(evs, n as nat) && post.writes_left
                == Some(0u32)
        },
    }
}

/// Is the panel reporting busy, under the given polarity convention?
pub open spec fn spec_is_busy(v: InterfaceView, is_busy_low: bool) -> bool {
    if is_busy_low {
        !v.line_high
    } else {
        v.line_high
    }
}

pub proof fn lemma_write_count_singleton(t: TransactionView)
    ensures
        write_count(seq![t]) == (if is_write(t) {
            1nat
        } else {
            0nat
        }),
{
    reveal_with_fuel(write_count, 2);
    assert(seq![t].skip(1) =~= Seq::<TransactionView>::empty());
    assert(write_count(Seq::<TransactionView>::empty()) == 0);
}

pub proof fn lemma_write_count_concat(s: Seq<TransactionView>, t: Seq<TransactionView>)
    ensures
        write_count(s + t) == write_count(s) + write_count(t),
    decreases s.len(),
{
    if s.len() == 0 {
        assert(s + t =~= t);
    } else {
        assert((s + t)[0] == s[0]);
        assert((s + t).skip(1) =~= s.skip(1) + t);
        lemma_write_count_concat(s.skip(1), t);
    }
}

/// When the schedule covers all of `s`, a run of `s + t` emits `s`
/// whole and then continues into `t` with the remaining budget.
pub proof fn lemma_emitted_prefix_all(s: Seq<TransactionView>, t: Seq<TransactionView>, budget: nat)
    requires
        write_count(s) <= budget,
    ensures
        emitted_prefix(s + t, budget) == s + emitted_prefix(
            t,
            (budget - write_count(s)) as nat,
        ),
    decreases s.len(),
{
    if s.len() == 0 {
        assert(s + t =~= t);
        assert(s + emitted_prefix(t, budget) =~= emitted_prefix(t, budget));
    } else {
        assert((s + t)[0] == s[0]);
        assert((s + t).skip(1) =~= s.skip(1) + t);
        if is_write(s[0]) {
            lemma_emitted_prefix_all(s.skip(1), t, (budget - 1) as nat);
            assert(seq![s[0]] + (s.skip(1) + emitted_prefix(
                t,
                (budget - write_count(s)) as nat,
            )) =~= s + emitted_prefix(t, (budget - write_count(s)) as nat));
        } else {
            lemma_emitted_prefix_all(s.skip(1), t, budget);
            assert(seq![s[0]] + (s.skip(1) + emitted_prefix(
                t,
                (budget - write_count(s)) as nat,
            )) =~= s + emitted_prefix(t, (budget - write_count(s)) as nat));
        }
    }
}

/// When the schedule runs out inside `s`, nothing of `t` is attempted.
pub proof fn lemma_emitted_prefix_stop(
    s: Seq<TransactionView>,
    t: Seq<TransactionView>,
    budget: nat,
)
    requires
        write_count(s) > budget,
    ensures
        emitted_prefix(s + t, budget) == emitted_prefix(s, budget),
    decreases s.len(),
{
    assert(s.len() > 0);
    assert((s + t)[0] == s[0]);
    assert((s + t).skip(1) =~= s.skip(1) + t);
    if is_write(s[0]) {
        if budget != 0 {
            lemma_emitted_prefix_stop(s.skip(1), t, (budget - 1) as nat);
        }
    } else {
        lemma_emitted_prefix_stop(s.skip(1), t, budget);
    }
}

/// Sequential composition: a successful run of `s` followed by a run of
/// `t` is a run of `s + t`.
pub proof fn lemma_emits_seq(
    pre: InterfaceView,
    mid: InterfaceView,
    post: InterfaceView,
    s: Seq<TransactionView>,
    t: Seq<TransactionView>,
    ok: bool,
)
    requires
        emits(pre, mid, s, true),
        emits(mid, post, t, ok),
    ensures
        emits(pre, post, s + t, ok),
{
    lemma_write_count_concat(s, t);
    match pre.writes_left {
        None => {
            assert(pre.log + s + t =~= pre.log + (s + t));
        },
        Some(n) => {
            if ok {
                assert(pre.log + s + t =~= pre.log + (s + t));
            } else {
                lemma_emitted_prefix_all(s, t, n as nat);
                assert(pre.log + s + emitted_prefix(t, (n - write_count(s)) as nat) =~= pre.log + (
                s + emitted_prefix(t, (n - write_count(s)) as nat)));
            }
        },
    }
}

/// A failed run of a prefix is a failed run of the whole sequence:
/// after the failing write, no later step is attempted.
pub proof fn lemma_emits_fail_widen(
    pre: InterfaceView,
    post: InterfaceView,
    s: Seq<TransactionView>,
    t: Seq<TransactionView>,
)
    requires
        emits(pre, post, s, false),
    ensures
        emits(pre, post, s + t, false),
{
    lemma_write_count_concat(s, t);
    match pre.writes_left {
        None => {},
        Some(n) => {
            lemma_emitted_prefix_stop(s, t, n as nat);
        },
    }
}

/// A bus failure cuts an operation's transaction sequence exactly at
/// the failing write: what was emitted is a prefix of the planned
/// sequence, it holds every transaction standing before that write and
/// none after it, and the transaction it stops at is a bus write.
pub proof fn lemma_failure_cuts_at_write(s: Seq<TransactionView>, budget: nat)
    requires
        write_count(s) > budget,
    ensures
        emitted_prefix(s, budget).len() < s.len(),
        emitted_prefix(s, budget) == s.take(emitted_prefix(s, budget).len() as int),
        write_count(emitted_prefix(s, budget)) == budget,
        is_write(s[emitted_prefix(s, budget).len() as int]),
    decreases s.len(),
{
    assert(s.len() > 0);
    if is_write(s[0]) && budget == 0 {
        assert(emitted_prefix(s, budget) =~= s.take(0));
    } else {
        let tail = s.skip(1);
        let sub = if is_write(s[0]) {
            (budget - 1) as nat
        } else {
            budget
        };
        lemma_failure_cuts_at_write(tail, sub);
        let p = emitted_prefix(tail, sub);
        lemma_write_count_concat(seq![s[0]], p);
        lemma_write_count_singleton(s[0]);
        assert(seq![s[0]] + p =~= s.take(p.len() as int + 1));
        assert(s[p.len() as int + 1] == tail[p.len() as int]);
    }
}

/// The caller-visible failure guarantee: when an operation that planned
/// to emit `evs` reports failure, what reached the wire is exactly a
/// prefix of `evs`, cut at a bus write — every transaction standing
/// before the failing write happened, the failing write and everything
/// after it were not attempted, and the failure lands on the write the
/// fault schedule chose.
pub proof fn lemma_failed_op_stops_at_failing_write(
    pre: InterfaceView,
    post: InterfaceView,
    evs: Seq<TransactionView>,
)
    requires
        emits(pre, post, evs, false),
    ensures
        pre.writes_left is Some,
        post.log.len() >= pre.log.len(),
        post.log.len() - pre.log.len() < evs.len(),
        post.log.subrange(pre.log.len() as int, post.log.len() as int) == evs.take(
            post.log.len() - pre.log.len(),
        ),
        write_count(post.log.subrange(pre.log.len() as int, post.log.len() as int))
            == pre.writes_left.unwrap(),
        is_write(evs[post.log.len() - pre.log.len()]),
{
    let n = pre.writes_left.unwrap() as nat;
    lemma_failure_cuts_at_write(evs, n);
    let p = emitted_prefix(evs, n);
    assert(post.log.subrange(pre.log.len() as int, post.log.len() as int) =~= p);
}

/// The transport double.  It owns nothing electrical: it records the
/// transaction stream, simulates the busy line, and fails the scheduled
/// bus write, so that a caller can observe exactly what an operation
/// put on the wire and where it stopped.
pub struct DisplayInterface {
    log: Vec<Transaction>,
    writes_left: Option<u32>,
    line_high: bool,
}

impl View for DisplayInterface {
    type V = InterfaceView;

    closed spec fn view(&self) -> InterfaceView {
        InterfaceView {
            log: self.log@.map_values(|t: Transaction| t@),
            writes_left: self.writes_left,
            line_high: self.line_high,
        }
    }
}

impl DisplayInterface {
    /// A transport whose bus never fails.  The busy line starts at the
    /// idle (high) level.
    pub fn new() -> (r: DisplayInterface)
        ensures
            r@.log == Seq::<TransactionView>::empty(),
            r@.writes_left == None::<u32>,
            r@.line_high,
    {
        let r = DisplayInterface { log: Vec::new(), writes_left: None, line_high: true };
        proof {
            assert(r@.log =~= Seq::<TransactionView>::empty());
        }
        r
    }

    /// A transport whose bus completes exactly `writes` byte-write
    /// transactions and fails on the one after them: the fault-injection
    /// knob of the double.
    pub fn failing_after(writes: u32) -> (r: DisplayInterface)
        ensures
            r@.log == Seq::<TransactionView>::empty(),
            r@.writes_left == Some(writes),
            r@.line_high,
    {
        let r = DisplayInterface { log: Vec::new(), writes_left: Some(writes), line_high: true };
        proof {
            assert(r@.log =~= Seq::<TransactionView>::empty());
        }
        r
    }

    /// Drive the busy line to a level: the panel's side of the double.
    pub fn set_busy_line(&mut self, high: bool)
        ensures
            final(self)@ == (InterfaceView { line_high: high, ..old(self)@ }),
    {
        self.line_high = high;
    }

    /// The transaction stream emitted so far.
    pub fn transactions(&self) -> (r: &Vec<Transaction>)
        ensures
            r@.map_values(|t: Transaction| t@) == self@.log,
    {
        &self.log
    }

    /// Non-blocking read of the busy line under the given polarity.
    pub fn is_busy(&self, is_busy_low: bool) -> (r: bool)
        ensures
            r == spec_is_busy(self@, is_busy_low),
    {
        if is_busy_low {
            !self.line_high
        } else {
            self.line_high
        }
    }

    /// Record a transaction that does not touch the byte-write
    /// capability; such a transaction cannot fail.
    fn record(&mut self, t: Transaction)
        requires
            !is_write(t@),
        ensures
            emits(old(self)@, final(self)@, seq![t@], true),
            final(self)@.line_high == old(self)@.line_high,
    {
        proof {
            lemma_write_count_singleton(t@);
        }
        let ghost pre = self@;
        self.log.push(t);
        proof {
            assert(self@.log =~= pre.log + seq![t@]);
        }
    }

    /// Perform one bus-write transaction, honouring the fault schedule.
    fn write_event(&mut self, t: Transaction) -> (r: Result<(), TransportError>)
        requires
            is_write(t@),
        ensures
            emits(old(self)@, final(self)@, seq![t@], r is Ok),
            final(self)@.line_high == old(self)@.line_high,
    {
        proof {
            lemma_write_count_singleton(t@);
        }
        match self.writes_left {
            Some(n) => {
                if n == 0 {
                    proof {
                        assert(emitted_prefix(seq![t@], 0) =~= Seq::<TransactionView>::empty());
                        assert(old(self)@.log + Seq::<TransactionView>::empty() =~= old(
                            self,
                        )@.log);
                    }
                    return Err(TransportError);
                }
                self.writes_left = Some(n - 1);
            },
            None => {},
        }
        let ghost pre = old(self)@;
        self.log.push(t);
        proof {
            assert(self@.log =~= pre.log + seq![t@]);
        }
        Ok(())
    }

    /// Deassert, assert, deassert the reset line with fixed settling
    /// delays, holding it asserted for `hold_ms`.  Returns the panel to
    /// its post-power-on state; must precede the first command.
    pub fn reset(&mut self, hold_ms: u8)
        ensures
            emits(
                old(self)@,
                final(self)@,
                seq![TransactionView::Reset { hold_ms }],
                true,
            ),
            final(self)@.line_high == old(self)@.line_high,
    {
        self.record(Transaction::Reset { hold_ms });
    }

    /// A plain settling delay between transactions.
    pub fn delay_ms(&mut self, ms: u8)
        ensures
            emits(old(self)@, final(self)@, seq![TransactionView::Delay { ms }], true),
            final(self)@.line_high == old(self)@.line_high,
    {
        self.record(Transaction::Delay { ms });
    }

    /// Block until the busy line leaves the given busy level.  The
    /// double records the wait and leaves the line at the idle level
    /// for that polarity, as a non-defective panel eventually does.
    pub fn wait_until_idle(&mut self, is_busy_low: bool)
        ensures
            emits(
                old(self)@,
                final(self)@,
                seq![TransactionView::WaitBusy { busy_low: is_busy_low }],
                true,
            ),
            final(self)@.line_high == is_busy_low,
    {
        self.line_high = is_busy_low;
        self.record(Transaction::WaitBusy { busy_low: is_busy_low });
    }

    /// One command transaction: chip-select asserted, command mode, the
    /// single opcode byte, chip-select released.
    pub fn cmd(&mut self, command: Command) -> (r: Result<(), TransportError>)
        ensures
            emits(
                old(self)@,
                final(self)@,
                seq![TransactionView::Cmd { byte: command.spec_byte() }],
                r is Ok,
            ),
            final(self)@.line_high == old(self)@.line_high,
    {
        self.write_event(Transaction::Cmd { byte: command.byte() })
    }

    /// One data transaction: chip-select asserted, data mode, the bytes
    /// in order, chip-select released.
    pub fn data(&mut self, bytes: &[u8]) -> (r: Result<(), TransportError>)
        ensures
            emits(
                old(self)@,
                final(self)@,
                seq![TransactionView::Data { bytes: bytes@ }],
                r is Ok,
            ),
            final(self)@.line_high == old(self)@.line_high,
    {
        self.write_event(Transaction::Data { bytes: slice_to_vec(bytes) })
    }

    /// A command transaction immediately followed by its parameter
    /// bytes as a data transaction: the datasheet's "command followed
    /// by parameters" convention.
    pub fn cmd_with_data(&mut self, command: Command, data: &[u8]) -> (r: Result<
        (),
        TransportError,
    >)
        ensures
            emits(
                old(self)@,
                final(self)@,
                seq![
                    TransactionView::Cmd { byte: command.spec_byte() },
                    TransactionView::Data { bytes: data@ },
                ],
                r is Ok,
            ),
            final(self)@.line_high == old(self)@.line_high,
    {
        let ghost pre = self@;
        let ghost c = TransactionView::Cmd { byte: command.spec_byte() };
        let ghost d = TransactionView::Data { bytes: data@ };
        let ghost mid: InterfaceView;
        match self.cmd(command) {
            Err(e) => {
                proof {
                    lemma_emits_fail_widen(pre, self@, seq![c], seq![d]);
                    assert(seq![c] + seq![d] =~= seq![c, d]);
                }
                return Err(e);
            },
            Ok(()) => {
                proof {
                    mid = self@;
                }
            },
        }
        let r = self.data(data);
        proof {
            lemma_emits_seq(pre, mid, self@, seq![c], seq![d], r is Ok);
            assert(seq![c] + seq![d] =~= seq![c, d]);
        }
        r
    }

    /// Emit `byte` as data `count` times: fills the whole frame memory
    /// with one encoded color pair without building the buffer.
    pub fn data_x_times(&mut self, byte: u8, count: u32) -> (r: Result<(), TransportError>)
        ensures
            emits(
                old(self)@,
                final(self)@,
                seq![TransactionView::Repeat { byte, count }],
                r is Ok,
            ),
            final(self)@.line_high == old(self)@.line_high,
    {
        self.write_event(Transaction::Repeat { byte, count })
    }
}

} // verus!
