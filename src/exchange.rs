//! Decisions of one request/response exchange.
//!
//! An exchange drains stale input, writes the command frame once, then reads
//! fixed-size chunks until the expected number of bytes has arrived or too
//! many reads have failed. The caller performs each transfer and reports its
//! outcome; the exchange says what comes next through its phase.
use vstd::prelude::*;
use crate::error::UsbError;
use crate::frame::{encode_get_memory, frame_bytes, Flags, Opcode, Space, FRAME_SIZE};

verus! {

/// Number of failed reads after which an exchange gives up.
pub const MAX_READ_FAILURES: u32 = 1000;

/// Size of the buffer of each response read.
pub const READ_SIZE: usize = 512;

/// Size of the buffer of each drain read.
pub const DRAIN_READ_SIZE: usize = 64;

/// Timeout of a drain read, in milliseconds.
pub const DRAIN_TIMEOUT_MS: u64 = 50;

/// Timeout of the command write and of each response read, in milliseconds.
pub const TRANSFER_TIMEOUT_MS: u64 = 500;

/// Where an exchange stands, and so which transfer comes next.
#[derive(Clone, Copy, PartialEq, Eq, Debug, Structural)]
pub enum Phase {
    /// A short read of the input endpoint, whose bytes are discarded.
    Draining,
    /// The one write of the command frame.
    Writing,
    /// A read of up to `READ_SIZE` bytes of the response.
    Reading,
    /// The response is complete.
    Done,
    /// The exchange failed.
    Failed(UsbError),
}

/// The abstract state of an exchange.
pub struct ExchangeView {
    pub phase: Phase,
    /// Bytes still expected; below zero once a chunk overshot the size.
    pub remaining: int,
    /// Response reads that failed so far.
    pub failures: nat,
    /// Response bytes received so far, in arrival order.
    pub payload: Seq<u8>,
}

/// The state of a new exchange that expects `expected` bytes.
pub open spec fn initial_state(expected: u32) -> ExchangeView {
    ExchangeView { phase: Phase::Draining, remaining: expected as int, failures: 0, payload: Seq::empty() }
}

/// The state after a drain read: `Some(n)` for a read of `n` bytes, `None`
/// for a failed read. A read of no bytes, or a failed one, ends the drain.
pub open spec fn drain_step(s: ExchangeView, read: Option<nat>) -> ExchangeView {
    if s.phase == Phase::Draining {
        match read {
            Some(n) if n > 0 => s,
            _ => ExchangeView { phase: Phase::Writing, ..s },
        }
    } else {
        s
    }
}

/// The state after the command write, which succeeded or not.
pub open spec fn write_step(s: ExchangeView, ok: bool) -> ExchangeView {
    if s.phase == Phase::Writing {
        if ok {
            ExchangeView { phase: Phase::Reading, ..s }
        } else {
            ExchangeView { phase: Phase::Failed(UsbError::WriteFailed), ..s }
        }
    } else {
        s
    }
}

/// The state after a response read: `Some(bytes)` for a read that returned
/// `bytes`, `None` for a failed read. The bytes are kept in full and counted
/// against the remaining size, even past it; the response is complete once
/// nothing remains, and the exchange fails at the limit of failed reads.
pub open spec fn read_step(s: ExchangeView, read: Option<Seq<u8>>) -> ExchangeView {
    if s.phase == Phase::Reading {
        match read {
            Some(bytes) => {
                let remaining = s.remaining - bytes.len();
                ExchangeView {
                    phase: if remaining <= 0 { Phase::Done } else { Phase::Reading },
                    remaining,
                    payload: s.payload + bytes,
                    ..s
                }
            },
            None => {
                let failures = s.failures + 1;
                ExchangeView {
                    phase: if failures >= MAX_READ_FAILURES {
                        Phase::Failed(UsbError::ReadExhausted)
                    } else if s.remaining <= 0 {
                        Phase::Done
                    } else {
                        Phase::Reading
                    },
                    failures: failures as nat,
                    ..s
                }
            },
        }
    } else {
        s
    }
}

/// The state after a series of drain reads, in order.
pub open spec fn drain_run(s: ExchangeView, reads: Seq<Option<nat>>) -> ExchangeView
    decreases reads.len(),
{
    if reads.len() == 0 {
        s
    } else {
        drain_run(drain_step(s, reads[0]), reads.drop_first())
    }
}

/// The state after a series of response reads, in order.
pub open spec fn read_run(s: ExchangeView, reads: Seq<Option<Seq<u8>>>) -> ExchangeView
    decreases reads.len(),
{
    if reads.len() == 0 {
        s
    } else {
        read_run(read_step(s, reads[0]), reads.drop_first())
    }
}

/// Drain reads of the given byte counts, all successful.
pub open spec fn stale_reads(stale: Seq<nat>) -> Seq<Option<nat>> {
    stale.map_values(|n: nat| Some(n))
}

/// Response reads that returned the given chunks, in order.
pub open spec fn chunk_reads(chunks: Seq<Seq<u8>>) -> Seq<Option<Seq<u8>>> {
    chunks.map_values(|c: Seq<u8>| Some(c))
}

/// `n` failed response reads.
pub open spec fn failed_reads(n: nat) -> Seq<Option<Seq<u8>>> {
    Seq::new(n, |i: int| None)
}

proof fn lemma_drain_run_append(s: ExchangeView, a: Seq<Option<nat>>, b: Seq<Option<nat>>)
    ensures
        drain_run(s, a + b) == drain_run(drain_run(s, a), b),
    decreases a.len(),
{
    if a.len() == 0 {
        assert(a + b =~= b);
    } else {
        assert((a + b)[0] == a[0]);
        assert((a + b).drop_first() =~= a.drop_first() + b);
        lemma_drain_run_append(drain_step(s, a[0]), a.drop_first(), b);
    }
}

proof fn lemma_drain_run_idle(s: ExchangeView, reads: Seq<Option<nat>>)
    requires
        s.phase != Phase::Draining,
    ensures
        drain_run(s, reads) == s,
    decreases reads.len(),
{
    if reads.len() > 0 {
        lemma_drain_run_idle(s, reads.drop_first());
    }
}

proof fn lemma_drain_run_stale(s: ExchangeView, stale: Seq<nat>)
    requires
        s.phase == Phase::Draining,
        forall|i: int| 0 <= i < stale.len() ==> #[trigger] stale[i] > 0,
    ensures
        drain_run(s, stale_reads(stale)) == s,
    decreases stale.len(),
{
    if stale.len() > 0 {
        assert(stale_reads(stale).drop_first() =~= stale_reads(stale.drop_first()));
        assert(stale[0] > 0);
        assert forall|i: int| 0 <= i < stale.drop_first().len() implies #[trigger] stale.drop_first()[i] > 0 by {
            assert(stale.drop_first()[i] == stale[i + 1]);
        }
        lemma_drain_run_stale(s, stale.drop_first());
    }
}

/// Draining goes on through every stale chunk and stops at the first read
/// that returns nothing or fails: after the `N` stale chunks the exchange is
/// still draining, after that read it is ready to write, with nothing kept
/// of the stale bytes, and later reads are no part of the drain.
pub proof fn lemma_drain_consumes_stale(
    s: ExchangeView,
    stale: Seq<nat>,
    last: Option<nat>,
    after: Seq<Option<nat>>,
)
    requires
        s.phase == Phase::Draining,
        forall|i: int| 0 <= i < stale.len() ==> #[trigger] stale[i] > 0,
        last == Some(0nat) || last == None::<nat>,
    ensures
        drain_run(s, stale_reads(stale)) == s,
        drain_run(s, stale_reads(stale).push(last)) == (ExchangeView { phase: Phase::Writing, ..s }),
        drain_run(s, stale_reads(stale).push(last) + after) == (ExchangeView { phase: Phase::Writing, ..s }),
{
    let reads = stale_reads(stale);
    lemma_drain_run_stale(s, stale);
    assert(reads.push(last) =~= reads + seq![last]);
    lemma_drain_run_append(s, reads, seq![last]);
    assert(seq![last].drop_first() =~= Seq::<Option<nat>>::empty());
    assert(seq![last][0] == last);
    let w = ExchangeView { phase: Phase::Writing, ..s };
    assert(drain_step(s, last) == w);
    assert(drain_run(w, Seq::<Option<nat>>::empty()) == w);
    assert(drain_run(s, seq![last]) == w);
    lemma_drain_run_append(s, reads.push(last), after);
    lemma_drain_run_idle(w, after);
}

proof fn lemma_read_run_append(s: ExchangeView, a: Seq<Option<Seq<u8>>>, b: Seq<Option<Seq<u8>>>)
    ensures
        read_run(s, a + b) == read_run(read_run(s, a), b),
    decreases a.len(),
{
    if a.len() == 0 {
        assert(a + b =~= b);
    } else {
        assert((a + b)[0] == a[0]);
        assert((a + b).drop_first() =~= a.drop_first() + b);
        lemma_read_run_append(read_step(s, a[0]), a.drop_first(), b);
    }
}

proof fn lemma_read_run_idle(s: ExchangeView, reads: Seq<Option<Seq<u8>>>)
    requires
        s.phase != Phase::Reading,
    ensures
        read_run(s, reads) == s,
    decreases reads.len(),
{
    if reads.len() > 0 {
        lemma_read_run_idle(s, reads.drop_first());
    }
}

proof fn lemma_read_run_chunks(s: ExchangeView, chunks: Seq<Seq<u8>>)
    requires
        s.phase == Phase::Reading,
        chunks.len() > 0,
        chunks.drop_last().flatten().len() < s.remaining <= chunks.flatten().len(),
    ensures
        read_run(s, chunk_reads(chunks)) == (ExchangeView {
            phase: Phase::Done,
            remaining: s.remaining - chunks.flatten().len(),
            failures: s.failures,
            payload: s.payload + chunks.flatten(),
        }),
    decreases chunks.len(),
{
    let c0 = chunks[0];
    let rest = chunks.drop_first();
    let s1 = read_step(s, Some(c0));
    assert(chunk_reads(chunks).drop_first() =~= chunk_reads(rest));
    assert(chunks.flatten() == c0 + rest.flatten());
    if chunks.len() == 1 {
        assert(rest.flatten() =~= Seq::<u8>::empty());
        assert(c0 + Seq::<u8>::empty() =~= c0);
        lemma_read_run_idle(s1, chunk_reads(rest));
    } else {
        assert(chunks.drop_last()[0] == c0);
        assert(chunks.drop_last().drop_first() =~= rest.drop_last());
        assert(chunks.drop_last().flatten() == c0 + rest.drop_last().flatten());
        lemma_read_run_chunks(s1, rest);
        assert(s.payload + c0 + rest.flatten() =~= s.payload + (c0 + rest.flatten()));
    }
}

/// A response that arrives in chunks completes with the read that brings the
/// received total to the expected size or past it: the payload is every
/// chunk's bytes in arrival order, an overshoot included, and later reads
/// are no part of the exchange. Chunks that add up to exactly the remaining
/// size give a payload of exactly that size.
pub proof fn lemma_read_completes(s: ExchangeView, chunks: Seq<Seq<u8>>, after: Seq<Option<Seq<u8>>>)
    requires
        s.phase == Phase::Reading,
        chunks.len() > 0,
        chunks.drop_last().flatten().len() < s.remaining <= chunks.flatten().len(),
    ensures
        read_run(s, chunk_reads(chunks)).phase == Phase::Done,
        read_run(s, chunk_reads(chunks)).payload == s.payload + chunks.flatten(),
        chunks.flatten().len() == s.remaining ==> read_run(s, chunk_reads(chunks)).payload.len()
            == s.payload.len() + s.remaining,
        read_run(s, chunk_reads(chunks) + after) == read_run(s, chunk_reads(chunks)),
{
    lemma_read_run_chunks(s, chunks);
    lemma_read_run_append(s, chunk_reads(chunks), after);
    lemma_read_run_idle(read_run(s, chunk_reads(chunks)), after);
}

/// Failed reads are counted and tolerated below the limit; the read that
/// reaches it fails the exchange with `ReadExhausted`, and nothing after that
/// changes the outcome. From a fresh read loop that is exactly the
/// thousandth failure.
pub proof fn lemma_read_failures(s: ExchangeView, n: nat, after: Seq<Option<Seq<u8>>>)
    requires
        s.phase == Phase::Reading,
        s.remaining > 0,
        s.failures < MAX_READ_FAILURES,
        s.failures + n <= MAX_READ_FAILURES,
    ensures
        s.failures + n < MAX_READ_FAILURES ==> read_run(s, failed_reads(n)) == (ExchangeView {
            failures: s.failures + n,
            ..s
        }),
        s.failures + n == MAX_READ_FAILURES ==> read_run(s, failed_reads(n)) == (ExchangeView {
            phase: Phase::Failed(UsbError::ReadExhausted),
            failures: MAX_READ_FAILURES as nat,
            ..s
        }),
        s.failures + n == MAX_READ_FAILURES ==> read_run(s, failed_reads(n) + after) == (ExchangeView {
            phase: Phase::Failed(UsbError::ReadExhausted),
            failures: MAX_READ_FAILURES as nat,
            ..s
        }),
    decreases n,
{
    if n == 0 {
        assert(s == ExchangeView { failures: s.failures + n, ..s });
    } else {
        assert(failed_reads(n).drop_first() =~= failed_reads((n - 1) as nat));
        assert(failed_reads(n)[0] == None::<Seq<u8>>);
        let s1 = read_step(s, None);
        if s.failures + 1 == MAX_READ_FAILURES {
            lemma_read_run_idle(s1, failed_reads((n - 1) as nat));
        } else {
            lemma_read_failures(s1, (n - 1) as nat, after);
        }
        if s.failures + n == MAX_READ_FAILURES {
            lemma_read_run_append(s, failed_reads(n), after);
            lemma_read_run_idle(read_run(s, failed_reads(n)), after);
        }
    }
}

/// Appends `data` to `payload`.
fn append_bytes(payload: &mut Vec<u8>, data: &[u8])
    ensures
        final(payload)@ == old(payload)@ + data@,
{
    let mut i: usize = 0;
    while i < data.len()
        invariant
            i <= data@.len(),
            payload@ == old(payload)@ + data@.take(i as int),
        decreases data@.len() - i,
    {
        payload.push(data[i]);
        i = i + 1;
    }
    assert(data@.take(data@.len() as int) =~= data@);
}

/// One request/response exchange over a pair of endpoints.
pub struct Exchange {
    command: Vec<u8>,
    expected: u32,
    phase: Phase,
    remaining: i64,
    failures: u32,
    payload: Vec<u8>,
}

impl View for Exchange {
    type V = ExchangeView;

    closed spec fn view(&self) -> ExchangeView {
        ExchangeView {
            phase: self.phase,
            remaining: self.remaining as int,
            failures: self.failures as nat,
            payload: self.payload@,
        }
    }
}

impl Exchange {
    /// The internal invariant: what was received and what remains add up to
    /// the expected size, no chunk overshoots it by more than a full read, and a
    /// reading exchange is below the limit of failed reads.
    pub closed spec fn wf(&self) -> bool {
        &&& self.payload@.len() + self.remaining == self.expected as int
        &&& self.remaining >= -(READ_SIZE as int)
        &&& self.failures <= MAX_READ_FAILURES
        &&& self.phase == Phase::Reading ==> self.failures < MAX_READ_FAILURES && self.remaining >= 0
        &&& self.phase == Phase::Draining || self.phase == Phase::Writing ==> {
            &&& self.remaining == self.expected as int
            &&& self.failures == 0
        }
    }

    /// The command frame that the exchange writes.
    pub closed spec fn spec_command(&self) -> Seq<u8> {
        self.command@
    }

    /// Starts the exchange of `command`, a full frame, expecting a response
    /// of `expected` bytes.
    pub fn new(command: Vec<u8>, expected: u32) -> (r: Exchange)
        requires
            command@.len() == FRAME_SIZE,
        ensures
            r.wf(),
            r@ == initial_state(expected),
            r.spec_command() == command@,
    {
        Exchange {
            command,
            expected,
            phase: Phase::Draining,
            remaining: expected as i64,
            failures: 0,
            payload: Vec::new(),
        }
    }

    /// Starts the exchange that reads `size` bytes of console memory at
    /// `offset`: a `Get` on the `Snes` space with the `Noresp` flag.
    pub fn get_memory(offset: u32, size: u32) -> (r: Exchange)
        ensures
            r.wf(),
            r@ == initial_state(size),
            r.spec_command() == frame_bytes(
                Opcode::Get.spec_code(),
                Space::Snes.spec_code(),
                Flags::Noresp.spec_bits(),
                offset,
                size,
            ),
    {
        Exchange::new(encode_get_memory(offset, size), size)
    }

    /// The command frame to write.
    pub fn command(&self) -> (r: &[u8])
        ensures
            r@ == self.spec_command(),
    {
        self.command.as_slice()
    }

    /// Where the exchange stands.
    pub fn phase(&self) -> (r: Phase)
        ensures
            r == self@.phase,
    {
        self.phase
    }

    /// Reports a drain read: `Some(n)` for `n` bytes read, `None` for a
    /// failed read.
    pub fn on_drain_read(&mut self, read: Option<usize>)
        requires
            old(self).wf(),
        ensures
            final(self).wf(),
            final(self).spec_command() == old(self).spec_command(),
            final(self)@ == drain_step(
                old(self)@,
                match read {
                    Some(n) => Some(n as nat),
                    None => None,
                },
            ),
    {
        if self.phase == Phase::Draining {
            match read {
                Some(n) if n > 0 => {},
                _ => {
                    self.phase = Phase::Writing;
                },
            }
        }
    }

    /// Reports whether the command write succeeded.
    pub fn on_write(&mut self, ok: bool)
        requires
            old(self).wf(),
        ensures
            final(self).wf(),
            final(self).spec_command() == old(self).spec_command(),
            final(self)@ == write_step(old(self)@, ok),
    {
        if self.phase == Phase::Writing {
            if ok {
                self.phase = Phase::Reading;
            } else {
                self.phase = Phase::Failed(UsbError::WriteFailed);
            }
        }
    }

    /// Reports a response read that returned `data`.
    pub fn on_read(&mut self, data: &[u8])
        requires
            old(self).wf(),
            data@.len() <= READ_SIZE,
        ensures
            final(self).wf(),
            final(self).spec_command() == old(self).spec_command(),
            final(self)@ == read_step(old(self)@, Some(data@)),
    {
        if self.phase == Phase::Reading {
            append_bytes(&mut self.payload, data);
            self.remaining = self.remaining - data.len() as i64;
            if self.remaining <= 0 {
                self.phase = Phase::Done;
            }
        }
    }

    /// Reports a response read that failed.
    pub fn on_read_failed(&mut self)
        requires
            old(self).wf(),
        ensures
            final(self).wf(),
            final(self).spec_command() == old(self).spec_command(),
            final(self)@ == read_step(old(self)@, None),
    {
        if self.phase == Phase::Reading {
            self.failures = self.failures + 1;
            if self.failures >= MAX_READ_FAILURES {
                self.phase = Phase::Failed(UsbError::ReadExhausted);
            } else if self.remaining <= 0 {
                self.phase = Phase::Done;
            }
        }
    }

    /// The outcome of a finished exchange: the received bytes, or the error
    /// it failed with. `None` while transfers remain.
    pub fn finish(self) -> (r: Option<Result<Vec<u8>, UsbError>>)
        ensures
            match self@.phase {
                Phase::Done => r matches Some(Ok(v)) && v@ == self@.payload,
                Phase::Failed(e) => r == Some(Err::<Vec<u8>, UsbError>(e)),
                _ => r is None,
            },
    {
        match self.phase {
            Phase::Done => Some(Ok(self.payload)),
            Phase::Failed(e) => Some(Err(e)),
            _ => None,
        }
    }
}

} // verus!
