//! The frame reader: one poll cycle as a state machine.
//!
//! The reader does no input or output itself. Its caller writes the trigger
//! byte that `begin` returns, then repeatedly reads as many bytes as `wanted`
//! asks for and hands them to `feed`, until `feed` reports a frame or a
//! failure. `decode` runs the same cycle over a buffer that is already in
//! memory.

use vstd::prelude::*;
use vstd::slice::slice_subrange;
use crate::frame::{
    Frame, FrameError, FrameView, SENTINEL, MAX_ENCODERS, MAX_BUTTONS, le_u16, le_i16, le_u32,
    first_sentinel, decoding, lemma_first_sentinel_from,
};

verus! {

/// The byte that asks the rig for a frame.
pub const TRIGGER: u8 = 0x00;

/// What the reader waits for.
#[derive(Debug, Clone, Copy, PartialEq, Eq, Structural)]
pub enum Phase {
    /// No cycle is under way.
    Idle,
    /// The next byte, in search of the sentinel.
    AwaitSentinel,
    /// The tick length.
    TickLength,
    /// The longest tick length.
    LongestLength,
    /// The steering angle.
    Angle,
    /// The number of encoders.
    EncoderCount,
    /// The next encoder value.
    Encoders,
    /// The number of buttons.
    ButtonCount,
    /// The reserved field.
    Reserved,
    /// The next button level.
    Buttons,
}

/// What `feed` made of the bytes it was given.
#[derive(Debug, PartialEq, Eq)]
pub enum Progress {
    /// The frame is not complete: read `wanted` bytes and feed them.
    Pending,
    /// The frame is complete; the cycle is over.
    Ready(Frame),
    /// The cycle failed and is over; nothing of the frame is kept.
    Failed(FrameError),
}

/// `Progress`, with the frame as plain values.
pub enum Outcome {
    Pending,
    Ready(FrameView),
    Failed(FrameError),
}

impl View for Progress {
    type V = Outcome;

    open spec fn view(&self) -> Outcome {
        match *self {
            Progress::Pending => Outcome::Pending,
            Progress::Ready(frame) => Outcome::Ready(frame@),
            Progress::Failed(error) => Outcome::Failed(error),
        }
    }
}

/// What a reader holds, as plain values: the phase and the fields read so far.
pub struct ReaderState {
    pub phase: Phase,
    pub tick_length: u32,
    pub longest_length: u32,
    pub angle: u32,
    pub encoder_count: u32,
    pub encoders: Seq<i16>,
    pub button_count: u16,
    pub buttons: Seq<bool>,
}

impl ReaderState {
    /// The state between cycles: nothing read, nothing wanted.
    pub open spec fn idle() -> ReaderState {
        ReaderState {
            phase: Phase::Idle,
            tick_length: 0,
            longest_length: 0,
            angle: 0,
            encoder_count: 0,
            encoders: Seq::empty(),
            button_count: 0,
            buttons: Seq::empty(),
        }
    }

    /// The state at the start of a cycle: nothing read, the sentinel wanted.
    pub open spec fn awaiting() -> ReaderState {
        ReaderState { phase: Phase::AwaitSentinel, ..ReaderState::idle() }
    }

    /// How many bytes the next read is to bring.
    pub open spec fn wanted(self) -> nat {
        match self.phase {
            Phase::Idle => 0,
            Phase::AwaitSentinel => 1,
            Phase::TickLength => 4,
            Phase::LongestLength => 4,
            Phase::Angle => 4,
            Phase::EncoderCount => 4,
            Phase::Encoders => 2,
            Phase::ButtonCount => 2,
            Phase::Reserved => 2,
            Phase::Buttons => 1,
        }
    }

    /// The fields read so far agree with the phase: counts are within
    /// capacity once read, and an array is filled only while or after its
    /// phase.
    pub open spec fn wf(self) -> bool {
        match self.phase {
            Phase::Encoders => {
                &&& self.encoders.len() < self.encoder_count <= MAX_ENCODERS
                &&& self.buttons.len() == 0
            },
            Phase::ButtonCount => {
                &&& self.encoders.len() == self.encoder_count <= MAX_ENCODERS
                &&& self.buttons.len() == 0
            },
            Phase::Reserved => {
                &&& self.encoders.len() == self.encoder_count <= MAX_ENCODERS
                &&& self.buttons.len() == 0
                &&& self.button_count <= MAX_BUTTONS
            },
            Phase::Buttons => {
                &&& self.encoders.len() == self.encoder_count <= MAX_ENCODERS
                &&& self.buttons.len() < self.button_count <= MAX_BUTTONS
            },
            _ => self.encoders.len() == 0 && self.buttons.len() == 0,
        }
    }

    /// The frame made of the fields read so far.
    pub open spec fn frame(self) -> FrameView {
        FrameView {
            tick_length: self.tick_length,
            longest_length: self.longest_length,
            angle: self.angle,
            encoders: self.encoders,
            buttons: self.buttons,
        }
    }

    /// The next state and the report, when the read that the reader asked
    /// for brought `bytes`.
    ///
    /// Between cycles nothing happens. Fewer bytes than wanted are a short
    /// read. Bytes beyond those wanted are not looked at. A byte other than the
    /// sentinel leaves the reader waiting for the sentinel. A count above its
    /// capacity makes the frame malformed. Every failure, and the last byte
    /// of a frame, ends the cycle.
    pub open spec fn step(self, bytes: Seq<u8>) -> (ReaderState, Outcome) {
        if self.phase == Phase::Idle {
            (self, Outcome::Pending)
        } else if bytes.len() < self.wanted() {
            (ReaderState::idle(), Outcome::Failed(FrameError::ShortRead))
        } else {
            match self.phase {
                Phase::Idle => (self, Outcome::Pending),
                Phase::AwaitSentinel => {
                    if bytes[0] == SENTINEL {
                        (ReaderState { phase: Phase::TickLength, ..self }, Outcome::Pending)
                    } else {
                        (self, Outcome::Pending)
                    }
                },
                Phase::TickLength => (
                    ReaderState {
                        phase: Phase::LongestLength,
                        tick_length: le_u32(bytes, 0),
                        ..self
                    },
                    Outcome::Pending,
                ),
                Phase::LongestLength => (
                    ReaderState { phase: Phase::Angle, longest_length: le_u32(bytes, 0), ..self },
                    Outcome::Pending,
                ),
                Phase::Angle => (
                    ReaderState { phase: Phase::EncoderCount, angle: le_u32(bytes, 0), ..self },
                    Outcome::Pending,
                ),
                Phase::EncoderCount => {
                    let count = le_u32(bytes, 0);
                    if count > MAX_ENCODERS {
                        (ReaderState::idle(), Outcome::Failed(FrameError::MalformedFrame))
                    } else {
                        (
                            ReaderState {
                                phase: if count == 0 {
                                    Phase::ButtonCount
                                } else {
                                    Phase::Encoders
                                },
                                encoder_count: count,
                                ..self
                            },
                            Outcome::Pending,
                        )
                    }
                },
                Phase::Encoders => {
                    let encoders = self.encoders.push(le_i16(bytes, 0));
                    (
                        ReaderState {
                            phase: if encoders.len() == self.encoder_count {
                                Phase::ButtonCount
                            } else {
                                Phase::Encoders
                            },
                            encoders,
                            ..self
                        },
                        Outcome::Pending,
                    )
                },
                Phase::ButtonCount => {
                    let count = le_u16(bytes, 0);
                    if count > MAX_BUTTONS {
                        (ReaderState::idle(), Outcome::Failed(FrameError::MalformedFrame))
                    } else {
                        (
                            ReaderState { phase: Phase::Reserved, button_count: count, ..self },
                            Outcome::Pending,
                        )
                    }
                },
                Phase::Reserved => {
                    if self.button_count == 0 {
                        (ReaderState::idle(), Outcome::Ready(self.frame()))
                    } else {
                        (ReaderState { phase: Phase::Buttons, ..self }, Outcome::Pending)
                    }
                },
                Phase::Buttons => {
                    let buttons = self.buttons.push(bytes[0] != 0);
                    if buttons.len() == self.button_count {
                        (
                            ReaderState::idle(),
                            Outcome::Ready(FrameView { buttons, ..self.frame() }),
                        )
                    } else {
                        (ReaderState { buttons, ..self }, Outcome::Pending)
                    }
                },
            }
        }
    }

    /// How the cycle ends when the reader stands at `self`, the stream `s`
    /// has been read up to `pos`, and every read brings what the reader
    /// wants, or what is left of the stream if that is less: the final
    /// report, and the position behind the last byte read.
    pub open spec fn run(self, s: Seq<u8>, pos: int) -> (Outcome, int)
        decreases s.len() - pos,
    {
        if self.phase == Phase::Idle || pos < 0 || pos > s.len() {
            (Outcome::Pending, pos)
        } else {
            let taken = if s.len() - pos < self.wanted() {
                s.len() - pos
            } else {
                self.wanted() as int
            };
            let (next, outcome) = self.step(s.subrange(pos, pos + taken));
            if outcome is Pending && taken > 0 {
                next.run(s, pos + taken)
            } else {
                (outcome, pos + taken)
            }
        }
    }
}

/// The report that ends a cycle whose decoding is `result`.
pub open spec fn outcome_of(result: Result<FrameView, FrameError>) -> Outcome {
    match result {
        Ok(frame) => Outcome::Ready(frame),
        Err(error) => Outcome::Failed(error),
    }
}

/// The fields of a frame under construction.
struct Partial {
    phase: Phase,
    tick_length: u32,
    longest_length: u32,
    angle: u32,
    encoder_count: u32,
    encoders: Vec<i16>,
    button_count: u16,
    buttons: Vec<bool>,
}

impl View for Partial {
    type V = ReaderState;

    closed spec fn view(&self) -> ReaderState {
        ReaderState {
            phase: self.phase,
            tick_length: self.tick_length,
            longest_length: self.longest_length,
            angle: self.angle,
            encoder_count: self.encoder_count,
            encoders: self.encoders@,
            button_count: self.button_count,
            buttons: self.buttons@,
        }
    }
}

fn read_u16(bytes: &[u8]) -> (v: u16)
    requires
        bytes@.len() >= 2,
    ensures
        v == le_u16(bytes@, 0),
{
    bytes[0] as u16 + 256 * (bytes[1] as u16)
}

fn read_i16(bytes: &[u8]) -> (v: i16)
    requires
        bytes@.len() >= 2,
    ensures
        v == le_i16(bytes@, 0),
{
    let u: u16 = read_u16(bytes);
    if u >= 0x8000 {
        (u as i32 - 0x1_0000) as i16
    } else {
        u as i16
    }
}

fn read_u32(bytes: &[u8]) -> (v: u32)
    requires
        bytes@.len() >= 4,
    ensures
        v == le_u32(bytes@, 0),
{
    bytes[0] as u32 + 256 * (bytes[1] as u32) + 65536 * (bytes[2] as u32) + 16777216 * (
    bytes[3] as u32)
}

impl Partial {
    fn idle() -> (p: Partial)
        ensures
            p@ == ReaderState::idle(),
    {
        Partial {
            phase: Phase::Idle,
            tick_length: 0,
            longest_length: 0,
            angle: 0,
            encoder_count: 0,
            encoders: Vec::new(),
            button_count: 0,
            buttons: Vec::new(),
        }
    }

    fn wanted(&self) -> (n: usize)
        ensures
            n == self@.wanted(),
    {
        match self.phase {
            Phase::Idle => 0,
            Phase::AwaitSentinel => 1,
            Phase::TickLength => 4,
            Phase::LongestLength => 4,
            Phase::Angle => 4,
            Phase::EncoderCount => 4,
            Phase::Encoders => 2,
            Phase::ButtonCount => 2,
            Phase::Reserved => 2,
            Phase::Buttons => 1,
        }
    }

    fn into_frame(self) -> (frame: Frame)
        requires
            self@.frame().wf(),
        ensures
            frame@ == self@.frame(),
    {
        Frame::new(
            self.tick_length,
            self.longest_length,
            self.angle,
            self.encoders,
            self.buttons,
        ).unwrap()
    }

    fn advance(self, bytes: &[u8]) -> (out: (Partial, Progress))
        requires
            self@.wf(),
        ensures
            out.0@ == self@.step(bytes@).0,
            out.1@ == self@.step(bytes@).1,
            out.0@.wf(),
    {
        let mut p = self;
        if p.phase == Phase::Idle {
            return (p, Progress::Pending);
        }
        if bytes.len() < p.wanted() {
            return (Partial::idle(), Progress::Failed(FrameError::ShortRead));
        }
        match p.phase {
            Phase::Idle => {},
            Phase::AwaitSentinel => {
                if bytes[0] == SENTINEL {
                    p.phase = Phase::TickLength;
                }
            },
            Phase::TickLength => {
                p.tick_length = read_u32(bytes);
                p.phase = Phase::LongestLength;
            },
            Phase::LongestLength => {
                p.longest_length = read_u32(bytes);
                p.phase = Phase::Angle;
            },
            Phase::Angle => {
                p.angle = read_u32(bytes);
                p.phase = Phase::EncoderCount;
            },
            Phase::EncoderCount => {
                let count: u32 = read_u32(bytes);
                if count > MAX_ENCODERS as u32 {
                    return (Partial::idle(), Progress::Failed(FrameError::MalformedFrame));
                }
                p.encoder_count = count;
                p.phase = if count == 0 {
                    Phase::ButtonCount
                } else {
                    Phase::Encoders
                };
            },
            Phase::Encoders => {
                p.encoders.push(read_i16(bytes));
                if p.encoders.len() == p.encoder_count as usize {
                    p.phase = Phase::ButtonCount;
                }
            },
            Phase::ButtonCount => {
                let count: u16 = read_u16(bytes);
                if count > MAX_BUTTONS as u16 {
                    return (Partial::idle(), Progress::Failed(FrameError::MalformedFrame));
                }
                p.button_count = count;
                p.phase = Phase::Reserved;
            },
            Phase::Reserved => {
                if p.button_count == 0 {
                    return (Partial::idle(), Progress::Ready(p.into_frame()));
                }
                p.phase = Phase::Buttons;
            },
            Phase::Buttons => {
                p.buttons.push(bytes[0] != 0);
                if p.buttons.len() == p.button_count as usize {
                    return (Partial::idle(), Progress::Ready(p.into_frame()));
                }
            },
        }
        (p, Progress::Pending)
    }
}

/// The frame reader. It keeps the phase of the cycle and the fields read so
/// far, and always in agreement with each other.
pub struct FrameReader {
    partial: Partial,
}

impl View for FrameReader {
    type V = ReaderState;

    closed spec fn view(&self) -> ReaderState {
        self.partial@
    }
}

impl FrameReader {
    #[verifier::type_invariant]
    pub open spec fn well_formed(&self) -> bool {
        self@.wf()
    }

    /// A reader between cycles.
    pub fn new() -> (reader: FrameReader)
        ensures
            reader@ == ReaderState::idle(),
    {
        FrameReader { partial: Partial::idle() }
    }

    /// Starts a cycle, dropping whatever an unfinished one had read, and
    /// returns the trigger byte that the caller must write to the rig.
    pub fn begin(&mut self) -> (trigger: u8)
        ensures
            trigger == TRIGGER,
            final(self)@ == ReaderState::awaiting(),
    {
        let mut fresh = Partial::idle();
        fresh.phase = Phase::AwaitSentinel;
        self.partial = fresh;
        TRIGGER
    }

    /// What the reader waits for.
    pub fn phase(&self) -> (phase: Phase)
        ensures
            phase == self@.phase,
            self@.wf(),
    {
        proof {
            use_type_invariant(self);
        }
        self.partial.phase
    }

    /// How many bytes the caller is to read next; zero between cycles.
    pub fn wanted(&self) -> (n: usize)
        ensures
            n == self@.wanted(),
    {
        self.partial.wanted()
    }

    /// Takes the bytes that the last read brought and moves the cycle on.
    pub fn feed(&mut self, bytes: &[u8]) -> (progress: Progress)
        ensures
            final(self)@ == old(self)@.step(bytes@).0,
            progress@ == old(self)@.step(bytes@).1,
    {
        proof {
            use_type_invariant(&*self);
        }
        let mut partial = Partial::idle();
        core::mem::swap(&mut self.partial, &mut partial);
        let (next, progress) = partial.advance(bytes);
        self.partial = next;
        progress
    }
}

/// Whether the reader state `r` is what reading the first `pos` bytes of the
/// stream `s`, from the start of a cycle, leads to.
spec fn tracks(r: ReaderState, s: Seq<u8>, pos: int) -> bool {
    let k = first_sentinel(s);
    let ec = le_u32(s, k + 13) as int;
    let bc = le_u16(s, k + 17 + 2 * ec) as int;
    let header = r.tick_length == le_u32(s, k + 1) && r.longest_length == le_u32(s, k + 5)
        && r.angle == le_u32(s, k + 9) && r.encoder_count == ec;
    let encoders = r.encoders == Seq::new(r.encoders.len(), |i: int| le_i16(s, k + 17 + 2 * i));
    let buttons = r.buttons == Seq::new(
        r.buttons.len(),
        |i: int| s[k + 21 + 2 * ec + i] != 0,
    );
    &&& 0 <= pos <= s.len()
    &&& r.wf()
    &&& match r.phase {
        Phase::Idle => false,
        Phase::AwaitSentinel => pos <= k,
        Phase::TickLength => pos == k + 1,
        Phase::LongestLength => pos == k + 5 && r.tick_length == le_u32(s, k + 1),
        Phase::Angle => pos == k + 9 && r.tick_length == le_u32(s, k + 1) && r.longest_length
            == le_u32(s, k + 5),
        Phase::EncoderCount => pos == k + 13 && r.tick_length == le_u32(s, k + 1)
            && r.longest_length == le_u32(s, k + 5) && r.angle == le_u32(s, k + 9),
        Phase::Encoders => pos == k + 17 + 2 * r.encoders.len() && header && encoders,
        Phase::ButtonCount => pos == k + 17 + 2 * ec && header && encoders,
        Phase::Reserved => pos == k + 19 + 2 * ec && header && encoders && r.button_count == bc,
        Phase::Buttons => pos == k + 21 + 2 * ec + r.buttons.len() && header && encoders
            && r.button_count == bc && buttons,
    }
}

proof fn lemma_tracked_cycle_decodes(r: ReaderState, s: Seq<u8>, pos: int)
    requires
        tracks(r, s, pos),
    ensures
        r.run(s, pos) == (outcome_of(decoding(s).0), decoding(s).1),
    decreases s.len() - pos,
{
    lemma_first_sentinel_from(s, 0);
    let k = first_sentinel(s);
    let ec = le_u32(s, k + 13) as int;
    let bc = le_u16(s, k + 17 + 2 * ec) as int;
    let want = r.wanted() as int;
    let taken = if s.len() - pos < want {
        s.len() - pos
    } else {
        want
    };
    let chunk = s.subrange(pos, pos + taken);
    let (next, outcome) = r.step(chunk);
    if taken == want {
        if want >= 2 {
            assert(le_u16(chunk, 0) == le_u16(s, pos));
            assert(le_i16(chunk, 0) == le_i16(s, pos));
        }
        if want >= 4 {
            assert(le_u32(chunk, 0) == le_u32(s, pos));
        }
        if r.phase == Phase::AwaitSentinel {
            assert(chunk[0] == s[pos]);
        }
        if r.phase == Phase::EncoderCount {
            assert(r.encoders =~= Seq::new(0, |i: int| le_i16(s, k + 17 + 2 * i)));
        }
        if r.phase == Phase::Encoders {
            let grown = r.encoders.push(le_i16(s, pos));
            assert(grown =~= Seq::new(grown.len(), |i: int| le_i16(s, k + 17 + 2 * i)));
        }
        if r.phase == Phase::Reserved {
            assert(r.buttons =~= Seq::new(0, |i: int| s[k + 21 + 2 * ec + i] != 0));
        }
        if r.phase == Phase::Buttons {
            assert(chunk[0] == s[pos]);
            let grown = r.buttons.push(s[pos] != 0);
            assert(grown =~= Seq::new(grown.len(), |i: int| s[k + 21 + 2 * ec + i] != 0));
        }
    }
    match outcome {
        Outcome::Pending => {
            assert(tracks(next, s, pos + taken));
            lemma_tracked_cycle_decodes(next, s, pos + taken);
        },
        Outcome::Ready(frame) => {
            let got = decoding(s).0;
            assert(got is Ok);
            assert(got->Ok_0.encoders =~= frame.encoders);
            assert(got->Ok_0.buttons =~= frame.buttons);
        },
        Outcome::Failed(error) => {},
    }
}

/// A cycle of the reader decodes the stream: started at the head of a stream
/// and fed what it asks for, the reader ends with exactly the frame or the
/// failure that the wire format assigns to the stream, having read exactly
/// the bytes that the decoding takes.
pub proof fn law_cycle_decodes_stream(s: Seq<u8>)
    ensures
        ReaderState::awaiting().run(s, 0) == (outcome_of(decoding(s).0), decoding(s).1),
{
    lemma_first_sentinel_from(s, 0);
    lemma_tracked_cycle_decodes(ReaderState::awaiting(), s, 0);
}

/// Runs one cycle of the reader over `bytes`, feeding it what it asks for
/// until it reports, and returns the frame or the failure together with the
/// number of bytes that the cycle took. The next cycle starts behind them.
pub fn decode(bytes: &[u8]) -> (out: (Result<Frame, FrameError>, usize))
    ensures
        out.1 == decoding(bytes@).1,
        match out.0 {
            Ok(frame) => decoding(bytes@).0 == Ok::<FrameView, FrameError>(frame@),
            Err(error) => decoding(bytes@).0 == Err::<FrameView, FrameError>(error),
        },
{
    let mut reader = FrameReader::new();
    reader.begin();
    let mut pos: usize = 0;
    proof {
        law_cycle_decodes_stream(bytes@);
    }
    loop
        invariant
            pos <= bytes@.len(),
            reader@.phase != Phase::Idle,
            reader@.run(bytes@, pos as int) == (
                outcome_of(decoding(bytes@).0),
                decoding(bytes@).1,
            ),
        decreases bytes.len() - pos,
    {
        let want: usize = reader.wanted();
        let available: usize = bytes.len() - pos;
        let taken: usize = if available < want {
            available
        } else {
            want
        };
        let progress = reader.feed(slice_subrange(bytes, pos, pos + taken));
        pos = pos + taken;
        match progress {
            Progress::Pending => {},
            Progress::Ready(frame) => {
                return (Ok(frame), pos);
            },
            Progress::Failed(error) => {
                return (Err(error), pos);
            },
        }
    }
}

} // verus!
