//! The frame that the rig sends once per poll, and its wire format.
//!
//! On the wire a frame is the sentinel byte, then little-endian fields in this
//! order: tick length (4 bytes), longest tick length (4), steering angle as a
//! binary32 number (4), encoder count (4), one signed 16-bit value per
//! encoder, button count (2), a reserved field (2), and one byte per button,
//! non-zero meaning pressed.

use vstd::prelude::*;

verus! {

/// The byte that marks the start of a frame.
pub const SENTINEL: u8 = 0xFF;

/// Most encoders that a frame may carry.
pub const MAX_ENCODERS: usize = 4;

/// Most buttons that a frame may carry.
pub const MAX_BUTTONS: usize = 6;

/// Why a poll cycle produced no frame.
#[derive(Debug, Clone, Copy, PartialEq, Eq, Structural)]
pub enum FrameError {
    /// A count in the frame exceeds the capacity of its array.
    MalformedFrame,
    /// The source returned fewer bytes than a field needs.
    ShortRead,
}

/// One decoded frame. The counts of the wire format are the lengths of
/// `encoders` and `buttons`, which never exceed their capacities.
#[derive(Debug, PartialEq, Eq)]
pub struct Frame {
    tick_length: u32,
    longest_length: u32,
    angle: u32,
    encoders: Vec<i16>,
    buttons: Vec<bool>,
}

/// What a frame holds, as plain values.
pub struct FrameView {
    /// Duration of the rig's last tick.
    pub tick_length: u32,
    /// Longest tick duration that the rig has seen.
    pub longest_length: u32,
    /// Bit pattern of the steering angle, a binary32 number.
    pub angle: u32,
    /// Encoder positions, by channel.
    pub encoders: Seq<i16>,
    /// Button levels, by channel.
    pub buttons: Seq<bool>,
}

/// The unsigned 16-bit value stored little-endian at `s[at..at + 2]`.
pub open spec fn le_u16(s: Seq<u8>, at: int) -> u16 {
    (s[at] + 256 * s[at + 1]) as u16
}

/// The signed 16-bit value stored little-endian, in two's complement, at
/// `s[at..at + 2]`.
pub open spec fn le_i16(s: Seq<u8>, at: int) -> i16 {
    let u = le_u16(s, at);
    (if u >= 0x8000 { u - 0x1_0000 } else { u as int }) as i16
}

/// The unsigned 32-bit value stored little-endian at `s[at..at + 4]`.
pub open spec fn le_u32(s: Seq<u8>, at: int) -> u32 {
    (s[at] + 256 * s[at + 1] + 65536 * s[at + 2] + 16777216 * s[at + 3]) as u32
}

/// The two bytes that store `v` little-endian.
pub open spec fn u16_bytes(v: u16) -> Seq<u8> {
    seq![(v % 256) as u8, (v / 256) as u8]
}

/// The two bytes that store `v` little-endian, in two's complement.
pub open spec fn i16_bytes(v: i16) -> Seq<u8> {
    u16_bytes((if v < 0 { v + 0x1_0000 } else { v as int }) as u16)
}

/// The four bytes that store `v` little-endian.
pub open spec fn u32_bytes(v: u32) -> Seq<u8> {
    seq![
        (v % 256) as u8,
        (v / 256 % 256) as u8,
        (v / 65536 % 256) as u8,
        (v / 16777216) as u8,
    ]
}

/// The bytes that store the encoder values one after the other.
pub open spec fn encoders_bytes(encoders: Seq<i16>) -> Seq<u8> {
    Seq::new(2 * encoders.len(), |i: int| i16_bytes(encoders[i / 2])[i % 2])
}

/// The bytes that store the button levels: 1 for pressed, 0 for released.
pub open spec fn buttons_bytes(buttons: Seq<bool>) -> Seq<u8> {
    Seq::new(buttons.len(), |i: int| if buttons[i] { 1u8 } else { 0u8 })
}

impl FrameView {
    /// Neither array holds more than its capacity.
    pub open spec fn wf(self) -> bool {
        self.encoders.len() <= MAX_ENCODERS && self.buttons.len() <= MAX_BUTTONS
    }

    /// The frame on the wire, sentinel included, with a zero reserved field.
    pub open spec fn encoding(self) -> Seq<u8> {
        seq![SENTINEL] + u32_bytes(self.tick_length) + u32_bytes(self.longest_length) + u32_bytes(
            self.angle,
        ) + u32_bytes(self.encoders.len() as u32) + encoders_bytes(self.encoders) + u16_bytes(
            self.buttons.len() as u16,
        ) + u16_bytes(0) + buttons_bytes(self.buttons)
    }
}

/// Index of the first sentinel byte at or after `from`, or the length of `s`
/// if there is none.
pub open spec fn first_sentinel_from(s: Seq<u8>, from: int) -> int
    decreases s.len() - from,
{
    if from < 0 || from >= s.len() {
        s.len() as int
    } else if s[from] == SENTINEL {
        from
    } else {
        first_sentinel_from(s, from + 1)
    }
}

/// Index of the first sentinel byte of `s`, or the length of `s` if there is
/// none.
pub open spec fn first_sentinel(s: Seq<u8>) -> int {
    first_sentinel_from(s, 0)
}

/// What decoding the byte stream `s` yields, and how many bytes of `s` it
/// takes.
///
/// Bytes before the first sentinel are skipped. A stream that ends before the
/// frame does is a short read and is taken whole. A count above its capacity
/// makes the frame malformed; decoding then stops right behind that count.
pub open spec fn decoding(s: Seq<u8>) -> (Result<FrameView, FrameError>, int) {
    let k = first_sentinel(s);
    let n = s.len() as int;
    if n < k + 17 {
        (Err(FrameError::ShortRead), n)
    } else {
        let encoder_count = le_u32(s, k + 13) as int;
        if encoder_count > MAX_ENCODERS {
            (Err(FrameError::MalformedFrame), k + 17)
        } else if n < k + 19 + 2 * encoder_count {
            (Err(FrameError::ShortRead), n)
        } else {
            let button_count = le_u16(s, k + 17 + 2 * encoder_count) as int;
            if button_count > MAX_BUTTONS {
                (Err(FrameError::MalformedFrame), k + 19 + 2 * encoder_count)
            } else if n < k + 21 + 2 * encoder_count + button_count {
                (Err(FrameError::ShortRead), n)
            } else {
                (
                    Ok(
                        FrameView {
                            tick_length: le_u32(s, k + 1),
                            longest_length: le_u32(s, k + 5),
                            angle: le_u32(s, k + 9),
                            encoders: Seq::new(
                                encoder_count as nat,
                                |i: int| le_i16(s, k + 17 + 2 * i),
                            ),
                            buttons: Seq::new(
                                button_count as nat,
                                |i: int| s[k + 21 + 2 * encoder_count + i] != 0,
                            ),
                        },
                    ),
                    k + 21 + 2 * encoder_count + button_count,
                )
            }
        }
    }
}

/// Whether no byte of `s` is the sentinel.
pub open spec fn sentinel_free(s: Seq<u8>) -> bool {
    forall|j: int| 0 <= j < s.len() ==> s[j] != SENTINEL
}

/// `first_sentinel_from` finds the first sentinel at or after `from`, and
/// stops at the end of the stream if there is none.
pub proof fn lemma_first_sentinel_from(s: Seq<u8>, from: int)
    requires
        0 <= from <= s.len(),
    ensures
        from <= first_sentinel_from(s, from) <= s.len(),
        forall|j: int| from <= j < first_sentinel_from(s, from) ==> s[j] != SENTINEL,
        first_sentinel_from(s, from) < s.len() ==> s[first_sentinel_from(s, from)] == SENTINEL,
    decreases s.len() - from,
{
    if from < s.len() && s[from] != SENTINEL {
        lemma_first_sentinel_from(s, from + 1);
    }
}

/// An index behind which no sentinel lies, and which holds one unless it is
/// the end of the stream, is what `first_sentinel_from` returns.
pub proof fn lemma_first_sentinel_is(s: Seq<u8>, from: int, k: int)
    requires
        0 <= from <= k <= s.len(),
        forall|j: int| from <= j < k ==> s[j] != SENTINEL,
        k < s.len() ==> s[k] == SENTINEL,
    ensures
        first_sentinel_from(s, from) == k,
    decreases k - from,
{
    if from < k {
        lemma_first_sentinel_is(s, from + 1, k);
    }
}

proof fn lemma_u32_bytes_read_back(s: Seq<u8>, at: int, v: u32)
    requires
        0 <= at,
        at + 4 <= s.len(),
        s.subrange(at, at + 4) == u32_bytes(v),
    ensures
        le_u32(s, at) == v,
{
    let part = s.subrange(at, at + 4);
    assert(part[0] == s[at] && part[1] == s[at + 1] && part[2] == s[at + 2] && part[3] == s[at
        + 3]);
}

proof fn lemma_u16_bytes_read_back(s: Seq<u8>, at: int, v: u16)
    requires
        0 <= at,
        at + 2 <= s.len(),
        s.subrange(at, at + 2) == u16_bytes(v),
    ensures
        le_u16(s, at) == v,
{
    let part = s.subrange(at, at + 2);
    assert(part[0] == s[at] && part[1] == s[at + 1]);
}

proof fn lemma_i16_bytes_read_back(s: Seq<u8>, at: int, v: i16)
    requires
        0 <= at,
        at + 2 <= s.len(),
        s.subrange(at, at + 2) == i16_bytes(v),
    ensures
        le_i16(s, at) == v,
{
    let u = (if v < 0 { v + 0x1_0000 } else { v as int }) as u16;
    lemma_u16_bytes_read_back(s, at, u);
}

/// Decoding takes a part of the stream, and at least one byte unless the
/// stream is empty, so that cycle after cycle a stream is used up. A frame
/// that it yields is well formed.
pub proof fn law_decoding_makes_progress(s: Seq<u8>)
    ensures
        0 <= decoding(s).1 <= s.len(),
        s.len() > 0 ==> decoding(s).1 > 0,
        decoding(s).0 matches Ok(frame) ==> frame.wf(),
{
    lemma_first_sentinel_from(s, 0);
}

/// Whether the bytes `e` are a wire image of the frame `f`: the sentinel,
/// then every field of `f` at its place. The reserved field may hold
/// anything, and so may the byte of a pressed button, as long as it is not
/// zero.
pub open spec fn is_image_of(e: Seq<u8>, f: FrameView) -> bool {
    let ec = f.encoders.len() as int;
    let bc = f.buttons.len() as int;
    &&& e.len() == 21 + 2 * ec + bc
    &&& e[0] == SENTINEL
    &&& le_u32(e, 1) == f.tick_length
    &&& le_u32(e, 5) == f.longest_length
    &&& le_u32(e, 9) == f.angle
    &&& le_u32(e, 13) == ec
    &&& forall|i: int| 0 <= i < ec ==> le_i16(e, 17 + 2 * i) == f.encoders[i]
    &&& le_u16(e, 17 + 2 * ec) == bc
    &&& forall|i: int| 0 <= i < bc ==> (e[21 + 2 * ec + i] != 0) == f.buttons[i]
}

/// The encoding of a well-formed frame is a wire image of it.
pub proof fn lemma_encoding_is_image(f: FrameView)
    requires
        f.wf(),
    ensures
        is_image_of(f.encoding(), f),
{
    let e = f.encoding();
    let ec = f.encoders.len() as int;
    let bc = f.buttons.len() as int;
    assert(e.subrange(1, 5) =~= u32_bytes(f.tick_length));
    assert(e.subrange(5, 9) =~= u32_bytes(f.longest_length));
    assert(e.subrange(9, 13) =~= u32_bytes(f.angle));
    assert(e.subrange(13, 17) =~= u32_bytes(ec as u32));
    lemma_u32_bytes_read_back(e, 1, f.tick_length);
    lemma_u32_bytes_read_back(e, 5, f.longest_length);
    lemma_u32_bytes_read_back(e, 9, f.angle);
    lemma_u32_bytes_read_back(e, 13, ec as u32);
    assert forall|i: int| 0 <= i < ec implies le_i16(e, 17 + 2 * i) == f.encoders[i] by {
        let at = 17 + 2 * i;
        assert(e[at] == encoders_bytes(f.encoders)[2 * i]);
        assert(e[at + 1] == encoders_bytes(f.encoders)[2 * i + 1]);
        assert(e.subrange(at, at + 2) =~= i16_bytes(f.encoders[i]));
        lemma_i16_bytes_read_back(e, at, f.encoders[i]);
    }
    assert(e.subrange(17 + 2 * ec, 19 + 2 * ec) =~= u16_bytes(bc as u16));
    lemma_u16_bytes_read_back(e, 17 + 2 * ec, bc as u16);
    assert forall|i: int| 0 <= i < bc implies (e[21 + 2 * ec + i] != 0) == f.buttons[i] by {
        assert(e[21 + 2 * ec + i] == buttons_bytes(f.buttons)[i]);
    }
}

/// Decoding finds a wire image of a well-formed frame behind any run of
/// bytes that holds no sentinel, returns exactly that frame, and takes the
/// stream up to the image's last byte, whatever follows.
pub proof fn law_decoding_finds_image(junk: Seq<u8>, e: Seq<u8>, f: FrameView, tail: Seq<u8>)
    requires
        f.wf(),
        sentinel_free(junk),
        is_image_of(e, f),
    ensures
        decoding(junk + e + tail) == (
            Ok::<FrameView, FrameError>(f),
            (junk.len() + e.len()) as int,
        ),
{
    let s = junk + e + tail;
    let k = junk.len() as int;
    let ec = f.encoders.len() as int;
    let bc = f.buttons.len() as int;
    assert forall|j: int| 0 <= j < e.len() implies s[k + j] == e[j] by {}
    assert(s[k] == e[0]);
    lemma_first_sentinel_is(s, 0, k);
    assert(le_u32(s, k + 1) == le_u32(e, 1));
    assert(le_u32(s, k + 5) == le_u32(e, 5));
    assert(le_u32(s, k + 9) == le_u32(e, 9));
    assert(le_u32(s, k + 13) == le_u32(e, 13));
    assert(le_u16(s, k + 17 + 2 * ec) == le_u16(e, 17 + 2 * ec));
    let got = decoding(s).0;
    assert(got is Ok);
    assert(got->Ok_0.encoders =~= f.encoders) by {
        assert forall|i: int| 0 <= i < ec implies le_i16(s, k + 17 + 2 * i) == f.encoders[i] by {
            assert(le_i16(s, k + 17 + 2 * i) == le_i16(e, 17 + 2 * i));
        }
    }
    assert(got->Ok_0.buttons =~= f.buttons) by {
        assert forall|i: int| 0 <= i < bc implies (s[k + 21 + 2 * ec + i] != 0) == f.buttons[i] by {
            assert(s[k + 21 + 2 * ec + i] == e[21 + 2 * ec + i]);
        }
    }
}

/// Decoding finds the encoding of a well-formed frame behind any run of bytes
/// that holds no sentinel, and returns exactly that frame.
pub proof fn law_decoding_finds_frame(junk: Seq<u8>, f: FrameView, tail: Seq<u8>)
    requires
        f.wf(),
        sentinel_free(junk),
    ensures
        decoding(junk + f.encoding() + tail) == (
            Ok::<FrameView, FrameError>(f),
            (junk.len() + f.encoding().len()) as int,
        ),
{
    lemma_encoding_is_image(f);
    law_decoding_finds_image(junk, f.encoding(), f, tail);
}

/// Decoding the encoding of a well-formed frame gives the frame back, field
/// by field, and takes the whole encoding.
pub proof fn law_encode_decode_round_trip(f: FrameView)
    requires
        f.wf(),
    ensures
        decoding(f.encoding()) == (Ok::<FrameView, FrameError>(f), f.encoding().len() as int),
{
    law_decoding_finds_frame(Seq::empty(), f, Seq::empty());
    assert(Seq::<u8>::empty() + f.encoding() + Seq::<u8>::empty() =~= f.encoding());
}

/// A frame that announces more encoders than there are channels is malformed,
/// and decoding stops right behind the count.
pub proof fn law_excess_encoder_count_is_malformed(
    junk: Seq<u8>,
    tick_length: u32,
    longest_length: u32,
    angle: u32,
    encoder_count: u32,
    tail: Seq<u8>,
)
    requires
        sentinel_free(junk),
        encoder_count > MAX_ENCODERS,
    ensures
        decoding(
            junk + seq![SENTINEL] + u32_bytes(tick_length) + u32_bytes(longest_length) + u32_bytes(
                angle,
            ) + u32_bytes(encoder_count) + tail,
        ) == (Err::<FrameView, FrameError>(FrameError::MalformedFrame), (junk.len() + 17) as int),
{
    let s = junk + seq![SENTINEL] + u32_bytes(tick_length) + u32_bytes(longest_length) + u32_bytes(
        angle,
    ) + u32_bytes(encoder_count) + tail;
    let k = junk.len() as int;
    assert(s[k] == SENTINEL);
    lemma_first_sentinel_is(s, 0, k);
    assert(s.subrange(k + 13, k + 17) =~= u32_bytes(encoder_count));
    lemma_u32_bytes_read_back(s, k + 13, encoder_count);
}

/// A frame that announces more buttons than there are channels is malformed,
/// and decoding stops right behind the count.
pub proof fn law_excess_button_count_is_malformed(
    junk: Seq<u8>,
    tick_length: u32,
    longest_length: u32,
    angle: u32,
    encoders: Seq<i16>,
    button_count: u16,
    tail: Seq<u8>,
)
    requires
        sentinel_free(junk),
        encoders.len() <= MAX_ENCODERS,
        button_count > MAX_BUTTONS,
    ensures
        decoding(
            junk + seq![SENTINEL] + u32_bytes(tick_length) + u32_bytes(longest_length) + u32_bytes(
                angle,
            ) + u32_bytes(encoders.len() as u32) + encoders_bytes(encoders) + u16_bytes(
                button_count,
            ) + tail,
        ) == (
            Err::<FrameView, FrameError>(FrameError::MalformedFrame),
            (junk.len() + 19 + 2 * encoders.len()) as int,
        ),
{
    let s = junk + seq![SENTINEL] + u32_bytes(tick_length) + u32_bytes(longest_length) + u32_bytes(
        angle,
    ) + u32_bytes(encoders.len() as u32) + encoders_bytes(encoders) + u16_bytes(button_count)
        + tail;
    let k = junk.len() as int;
    let ec = encoders.len() as int;
    assert(s[k] == SENTINEL);
    lemma_first_sentinel_is(s, 0, k);
    assert(s.subrange(k + 13, k + 17) =~= u32_bytes(ec as u32));
    lemma_u32_bytes_read_back(s, k + 13, ec as u32);
    assert(s.subrange(k + 17 + 2 * ec, k + 19 + 2 * ec) =~= u16_bytes(button_count));
    lemma_u16_bytes_read_back(s, k + 17 + 2 * ec, button_count);
}

/// After a malformed frame, decoding what is left of the stream finds the
/// next well-formed frame, provided that no sentinel byte lies between the
/// point where decoding stopped and that frame.
pub proof fn law_resynchronizes_after_malformed_frame(
    s: Seq<u8>,
    junk: Seq<u8>,
    f: FrameView,
    tail: Seq<u8>,
)
    requires
        decoding(s).0 == Err::<FrameView, FrameError>(FrameError::MalformedFrame),
        f.wf(),
        sentinel_free(junk),
        s.skip(decoding(s).1) == junk + f.encoding() + tail,
    ensures
        0 <= decoding(s).1 <= s.len(),
        decoding(s.skip(decoding(s).1)) == (
            Ok::<FrameView, FrameError>(f),
            (junk.len() + f.encoding().len()) as int,
        ),
{
    lemma_first_sentinel_from(s, 0);
    law_decoding_finds_frame(junk, f, tail);
}

impl View for Frame {
    type V = FrameView;

    closed spec fn view(&self) -> FrameView {
        FrameView {
            tick_length: self.tick_length,
            longest_length: self.longest_length,
            angle: self.angle,
            encoders: self.encoders@,
            buttons: self.buttons@,
        }
    }
}

impl Frame {
    #[verifier::type_invariant]
    pub open spec fn well_formed(&self) -> bool {
        self@.wf()
    }

    /// A frame of the given fields, if both arrays are within capacity.
    pub fn new(
        tick_length: u32,
        longest_length: u32,
        angle: u32,
        encoders: Vec<i16>,
        buttons: Vec<bool>,
    ) -> (frame: Option<Frame>)
        ensures
            frame is Some <==> encoders@.len() <= MAX_ENCODERS && buttons@.len() <= MAX_BUTTONS,
            frame is Some ==> frame->0@ == (FrameView {
                tick_length,
                longest_length,
                angle,
                encoders: encoders@,
                buttons: buttons@,
            }),
    {
        if encoders.len() <= MAX_ENCODERS && buttons.len() <= MAX_BUTTONS {
            Some(Frame { tick_length, longest_length, angle, encoders, buttons })
        } else {
            None
        }
    }

    /// Duration of the rig's last tick.
    pub fn tick_length(&self) -> (v: u32)
        ensures
            v == self@.tick_length,
    {
        self.tick_length
    }

    /// Longest tick duration that the rig has seen.
    pub fn longest_length(&self) -> (v: u32)
        ensures
            v == self@.longest_length,
    {
        self.longest_length
    }

    /// Bit pattern of the steering angle.
    pub fn angle(&self) -> (v: u32)
        ensures
            v == self@.angle,
    {
        self.angle
    }

    /// Encoder positions, by channel; at most `MAX_ENCODERS` of them.
    pub fn encoders(&self) -> (v: &Vec<i16>)
        ensures
            v@ == self@.encoders,
            v@.len() <= MAX_ENCODERS,
    {
        proof {
            use_type_invariant(self);
        }
        &self.encoders
    }

    /// Button levels, by channel; at most `MAX_BUTTONS` of them.
    pub fn buttons(&self) -> (v: &Vec<bool>)
        ensures
            v@ == self@.buttons,
            v@.len() <= MAX_BUTTONS,
    {
        proof {
            use_type_invariant(self);
        }
        &self.buttons
    }
}


fn push_u16(out: &mut Vec<u8>, v: u16)
    ensures
        final(out)@ == old(out)@ + u16_bytes(v),
{
    out.push((v % 256) as u8);
    out.push((v / 256) as u8);
    assert(out@ =~= old(out)@ + u16_bytes(v));
}

fn push_i16(out: &mut Vec<u8>, v: i16)
    ensures
        final(out)@ == old(out)@ + i16_bytes(v),
{
    let u: u16 = if v < 0 {
        (v as i32 + 0x1_0000) as u16
    } else {
        v as u16
    };
    push_u16(out, u);
}

fn push_u32(out: &mut Vec<u8>, v: u32)
    ensures
        final(out)@ == old(out)@ + u32_bytes(v),
{
    out.push((v % 256) as u8);
    out.push((v / 256 % 256) as u8);
    out.push((v / 65536 % 256) as u8);
    out.push((v / 16777216) as u8);
    assert(out@ =~= old(out)@ + u32_bytes(v));
}

proof fn lemma_encoders_bytes_push(encoders: Seq<i16>, v: i16)
    ensures
        encoders_bytes(encoders.push(v)) == encoders_bytes(encoders) + i16_bytes(v),
{
    assert(encoders_bytes(encoders.push(v)) =~= encoders_bytes(encoders) + i16_bytes(v));
}

proof fn lemma_buttons_bytes_push(buttons: Seq<bool>, v: bool)
    ensures
        buttons_bytes(buttons.push(v)) == buttons_bytes(buttons) + seq![if v { 1u8 } else { 0u8 }],
{
    assert(buttons_bytes(buttons.push(v)) =~= buttons_bytes(buttons) + seq![
        if v { 1u8 } else { 0u8 },
    ]);
}

impl Frame {
    /// The frame as it travels on the wire.
    pub fn encode(&self) -> (bytes: Vec<u8>)
        ensures
            bytes@ == self@.encoding(),
    {
        proof {
            use_type_invariant(self);
        }
        let mut out: Vec<u8> = Vec::new();
        out.push(SENTINEL);
        push_u32(&mut out, self.tick_length);
        push_u32(&mut out, self.longest_length);
        push_u32(&mut out, self.angle);
        push_u32(&mut out, self.encoders.len() as u32);
        let ghost head = out@;
        assert(head =~= seq![SENTINEL] + u32_bytes(self@.tick_length) + u32_bytes(
            self@.longest_length,
        ) + u32_bytes(self@.angle) + u32_bytes(self@.encoders.len() as u32));
        let mut i: usize = 0;
        assert(encoders_bytes(self@.encoders.take(0)) =~= Seq::<u8>::empty());
        assert(out@ =~= head + encoders_bytes(self@.encoders.take(0)));
        while i < self.encoders.len()
            invariant
                i <= self.encoders.len(),
                self.encoders@ == self@.encoders,
                out@ == head + encoders_bytes(self@.encoders.take(i as int)),
            decreases self.encoders.len() - i,
        {
            let ghost before = self@.encoders.take(i as int);
            push_i16(&mut out, self.encoders[i]);
            proof {
                lemma_encoders_bytes_push(before, self.encoders@[i as int]);
                assert(self@.encoders.take(i + 1) =~= before.push(self.encoders@[i as int]));
                assert(out@ =~= head + encoders_bytes(self@.encoders.take(i + 1)));
            }
            i += 1;
        }
        assert(self@.encoders.take(i as int) =~= self@.encoders);
        push_u16(&mut out, self.buttons.len() as u16);
        push_u16(&mut out, 0);
        let ghost middle = out@;
        let mut j: usize = 0;
        assert(buttons_bytes(self@.buttons.take(0)) =~= Seq::<u8>::empty());
        assert(out@ =~= middle + buttons_bytes(self@.buttons.take(0)));
        while j < self.buttons.len()
            invariant
                j <= self.buttons.len(),
                self.buttons@ == self@.buttons,
                out@ == middle + buttons_bytes(self@.buttons.take(j as int)),
            decreases self.buttons.len() - j,
        {
            let ghost before = self@.buttons.take(j as int);
            let level: bool = self.buttons[j];
            out.push(if level { 1u8 } else { 0u8 });
            proof {
                lemma_buttons_bytes_push(before, level);
                assert(self@.buttons.take(j + 1) =~= before.push(level));
                assert(out@ =~= middle + buttons_bytes(self@.buttons.take(j + 1)));
            }
            j += 1;
        }
        assert(self@.buttons.take(j as int) =~= self@.buttons);
        out
    }
}

} // verus!
