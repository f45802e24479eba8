//! Wire frames: a fixed 16-byte header of four big-endian `u32` fields,
//! followed by an opaque body whose length the header's last field gives.
//! Request headers carry a method id, reply headers a status code; the flag
//! word holds the FIRST / EOS / SIGNAL lifecycle bits.

use vstd::prelude::*;

verus! {

/// Byte length of an encoded request header.
pub const REQUEST_FRAME_HEADER_LEN: usize = 16;

/// Byte length of an encoded reply header.
pub const REPLY_FRAME_HEADER_LEN: usize = 16;

/// Bit mask of the EOS flag (bit 0): last frame in this direction for the call.
pub const FLAG_EOS_MASK: u32 = 1;

/// Bit mask of the SIGNAL flag (bit 1): the frame carries no application payload.
pub const FLAG_SIGNAL_MASK: u32 = 2;

/// Bit mask of the FIRST flag (bit 2, requests only): the frame opens a new call.
pub const FLAG_FIRST_MASK: u32 = 4;

/// Errors of the frame codec.
#[derive(Debug, Clone, Copy, PartialEq, Eq, Structural)]
pub enum FrameError {
    /// Fewer than 16 bytes were available to decode a header.
    DecodeBufNotEnough,
    /// The destination buffer is too small to hold an encoded header.
    EncodeBufNotEnough,
}

/// The flag bits a request header can carry.
#[derive(Debug, Clone, Copy, PartialEq, Eq, Structural)]
pub enum RequestFlagBit {
    EOS,
    SIGNAL,
    FIRST,
}

/// The flag bits a reply header can carry.
#[derive(Debug, Clone, Copy, PartialEq, Eq, Structural)]
pub enum ReplyFlagBit {
    EOS,
    SIGNAL,
}

/// True when `bits` has some bit of `mask` set.
pub open spec fn spec_flag_set(bits: u32, mask: u32) -> bool {
    bits & mask != 0
}

/// A bitset of request lifecycle flags, encoded on the wire as one `u32`.
#[derive(Debug, Clone, Copy, PartialEq, Eq, Structural)]
pub struct RequestFlag {
    pub flag: u32,
}

/// A bitset of reply lifecycle flags, encoded on the wire as one `u32`.
#[derive(Debug, Clone, Copy, PartialEq, Eq, Structural)]
pub struct ReplyFlag {
    pub flag: u32,
}

/// Common interface of the two flag bitsets: bits are independently
/// settable, clearable and testable, and the encoding is one 32-bit word.
pub trait FrameFlag: Sized {
    type Bit;

    /// The 32-bit word this bitset encodes to.
    spec fn spec_bits(&self) -> u32;

    /// The single-bit mask a flag bit stands for.
    spec fn spec_mask(bit: Self::Bit) -> u32;

    fn decode(flag: u32) -> (r: Self)
        ensures
            r.spec_bits() == flag,
    ;

    fn encode(&self) -> (r: u32)
        ensures
            r == self.spec_bits(),
    ;

    fn set(self, bit: Self::Bit) -> (r: Self)
        ensures
            r.spec_bits() == (self.spec_bits() | Self::spec_mask(bit)),
    ;

    fn clear(self, bit: Self::Bit) -> (r: Self)
        ensures
            r.spec_bits() == (self.spec_bits() & !Self::spec_mask(bit)),
    ;

    fn is(&self, bit: Self::Bit) -> (r: bool)
        ensures
            r == spec_flag_set(self.spec_bits(), Self::spec_mask(bit)),
    ;
}

impl Default for RequestFlag {
    fn default() -> (r: Self)
        ensures
            r.flag == 0,
    {
        RequestFlag { flag: 0 }
    }
}

impl Default for ReplyFlag {
    fn default() -> (r: Self)
        ensures
            r.flag == 0,
    {
        ReplyFlag { flag: 0 }
    }
}

impl FrameFlag for RequestFlag {
    type Bit = RequestFlagBit;

    open spec fn spec_bits(&self) -> u32 {
        self.flag
    }

    open spec fn spec_mask(bit: RequestFlagBit) -> u32 {
        match bit {
            RequestFlagBit::EOS => FLAG_EOS_MASK,
            RequestFlagBit::SIGNAL => FLAG_SIGNAL_MASK,
            RequestFlagBit::FIRST => FLAG_FIRST_MASK,
        }
    }

    fn decode(flag: u32) -> (r: Self) {
        RequestFlag { flag }
    }

    fn encode(&self) -> (r: u32) {
        self.flag
    }

    fn set(self, bit: RequestFlagBit) -> (r: Self) {
        let mask: u32 = match bit {
            RequestFlagBit::EOS => FLAG_EOS_MASK,
            RequestFlagBit::SIGNAL => FLAG_SIGNAL_MASK,
            RequestFlagBit::FIRST => FLAG_FIRST_MASK,
        };
        RequestFlag { flag: self.flag | mask }
    }

    fn clear(self, bit: RequestFlagBit) -> (r: Self) {
        let mask: u32 = match bit {
            RequestFlagBit::EOS => FLAG_EOS_MASK,
            RequestFlagBit::SIGNAL => FLAG_SIGNAL_MASK,
            RequestFlagBit::FIRST => FLAG_FIRST_MASK,
        };
        RequestFlag { flag: self.flag & !mask }
    }

    fn is(&self, bit: RequestFlagBit) -> (r: bool) {
        let mask: u32 = match bit {
            RequestFlagBit::EOS => FLAG_EOS_MASK,
            RequestFlagBit::SIGNAL => FLAG_SIGNAL_MASK,
            RequestFlagBit::FIRST => FLAG_FIRST_MASK,
        };
        (self.flag & mask) != 0
    }
}

impl FrameFlag for ReplyFlag {
    type Bit = ReplyFlagBit;

    open spec fn spec_bits(&self) -> u32 {
        self.flag
    }

    open spec fn spec_mask(bit: ReplyFlagBit) -> u32 {
        match bit {
            ReplyFlagBit::EOS => FLAG_EOS_MASK,
            ReplyFlagBit::SIGNAL => FLAG_SIGNAL_MASK,
        }
    }

    fn decode(flag: u32) -> (r: Self) {
        ReplyFlag { flag }
    }

    fn encode(&self) -> (r: u32) {
        self.flag
    }

    fn set(self, bit: ReplyFlagBit) -> (r: Self) {
        let mask: u32 = match bit {
            ReplyFlagBit::EOS => FLAG_EOS_MASK,
            ReplyFlagBit::SIGNAL => FLAG_SIGNAL_MASK,
        };
        ReplyFlag { flag: self.flag | mask }
    }

    fn clear(self, bit: ReplyFlagBit) -> (r: Self) {
        let mask: u32 = match bit {
            ReplyFlagBit::EOS => FLAG_EOS_MASK,
            ReplyFlagBit::SIGNAL => FLAG_SIGNAL_MASK,
        };
        ReplyFlag { flag: self.flag & !mask }
    }

    fn is(&self, bit: ReplyFlagBit) -> (r: bool) {
        let mask: u32 = match bit {
            ReplyFlagBit::EOS => FLAG_EOS_MASK,
            ReplyFlagBit::SIGNAL => FLAG_SIGNAL_MASK,
        };
        (self.flag & mask) != 0
    }
}

/// Header of a request frame: caller-assigned call id, lifecycle flags,
/// the target method id and the byte length of the following body.
#[derive(Debug, Clone, Copy, PartialEq, Eq, Structural)]
pub struct RequestHeader {
    pub request_id: u32,
    pub flag: RequestFlag,
    pub method_id: u32,
    pub body_len: u32,
}

/// Header of a reply frame: the call id it answers, lifecycle flags,
/// the application status code and the byte length of the following body.
#[derive(Debug, Clone, Copy, PartialEq, Eq, Structural)]
pub struct ReplyHeader {
    pub request_id: u32,
    pub flag: ReplyFlag,
    pub status_code: u32,
    pub body_len: u32,
}

/// A request frame: header plus opaque body bytes.
#[derive(Debug)]
pub struct RequestFrame {
    pub header: RequestHeader,
    pub body: Vec<u8>,
}

/// A reply frame: header plus opaque body bytes.
#[derive(Debug)]
pub struct ReplyFrame {
    pub header: ReplyHeader,
    pub body: Vec<u8>,
}

/// Mathematical value of a request frame: its header and the body bytes.
pub struct RequestFrameView {
    pub header: RequestHeader,
    pub body: Seq<u8>,
}

/// Mathematical value of a reply frame: its header and the body bytes.
pub struct ReplyFrameView {
    pub header: ReplyHeader,
    pub body: Seq<u8>,
}

impl View for RequestFrame {
    type V = RequestFrameView;

    open spec fn view(&self) -> RequestFrameView {
        RequestFrameView { header: self.header, body: self.body@ }
    }
}

impl View for ReplyFrame {
    type V = ReplyFrameView;

    open spec fn view(&self) -> ReplyFrameView {
        ReplyFrameView { header: self.header, body: self.body@ }
    }
}

impl RequestFrame {
    /// The header's length field agrees with the body.
    pub open spec fn wf(&self) -> bool {
        self.header.body_len == self.body@.len()
    }
}

impl ReplyFrame {
    /// The header's length field agrees with the body.
    pub open spec fn wf(&self) -> bool {
        self.header.body_len == self.body@.len()
    }
}

/// The four big-endian bytes of `x`, most significant first.
pub open spec fn spec_u32_be_bytes(x: u32) -> Seq<u8> {
    seq![(x >> 24) as u8, (x >> 16) as u8, (x >> 8) as u8, x as u8]
}

/// The `u32` read big-endian from four bytes, most significant first.
pub open spec fn spec_u32_from_be(b0: u8, b1: u8, b2: u8, b3: u8) -> u32 {
    (((b0 as u32) << 24) | ((b1 as u32) << 16) | ((b2 as u32) << 8) | (b3 as u32))
}

/// The 16 bytes a request header encodes to.
pub open spec fn spec_encode_request_header(h: RequestHeader) -> Seq<u8> {
    spec_u32_be_bytes(h.request_id) + spec_u32_be_bytes(h.flag.flag)
        + spec_u32_be_bytes(h.method_id) + spec_u32_be_bytes(h.body_len)
}

/// The 16 bytes a reply header encodes to.
pub open spec fn spec_encode_reply_header(h: ReplyHeader) -> Seq<u8> {
    spec_u32_be_bytes(h.request_id) + spec_u32_be_bytes(h.flag.flag)
        + spec_u32_be_bytes(h.status_code) + spec_u32_be_bytes(h.body_len)
}

/// The request header read from the first 16 bytes of `b`. Total: every
/// 16-byte pattern is a legal header.
pub open spec fn spec_decode_request_header(b: Seq<u8>) -> RequestHeader
    recommends
        b.len() >= 16,
{
    RequestHeader {
        request_id: spec_u32_from_be(b[0], b[1], b[2], b[3]),
        flag: (RequestFlag { flag: spec_u32_from_be(b[4], b[5], b[6], b[7]) }),
        method_id: spec_u32_from_be(b[8], b[9], b[10], b[11]),
        body_len: spec_u32_from_be(b[12], b[13], b[14], b[15]),
    }
}

/// The reply header read from the first 16 bytes of `b`.
pub open spec fn spec_decode_reply_header(b: Seq<u8>) -> ReplyHeader
    recommends
        b.len() >= 16,
{
    ReplyHeader {
        request_id: spec_u32_from_be(b[0], b[1], b[2], b[3]),
        flag: (ReplyFlag { flag: spec_u32_from_be(b[4], b[5], b[6], b[7]) }),
        status_code: spec_u32_from_be(b[8], b[9], b[10], b[11]),
        body_len: spec_u32_from_be(b[12], b[13], b[14], b[15]),
    }
}

/// How the three lifecycle bits read on each flag word the stream writers
/// emit: the empty word, FIRST alone, EOS alone, EOS+FIRST, EOS+SIGNAL and
/// EOS+SIGNAL+FIRST.
pub proof fn lemma_flag_words()
    by (bit_vector)
    ensures
        !spec_flag_set(0u32, FLAG_EOS_MASK),
        !spec_flag_set(0u32, FLAG_SIGNAL_MASK),
        !spec_flag_set(0u32, FLAG_FIRST_MASK),
        !spec_flag_set(FLAG_FIRST_MASK, FLAG_EOS_MASK),
        !spec_flag_set(FLAG_FIRST_MASK, FLAG_SIGNAL_MASK),
        spec_flag_set(FLAG_FIRST_MASK, FLAG_FIRST_MASK),
        spec_flag_set(FLAG_EOS_MASK, FLAG_EOS_MASK),
        !spec_flag_set(FLAG_EOS_MASK, FLAG_SIGNAL_MASK),
        !spec_flag_set(FLAG_EOS_MASK, FLAG_FIRST_MASK),
        spec_flag_set(FLAG_EOS_MASK | FLAG_FIRST_MASK, FLAG_EOS_MASK),
        !spec_flag_set(FLAG_EOS_MASK | FLAG_FIRST_MASK, FLAG_SIGNAL_MASK),
        spec_flag_set(FLAG_EOS_MASK | FLAG_FIRST_MASK, FLAG_FIRST_MASK),
        spec_flag_set(FLAG_EOS_MASK | FLAG_SIGNAL_MASK, FLAG_EOS_MASK),
        spec_flag_set(FLAG_EOS_MASK | FLAG_SIGNAL_MASK, FLAG_SIGNAL_MASK),
        !spec_flag_set(FLAG_EOS_MASK | FLAG_SIGNAL_MASK, FLAG_FIRST_MASK),
        spec_flag_set(FLAG_EOS_MASK | FLAG_SIGNAL_MASK | FLAG_FIRST_MASK, FLAG_EOS_MASK),
        spec_flag_set(FLAG_EOS_MASK | FLAG_SIGNAL_MASK | FLAG_FIRST_MASK, FLAG_SIGNAL_MASK),
        spec_flag_set(FLAG_EOS_MASK | FLAG_SIGNAL_MASK | FLAG_FIRST_MASK, FLAG_FIRST_MASK),
{
}

/// Reading a `u32` back from its own big-endian bytes gives the `u32`.
pub proof fn lemma_u32_be_roundtrip(x: u32)
    ensures
        spec_u32_from_be((x >> 24) as u8, (x >> 16) as u8, (x >> 8) as u8, x as u8) == x,
{
    assert(((((x >> 24) as u8) as u32) << 24) | ((((x >> 16) as u8) as u32) << 16)
        | ((((x >> 8) as u8) as u32) << 8) | ((x as u8) as u32) == x) by (bit_vector);
}

/// Writing back the `u32` read big-endian from four bytes gives the same bytes.
pub proof fn lemma_be_bytes_roundtrip(b0: u8, b1: u8, b2: u8, b3: u8)
    ensures
        spec_u32_be_bytes(spec_u32_from_be(b0, b1, b2, b3)) == seq![b0, b1, b2, b3],
{
    let x = spec_u32_from_be(b0, b1, b2, b3);
    assert(((((b0 as u32) << 24) | ((b1 as u32) << 16) | ((b2 as u32) << 8) | (b3 as u32)) >> 24)
        as u8 == b0) by (bit_vector);
    assert(((((b0 as u32) << 24) | ((b1 as u32) << 16) | ((b2 as u32) << 8) | (b3 as u32)) >> 16)
        as u8 == b1) by (bit_vector);
    assert(((((b0 as u32) << 24) | ((b1 as u32) << 16) | ((b2 as u32) << 8) | (b3 as u32)) >> 8)
        as u8 == b2) by (bit_vector);
    assert((((b0 as u32) << 24) | ((b1 as u32) << 16) | ((b2 as u32) << 8) | (b3 as u32)) as u8
        == b3) by (bit_vector);
    assert(spec_u32_be_bytes(x) =~= seq![b0, b1, b2, b3]);
}

/// Decoding an encoded request header gives the header back, for every header.
pub proof fn lemma_request_header_roundtrip(h: RequestHeader)
    ensures
        spec_decode_request_header(spec_encode_request_header(h)) == h,
{
    let b = spec_encode_request_header(h);
    assert(b.len() == 16);
    lemma_u32_be_roundtrip(h.request_id);
    lemma_u32_be_roundtrip(h.flag.flag);
    lemma_u32_be_roundtrip(h.method_id);
    lemma_u32_be_roundtrip(h.body_len);
}

/// Decoding an encoded reply header gives the header back, for every header.
pub proof fn lemma_reply_header_roundtrip(h: ReplyHeader)
    ensures
        spec_decode_reply_header(spec_encode_reply_header(h)) == h,
{
    let b = spec_encode_reply_header(h);
    assert(b.len() == 16);
    lemma_u32_be_roundtrip(h.request_id);
    lemma_u32_be_roundtrip(h.flag.flag);
    lemma_u32_be_roundtrip(h.status_code);
    lemma_u32_be_roundtrip(h.body_len);
}

/// Encoding a header decoded from 16 bytes gives the bytes back: decoding
/// loses nothing.
pub proof fn lemma_request_bytes_roundtrip(b: Seq<u8>)
    requires
        b.len() == 16,
    ensures
        spec_encode_request_header(spec_decode_request_header(b)) == b,
{
    lemma_be_bytes_roundtrip(b[0], b[1], b[2], b[3]);
    lemma_be_bytes_roundtrip(b[4], b[5], b[6], b[7]);
    lemma_be_bytes_roundtrip(b[8], b[9], b[10], b[11]);
    lemma_be_bytes_roundtrip(b[12], b[13], b[14], b[15]);
    assert(spec_encode_request_header(spec_decode_request_header(b)) =~= b);
}

/// Encoding a reply header decoded from 16 bytes gives the bytes back:
/// decoding loses nothing.
pub proof fn lemma_reply_bytes_roundtrip(b: Seq<u8>)
    requires
        b.len() == 16,
    ensures
        spec_encode_reply_header(spec_decode_reply_header(b)) == b,
{
    lemma_be_bytes_roundtrip(b[0], b[1], b[2], b[3]);
    lemma_be_bytes_roundtrip(b[4], b[5], b[6], b[7]);
    lemma_be_bytes_roundtrip(b[8], b[9], b[10], b[11]);
    lemma_be_bytes_roundtrip(b[12], b[13], b[14], b[15]);
    assert(spec_encode_reply_header(spec_decode_reply_header(b)) =~= b);
}

/// Reads the big-endian `u32` at `buf[at..at + 4]`.
fn get_u32_be(buf: &[u8], at: usize) -> (r: u32)
    requires
        at + 4 <= buf@.len(),
    ensures
        r == spec_u32_from_be(buf@[at as int], buf@[at + 1], buf@[at + 2], buf@[at + 3]),
{
    ((buf[at] as u32) << 24) | ((buf[at + 1] as u32) << 16) | ((buf[at + 2] as u32) << 8)
        | (buf[at + 3] as u32)
}

/// Writes `x` big-endian into `buf[at..at + 4]`, leaving the rest unchanged.
fn put_u32_be(buf: &mut Vec<u8>, at: usize, x: u32)
    requires
        at + 4 <= old(buf)@.len(),
    ensures
        final(buf)@.len() == old(buf)@.len(),
        final(buf)@.subrange(at as int, at + 4) == spec_u32_be_bytes(x),
        forall|i: int|
            0 <= i < old(buf)@.len() && !(at <= i < at + 4) ==> final(buf)@[i] == old(buf)@[i],
{
    let n: usize = buf.len();
    assert(at + 4 <= n);
    buf[at] = #[verifier::truncate] ((x >> 24) as u8);
    buf[at + 1] = #[verifier::truncate] ((x >> 16) as u8);
    buf[at + 2] = #[verifier::truncate] ((x >> 8) as u8);
    buf[at + 3] = #[verifier::truncate] (x as u8);
    assert(final(buf)@.subrange(at as int, at + 4) =~= spec_u32_be_bytes(x));
}

impl RequestHeader {
    /// Builds a request header from its four fields.
    pub fn new(request_id: u32, flag: RequestFlag, method_id: u32, body_len: u32) -> (r: Self)
        ensures
            r == (RequestHeader { request_id, flag, method_id, body_len }),
    {
        Self { request_id, flag, method_id, body_len }
    }

    /// True when the EOS bit is set: last request frame of the call.
    pub open spec fn spec_is_eos(&self) -> bool {
        spec_flag_set(self.flag.flag, FLAG_EOS_MASK)
    }

    /// True when the SIGNAL bit is set: the frame carries no payload.
    pub open spec fn spec_is_signal(&self) -> bool {
        spec_flag_set(self.flag.flag, FLAG_SIGNAL_MASK)
    }

    /// True when the FIRST bit is set: the frame opens a new call.
    pub open spec fn spec_is_first(&self) -> bool {
        spec_flag_set(self.flag.flag, FLAG_FIRST_MASK)
    }

    pub fn is_eos(&self) -> (r: bool)
        ensures
            r == self.spec_is_eos(),
    {
        self.flag.is(RequestFlagBit::EOS)
    }

    pub fn is_signal(&self) -> (r: bool)
        ensures
            r == self.spec_is_signal(),
    {
        self.flag.is(RequestFlagBit::SIGNAL)
    }

    pub fn is_first(&self) -> (r: bool)
        ensures
            r == self.spec_is_first(),
    {
        self.flag.is(RequestFlagBit::FIRST)
    }

    /// Decodes a request header from the first 16 bytes of `buf`; fails, and
    /// consumes nothing, when fewer than 16 bytes are available.
    pub fn decode(buf: &[u8]) -> (r: Result<Self, FrameError>)
        ensures
            buf@.len() < 16 ==> r == Err::<RequestHeader, FrameError>(
                FrameError::DecodeBufNotEnough,
            ),
            buf@.len() >= 16 ==> r == Ok::<RequestHeader, FrameError>(
                spec_decode_request_header(buf@),
            ),
    {
        if buf.len() < REQUEST_FRAME_HEADER_LEN {
            Err(FrameError::DecodeBufNotEnough)
        } else {
            Ok(Self {
                request_id: get_u32_be(buf, 0),
                flag: RequestFlag { flag: get_u32_be(buf, 4) },
                method_id: get_u32_be(buf, 8),
                body_len: get_u32_be(buf, 12),
            })
        }
    }

    /// Encodes the header into the first 16 bytes of `buf`; fails, and leaves
    /// `buf` unchanged, when `buf` is shorter than 16 bytes.
    pub fn encode(&self, buf: &mut Vec<u8>) -> (r: Result<(), FrameError>)
        ensures
            old(buf)@.len() < 16 ==> r == Err::<(), FrameError>(FrameError::EncodeBufNotEnough)
                && final(buf)@ == old(buf)@,
            old(buf)@.len() >= 16 ==> {
                &&& r == Ok::<(), FrameError>(())
                &&& final(buf)@.len() == old(buf)@.len()
                &&& final(buf)@.subrange(0, 16) == spec_encode_request_header(*self)
                &&& final(buf)@.subrange(16, old(buf)@.len() as int)
                    == old(buf)@.subrange(16, old(buf)@.len() as int)
            },
    {
        if buf.len() < REQUEST_FRAME_HEADER_LEN {
            Err(FrameError::EncodeBufNotEnough)
        } else {
            put_u32_be(buf, 0, self.request_id);
            put_u32_be(buf, 4, self.flag.flag);
            put_u32_be(buf, 8, self.method_id);
            put_u32_be(buf, 12, self.body_len);
            proof {
                assert(final(buf)@.subrange(0, 16) =~= spec_encode_request_header(*self));
                assert(final(buf)@.subrange(16, old(buf)@.len() as int) =~= old(buf)@.subrange(
                    16,
                    old(buf)@.len() as int,
                ));
            }
            Ok(())
        }
    }

    /// Encodes the header into a fresh 16-byte array.
    pub fn encode_to_array(&self) -> (r: [u8; 16])
        ensures
            r@ == spec_encode_request_header(*self),
    {
        let mut ret = [0u8; 16];
        ret[0] = #[verifier::truncate] ((self.request_id >> 24) as u8);
        ret[1] = #[verifier::truncate] ((self.request_id >> 16) as u8);
        ret[2] = #[verifier::truncate] ((self.request_id >> 8) as u8);
        ret[3] = #[verifier::truncate] (self.request_id as u8);
        ret[4] = #[verifier::truncate] ((self.flag.flag >> 24) as u8);
        ret[5] = #[verifier::truncate] ((self.flag.flag >> 16) as u8);
        ret[6] = #[verifier::truncate] ((self.flag.flag >> 8) as u8);
        ret[7] = #[verifier::truncate] (self.flag.flag as u8);
        ret[8] = #[verifier::truncate] ((self.method_id >> 24) as u8);
        ret[9] = #[verifier::truncate] ((self.method_id >> 16) as u8);
        ret[10] = #[verifier::truncate] ((self.method_id >> 8) as u8);
        ret[11] = #[verifier::truncate] (self.method_id as u8);
        ret[12] = #[verifier::truncate] ((self.body_len >> 24) as u8);
        ret[13] = #[verifier::truncate] ((self.body_len >> 16) as u8);
        ret[14] = #[verifier::truncate] ((self.body_len >> 8) as u8);
        ret[15] = #[verifier::truncate] (self.body_len as u8);
        assert(ret@ =~= spec_encode_request_header(*self));
        ret
    }
}

impl ReplyHeader {
    /// Builds a reply header from its four fields.
    pub fn new(request_id: u32, flag: ReplyFlag, status_code: u32, body_len: u32) -> (r: Self)
        ensures
            r == (ReplyHeader { request_id, flag, status_code, body_len }),
    {
        Self { request_id, flag, status_code, body_len }
    }

    /// True when the EOS bit is set: last reply frame of the call.
    pub open spec fn spec_is_eos(&self) -> bool {
        spec_flag_set(self.flag.flag, FLAG_EOS_MASK)
    }

    /// True when the SIGNAL bit is set: the frame carries no payload.
    pub open spec fn spec_is_signal(&self) -> bool {
        spec_flag_set(self.flag.flag, FLAG_SIGNAL_MASK)
    }

    pub fn is_eos(&self) -> (r: bool)
        ensures
            r == self.spec_is_eos(),
    {
        self.flag.is(ReplyFlagBit::EOS)
    }

    pub fn is_signal(&self) -> (r: bool)
        ensures
            r == self.spec_is_signal(),
    {
        self.flag.is(ReplyFlagBit::SIGNAL)
    }

    /// Decodes a reply header from the first 16 bytes of `buf`; fails, and
    /// consumes nothing, when fewer than 16 bytes are available.
    pub fn decode(buf: &[u8]) -> (r: Result<Self, FrameError>)
        ensures
            buf@.len() < 16 ==> r == Err::<ReplyHeader, FrameError>(FrameError::DecodeBufNotEnough),
            buf@.len() >= 16 ==> r == Ok::<ReplyHeader, FrameError>(spec_decode_reply_header(buf@)),
    {
        if buf.len() < REPLY_FRAME_HEADER_LEN {
            Err(FrameError::DecodeBufNotEnough)
        } else {
            Ok(Self {
                request_id: get_u32_be(buf, 0),
                flag: ReplyFlag { flag: get_u32_be(buf, 4) },
                status_code: get_u32_be(buf, 8),
                body_len: get_u32_be(buf, 12),
            })
        }
    }

    /// Encodes the header into the first 16 bytes of `buf`; fails, and leaves
    /// `buf` unchanged, when `buf` is shorter than 16 bytes.
    pub fn encode(&self, buf: &mut Vec<u8>) -> (r: Result<(), FrameError>)
        ensures
            old(buf)@.len() < 16 ==> r == Err::<(), FrameError>(FrameError::EncodeBufNotEnough)
                && final(buf)@ == old(buf)@,
            old(buf)@.len() >= 16 ==> {
                &&& r == Ok::<(), FrameError>(())
                &&& final(buf)@.len() == old(buf)@.len()
                &&& final(buf)@.subrange(0, 16) == spec_encode_reply_header(*self)
                &&& final(buf)@.subrange(16, old(buf)@.len() as int)
                    == old(buf)@.subrange(16, old(buf)@.len() as int)
            },
    {
        if buf.len() < REPLY_FRAME_HEADER_LEN {
            Err(FrameError::EncodeBufNotEnough)
        } else {
            put_u32_be(buf, 0, self.request_id);
            put_u32_be(buf, 4, self.flag.flag);
            put_u32_be(buf, 8, self.status_code);
            put_u32_be(buf, 12, self.body_len);
            proof {
                assert(final(buf)@.subrange(0, 16) =~= spec_encode_reply_header(*self));
                assert(final(buf)@.subrange(16, old(buf)@.len() as int) =~= old(buf)@.subrange(
                    16,
                    old(buf)@.len() as int,
                ));
            }
            Ok(())
        }
    }

    /// Encodes the header into a fresh 16-byte array.
    pub fn encode_to_array(&self) -> (r: [u8; 16])
        ensures
            r@ == spec_encode_reply_header(*self),
    {
        let mut ret = [0u8; 16];
        ret[0] = #[verifier::truncate] ((self.request_id >> 24) as u8);
        ret[1] = #[verifier::truncate] ((self.request_id >> 16) as u8);
        ret[2] = #[verifier::truncate] ((self.request_id >> 8) as u8);
        ret[3] = #[verifier::truncate] (self.request_id as u8);
        ret[4] = #[verifier::truncate] ((self.flag.flag >> 24) as u8);
        ret[5] = #[verifier::truncate] ((self.flag.flag >> 16) as u8);
        ret[6] = #[verifier::truncate] ((self.flag.flag >> 8) as u8);
        ret[7] = #[verifier::truncate] (self.flag.flag as u8);
        ret[8] = #[verifier::truncate] ((self.status_code >> 24) as u8);
        ret[9] = #[verifier::truncate] ((self.status_code >> 16) as u8);
        ret[10] = #[verifier::truncate] ((self.status_code >> 8) as u8);
        ret[11] = #[verifier::truncate] (self.status_code as u8);
        ret[12] = #[verifier::truncate] ((self.body_len >> 24) as u8);
        ret[13] = #[verifier::truncate] ((self.body_len >> 16) as u8);
        ret[14] = #[verifier::truncate] ((self.body_len >> 8) as u8);
        ret[15] = #[verifier::truncate] (self.body_len as u8);
        assert(ret@ =~= spec_encode_reply_header(*self));
        ret
    }
}

} // verus!
