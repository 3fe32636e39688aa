//! The wire frame: prefix, length, opcode, payload, checksum (low, high), suffix.
use vstd::prelude::*;

verus! {

/// Synchronisation byte that opens every frame.
pub const SYNC1: u8 = 0xAA;

/// Synchronisation byte that closes every frame.
pub const SYNC2: u8 = 0xBB;

/// Largest payload a frame can carry.
pub const MAX_DATA_SIZE: usize = 255;

/// Opcode of the console channel, the only one in use.
pub const CONSOLE_OPCODE: u8 = 0xC0;

/// Reasons for which a payload cannot be framed, or raw bytes are not a frame.
#[derive(Debug, Clone, Copy, PartialEq, Eq, Structural)]
pub enum FrameError {
    EmptyPayload,
    PayloadTooLarge,
    NonAsciiPayload,
    /// The buffer ends before the frame that its length byte announces.
    Truncated,
    BadPrefix,
    BadSuffix,
    BadChecksum,
    BadEncoding,
}

/// CRC-16/IBM-3740 (polynomial 0x1021, init 0xFFFF, no reflection) of a byte sequence.
pub uninterp spec fn crc16_ibm_3740(bytes: Seq<u8>) -> u16;

/// Relies on `crc::Crc::<u16>::checksum` built from `crc::CRC_16_IBM_3740`:
/// the checksum is a function of the bytes alone.
#[verifier::external_body]
fn crc16(bytes: &[u8]) -> (r: u16)
    ensures
        r == crc16_ibm_3740(bytes@),
{
    let algorithm = crc::Crc::<u16>::new(&crc::CRC_16_IBM_3740);
    algorithm.checksum(bytes)
}

pub open spec fn is_ascii_bytes(s: Seq<u8>) -> bool {
    forall|i: int| 0 <= i < s.len() ==> s[i] < 0x80
}

/// The checksum a frame carries: taken over the opcode followed by the payload.
pub open spec fn frame_checksum(opcode: u8, payload: Seq<u8>) -> u16 {
    crc16_ibm_3740(seq![opcode] + payload)
}

pub open spec fn crc_low_byte(c: u16) -> u8 {
    (c % 256) as u8
}

pub open spec fn crc_high_byte(c: u16) -> u8 {
    (c / 256) as u8
}

pub open spec fn crc_word(low: u8, high: u8) -> u16 {
    (high as int * 256 + low as int) as u16
}

/// The fields of a frame as plain values.
pub ghost struct FrameView {
    pub prefix: u8,
    pub length: u8,
    pub opcode: u8,
    pub data: Seq<u8>,
    pub crc_low: u8,
    pub crc_high: u8,
    pub suffix: u8,
}

impl FrameView {
    /// The length byte agrees with the payload.
    pub open spec fn wf(self) -> bool {
        self.data.len() == self.length as nat
    }

    pub open spec fn transmitted_crc(self) -> u16 {
        crc_word(self.crc_low, self.crc_high)
    }

    /// The bytes of the frame in wire order.
    pub open spec fn bytes(self) -> Seq<u8> {
        seq![self.prefix, self.length, self.opcode] + self.data + seq![
            self.crc_low,
            self.crc_high,
            self.suffix,
        ]
    }

    /// The four validity checks, in the order in which they are reported.
    pub open spec fn check(self) -> Result<(), FrameError> {
        if self.prefix != SYNC1 {
            Err(FrameError::BadPrefix)
        } else if self.suffix != SYNC2 {
            Err(FrameError::BadSuffix)
        } else if self.transmitted_crc() != frame_checksum(self.opcode, self.data) {
            Err(FrameError::BadChecksum)
        } else if !is_ascii_bytes(self.data) {
            Err(FrameError::BadEncoding)
        } else {
            Ok(())
        }
    }

    /// The frame after loading `payload`: length and checksum follow it.
    pub open spec fn with_payload(self, payload: Seq<u8>) -> FrameView {
        let c = frame_checksum(self.opcode, payload);
        FrameView {
            prefix: self.prefix,
            length: payload.len() as u8,
            opcode: self.opcode,
            data: payload,
            crc_low: crc_low_byte(c),
            crc_high: crc_high_byte(c),
            suffix: self.suffix,
        }
    }
}

/// A fresh frame on the console channel with no payload.
pub open spec fn empty_frame() -> FrameView {
    FrameView {
        prefix: SYNC1,
        length: 0,
        opcode: CONSOLE_OPCODE,
        data: seq![],
        crc_low: 0,
        crc_high: 0,
        suffix: SYNC2,
    }
}

/// Why a payload cannot be framed, if it cannot.
pub open spec fn payload_error(payload: Seq<u8>) -> Option<FrameError> {
    if payload.len() == 0 {
        Some(FrameError::EmptyPayload)
    } else if payload.len() > MAX_DATA_SIZE {
        Some(FrameError::PayloadTooLarge)
    } else if !is_ascii_bytes(payload) {
        Some(FrameError::NonAsciiPayload)
    } else {
        None
    }
}

/// The wire bytes of a frame carrying `payload`.
pub open spec fn encoded(payload: Seq<u8>) -> Seq<u8> {
    empty_frame().with_payload(payload).bytes()
}

/// What framing `payload` gives.
pub open spec fn encode_result(payload: Seq<u8>) -> Result<Seq<u8>, FrameError> {
    match payload_error(payload) {
        Some(e) => Err(e),
        None => Ok(encoded(payload)),
    }
}

/// The buffer holds every byte of the frame that its length byte announces.
pub open spec fn frame_complete(raw: Seq<u8>) -> bool {
    raw.len() >= 3 && raw.len() >= 6 + raw[1]
}

/// The fields read from their fixed offsets; bytes after the suffix are ignored.
pub open spec fn read_frame(raw: Seq<u8>) -> FrameView {
    let n = raw[1] as int;
    FrameView {
        prefix: raw[0],
        length: raw[1],
        opcode: raw[2],
        data: raw.subrange(3, 3 + n),
        crc_low: raw[3 + n],
        crc_high: raw[4 + n],
        suffix: raw[5 + n],
    }
}

/// What decoding `raw` gives.
pub open spec fn decode_result(raw: Seq<u8>) -> Result<FrameView, FrameError> {
    if !frame_complete(raw) {
        Err(FrameError::Truncated)
    } else {
        let f = read_frame(raw);
        match f.check() {
            Ok(_) => Ok(f),
            Err(e) => Err(e),
        }
    }
}

proof fn lemma_crc_bytes(c: u16)
    ensures
        crc_word(crc_low_byte(c), crc_high_byte(c)) == c,
{
}

proof fn lemma_crc_word_injective(l1: u8, h1: u8, l2: u8, h2: u8)
    requires
        crc_word(l1, h1) == crc_word(l2, h2),
    ensures
        l1 == l2,
        h1 == h2,
{
}

/// Round trip: framing a payload of 1 to 255 ASCII bytes succeeds, and decoding
/// the bytes gives back a frame that carries exactly that payload and passes
/// all four checks.
pub proof fn lemma_round_trip(payload: Seq<u8>)
    requires
        1 <= payload.len() <= MAX_DATA_SIZE,
        is_ascii_bytes(payload),
    ensures
        encode_result(payload) == Ok::<Seq<u8>, FrameError>(encoded(payload)),
        decode_result(encoded(payload)) == Ok::<FrameView, FrameError>(
            empty_frame().with_payload(payload),
        ),
        empty_frame().with_payload(payload).data == payload,
        empty_frame().with_payload(payload).check() == Ok::<(), FrameError>(()),
{
    let f = empty_frame().with_payload(payload);
    let raw = encoded(payload);
    let n = payload.len() as int;
    lemma_crc_bytes(frame_checksum(CONSOLE_OPCODE, payload));
    assert(raw.len() == n + 6);
    assert(raw[1] as int == n);
    assert(raw.subrange(3, 3 + n) =~= payload);
    assert(read_frame(raw) == f);
}

/// Rejection: a complete buffer whose first byte is not the opening sync byte
/// is refused with `BadPrefix`; one that opens correctly but does not close
/// with the closing sync byte is refused with `BadSuffix`.
pub proof fn lemma_rejects_bad_sync(raw: Seq<u8>)
    requires
        frame_complete(raw),
    ensures
        raw[0] != SYNC1 ==> decode_result(raw) == Err::<FrameView, FrameError>(
            FrameError::BadPrefix,
        ),
        raw[0] == SYNC1 && raw[5 + raw[1]] != SYNC2 ==> decode_result(raw) == Err::<
            FrameView,
            FrameError,
        >(FrameError::BadSuffix),
{
}

/// Rejection: changing either checksum byte of a well-formed frame makes it
/// decode to `BadChecksum`.
pub proof fn lemma_rejects_mutated_checksum(payload: Seq<u8>, pos: int, b: u8)
    requires
        1 <= payload.len() <= MAX_DATA_SIZE,
        is_ascii_bytes(payload),
        pos == 3 + payload.len() || pos == 4 + payload.len(),
        b != encoded(payload)[pos],
    ensures
        decode_result(encoded(payload).update(pos, b)) == Err::<FrameView, FrameError>(
            FrameError::BadChecksum,
        ),
{
    lemma_round_trip(payload);
    let raw = encoded(payload);
    let bad = raw.update(pos, b);
    let n = payload.len() as int;
    let c = frame_checksum(CONSOLE_OPCODE, payload);
    assert(bad.subrange(3, 3 + n) =~= raw.subrange(3, 3 + n));
    let g = read_frame(bad);
    assert(g.data == payload);
    if g.transmitted_crc() == c {
        lemma_crc_bytes(c);
        lemma_crc_word_injective(g.crc_low, g.crc_high, crc_low_byte(c), crc_high_byte(c));
    }
}

/// The checksum is a function of the opcode and the payload: frames that load
/// the same payload on the same opcode carry the same checksum bytes, whatever
/// they held before.
pub proof fn lemma_checksum_determined(f1: FrameView, f2: FrameView, payload: Seq<u8>)
    requires
        f1.opcode == f2.opcode,
    ensures
        f1.with_payload(payload).crc_low == f2.with_payload(payload).crc_low,
        f1.with_payload(payload).crc_high == f2.with_payload(payload).crc_high,
        f1.with_payload(payload).transmitted_crc() == frame_checksum(f1.opcode, payload),
{
    lemma_crc_bytes(frame_checksum(f1.opcode, payload));
}

/// A frame of the protocol.
#[derive(Debug, Clone, PartialEq)]
pub struct MUFrame {
    prefix: u8,
    length: u8,
    opcode: u8,
    data: Vec<u8>,
    crc_low: u8,
    crc_high: u8,
    suffix: u8,
}

impl View for MUFrame {
    type V = FrameView;

    closed spec fn view(&self) -> FrameView {
        FrameView {
            prefix: self.prefix,
            length: self.length,
            opcode: self.opcode,
            data: self.data@,
            crc_low: self.crc_low,
            crc_high: self.crc_high,
            suffix: self.suffix,
        }
    }
}

/// Whether every byte is below 0x80.
pub fn bytes_are_ascii(s: &[u8]) -> (r: bool)
    ensures
        r == is_ascii_bytes(s@),
{
    let mut i: usize = 0;
    while i < s.len()
        invariant
            i <= s@.len(),
            forall|j: int| 0 <= j < i ==> s@[j] < 0x80,
        decreases s@.len() - i,
    {
        if s[i] >= 0x80 {
            return false;
        }
        i = i + 1;
    }
    true
}

/// The word that a low and a high byte make, as the receiver assembles it.
fn assemble_crc(low: u8, high: u8) -> (r: u16)
    ensures
        r == crc_word(low, high),
{
    let r = (high as u16) << 8 | low as u16;
    assert(r == (high as u16) * 256 + (low as u16)) by (bit_vector)
        requires
            r == (high as u16) << 8 | low as u16,
    ;
    r
}

impl MUFrame {
    pub fn new() -> (r: MUFrame)
        ensures
            r@ == empty_frame(),
    {
        let r = MUFrame {
            prefix: SYNC1,
            length: 0,
            opcode: CONSOLE_OPCODE,
            data: Vec::with_capacity(MAX_DATA_SIZE),
            crc_low: 0x00,
            crc_high: 0x00,
            suffix: SYNC2,
        };
        assert(r@.data =~= seq![]);
        r
    }

    pub fn get_data(&self) -> (r: &Vec<u8>)
        ensures
            r@ == self@.data,
    {
        &self.data
    }

    /// Loads a payload; length and checksum are recomputed from it.
    pub fn set_data(&mut self, data: Vec<u8>) -> (r: Result<(), FrameError>)
        ensures
            match payload_error(data@) {
                Some(e) => r == Err::<(), FrameError>(e) && final(self)@ == old(self)@,
                None => r is Ok && final(self)@ == old(self)@.with_payload(data@),
            },
            r is Ok ==> final(self)@.wf(),
    {
        if data.len() == 0 {
            return Err(FrameError::EmptyPayload);
        }
        if data.len() > MAX_DATA_SIZE {
            return Err(FrameError::PayloadTooLarge);
        }
        if !bytes_are_ascii(data.as_slice()) {
            return Err(FrameError::NonAsciiPayload);
        }
        self.length = data.len() as u8;
        self.data = data;
        let crc_value = self.calculate_src();
        self.crc_low = (crc_value % 256) as u8;
        self.crc_high = (crc_value / 256) as u8;
        Ok(())
    }

    /// Reads a frame from the start of `data` and validates it.
    pub fn deserialize(data: &[u8]) -> (r: Result<MUFrame, FrameError>)
        ensures
            match r {
                Ok(f) => decode_result(data@) == Ok::<FrameView, FrameError>(f@),
                Err(e) => decode_result(data@) == Err::<FrameView, FrameError>(e),
            },
    {
        if data.len() < 3 || data.len() < 6 + data[1] as usize {
            return Err(FrameError::Truncated);
        }
        let n = data[1] as usize;
        let mut payload: Vec<u8> = Vec::with_capacity(n);
        payload.extend_from_slice(&data[3..3 + n]);
        let frame = MUFrame {
            prefix: data[0],
            length: data[1],
            opcode: data[2],
            data: payload,
            crc_low: data[3 + n],
            crc_high: data[4 + n],
            suffix: data[5 + n],
        };
        assert(frame@.data =~= data@.subrange(3, 3 + n as int));
        assert(frame@ == read_frame(data@));
        match frame.invalidate_frame() {
            Ok(()) => Ok(frame),
            Err(e) => Err(e),
        }
    }

    /// The frame's bytes in wire order.
    pub fn serialize(&self) -> (r: Vec<u8>)
        ensures
            r@ == self@.bytes(),
    {
        let mut result: Vec<u8> = Vec::new();
        result.push(self.prefix);
        result.push(self.length);
        result.push(self.opcode);
        result.extend_from_slice(self.data.as_slice());
        result.push(self.crc_low);
        result.push(self.crc_high);
        result.push(self.suffix);
        assert(result@ =~= self@.bytes());
        result
    }

    /// Runs the four validity checks; the first that fails is reported.
    pub fn invalidate_frame(&self) -> (r: Result<(), FrameError>)
        ensures
            r == self@.check(),
    {
        if !self.is_prefix_correct() {
            return Err(FrameError::BadPrefix);
        }
        if !self.is_postfix_correct() {
            return Err(FrameError::BadSuffix);
        }
        let crc_value = assemble_crc(self.crc_low, self.crc_high);
        if !self.is_crc_valid(crc_value) {
            return Err(FrameError::BadChecksum);
        }
        if !bytes_are_ascii(self.data.as_slice()) {
            return Err(FrameError::BadEncoding);
        }
        Ok(())
    }

    /// The checksum over the opcode and the payload.
    pub fn calculate_src(&self) -> (r: u16)
        ensures
            r == frame_checksum(self@.opcode, self@.data),
    {
        let mut crc_data: Vec<u8> = Vec::new();
        crc_data.push(self.opcode);
        crc_data.extend_from_slice(self.data.as_slice());
        assert(crc_data@ =~= seq![self.opcode] + self.data@);
        crc16(crc_data.as_slice())
    }

    /// Whether `crc` is the checksum of this frame's opcode and payload.
    pub fn is_crc_valid(&self, crc: u16) -> (r: bool)
        ensures
            r == (crc == frame_checksum(self@.opcode, self@.data)),
    {
        let calculated_crc = self.calculate_src();
        calculated_crc == crc
    }

    pub fn is_prefix_correct(&self) -> (r: bool)
        ensures
            r == (self@.prefix == SYNC1),
    {
        self.prefix == SYNC1
    }

    pub fn is_postfix_correct(&self) -> (r: bool)
        ensures
            r == (self@.suffix == SYNC2),
    {
        self.suffix == SYNC2
    }

    pub fn opcode(&self) -> (r: u8)
        ensures
            r == self@.opcode,
    {
        self.opcode
    }

    pub fn length(&self) -> (r: u8)
        ensures
            r == self@.length,
    {
        self.length
    }
}

} // verus!
