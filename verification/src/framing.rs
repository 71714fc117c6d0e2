//! The length-prefixed wire framing.
//!
//! Each message travels as one frame: the ASCII header line
//! `Content-Length: <decimal-byte-count>` ended by CRLF, a blank CRLF line,
//! and then exactly that many payload bytes, with no trailing delimiter.
//! The payload may contain arbitrary bytes, including CR and LF.
//!
//! Encoding and decoding are verified against the spec-level grammar below;
//! `lemma_frame_round_trip` states that decoding an encoded frame yields the
//! original payload and consumes exactly the declared number of bytes.

use vstd::prelude::*;

verus! {

/// Upper bound (exclusive) on a declared payload length; a header that
/// declares a length at or beyond it is a protocol violation, since no such
/// payload could ever be received.
pub open spec fn max_declared_len() -> nat {
    0x1_0000_0000_0000_0000
}

/// An ASCII decimal digit.
pub open spec fn is_ascii_digit(b: u8) -> bool {
    48 <= b <= 57
}

/// The digit byte for a value below ten.
pub open spec fn digit_byte(d: nat) -> u8
    recommends
        d < 10,
{
    (48 + d) as u8
}

/// The shortest decimal rendering of `n`, as ASCII bytes.
pub open spec fn dec_bytes(n: nat) -> Seq<u8>
    decreases n,
{
    if n < 10 {
        seq![digit_byte(n)]
    } else {
        dec_bytes(n / 10).push(digit_byte(n % 10))
    }
}

/// The fixed header prefix, the ASCII bytes of `"Content-Length: "`.
pub open spec fn header_prefix() -> Seq<u8> {
    seq![67u8, 111u8, 110u8, 116u8, 101u8, 110u8, 116u8, 45u8, 76u8, 101u8, 110u8, 103u8, 116u8, 104u8, 58u8, 32u8]
}

/// The header terminator: CR LF of the header line, then the blank CR LF line.
pub open spec fn header_terminator() -> Seq<u8> {
    seq![13u8, 10u8, 13u8, 10u8]
}

/// The complete frame carrying `payload`.
pub open spec fn frame_of(payload: Seq<u8>) -> Seq<u8> {
    header_prefix() + dec_bytes(payload.len()) + header_terminator() + payload
}

/// Length of the run of digit bytes starting at position `i`.
pub open spec fn digit_run(buf: Seq<u8>, i: nat) -> nat
    decreases buf.len() - i
        when i <= buf.len()
{
    if i < buf.len() && is_ascii_digit(buf[i as int]) {
        1 + digit_run(buf, i + 1)
    } else {
        0
    }
}

/// Numeric value of a sequence of ASCII digit bytes, most significant first.
pub open spec fn dec_value(digits: Seq<u8>) -> nat
    decreases digits.len(),
{
    if digits.len() == 0 {
        0
    } else {
        dec_value(digits.drop_last()) * 10 + (digits.last() - 48) as nat
    }
}

/// The digit bytes of the length field of the frame starting `buf`.
pub open spec fn length_digits(buf: Seq<u8>) -> Seq<u8> {
    buf.subrange(16, 16 + digit_run(buf, 16) as int)
}

/// The payload length the header declares.
pub open spec fn declared_len(buf: Seq<u8>) -> nat {
    dec_value(length_digits(buf))
}

/// Position just past the header terminator: where the payload starts.
pub open spec fn header_end(buf: Seq<u8>) -> nat {
    16 + digit_run(buf, 16) + 4
}

/// Position just past the payload: how many bytes the whole frame occupies.
pub open spec fn frame_end(buf: Seq<u8>) -> nat {
    header_end(buf) + declared_len(buf)
}

/// The payload bytes of the complete frame starting `buf`.
pub open spec fn frame_payload(buf: Seq<u8>) -> Seq<u8> {
    buf.subrange(header_end(buf) as int, frame_end(buf) as int)
}

/// A complete, well-formed frame starts `buf`: full header prefix, at least
/// one digit, a declared length below `max_declared_len`, the CRLF CRLF
/// terminator, and all declared payload bytes present.
pub open spec fn parse_complete(buf: Seq<u8>) -> bool {
    let d = digit_run(buf, 16) as int;
    &&& buf.len() >= 16
    &&& buf.subrange(0, 16) == header_prefix()
    &&& d >= 1
    &&& declared_len(buf) < max_declared_len()
    &&& buf.len() >= 16 + d + 4
    &&& buf.subrange(16 + d, 16 + d + 4) == header_terminator()
    &&& buf.len() >= frame_end(buf)
}

/// The bytes seen so far already contradict the frame grammar: a header
/// prefix byte differs, the length field is empty or does not fit, or a
/// terminator byte differs. No extension of `buf` forms a valid frame.
pub open spec fn parse_malformed(buf: Seq<u8>) -> bool {
    let d = digit_run(buf, 16) as int;
    ||| exists|k: int| 0 <= k < 16 && k < buf.len() && buf[k] != header_prefix()[k]
    ||| (buf.len() > 16 && buf.subrange(0, 16) == header_prefix() && d == 0)
    ||| (buf.len() >= 16 && buf.subrange(0, 16) == header_prefix() && d >= 1
            && dec_value(buf.subrange(16, 16 + d)) >= max_declared_len())
    ||| (buf.len() >= 16 && buf.subrange(0, 16) == header_prefix() && d >= 1
            && dec_value(buf.subrange(16, 16 + d)) < max_declared_len()
            && exists|j: int| 0 <= j < 4 && 16 + d + j < buf.len() && buf[16 + d + j] != header_terminator()[j])
}

/// One attempt to take a frame off the front of a byte buffer.
pub enum FrameStep {
    /// A complete frame was present: its payload, and how many bytes of the
    /// buffer it occupied (header included).
    Complete { payload: Vec<u8>, consumed: usize },
    /// The buffer holds a prefix of a valid frame; more bytes are needed.
    Incomplete,
    /// The buffer contradicts the frame grammar. Framing cannot be
    /// resynchronized after a corrupt header, so this is fatal to the
    /// connection.
    Malformed,
}

/// The byte of the fixed header prefix at position `i`.
fn prefix_byte(i: usize) -> (b: u8)
    requires
        i < 16,
    ensures
        b == header_prefix()[i as int],
{
    let b: u8 = match i {
        0 => 67,
        1 => 111,
        2 => 110,
        3 => 116,
        4 => 101,
        5 => 110,
        6 => 116,
        7 => 45,
        8 => 76,
        9 => 101,
        10 => 110,
        11 => 103,
        12 => 116,
        13 => 104,
        14 => 58,
        _ => 32,
    };
    b
}

/// The byte of the header terminator at position `j`.
fn terminator_byte(j: usize) -> (b: u8)
    requires
        j < 4,
    ensures
        b == header_terminator()[j as int],
{
    let b: u8 = match j {
        0 => 13,
        1 => 10,
        2 => 13,
        _ => 10,
    };
    b
}

/// Appends the decimal rendering of `n` to `out`.
pub fn push_decimal(out: &mut Vec<u8>, n: u64)
    ensures
        final(out)@ == old(out)@ + dec_bytes(n as nat),
    decreases n,
{
    if n < 10 {
        out.push(48 + (n as u8));
    } else {
        push_decimal(out, n / 10);
        out.push(48 + ((n % 10) as u8));
        proof {
            assert(final(out)@ =~= old(out)@ + dec_bytes(n as nat));
        }
    }
}

/// Encodes one frame: header prefix, decimal byte count, terminator, payload.
pub fn encode_frame(payload: &Vec<u8>) -> (r: Vec<u8>)
    ensures
        r@ == frame_of(payload@),
{
    let mut out: Vec<u8> = Vec::new();
    let mut i: usize = 0;
    while i < 16
        invariant
            i <= 16,
            out@ =~= header_prefix().subrange(0, i as int),
        decreases 16 - i,
    {
        out.push(prefix_byte(i));
        i += 1;
    }
    assert(out@ =~= header_prefix());
    push_decimal(&mut out, payload.len() as u64);
    out.push(13);
    out.push(10);
    out.push(13);
    out.push(10);
    out.extend_from_slice(payload.as_slice());
    proof {
        assert(out@ =~= frame_of(payload@));
    }
    out
}

/// Every byte of a decimal rendering is a digit.
proof fn lemma_dec_bytes_digits(n: nat)
    ensures
        dec_bytes(n).len() >= 1,
        forall|i: int| 0 <= i < dec_bytes(n).len() ==> is_ascii_digit(#[trigger] dec_bytes(n)[i]),
    decreases n,
{
    if n >= 10 {
        lemma_dec_bytes_digits(n / 10);
    }
}

/// Reading back a decimal rendering yields the value rendered.
proof fn lemma_dec_value_of_dec_bytes(n: nat)
    ensures
        dec_value(dec_bytes(n)) == n,
    decreases n,
{
    if n < 10 {
        assert(dec_bytes(n).drop_last() =~= Seq::<u8>::empty());
        assert(dec_value(dec_bytes(n).drop_last()) == 0);
        assert(dec_bytes(n).last() == digit_byte(n));
        assert((digit_byte(n) - 48) as nat == n);
        assert(dec_value(dec_bytes(n)) == n);
    } else {
        lemma_dec_value_of_dec_bytes(n / 10);
        assert(dec_bytes(n).drop_last() =~= dec_bytes(n / 10));
        assert(dec_bytes(n).last() == digit_byte(n % 10));
        assert((digit_byte(n % 10) - 48) as nat == n % 10);
        assert(dec_value(dec_bytes(n)) == (n / 10) * 10 + n % 10);
        assert(n == (n / 10) * 10 + n % 10) by {
            vstd::arithmetic::div_mod::lemma_fundamental_div_mod(n as int, 10);
        }
    }
}

/// A digit run is delimited exactly by its first non-digit (or the buffer
/// end): `d` consecutive digits from `i` followed by a delimiter mean the
/// run has length `d`.
proof fn lemma_digit_run_is(buf: Seq<u8>, i: nat, d: nat)
    requires
        i + d <= buf.len(),
        forall|k: int| i <= k < i + d ==> is_ascii_digit(#[trigger] buf[k]),
        i + d == buf.len() || !is_ascii_digit(buf[(i + d) as int]),
    ensures
        digit_run(buf, i) == d,
    decreases d,
{
    if d == 0 {
    } else {
        lemma_digit_run_is(buf, i + 1, (d - 1) as nat);
    }
}

/// Appending digits to a length field never decreases its value.
proof fn lemma_dec_value_prefix_le(digits: Seq<u8>, i: int, j: int)
    requires
        0 <= i <= j <= digits.len(),
        forall|k: int| 0 <= k < digits.len() ==> is_ascii_digit(#[trigger] digits[k]),
    ensures
        dec_value(digits.subrange(0, i)) <= dec_value(digits.subrange(0, j)),
    decreases j - i,
{
    if i < j {
        lemma_dec_value_prefix_le(digits, i, j - 1);
        let shorter = digits.subrange(0, j - 1);
        let longer = digits.subrange(0, j);
        assert(longer.drop_last() =~= shorter);
        assert(dec_value(longer) == dec_value(shorter) * 10 + (longer.last() - 48) as nat);
    }
}

/// Decoding and framing are mutually exclusive verdicts: no buffer is both
/// a complete frame and malformed.
pub proof fn lemma_parse_exclusive(buf: Seq<u8>)
    ensures
        !(parse_complete(buf) && parse_malformed(buf)),
{
    if parse_complete(buf) {
        let d = digit_run(buf, 16) as int;
        assert forall|k: int| 0 <= k < 16 && k < buf.len() implies buf[k] == header_prefix()[k] by {
            assert(buf.subrange(0, 16)[k] == buf[k]);
        }
        assert forall|j: int| 0 <= j < 4 && 16 + d + j < buf.len() implies buf[16 + d + j]
            == header_terminator()[j] by {
            assert(buf.subrange(16 + d, 16 + d + 4)[j] == buf[16 + d + j]);
        }
    }
}

/// Framing round-trip: a frame encoded from any payload (embedded CR and LF
/// bytes included), however much trailing data follows it, decodes as
/// complete, yields that payload, and occupies exactly the header plus the
/// declared byte count.
pub proof fn lemma_frame_round_trip(payload: Seq<u8>, rest: Seq<u8>)
    requires
        payload.len() < max_declared_len(),
    ensures
        parse_complete(frame_of(payload) + rest),
        frame_payload(frame_of(payload) + rest) == payload,
        frame_end(frame_of(payload) + rest) == 16 + dec_bytes(payload.len()).len() + 4 + payload.len(),
{
    let buf = frame_of(payload) + rest;
    let digits = dec_bytes(payload.len());
    let dlen = digits.len();
    lemma_dec_bytes_digits(payload.len());
    lemma_dec_value_of_dec_bytes(payload.len());
    assert(buf.subrange(0, 16) =~= header_prefix());
    assert forall|k: int| 16 <= k < 16 + dlen implies is_ascii_digit(#[trigger] buf[k]) by {
        assert(buf[k] == digits[k - 16]);
    }
    assert(buf[16 + dlen as int] == header_terminator()[0]);
    assert(!is_ascii_digit(buf[16 + dlen as int]));
    lemma_digit_run_is(buf, 16, dlen);
    assert(length_digits(buf) =~= digits);
    assert(buf.subrange(16 + dlen as int, 16 + dlen as int + 4) =~= header_terminator());
    assert(frame_payload(buf) =~= payload);
}

/// Decodes one frame from the front of `buf`. Returns `Complete` with the
/// payload and the exact byte count consumed when a whole well-formed frame
/// is present, `Malformed` when the bytes already contradict the grammar,
/// and `Incomplete` otherwise.
pub fn decode_frame(buf: &Vec<u8>) -> (r: FrameStep)
    ensures
        (r matches FrameStep::Complete { payload, consumed } ==> parse_complete(buf@)
            && payload@ == frame_payload(buf@) && consumed == frame_end(buf@)),
        (r is Malformed <==> parse_malformed(buf@)),
        (r is Complete <==> parse_complete(buf@)),
{
    proof {
        lemma_parse_exclusive(buf@);
    }
    let n = buf.len();
    // Header prefix.
    let mut i: usize = 0;
    while i < 16 && i < n
        invariant
            i <= 16,
            i <= n,
            n == buf@.len(),
            forall|k: int| 0 <= k < i ==> buf@[k] == header_prefix()[k],
        decreases 16 - i,
    {
        if buf[i] != prefix_byte(i) {
            return FrameStep::Malformed;
        }
        i += 1;
    }
    if n < 16 {
        assert(!parse_malformed(buf@));
        assert(!parse_complete(buf@));
        return FrameStep::Incomplete;
    }
    assert(buf@.subrange(0, 16) =~= header_prefix());
    // Length field: a run of decimal digits.
    let mut d: usize = 0;
    let mut value: u64 = 0;
    while 16 + d < n && buf[16 + d] >= 48 && buf[16 + d] <= 57
        invariant
            16 + d <= n,
            n == buf@.len(),
            buf@.subrange(0, 16) == header_prefix(),
            forall|k: int| 16 <= k < 16 + d ==> is_ascii_digit(#[trigger] buf@[k]),
            value == dec_value(buf@.subrange(16, 16 + d as int)),
            value < max_declared_len(),
        decreases n - d,
    {
        let ghost run = buf@.subrange(16, 16 + d as int);
        let digit = buf[16 + d] - 48;
        let shifted = match value.checked_mul(10) {
            Some(v) => v,
            None => {
                proof {
                    overflow_means_malformed(buf@, d as int, value, digit);
                }
                return FrameStep::Malformed;
            }
        };
        let next = match shifted.checked_add(digit as u64) {
            Some(v) => v,
            None => {
                proof {
                    overflow_means_malformed(buf@, d as int, value, digit);
                }
                return FrameStep::Malformed;
            }
        };
        proof {
            assert(buf@.subrange(16, 16 + d + 1).drop_last() =~= run);
        }
        value = next;
        d += 1;
    }
    if 16 + d == n {
        proof {
            lemma_digit_run_is(buf@, 16, d as nat);
            assert(!parse_malformed(buf@));
            assert(!parse_complete(buf@));
        }
        return FrameStep::Incomplete;
    }
    proof {
        lemma_digit_run_is(buf@, 16, d as nat);
    }
    if d == 0 {
        assert(parse_malformed(buf@));
        return FrameStep::Malformed;
    }
    assert(length_digits(buf@) =~= buf@.subrange(16, 16 + d as int));
    // Terminator: CR LF CR LF.
    let mut j: usize = 0;
    while j < 4
        invariant
            j <= 4,
            16 + d < n,
            n == buf@.len(),
            d == digit_run(buf@, 16),
            1 <= d,
            value == declared_len(buf@),
            value < max_declared_len(),
            buf@.subrange(0, 16) == header_prefix(),
            16 + d + j <= n,
            forall|k: int| 0 <= k < j ==> buf@[16 + d + k] == header_terminator()[k],
        decreases 4 - j,
    {
        if 16 + d + j == n {
            assert(!parse_malformed(buf@));
            assert(!parse_complete(buf@)) by {
                assert(buf@.len() < 16 + digit_run(buf@, 16) + 4);
            }
            return FrameStep::Incomplete;
        }
        if buf[16 + d + j] != terminator_byte(j) {
            assert(parse_malformed(buf@));
            return FrameStep::Malformed;
        }
        j += 1;
    }
    assert(!parse_malformed(buf@));
    assert(buf@.len() >= 16 + digit_run(buf@, 16) + 4);
    assert(buf@.subrange(16 + d as int, 16 + d + 4) =~= header_terminator());
    // Payload.
    let start = 16 + d + 4;
    let avail = n - start;
    if value > (avail as u64) {
        assert(!parse_complete(buf@));
        return FrameStep::Incomplete;
    }
    let len = value as usize;
    let mut payload: Vec<u8> = Vec::new();
    let mut p: usize = 0;
    while p < len
        invariant
            p <= len,
            start + len <= n,
            n == buf@.len(),
            payload@ =~= buf@.subrange(start as int, start + p as int),
        decreases len - p,
    {
        payload.push(buf[start + p]);
        proof {
            assert(payload@ =~= buf@.subrange(start as int, start + p + 1));
        }
        p += 1;
    }
    assert(parse_complete(buf@));
    assert(payload@ =~= frame_payload(buf@));
    FrameStep::Complete { payload, consumed: start + len }
}

/// If the running value would exceed the length bound at some digit, the
/// full length field exceeds it too: its value only grows with more digits.
proof fn overflow_means_malformed(buf: Seq<u8>, d: int, value: u64, digit: u8)
    requires
        0 <= d,
        16 + d < buf.len(),
        buf.subrange(0, 16) == header_prefix(),
        forall|k: int| 16 <= k < 16 + d ==> is_ascii_digit(#[trigger] buf[k]),
        is_ascii_digit(buf[16 + d]),
        digit == buf[16 + d] - 48,
        value == dec_value(buf.subrange(16, 16 + d)),
        value * 10 + digit >= max_declared_len(),
    ensures
        parse_malformed(buf),
{
    let run = digit_run(buf, 16) as int;
    lemma_digit_run_all_digits(buf, 16);
    assert(run >= d + 1) by {
        lemma_digit_run_at_least(buf, 16, (d + 1) as nat);
    }
    let digits = buf.subrange(16, 16 + run);
    assert(forall|k: int| 0 <= k < digits.len() ==> is_ascii_digit(#[trigger] digits[k]));
    lemma_dec_value_prefix_le(digits, d + 1, run);
    assert(digits.subrange(0, d + 1) =~= buf.subrange(16, 16 + d + 1));
    assert(digits.subrange(0, run as int) =~= digits);
    assert(buf.subrange(16, 16 + d + 1).drop_last() =~= buf.subrange(16, 16 + d));
    assert(dec_value(buf.subrange(16, 16 + d + 1)) == value * 10 + digit);
    assert(dec_value(digits) >= max_declared_len());
}

/// The receive buffer of the inbound dispatch loop: bytes read from the
/// transport are appended at the back, and complete frames are taken off the
/// front. The view is the bytes currently held.
pub struct FrameBuffer {
    data: Vec<u8>,
}

impl View for FrameBuffer {
    type V = Seq<u8>;

    closed spec fn view(&self) -> Seq<u8> {
        self.data@
    }
}

impl FrameBuffer {
    /// An empty receive buffer.
    pub fn new() -> (r: FrameBuffer)
        ensures
            r@ == Seq::<u8>::empty(),
    {
        FrameBuffer { data: Vec::new() }
    }

    /// Appends bytes read from the transport.
    pub fn feed(&mut self, chunk: &[u8])
        ensures
            final(self)@ == old(self)@ + chunk@,
    {
        self.data.extend_from_slice(chunk);
    }

    /// Takes one frame off the front of the buffer, if a complete one is
    /// held, leaving the remaining bytes in place. On `Incomplete` or
    /// `Malformed` the buffer is unchanged.
    pub fn next_frame(&mut self) -> (r: FrameStep)
        ensures
            (r matches FrameStep::Complete { payload, consumed } ==> parse_complete(old(self)@)
                && payload@ == frame_payload(old(self)@)
                && consumed == frame_end(old(self)@)
                && final(self)@ == old(self)@.subrange(
                    frame_end(old(self)@) as int,
                    old(self)@.len() as int,
                )),
            (r is Complete <==> parse_complete(old(self)@)),
            (r is Malformed <==> parse_malformed(old(self)@)),
            !(r is Complete) ==> final(self)@ == old(self)@,
    {
        let step = decode_frame(&self.data);
        match step {
            FrameStep::Complete { payload, consumed } => {
                let tail = self.data.split_off(consumed);
                self.data = tail;
                FrameStep::Complete { payload, consumed }
            },
            FrameStep::Incomplete => FrameStep::Incomplete,
            FrameStep::Malformed => FrameStep::Malformed,
        }
    }
}

/// A stretch of digits pushes the digit run at least that far.
proof fn lemma_digit_run_at_least(buf: Seq<u8>, i: nat, d: nat)
    requires
        i + d <= buf.len(),
        forall|k: int| i <= k < i + d ==> is_ascii_digit(#[trigger] buf[k]),
    ensures
        digit_run(buf, i) >= d,
    decreases d,
{
    if d > 0 {
        lemma_digit_run_at_least(buf, i + 1, (d - 1) as nat);
    }
}

/// Every byte inside a digit run is a digit, and the run stays in bounds.
proof fn lemma_digit_run_all_digits(buf: Seq<u8>, i: nat)
    requires
        i <= buf.len(),
    ensures
        i + digit_run(buf, i) <= buf.len(),
        forall|k: int| i <= k < i + digit_run(buf, i) ==> is_ascii_digit(#[trigger] buf[k]),
    decreases buf.len() - i,
{
    if i < buf.len() && is_ascii_digit(buf[i as int]) {
        lemma_digit_run_all_digits(buf, i + 1);
    }
}

} // verus!
