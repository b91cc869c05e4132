//! The telemetry packet codec: a 16-byte header ahead of an opaque payload.
//!
//! Header layout (all multi-byte fields big-endian):
//! bytes 0-1 message ID, bytes 2-3 sequence control (flags `11` over a 14-bit
//! counter), bytes 4-5 length field (total size minus 7), bytes 6-9 timestamp
//! seconds since the flight-software epoch, bytes 10-11 timestamp subseconds
//! in units of 2^-16 s, bytes 12-15 reserved padding.

use vstd::arithmetic::div_mod::lemma_add_mod_noop;
use vstd::arithmetic::div_mod::lemma_mod_multiples_vanish;
use vstd::arithmetic::div_mod::lemma_small_mod;
use vstd::prelude::*;

use crate::wire::PacketError;
use crate::wire::Payload;
use crate::wire::be16;
use crate::wire::be32;

verus! {

/// Smallest permitted telemetry message ID.
pub const TELEMETRY_MSG_ID_MIN: u32 = 0x0800;

/// Largest permitted telemetry message ID.
pub const TELEMETRY_MSG_ID_MAX: u32 = 0x0FFF;

/// The flight-software epoch, 1980-01-01T00:00:00 UTC, as seconds past the
/// Unix epoch.
pub const FLIGHT_SOFTWARE_EPOCH_SECS: u64 = 315532800;

/// The sequence counter is 14 bits wide: it counts modulo this.
pub const SEQUENCE_MODULUS: u16 = 0x4000;

/// Is `m` inside the telemetry message-ID range?
pub open spec fn telemetry_msg_id_ok(m: int) -> bool {
    TELEMETRY_MSG_ID_MIN <= m <= TELEMETRY_MSG_ID_MAX
}

/// The header a freshly constructed telemetry packet carries: sequence flags
/// `11` with count zero, a zero timestamp, and zero padding.
pub open spec fn spec_telemetry_header(msg_id: int, len_field: int) -> Seq<u8> {
    seq![
        (msg_id / 0x100) as u8,
        (msg_id % 0x100) as u8,
        0xC0u8,
        0x00u8,
        (len_field / 0x100) as u8,
        (len_field % 0x100) as u8,
        0u8,
        0u8,
        0u8,
        0u8,
        0u8,
        0u8,
        0u8,
        0u8,
        0u8,
        0u8,
    ]
}

/// Does `bytes` pass every check a telemetry decode performs?
pub open spec fn telemetry_parses<T: Payload>(bytes: Seq<u8>) -> bool {
    &&& bytes.len() == 16 + T::wire_len()
    &&& telemetry_msg_id_ok(be16(bytes[0], bytes[1]))
    &&& be16(bytes[4], bytes[5]) == T::wire_len() + 9
    &&& bytes[2] / 0x40 == 3
}

/// The error a failing telemetry decode reports, decided in check order:
/// buffer length first, then field ranges, then structural bits.
pub open spec fn telemetry_parse_err<T: Payload>(bytes: Seq<u8>) -> PacketError {
    if bytes.len() != 16 + T::wire_len() {
        PacketError::BufferSizeMismatch
    } else if !telemetry_msg_id_ok(be16(bytes[0], bytes[1])) || be16(bytes[4], bytes[5])
        != T::wire_len() + 9 {
        PacketError::InvalidField
    } else {
        PacketError::MalformedHeader
    }
}

/// The sequence counter that follows `s`: one more, wrapping to 0 after
/// 0x3FFF.
pub open spec fn next_seq(s: int) -> int {
    (s + 1) % (SEQUENCE_MODULUS as int)
}

/// The sequence counter `k` steps after `s`.
pub open spec fn iter_next_seq(s: int, k: nat) -> int
    decreases k,
{
    if k == 0 {
        s
    } else {
        next_seq(iter_next_seq(s, (k - 1) as nat))
    }
}

/// The subsecond field written for `nanoseconds`: the count of 2^-16-second
/// units, truncated toward zero, taken to the field's 16 bits.
pub open spec fn spec_subseconds(nanoseconds: int) -> int {
    (nanoseconds * 0x10000 / 1_000_000_000) % 0x10000
}

/// `h` with its timestamp bytes replaced: the low 32 bits of `seconds`
/// big-endian in bytes 6-9, the subsecond field big-endian in bytes 10-11.
pub open spec fn with_timestamp(h: Seq<u8>, seconds: int, nanoseconds: int) -> Seq<u8> {
    let s = seconds % 0x100000000;
    let sub = spec_subseconds(nanoseconds);
    h.update(6, (s / 0x1000000) as u8).update(7, ((s / 0x10000) % 0x100) as u8).update(
        8,
        ((s / 0x100) % 0x100) as u8,
    ).update(9, (s % 0x100) as u8).update(10, (sub / 0x100) as u8).update(11, (sub % 0x100) as u8)
}

/// A telemetry packet: a 16-byte header followed by a payload value.
#[derive(Clone, Copy, Debug)]
pub struct Telemetry<T: Copy> {
    /// The telemetry header.
    pub header: [u8; 16],
    /// The message's payload.
    pub payload: T,
}

impl<T: Copy> View for Telemetry<T> {
    type V = Seq<u8>;

    /// A telemetry packet is viewed as its header bytes; the payload rides
    /// beside them.
    open spec fn view(&self) -> Seq<u8> {
        self.header@
    }
}

impl<T: Payload> Telemetry<T> {
    /// The message ID stored in the header.
    pub open spec fn spec_msg_id(self) -> int {
        be16(self@[0], self@[1])
    }

    /// The length field stored in the header.
    pub open spec fn spec_len_field(self) -> int {
        be16(self@[4], self@[5])
    }

    /// The 14-bit sequence counter stored in the header.
    pub open spec fn spec_sequence_number(self) -> int {
        be16(self@[2], self@[3]) % (SEQUENCE_MODULUS as int)
    }

    /// The timestamp's seconds field.
    pub open spec fn spec_timestamp_seconds(self) -> int {
        be32(self@[6], self@[7], self@[8], self@[9])
    }

    /// The timestamp's subsecond field, in units of 2^-16 s.
    pub open spec fn spec_timestamp_subseconds(self) -> int {
        be16(self@[10], self@[11])
    }

    /// Every telemetry packet the codec accepts or produces satisfies this:
    /// in-range message ID, sequence flags `11`, and a length field matching
    /// the packet's total size.
    pub open spec fn wf(self) -> bool {
        &&& telemetry_msg_id_ok(self.spec_msg_id())
        &&& self@[2] / 0x40 == 3
        &&& self.spec_len_field() == T::wire_len() + 9
    }

    /// The packet's wire image: header bytes, then the payload's bytes.
    pub open spec fn spec_bytes(self) -> Seq<u8> {
        self@ + self.payload.wire_bytes()
    }

    /// Builds a telemetry packet around `payload`, with a zero timestamp and
    /// a zero sequence counter, or reports `InvalidField` when the message ID
    /// or the computed length field is out of range.
    pub fn new(msg_id: u32, payload: T) -> (r: Result<Self, PacketError>)
        ensures
            r is Ok <==> telemetry_msg_id_ok(msg_id as int) && T::wire_len() + 9 <= 0xFFFF,
            r matches Ok(t) ==> {
                &&& t@ == spec_telemetry_header(msg_id as int, T::wire_len() as int + 9)
                &&& t.payload == payload
                &&& t.wf()
                &&& t.spec_msg_id() == msg_id
                &&& t.spec_sequence_number() == 0
                &&& t.spec_timestamp_seconds() == 0
                &&& t.spec_timestamp_subseconds() == 0
            },
            r matches Err(e) ==> e == PacketError::InvalidField,
    {
        let n = T::byte_len();
        if msg_id >= TELEMETRY_MSG_ID_MIN && msg_id <= TELEMETRY_MSG_ID_MAX && n <= 0xFFF6 {
            let len_field = n + 9;
            let header: [u8; 16] = [
                (msg_id / 0x100) as u8,
                (msg_id % 0x100) as u8,
                0xC0,
                0x00,
                (len_field / 0x100) as u8,
                (len_field % 0x100) as u8,
                0,
                0,
                0,
                0,
                0,
                0,
                0,
                0,
                0,
                0,
            ];
            let t = Telemetry { header, payload };
            proof {
                assert(t@ =~= spec_telemetry_header(msg_id as int, T::wire_len() as int + 9));
            }
            Ok(t)
        } else {
            Err(PacketError::InvalidField)
        }
    }

    /// [`Self::new`] with the payload type's default value.
    pub fn new_default(msg_id: u32) -> (r: Result<Self, PacketError>) where T: Default
        ensures
            r is Ok <==> telemetry_msg_id_ok(msg_id as int) && T::wire_len() + 9 <= 0xFFFF,
            r matches Ok(t) ==> {
                &&& t@ == spec_telemetry_header(msg_id as int, T::wire_len() as int + 9)
                &&& t.wf()
                &&& call_ensures(T::default, (), t.payload)
            },
            r matches Err(e) ==> e == PacketError::InvalidField,
    {
        Self::new(msg_id, T::default())
    }

    /// The packet's wire bytes, ready for transmission: the header followed
    /// by the payload's byte image.
    pub fn as_bytes(&self) -> (r: Vec<u8>)
        ensures
            r@ == self.spec_bytes(),
            r@.len() == 16 + T::wire_len(),
    {
        let mut r: Vec<u8> = Vec::new();
        let mut i: usize = 0;
        while i < 16
            invariant
                i <= 16,
                r@ == self@.subrange(0, i as int),
            decreases 16 - i,
        {
            r.push(self.header[i]);
            proof {
                assert(r@ =~= self@.subrange(0, i + 1));
            }
            i = i + 1;
        }
        let mut p = self.payload.to_wire();
        r.append(&mut p);
        proof {
            self.payload.lemma_wire_bytes_len();
            assert(r@ =~= self.spec_bytes());
        }
        r
    }

    /// Rebuilds a telemetry packet from its wire bytes, validating the buffer
    /// length, the message ID, the length field, and the sequence flags; the
    /// payload is rebuilt from the trailing bytes.
    pub fn from_bytes(bytes: &[u8]) -> (r: Result<Self, PacketError>)
        ensures
            r is Ok <==> telemetry_parses::<T>(bytes@),
            r matches Ok(t) ==> {
                &&& t@ == bytes@.subrange(0, 16)
                &&& t.payload.wire_bytes() == bytes@.subrange(16, bytes@.len() as int)
                &&& t.wf()
            },
            r matches Err(e) ==> e == telemetry_parse_err::<T>(bytes@),
    {
        let n = T::byte_len();
        if bytes.len() < 16 || bytes.len() - 16 != n {
            return Err(PacketError::BufferSizeMismatch);
        }
        let msg_id = (bytes[0] as u32) * 0x100 + bytes[1] as u32;
        let len_field = (bytes[4] as usize) * 0x100 + bytes[5] as usize;
        if msg_id < TELEMETRY_MSG_ID_MIN || msg_id > TELEMETRY_MSG_ID_MAX {
            return Err(PacketError::InvalidField);
        }
        if len_field != n + 9 {
            return Err(PacketError::InvalidField);
        }
        if bytes[2] / 0x40 != 3 {
            return Err(PacketError::MalformedHeader);
        }
        let mut header: [u8; 16] = [0u8; 16];
        let mut i: usize = 0;
        while i < 16
            invariant
                i <= 16,
                bytes@.len() >= 16,
                header@.len() == 16,
                forall|j: int| 0 <= j < i ==> header@[j] == bytes@[j],
            decreases 16 - i,
        {
            header[i] = bytes[i];
            i = i + 1;
        }
        let payload = T::from_wire(vstd::slice::slice_subrange(bytes, 16, bytes.len()));
        let t = Telemetry { header, payload };
        proof {
            assert(t@ =~= bytes@.subrange(0, 16));
        }
        Ok(t)
    }

    /// The message's message ID.
    pub fn msg_id(&self) -> (r: u32)
        ensures
            r == self.spec_msg_id(),
    {
        (self.header[0] as u32) * 0x100 + self.header[1] as u32
    }

    /// The message's timestamp: seconds since the flight-software epoch, and
    /// subseconds in units of 2^-16 s.
    pub fn timestamp(&self) -> (r: (u32, u16))
        ensures
            r.0 == self.spec_timestamp_seconds(),
            r.1 == self.spec_timestamp_subseconds(),
    {
        let seconds = (self.header[6] as u32) * 0x1000000 + (self.header[7] as u32) * 0x10000 + (
        self.header[8] as u32) * 0x100 + self.header[9] as u32;
        let subsecs = (self.header[10] as u16) * 0x100 + self.header[11] as u16;
        (seconds, subsecs)
    }

    /// The message's 14-bit sequence counter.
    pub fn sequence_number(&self) -> (r: u16)
        ensures
            r == self.spec_sequence_number(),
            r < SEQUENCE_MODULUS,
    {
        let sequence_header = (self.header[2] as u16) * 0x100 + self.header[3] as u16;
        sequence_header % SEQUENCE_MODULUS
    }

    /// Replaces the message ID when `msg_id` is in range, reporting
    /// `InvalidField` and leaving the packet unchanged otherwise; no other
    /// header byte moves.
    pub fn set_msg_id(&mut self, msg_id: u32) -> (r: Result<(), PacketError>)
        ensures
            r is Ok <==> telemetry_msg_id_ok(msg_id as int),
            r is Ok ==> final(self)@ == old(self)@.update(0, (msg_id / 0x100) as u8).update(
                1,
                (msg_id % 0x100) as u8,
            ),
            r is Ok ==> final(self).spec_msg_id() == msg_id,
            r matches Err(e) ==> e == PacketError::InvalidField && *final(self) == *old(self),
            final(self).payload == old(self).payload,
            old(self).wf() ==> final(self).wf(),
    {
        if msg_id >= TELEMETRY_MSG_ID_MIN && msg_id <= TELEMETRY_MSG_ID_MAX {
            self.header[0] = (msg_id / 0x100) as u8;
            self.header[1] = (msg_id % 0x100) as u8;
            Ok(())
        } else {
            Err(PacketError::InvalidField)
        }
    }

    /// Writes the timestamp: the low 32 bits of `seconds` (higher bits are
    /// discarded) and `nanoseconds` converted to 2^-16-second units by
    /// truncation toward zero. Touches only the six timestamp bytes.
    pub fn set_timestamp(&mut self, seconds: u64, nanoseconds: u32)
        ensures
            final(self)@ == with_timestamp(old(self)@, seconds as int, nanoseconds as int),
            final(self).payload == old(self).payload,
            final(self).spec_timestamp_seconds() == seconds as int % 0x100000000,
            final(self).spec_timestamp_subseconds() == spec_subseconds(nanoseconds as int),
            old(self).wf() ==> final(self).wf(),
    {
        let subsecs: u64 = (nanoseconds as u64) * 0x10000 / 1_000_000_000;
        let s = seconds;
        proof {
            assert((s / 0x1000000) % 0x100 == (s % 0x100000000) / 0x1000000 && (s / 0x10000)
                % 0x100 == ((s % 0x100000000) / 0x10000) % 0x100 && (s / 0x100) % 0x100 == ((s
                % 0x100000000) / 0x100) % 0x100 && s % 0x100 == (s % 0x100000000) % 0x100)
                by (bit_vector);
            assert((subsecs / 0x100) % 0x100 == (subsecs % 0x10000) / 0x100 && subsecs % 0x100 == (
            subsecs % 0x10000) % 0x100) by (bit_vector);
        }
        self.header[6] = ((s / 0x1000000) % 0x100) as u8;
        self.header[7] = ((s / 0x10000) % 0x100) as u8;
        self.header[8] = ((s / 0x100) % 0x100) as u8;
        self.header[9] = (s % 0x100) as u8;
        self.header[10] = ((subsecs / 0x100) % 0x100) as u8;
        self.header[11] = (subsecs % 0x100) as u8;
        proof {
            assert(self@ =~= with_timestamp(old(self)@, seconds as int, nanoseconds as int));
            assert(((s % 0x100000000) / 0x1000000) * 0x1000000 + (((s % 0x100000000) / 0x10000)
                % 0x100) * 0x10000 + (((s % 0x100000000) / 0x100) % 0x100) * 0x100 + (s
                % 0x100000000) % 0x100 == s % 0x100000000) by (bit_vector);
            assert(((subsecs % 0x10000) / 0x100) * 0x100 + (subsecs % 0x10000) % 0x100 == subsecs
                % 0x10000) by (bit_vector);
        }
    }

    /// Interprets a host-clock reading, given as seconds and nanoseconds
    /// since the Unix epoch, against the flight-software epoch: a reading
    /// from before that epoch is refused with `ClockError` and changes
    /// nothing; any other reading is written as the timestamp, re-based to
    /// seconds since the flight-software epoch.
    pub fn set_timestamp_from_unix(&mut self, unix_seconds: u64, nanoseconds: u32) -> (r: Result<
        (),
        PacketError,
    >)
        ensures
            r is Ok <==> unix_seconds >= FLIGHT_SOFTWARE_EPOCH_SECS,
            r is Ok ==> final(self)@ == with_timestamp(
                old(self)@,
                unix_seconds as int - FLIGHT_SOFTWARE_EPOCH_SECS as int,
                nanoseconds as int,
            ),
            r matches Err(e) ==> e == PacketError::ClockError && *final(self) == *old(self),
            final(self).payload == old(self).payload,
            old(self).wf() ==> final(self).wf(),
    {
        if unix_seconds >= FLIGHT_SOFTWARE_EPOCH_SECS {
            self.set_timestamp(unix_seconds - FLIGHT_SOFTWARE_EPOCH_SECS, nanoseconds);
            Ok(())
        } else {
            Err(PacketError::ClockError)
        }
    }

    /// Writes the current time into the timestamp, as seconds and nanoseconds
    /// since the flight-software epoch; reports `ClockError`, changing
    /// nothing, when the host clock stands before that epoch. The epoch
    /// decision and the write are those of [`Self::set_timestamp_from_unix`]:
    /// only the clock reading itself is outside the contract.
    pub fn timestamp_with_now(&mut self) -> (r: Result<(), PacketError>)
        ensures
            r is Ok ==> exists|s: int, n: int|
                0 <= s && 0 <= n < 1_000_000_000 && final(self)@ == with_timestamp(
                    old(self)@,
                    s,
                    n,
                ),
            r is Ok ==> final(self).payload == old(self).payload,
            r matches Err(e) ==> e == PacketError::ClockError && *final(self) == *old(self),
            old(self).wf() ==> final(self).wf(),
    {
        match unix_time_now() {
            Some((s, n)) => {
                let r = self.set_timestamp_from_unix(s, n);
                proof {
                    if r is Ok {
                        assert((n as int) < 1_000_000_000);
                        assert(self@ == with_timestamp(
                            old(self)@,
                            s as int - FLIGHT_SOFTWARE_EPOCH_SECS as int,
                            n as int,
                        ));
                    }
                }
                r
            },
            None => Err(PacketError::ClockError),
        }
    }

    /// Advances the 14-bit sequence counter by one, wrapping from 0x3FFF to
    /// 0, and keeps the sequence flags `11`; touches only the two
    /// sequence-control bytes. Never fails.
    pub fn increment_sequence_num(&mut self)
        ensures
            final(self).spec_sequence_number() == next_seq(old(self).spec_sequence_number()),
            ({
                let ns = next_seq(old(self).spec_sequence_number());
                final(self)@ == old(self)@.update(2, (0xC0 + ns / 0x100) as u8).update(
                    3,
                    (ns % 0x100) as u8,
                )
            }),
            final(self)@[2] / 0x40 == 3,
            final(self).payload == old(self).payload,
            old(self).wf() ==> final(self).wf(),
    {
        let sequence_header = (self.header[2] as u16) * 0x100 + self.header[3] as u16;
        let current = sequence_header % SEQUENCE_MODULUS;
        let ns: u16 = if current == SEQUENCE_MODULUS - 1 {
            0
        } else {
            current + 1
        };
        proof {
            assert(ns == next_seq(old(self).spec_sequence_number()));
        }
        self.header[2] = 0xC0 + (ns / 0x100) as u8;
        self.header[3] = (ns % 0x100) as u8;
        proof {
            assert(self@ =~= old(self)@.update(2, (0xC0 + ns as int / 0x100) as u8).update(
                3,
                (ns as int % 0x100) as u8,
            ));
            assert(self.spec_sequence_number() == ns) by {
                lemma_mod_multiples_vanish(3, ns as int, SEQUENCE_MODULUS as int);
                lemma_small_mod(ns as nat, SEQUENCE_MODULUS as nat);
            }
        }
    }
}

/// Relies on std::time::SystemTime: `now().duration_since(UNIX_EPOCH)` is the
/// host wall clock as a duration whenever that clock is not before the Unix
/// epoch, and a duration's subsecond part is under one billion nanoseconds.
/// Nothing more is assumed of the value: the clock may report anything.
#[verifier::external_body]
fn unix_time_now() -> (r: Option<(u64, u32)>)
    ensures
        r matches Some(t) ==> t.1 < 1_000_000_000,
{
    match std::time::SystemTime::now().duration_since(std::time::SystemTime::UNIX_EPOCH) {
        Ok(d) => Some((d.as_secs(), d.subsec_nanos())),
        Err(_) => None,
    }
}

/// Encoding then decoding restores a telemetry packet exactly: the wire bytes
/// of any well-formed packet pass every decode check, and a packet whose
/// header is the wire image's first 16 bytes and whose payload image is the
/// rest is the original packet, field for field.
pub proof fn lemma_telemetry_round_trip<T: Payload>(t: Telemetry<T>, d: Telemetry<T>)
    requires
        t.wf(),
        d@ == t.spec_bytes().subrange(0, 16),
        d.payload.wire_bytes() == t.spec_bytes().subrange(16, t.spec_bytes().len() as int),
    ensures
        telemetry_parses::<T>(t.spec_bytes()),
        d@ == t@,
        d.payload == t.payload,
{
    t.payload.lemma_wire_bytes_len();
    assert(t.spec_bytes().subrange(0, 16) =~= t@);
    assert(t.spec_bytes().subrange(16, t.spec_bytes().len() as int) =~= t.payload.wire_bytes());
    d.payload.lemma_wire_bytes_injective(t.payload);
}

/// A counter strictly below the modulus is `s + k`, reduced, after `k` steps.
proof fn lemma_iter_next_seq_adds(s: int, k: nat)
    requires
        0 <= s < SEQUENCE_MODULUS,
    ensures
        iter_next_seq(s, k) == (s + k) % (SEQUENCE_MODULUS as int),
    decreases k,
{
    let m = SEQUENCE_MODULUS as int;
    if k == 0 {
        lemma_small_mod(s as nat, SEQUENCE_MODULUS as nat);
    } else {
        lemma_iter_next_seq_adds(s, (k - 1) as nat);
        lemma_add_mod_noop(s + k - 1, 1, m);
        lemma_small_mod(1nat, SEQUENCE_MODULUS as nat);
    }
}

/// The wraparound law: taking the step `increment_sequence_num` performs
/// 0x4000 times over returns the 14-bit counter to where it began.
pub proof fn lemma_sequence_number_wraps(s: int)
    requires
        0 <= s < SEQUENCE_MODULUS,
    ensures
        iter_next_seq(s, SEQUENCE_MODULUS as nat) == s,
{
    let m = SEQUENCE_MODULUS as int;
    lemma_iter_next_seq_adds(s, SEQUENCE_MODULUS as nat);
    lemma_mod_multiples_vanish(1, s, m);
    lemma_small_mod(s as nat, SEQUENCE_MODULUS as nat);
}

} // verus!
