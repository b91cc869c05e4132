//! Shared wire-level vocabulary: the error taxonomy, big-endian byte
//! arithmetic, and the capability a payload type must offer so that a whole
//! packet can be turned into bytes and back.

use vstd::prelude::*;

verus! {

/// Why a codec operation was refused.
#[derive(Clone, Copy, Debug, PartialEq, Eq, Structural)]
pub enum PacketError {
    /// A field value (message ID, function code, or computed length) lies
    /// outside its permitted range.
    InvalidField,
    /// A decode buffer's length does not equal the expected total packet size.
    BufferSizeMismatch,
    /// A decode buffer fails a structural check (sequence flags, reserved bit).
    MalformedHeader,
    /// The host clock reported a time before the flight-software epoch.
    ClockError,
}

/// The 16-bit big-endian value stored in two consecutive header bytes.
pub open spec fn be16(hi: u8, lo: u8) -> int {
    hi * 0x100 + lo
}

/// The 32-bit big-endian value stored in four consecutive header bytes.
pub open spec fn be32(b0: u8, b1: u8, b2: u8, b3: u8) -> int {
    ((b0 * 0x100 + b1) * 0x100 + b2) * 0x100 + b3
}

/// A payload that can ride in a packet: a trivially copyable value with a
/// fixed-size byte image on the wire.
///
/// The byte image determines the value (`lemma_wire_bytes_injective`), so a
/// packet rebuilt from transmitted bytes carries the payload bit-for-bit.
pub trait Payload: Copy + Sized {
    /// The fixed number of bytes the payload occupies on the wire.
    spec fn wire_len() -> nat;

    /// The payload's byte image on the wire.
    spec fn wire_bytes(self) -> Seq<u8>;

    /// The byte image always has exactly `wire_len` bytes.
    proof fn lemma_wire_bytes_len(self)
        ensures
            self.wire_bytes().len() == Self::wire_len(),
    ;

    /// Two payloads with the same byte image are the same value.
    proof fn lemma_wire_bytes_injective(self, other: Self)
        requires
            self.wire_bytes() == other.wire_bytes(),
        ensures
            self == other,
    ;

    /// The wire size, as a runtime value.
    fn byte_len() -> (n: usize)
        ensures
            n == Self::wire_len(),
    ;

    /// Serialize the payload into its byte image.
    fn to_wire(&self) -> (r: Vec<u8>)
        ensures
            r@ == self.wire_bytes(),
    ;

    /// Rebuild the payload whose byte image is `bytes`.
    fn from_wire(bytes: &[u8]) -> (r: Self)
        requires
            bytes@.len() == Self::wire_len(),
        ensures
            r.wire_bytes() == bytes@,
    ;
}

impl Payload for u8 {
    open spec fn wire_len() -> nat {
        1
    }

    open spec fn wire_bytes(self) -> Seq<u8> {
        seq![self]
    }

    proof fn lemma_wire_bytes_len(self) {
    }

    proof fn lemma_wire_bytes_injective(self, other: Self) {
        assert(self == self.wire_bytes()[0]);
    }

    fn byte_len() -> (n: usize) {
        1
    }

    fn to_wire(&self) -> (r: Vec<u8>) {
        let mut r: Vec<u8> = Vec::new();
        r.push(*self);
        r
    }

    fn from_wire(bytes: &[u8]) -> (r: Self) {
        let r = bytes[0];
        proof {
            assert(r.wire_bytes() =~= bytes@);
        }
        r
    }
}

/// A zero-size payload, for packets that are all header.
#[derive(Clone, Copy, Debug, PartialEq, Eq, Structural)]
pub struct NoPayload;

impl Default for NoPayload {
    fn default() -> (r: Self)
        ensures
            r == NoPayload,
    {
        NoPayload
    }
}

impl Payload for NoPayload {
    open spec fn wire_len() -> nat {
        0
    }

    open spec fn wire_bytes(self) -> Seq<u8> {
        Seq::empty()
    }

    proof fn lemma_wire_bytes_len(self) {
    }

    proof fn lemma_wire_bytes_injective(self, other: Self) {
    }

    fn byte_len() -> (n: usize) {
        0
    }

    fn to_wire(&self) -> (r: Vec<u8>) {
        let r: Vec<u8> = Vec::new();
        proof {
            assert(r@ =~= self.wire_bytes());
        }
        r
    }

    fn from_wire(bytes: &[u8]) -> (r: Self) {
        proof {
            assert(NoPayload.wire_bytes() =~= bytes@);
        }
        NoPayload
    }
}

impl Payload for u32 {
    open spec fn wire_len() -> nat {
        4
    }

    /// Little-endian, the native layout assumed throughout.
    open spec fn wire_bytes(self) -> Seq<u8> {
        seq![
            (self % 0x100) as u8,
            ((self / 0x100) % 0x100) as u8,
            ((self / 0x10000) % 0x100) as u8,
            ((self / 0x1000000) % 0x100) as u8,
        ]
    }

    proof fn lemma_wire_bytes_len(self) {
    }

    proof fn lemma_wire_bytes_injective(self, other: Self) {
        let a = self;
        let b = other;
        assert(a.wire_bytes()[0] == b.wire_bytes()[0]);
        assert(a.wire_bytes()[1] == b.wire_bytes()[1]);
        assert(a.wire_bytes()[2] == b.wire_bytes()[2]);
        assert(a.wire_bytes()[3] == b.wire_bytes()[3]);
        assert(a == b) by (bit_vector)
            requires
                a % 0x100 == b % 0x100,
                (a / 0x100) % 0x100 == (b / 0x100) % 0x100,
                (a / 0x10000) % 0x100 == (b / 0x10000) % 0x100,
                (a / 0x1000000) % 0x100 == (b / 0x1000000) % 0x100,
        ;
    }

    fn byte_len() -> (n: usize) {
        4
    }

    fn to_wire(&self) -> (r: Vec<u8>) {
        let x = *self;
        let mut r: Vec<u8> = Vec::new();
        r.push((x % 0x100) as u8);
        r.push(((x / 0x100) % 0x100) as u8);
        r.push(((x / 0x10000) % 0x100) as u8);
        r.push(((x / 0x1000000) % 0x100) as u8);
        proof {
            assert(r@ =~= x.wire_bytes());
        }
        r
    }

    fn from_wire(bytes: &[u8]) -> (r: Self) {
        let b0 = bytes[0];
        let b1 = bytes[1];
        let b2 = bytes[2];
        let b3 = bytes[3];
        let c0 = b0 as u32;
        let c1 = b1 as u32;
        let c2 = b2 as u32;
        let c3 = b3 as u32;
        let r: u32 = c0 + c1 * 0x100 + c2 * 0x10000 + c3 * 0x1000000;
        proof {
            assert(r % 0x100 == c0 && (r / 0x100) % 0x100 == c1 && (r / 0x10000) % 0x100 == c2 && (
            r / 0x1000000) % 0x100 == c3) by (bit_vector)
                requires
                    c0 < 0x100,
                    c1 < 0x100,
                    c2 < 0x100,
                    c3 < 0x100,
                    r == c0 + c1 * 0x100 + c2 * 0x10000 + c3 * 0x1000000,
            ;
            assert(r.wire_bytes() =~= bytes@);
        }
        r
    }
}

impl<const N: usize> Payload for [u8; N] {
    open spec fn wire_len() -> nat {
        N as nat
    }

    open spec fn wire_bytes(self) -> Seq<u8> {
        self@
    }

    proof fn lemma_wire_bytes_len(self) {
    }

    proof fn lemma_wire_bytes_injective(self, other: Self) {
        assert(self =~= other);
    }

    fn byte_len() -> (n: usize) {
        N
    }

    fn to_wire(&self) -> (r: Vec<u8>) {
        let mut r: Vec<u8> = Vec::new();
        let mut i: usize = 0;
        while i < N
            invariant
                i <= N,
                r@ == self@.subrange(0, i as int),
            decreases N - i,
        {
            r.push(self[i]);
            proof {
                assert(r@ =~= self@.subrange(0, i + 1));
            }
            i = i + 1;
        }
        proof {
            assert(r@ =~= self@);
        }
        r
    }

    fn from_wire(bytes: &[u8]) -> (r: Self) {
        let mut r: [u8; N] = [0u8; N];
        let mut i: usize = 0;
        while i < N
            invariant
                i <= N,
                bytes@.len() == N,
                r@.len() == N,
                forall|j: int| 0 <= j < i ==> r@[j] == bytes@[j],
            decreases N - i,
        {
            r[i] = bytes[i];
            i = i + 1;
        }
        proof {
            assert(r.wire_bytes() =~= bytes@);
        }
        r
    }
}

} // verus!
