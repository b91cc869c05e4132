//! The command packet codec: an 8-byte header ahead of an opaque payload.
//!
//! Header layout (all multi-byte fields big-endian):
//! bytes 0-1 message ID, bytes 2-3 sequence control (flags `11`, count 0),
//! bytes 4-5 length field (total size minus 7), byte 6 function code
//! (7 bits, top bit reserved), byte 7 reserved.

use vstd::prelude::*;

use crate::wire::PacketError;
use crate::wire::Payload;
use crate::wire::be16;

verus! {

/// Smallest permitted command message ID.
pub const COMMAND_MSG_ID_MIN: u32 = 0x1800;

/// Largest permitted command message ID.
pub const COMMAND_MSG_ID_MAX: u32 = 0x1FFF;

/// Largest permitted command function code (a 7-bit field).
pub const MAX_FUNCTION_CODE: u16 = 0x7F;

/// Is `m` inside the command message-ID range?
pub open spec fn command_msg_id_ok(m: int) -> bool {
    COMMAND_MSG_ID_MIN <= m <= COMMAND_MSG_ID_MAX
}

/// The header a freshly constructed command carries: sequence flags `11`
/// with count zero, and a zero reserved byte.
pub open spec fn spec_command_header(msg_id: int, function_code: int, len_field: int) -> Seq<u8> {
    seq![
        (msg_id / 0x100) as u8,
        (msg_id % 0x100) as u8,
        0xC0u8,
        0x00u8,
        (len_field / 0x100) as u8,
        (len_field % 0x100) as u8,
        function_code as u8,
        0x00u8,
    ]
}

/// Does `bytes` pass every check a command decode performs?
pub open spec fn command_parses<T: Payload>(bytes: Seq<u8>) -> bool {
    &&& bytes.len() == 8 + T::wire_len()
    &&& command_msg_id_ok(be16(bytes[0], bytes[1]))
    &&& be16(bytes[4], bytes[5]) == T::wire_len() + 1
    &&& bytes[2] / 0x40 == 3
    &&& bytes[6] < 0x80
}

/// The error a failing command decode reports, decided in check order:
/// buffer length first, then field ranges, then structural bits.
pub open spec fn command_parse_err<T: Payload>(bytes: Seq<u8>) -> PacketError {
    if bytes.len() != 8 + T::wire_len() {
        PacketError::BufferSizeMismatch
    } else if !command_msg_id_ok(be16(bytes[0], bytes[1])) || be16(bytes[4], bytes[5])
        != T::wire_len() + 1 {
        PacketError::InvalidField
    } else {
        PacketError::MalformedHeader
    }
}

/// A command packet: an 8-byte header followed by a payload value.
#[derive(Clone, Copy, Debug)]
pub struct Command<T: Copy> {
    /// The command header.
    pub header: [u8; 8],
    /// The message's payload.
    pub payload: T,
}

impl<T: Copy> View for Command<T> {
    type V = Seq<u8>;

    /// A command is viewed as its header bytes; the payload rides beside them.
    open spec fn view(&self) -> Seq<u8> {
        self.header@
    }
}

impl<T: Payload> Command<T> {
    /// The message ID stored in the header.
    pub open spec fn spec_msg_id(self) -> int {
        be16(self@[0], self@[1])
    }

    /// The function code stored in the header.
    pub open spec fn spec_function_code(self) -> int {
        self@[6] as int
    }

    /// The length field stored in the header.
    pub open spec fn spec_len_field(self) -> int {
        be16(self@[4], self@[5])
    }

    /// Every command the codec accepts or produces satisfies this: in-range
    /// message ID, sequence flags `11`, a length field matching the packet's
    /// total size, and a clear function-code top bit.
    pub open spec fn wf(self) -> bool {
        &&& command_msg_id_ok(self.spec_msg_id())
        &&& self@[2] / 0x40 == 3
        &&& self.spec_len_field() == T::wire_len() + 1
        &&& self.spec_function_code() < 0x80
    }

    /// The packet's wire image: header bytes, then the payload's bytes.
    pub open spec fn spec_bytes(self) -> Seq<u8> {
        self@ + self.payload.wire_bytes()
    }

    /// Builds a command packet around `payload`, or reports `InvalidField`
    /// when the message ID, the function code, or the computed length field
    /// is out of range.
    pub fn new(msg_id: u32, function_code: u16, payload: T) -> (r: Result<Self, PacketError>)
        ensures
            r is Ok <==> command_msg_id_ok(msg_id as int) && function_code <= MAX_FUNCTION_CODE
                && T::wire_len() + 1 <= 0xFFFF,
            r matches Ok(c) ==> {
                &&& c@ == spec_command_header(
                    msg_id as int,
                    function_code as int,
                    T::wire_len() as int + 1,
                )
                &&& c.payload == payload
                &&& c.wf()
                &&& c.spec_msg_id() == msg_id
                &&& c.spec_function_code() == function_code
            },
            r matches Err(e) ==> e == PacketError::InvalidField,
    {
        let n = T::byte_len();
        if msg_id >= COMMAND_MSG_ID_MIN && msg_id <= COMMAND_MSG_ID_MAX
            && function_code <= MAX_FUNCTION_CODE && n <= 0xFFFE {
            let len_field = n + 1;
            let header: [u8; 8] = [
                (msg_id / 0x100) as u8,
                (msg_id % 0x100) as u8,
                0xC0,
                0x00,
                (len_field / 0x100) as u8,
                (len_field % 0x100) as u8,
                function_code as u8,
                0x00,
            ];
            let c = Command { header, payload };
            proof {
                assert(c@ =~= spec_command_header(
                    msg_id as int,
                    function_code as int,
                    T::wire_len() as int + 1,
                ));
            }
            Ok(c)
        } else {
            Err(PacketError::InvalidField)
        }
    }

    /// [`Self::new`] with the payload type's default value.
    pub fn new_default(msg_id: u32, function_code: u16) -> (r: Result<Self, PacketError>) where
        T: Default

        ensures
            r is Ok <==> command_msg_id_ok(msg_id as int) && function_code <= MAX_FUNCTION_CODE
                && T::wire_len() + 1 <= 0xFFFF,
            r matches Ok(c) ==> {
                &&& c@ == spec_command_header(
                    msg_id as int,
                    function_code as int,
                    T::wire_len() as int + 1,
                )
                &&& c.wf()
                &&& call_ensures(T::default, (), c.payload)
            },
            r matches Err(e) ==> e == PacketError::InvalidField,
    {
        Self::new(msg_id, function_code, T::default())
    }

    /// The packet's wire bytes, ready for transmission: the header followed
    /// by the payload's byte image.
    pub fn as_bytes(&self) -> (r: Vec<u8>)
        ensures
            r@ == self.spec_bytes(),
            r@.len() == 8 + T::wire_len(),
    {
        let mut r: Vec<u8> = Vec::new();
        r.push(self.header[0]);
        r.push(self.header[1]);
        r.push(self.header[2]);
        r.push(self.header[3]);
        r.push(self.header[4]);
        r.push(self.header[5]);
        r.push(self.header[6]);
        r.push(self.header[7]);
        let mut p = self.payload.to_wire();
        r.append(&mut p);
        proof {
            self.payload.lemma_wire_bytes_len();
            assert(r@ =~= self.spec_bytes());
        }
        r
    }

    /// Rebuilds a command packet from its wire bytes, validating the buffer
    /// length, the message ID, the length field, the sequence flags, and the
    /// function-code top bit; the payload is rebuilt from the trailing bytes.
    pub fn from_bytes(bytes: &[u8]) -> (r: Result<Self, PacketError>)
        ensures
            r is Ok <==> command_parses::<T>(bytes@),
            r matches Ok(c) ==> {
                &&& c@ == bytes@.subrange(0, 8)
                &&& c.payload.wire_bytes() == bytes@.subrange(8, bytes@.len() as int)
                &&& c.wf()
            },
            r matches Err(e) ==> e == command_parse_err::<T>(bytes@),
    {
        let n = T::byte_len();
        if bytes.len() < 8 || bytes.len() - 8 != n {
            return Err(PacketError::BufferSizeMismatch);
        }
        let msg_id = (bytes[0] as u32) * 0x100 + bytes[1] as u32;
        let len_field = (bytes[4] as usize) * 0x100 + bytes[5] as usize;
        if msg_id < COMMAND_MSG_ID_MIN || msg_id > COMMAND_MSG_ID_MAX {
            return Err(PacketError::InvalidField);
        }
        if len_field != n + 1 {
            return Err(PacketError::InvalidField);
        }
        if bytes[2] / 0x40 != 3 {
            return Err(PacketError::MalformedHeader);
        }
        if bytes[6] >= 0x80 {
            return Err(PacketError::MalformedHeader);
        }
        let header: [u8; 8] = [
            bytes[0],
            bytes[1],
            bytes[2],
            bytes[3],
            bytes[4],
            bytes[5],
            bytes[6],
            bytes[7],
        ];
        let payload = T::from_wire(vstd::slice::slice_subrange(bytes, 8, bytes.len()));
        let c = Command { header, payload };
        proof {
            assert(c@ =~= bytes@.subrange(0, 8));
        }
        Ok(c)
    }

    /// The message's message ID.
    pub fn msg_id(&self) -> (r: u32)
        ensures
            r == self.spec_msg_id(),
    {
        (self.header[0] as u32) * 0x100 + self.header[1] as u32
    }

    /// The message's command function code.
    pub fn function_code(&self) -> (r: u16)
        ensures
            r == self.spec_function_code(),
    {
        self.header[6] as u16
    }

    /// Replaces the message ID when `msg_id` is in range, reporting
    /// `InvalidField` and leaving the packet unchanged otherwise; no other
    /// header byte moves.
    pub fn set_msg_id(&mut self, msg_id: u32) -> (r: Result<(), PacketError>)
        ensures
            r is Ok <==> command_msg_id_ok(msg_id as int),
            r is Ok ==> final(self)@ == old(self)@.update(0, (msg_id / 0x100) as u8).update(
                1,
                (msg_id % 0x100) as u8,
            ),
            r is Ok ==> final(self).spec_msg_id() == msg_id,
            r matches Err(e) ==> e == PacketError::InvalidField && *final(self) == *old(self),
            final(self).payload == old(self).payload,
            old(self).wf() ==> final(self).wf(),
    {
        if msg_id >= COMMAND_MSG_ID_MIN && msg_id <= COMMAND_MSG_ID_MAX {
            self.header[0] = (msg_id / 0x100) as u8;
            self.header[1] = (msg_id % 0x100) as u8;
            Ok(())
        } else {
            Err(PacketError::InvalidField)
        }
    }

    /// Replaces the function code when `function_code` is in range, reporting
    /// `InvalidField` and leaving the packet unchanged otherwise; no other
    /// header byte moves.
    pub fn set_function_code(&mut self, function_code: u16) -> (r: Result<(), PacketError>)
        ensures
            r is Ok <==> function_code <= MAX_FUNCTION_CODE,
            r is Ok ==> final(self)@ == old(self)@.update(6, function_code as u8),
            r is Ok ==> final(self).spec_function_code() == function_code,
            r matches Err(e) ==> e == PacketError::InvalidField && *final(self) == *old(self),
            final(self).payload == old(self).payload,
            old(self).wf() ==> final(self).wf(),
    {
        if function_code <= MAX_FUNCTION_CODE {
            self.header[6] = function_code as u8;
            Ok(())
        } else {
            Err(PacketError::InvalidField)
        }
    }
}

/// Encoding then decoding restores a command exactly: the wire bytes of any
/// well-formed command pass every decode check, and a packet whose header is
/// the wire image's first 8 bytes and whose payload image is the rest is the
/// original packet, field for field.
pub proof fn lemma_command_round_trip<T: Payload>(c: Command<T>, d: Command<T>)
    requires
        c.wf(),
        d@ == c.spec_bytes().subrange(0, 8),
        d.payload.wire_bytes() == c.spec_bytes().subrange(8, c.spec_bytes().len() as int),
    ensures
        command_parses::<T>(c.spec_bytes()),
        d@ == c@,
        d.payload == c.payload,
{
    c.payload.lemma_wire_bytes_len();
    assert(c.spec_bytes().subrange(0, 8) =~= c@);
    assert(c.spec_bytes().subrange(8, c.spec_bytes().len() as int) =~= c.payload.wire_bytes());
    d.payload.lemma_wire_bytes_injective(c.payload);
}

} // verus!
