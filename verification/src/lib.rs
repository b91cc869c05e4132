//! Codec for the fixed binary packet headers that wrap payloads exchanged
//! between flight-software components: an 8-byte command header and a 16-byte
//! telemetry header, each followed by an opaque fixed-size payload.

mod command;
mod fill;
mod telemetry;
mod wire;

pub use command::COMMAND_MSG_ID_MAX;
pub use command::COMMAND_MSG_ID_MIN;
pub use command::Command;
pub use command::MAX_FUNCTION_CODE;
pub use command::command_msg_id_ok;
pub use command::command_parse_err;
pub use command::command_parses;
pub use command::lemma_command_round_trip;
pub use command::spec_command_header;
pub use fill::fill_capacity;
pub use fill::fill_char_array;
pub use fill::fill_truncated;
pub use telemetry::FLIGHT_SOFTWARE_EPOCH_SECS;
pub use telemetry::SEQUENCE_MODULUS;
pub use telemetry::TELEMETRY_MSG_ID_MAX;
pub use telemetry::TELEMETRY_MSG_ID_MIN;
pub use telemetry::Telemetry;
pub use telemetry::iter_next_seq;
pub use telemetry::lemma_sequence_number_wraps;
pub use telemetry::lemma_telemetry_round_trip;
pub use telemetry::next_seq;
pub use telemetry::spec_subseconds;
pub use telemetry::spec_telemetry_header;
pub use telemetry::telemetry_msg_id_ok;
pub use telemetry::telemetry_parse_err;
pub use telemetry::telemetry_parses;
pub use telemetry::with_timestamp;
pub use wire::NoPayload;
pub use wire::PacketError;
pub use wire::Payload;
pub use wire::be16;
pub use wire::be32;

use vstd::prelude::*;

verus! {

/// The command and telemetry message-ID ranges are disjoint: no message ID
/// is acceptable to both packet variants.
pub proof fn lemma_msg_id_ranges_disjoint(m: int)
    ensures
        !(command_msg_id_ok(m) && telemetry_msg_id_ok(m)),
{
}

} // verus!
