//! A minimal binary-poll ledger program: a caller opens a poll topic at an
//! address derived from their identity, and any signer may then increment
//! the poll's yes or no tally. Every transition is deterministic and
//! byte-exact: the wire codec, the address derivation, the allocation of
//! the poll account and the tally update are all specified and verified.

pub mod address;
pub mod codec;
pub mod errors;
pub mod model;
pub mod poll;

pub use codec::{decode_instruction, decode_record, encode_instruction, encode_record};
pub use codec::{VoteAccount, VoteInstruction, RECORD_FRAME, RECORD_SPACE};
pub use errors::VoteError;
pub use model::AccountRecord;
pub use address::derive_poll_address;
pub use poll::{cast_vote, initialize_vote, process_instruction};
