//! Fixed-width EVM ABI codec: a cursor that reads addresses, hashes and
//! 256-bit integers out of a byte buffer, and a writer that lays them out
//! as 32-byte words.

mod decoder;
mod encoder;
mod laws;
mod word;

pub use word::{be_value, byte_at, pow256, u256_word, H160, H256, U256};
pub use decoder::{bytes_at, decode_h160_at, decode_u256_at, BytesToFixedNumber, DecodeError, ADDRESS_LEN, ADDRESS_PADDING, WORD_LEN};
pub use encoder::{padded_address, FixedNumberToBytes};
pub use laws::{lemma_h160_not_padded_round_trip, lemma_h160_round_trip, lemma_h256_round_trip, lemma_padded_address_layout, lemma_u256_round_trip, lemma_u256_word_layout};
