//! Builds and parses raw network packets octet by octet: protocol headers are
//! encoded one after another into a buffer, with the checksums that depend on
//! neighbouring headers filled in, and raw bytes are decoded back into typed
//! headers layer by layer.

pub mod ethertype_numbers;
pub mod headers;
mod helpers;
mod packet;
mod protocol;
pub mod protocol_numbers;

pub use helpers::{
    be16, be_bytes, be_words_sum, checksum, complement_of, counted, finalize_checksum, internet_checksum,
    lemma_be_words_sum_with_word, lemma_checksum_law, lemma_fold_step, lemma_ones_fold_add,
    lemma_ones_fold_range, lemma_ones_fold_same_add, lemma_ones_fold_shift, lemma_words_sum_bound,
    lemma_words_sum_skip, lemma_words_sum_with_word, ones_fold, sum_be_words, with_word, word, word_at,
    words_sum, AsBeBytes, ParseError,
};
pub use packet::{
    holds_decoded, lemma_finalized_icmp_checksum_verifies, lemma_update_arp_keeps_bytes,
    lemma_update_eth_keeps_bytes, lemma_update_icmp_keeps_bytes, lemma_update_ip_keeps_bytes,
    lemma_update_with_same_bytes, only_lower_layers, parsed_from, starts_at_link, walk, walk_offset, Packet,
};
pub use protocol::{lemma_slot_injective, protocol_of_number, Protocol};
