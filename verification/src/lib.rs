use vstd::prelude::*;

mod addressing;
mod bytesutil;
mod codec;
mod error;
mod events;
mod state;
mod store;

pub use addressing::derive_memo_address;
pub use addressing::derived_memo_address;
pub use addressing::lemma_derivation_idempotent;
pub use addressing::memo_namespace_tag;
pub use addressing::pda_search;
pub use addressing::pda_with_bump;
pub use addressing::rederive_memo_address;
pub use addressing::rederived_memo_address;
pub use codec::decode_record;
pub use codec::encode_record;
pub use codec::lemma_encode_injective;
pub use codec::i64_to_le_bytes;
pub use codec::record_type_tag;
pub use codec::spec_encode_record;
pub use codec::spec_i64_as_u64;
pub use codec::spec_i64_to_le_bytes;
pub use error::MemoError;
pub use error::StoreError;
pub use events::ClockSnapshot;
pub use events::CommonFields;
pub use events::MemoCreated;
pub use state::Memo;
pub use state::MemoView;
pub use state::spec_space;
pub use store::RecordStore;
pub use store::StoreMemoArgs;

verus! {

/// Largest memo payload, in bytes.
pub const MAX_TEXT_LEN: usize = 280;

/// Content rule for a memo payload: non-empty and at most `MAX_TEXT_LEN` bytes.
pub open spec fn text_is_valid(text: Seq<u8>) -> bool {
    1 <= text.len() <= MAX_TEXT_LEN
}

/// Checks a memo payload before any storage is allocated: rejects an empty
/// payload and one over `MAX_TEXT_LEN` bytes, and accepts everything else.
pub fn validate(text: &Vec<u8>) -> (r: Result<(), MemoError>)
    ensures
        r is Ok <==> text_is_valid(text@),
        text@.len() == 0 ==> r == Result::<(), MemoError>::Err(MemoError::TextEmpty),
        text@.len() > MAX_TEXT_LEN ==> r == Result::<(), MemoError>::Err(MemoError::TextTooLong),
{
    if text.len() == 0 {
        Err(MemoError::TextEmpty)
    } else if text.len() > MAX_TEXT_LEN {
        Err(MemoError::TextTooLong)
    } else {
        Ok(())
    }
}

} // verus!
