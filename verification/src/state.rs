use vstd::prelude::*;
use crate::MAX_TEXT_LEN;
use crate::text_is_valid;

verus! {

/// The persisted record: a memo bound to its author, carrying the payload, the
/// creation time, the caller-chosen nonce, and the bump that disambiguated its
/// derived address.
pub struct Memo {
    /// Fixed-width public identity of the creator; never changes.
    pub author: Vec<u8>,
    /// The payload, 1 to `MAX_TEXT_LEN` bytes.
    pub text: Vec<u8>,
    /// Seconds since the epoch, captured from the clock at creation.
    pub timestamp: i64,
    /// Caller-chosen value; with `author` it forms the record's identity.
    pub nonce: u64,
    /// Disambiguation byte produced by address derivation, kept so a lookup
    /// can reconstruct the address without a search.
    pub bump: u8,
}

/// The mathematical value of a `Memo`.
pub struct MemoView {
    pub author: Seq<u8>,
    pub text: Seq<u8>,
    pub timestamp: i64,
    pub nonce: u64,
    pub bump: u8,
}

impl View for Memo {
    type V = MemoView;

    open spec fn view(&self) -> MemoView {
        MemoView {
            author: self.author@,
            text: self.text@,
            timestamp: self.timestamp,
            nonce: self.nonce,
            bump: self.bump,
        }
    }
}

impl MemoView {
    /// A record is well formed when its author is a 32-byte identity and its
    /// payload obeys the content rule.
    pub open spec fn wf(self) -> bool {
        &&& self.author.len() == 32
        &&& text_is_valid(self.text)
    }
}

/// Bytes of storage a record of this payload takes: an 8-byte type tag, the
/// 32-byte author, a 4-byte payload length, the payload itself, an 8-byte
/// timestamp, an 8-byte nonce and the 1-byte bump.
pub open spec fn spec_space(text_len: nat) -> nat {
    8 + 32 + 4 + text_len + 8 + 8 + 1
}

impl Memo {
    /// Storage size to allocate for a memo with this payload: exactly the
    /// fixed header plus the 4-byte length field plus the payload, no slack.
    pub fn space(text: &Vec<u8>) -> (r: usize)
        requires
            text@.len() <= MAX_TEXT_LEN,
        ensures
            r == spec_space(text@.len()),
    {
        8  // type tag
         + 32  // author
         + 4 + text.len()  // text
         + 8  // timestamp
         + 8  // nonce
         + 1  // bump
    }
}

} // verus!
