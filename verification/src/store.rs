use vstd::prelude::*;
use vstd::map::*;
use crate::MAX_TEXT_LEN;
use crate::bytesutil::bytes_eq;
use crate::bytesutil::clone_bytes;
use crate::addressing::derive_memo_address;
use crate::addressing::derived_memo_address;
use crate::addressing::rederived_memo_address;
use crate::error::StoreError;
use crate::events::ClockSnapshot;
use crate::events::CommonFields;
use crate::events::MemoCreated;
use crate::state::Memo;
use crate::state::MemoView;
use crate::state::spec_space;
use crate::validate;

verus! {

/// What a creation request carries: the payload and the caller-chosen nonce.
pub struct StoreMemoArgs {
    pub text: Vec<u8>,
    pub nonce: u64,
}

struct Entry {
    address: Vec<u8>,
    memo: Memo,
}

/// The record store: the storage space of one program, keyed by derived
/// address. Its mathematical value is a map from 32-byte addresses to records.
pub struct RecordStore {
    program_id: Vec<u8>,
    entries: Vec<Entry>,
}

impl View for RecordStore {
    type V = Map<Seq<u8>, MemoView>;

    closed spec fn view(&self) -> Map<Seq<u8>, MemoView> {
        Map::new(
            |addr: Seq<u8>| self.has_addr(addr),
            |addr: Seq<u8>| self.entries@[self.index_of(addr)].memo@,
        )
    }
}

impl RecordStore {
    /// The identity of the program whose records this store holds.
    pub closed spec fn program(&self) -> Seq<u8> {
        self.program_id@
    }

    spec fn addr_at(&self, i: int) -> Seq<u8> {
        self.entries@[i].address@
    }

    spec fn has_addr(&self, addr: Seq<u8>) -> bool {
        exists|i: int| 0 <= i < self.entries@.len() && self.addr_at(i) == addr
    }

    spec fn index_of(&self, addr: Seq<u8>) -> int {
        choose|i: int| 0 <= i < self.entries@.len() && self.addr_at(i) == addr
    }

    spec fn entry_ok(&self, i: int) -> bool {
        &&& self.entries@[i].memo@.wf()
        &&& self.addr_at(i).len() == 32
        &&& rederived_memo_address(
            self.entries@[i].memo@.author,
            self.entries@[i].memo@.nonce,
            self.entries@[i].memo@.bump,
            self.program_id@,
        ) == Some(self.addr_at(i))
    }

    /// Well-formedness: a 32-byte program identity, every record well formed
    /// and sitting at the address its own fields re-derive, and no two records
    /// at one address.
    pub closed spec fn wf(&self) -> bool {
        &&& self.program_id@.len() == 32
        &&& forall|i: int| 0 <= i < self.entries@.len() ==> #[trigger] self.entry_ok(i)
        &&& forall|i: int, j: int|
            #![trigger self.addr_at(i), self.addr_at(j)]
            0 <= i < j < self.entries@.len() ==> self.addr_at(i) != self.addr_at(j)
    }

    proof fn lemma_entry_view(&self, i: int)
        requires
            self.wf(),
            0 <= i < self.entries@.len(),
        ensures
            self@.contains_key(self.addr_at(i)),
            self@[self.addr_at(i)] == self.entries@[i].memo@,
    {
        let addr = self.addr_at(i);
        assert(self.has_addr(addr));
        let j = self.index_of(addr);
        assert(0 <= j < self.entries@.len() && self.addr_at(j) == addr);
        if i < j {
            assert(self.addr_at(i) != self.addr_at(j));
        }
        if j < i {
            assert(self.addr_at(j) != self.addr_at(i));
        }
        assert(j == i);
    }

    /// A fresh, empty store for the program with this 32-byte identity.
    pub fn new(program_id: Vec<u8>) -> (s: Self)
        requires
            program_id@.len() == 32,
        ensures
            s.wf(),
            s@ == Map::<Seq<u8>, MemoView>::empty(),
            s.program() == program_id@,
    {
        let s = RecordStore { program_id, entries: Vec::new() };
        proof {
            assert(s@ =~= Map::<Seq<u8>, MemoView>::empty());
        }
        s
    }

    fn find_index(&self, address: &Vec<u8>) -> (r: Option<usize>)
        ensures
            match r {
                Some(i) => 0 <= i < self.entries@.len() && self.addr_at(i as int) == address@,
                None => !self.has_addr(address@),
            },
    {
        let mut i: usize = 0;
        while i < self.entries.len()
            invariant
                i <= self.entries@.len(),
                forall|j: int| 0 <= j < i ==> self.addr_at(j) != address@,
            decreases self.entries@.len() - i,
        {
            if bytes_eq(&self.entries[i].address, address) {
                return Some(i);
            }
            i += 1;
        }
        None
    }

    /// Creates a record for `(author, nonce)` with the given payload, paid for
    /// out of `funds`, and reports the creation as a notification carrying the
    /// clock snapshot, the new address, the author and the payload. On any
    /// failure the store is left exactly as it was.
    pub fn store_memo(
        &mut self,
        author: &Vec<u8>,
        args: StoreMemoArgs,
        clock: &ClockSnapshot,
        funds: u64,
    ) -> (r: Result<MemoCreated, StoreError>)
        requires
            old(self).wf(),
            author@.len() == 32,
        ensures
            final(self).wf(),
            final(self).program() == old(self).program(),
            ({
                let text = args.text@;
                let derived = derived_memo_address(author@, args.nonce, old(self).program());
                if text.len() == 0 {
                    r == Err::<MemoCreated, StoreError>(StoreError::TextEmpty) && final(self)@
                        == old(self)@
                } else if text.len() > MAX_TEXT_LEN {
                    r == Err::<MemoCreated, StoreError>(StoreError::TextTooLong) && final(self)@
                        == old(self)@
                } else {
                    match derived {
                        None => r == Err::<MemoCreated, StoreError>(StoreError::AddressExhausted)
                            && final(self)@ == old(self)@,
                        Some(found) => {
                            if old(self)@.contains_key(found.0) {
                                r == Err::<MemoCreated, StoreError>(StoreError::AddressAlreadyInUse)
                                    && final(self)@ == old(self)@
                            } else if funds < spec_space(text.len()) {
                                r == Err::<MemoCreated, StoreError>(StoreError::AllocationFailed)
                                    && final(self)@ == old(self)@
                            } else {
                                &&& r is Ok
                                &&& (r matches Ok(event) ==> {
                                    &&& event.memo@ == found.0
                                    &&& event.author@ == author@
                                    &&& event.text@ == text
                                    &&& event.common.slot == clock.slot
                                    &&& event.common.unix_timestamp == clock.unix_timestamp
                                })
                                &&& final(self)@ == old(self)@.insert(
                                    found.0,
                                    MemoView {
                                        author: author@,
                                        text,
                                        timestamp: clock.unix_timestamp,
                                        nonce: args.nonce,
                                        bump: found.1,
                                    },
                                )
                            }
                        },
                    }
                }
            }),
    {
        if let Err(rejection) = validate(&args.text) {
            return Err(StoreError::from_validation(rejection));
        }
        let found = match derive_memo_address(author, args.nonce, &self.program_id) {
            None => {
                return Err(StoreError::AddressExhausted);
            },
            Some(found) => found,
        };
        let (address, bump) = found;
        if self.find_index(&address).is_some() {
            return Err(StoreError::AddressAlreadyInUse);
        }
        let space = Memo::space(&args.text);
        if funds < space as u64 {
            return Err(StoreError::AllocationFailed);
        }
        let event = MemoCreated {
            common: CommonFields::new(clock),
            memo: clone_bytes(&address),
            author: clone_bytes(author),
            text: clone_bytes(&args.text),
        };
        let memo = Memo {
            author: clone_bytes(author),
            text: args.text,
            timestamp: clock.unix_timestamp,
            nonce: args.nonce,
            bump,
        };
        let ghost inserted = memo@;
        self.entries.push(Entry { address, memo });
        proof {
            let pre = *old(self);
            let n = pre.entries@.len() as int;
            assert(self.entries@ == pre.entries@.push(self.entries@[n]));
            assert forall|i: int| 0 <= i < self.entries@.len() implies #[trigger] self.entry_ok(
                i,
            ) by {
                if i < n {
                    assert(pre.entry_ok(i));
                    assert(self.entries@[i] == pre.entries@[i]);
                }
            }
            assert forall|i: int, j: int|
                #![trigger self.addr_at(i), self.addr_at(j)]
                0 <= i < j < self.entries@.len() implies self.addr_at(i) != self.addr_at(j) by {
                if j < n {
                    assert(pre.addr_at(i) != pre.addr_at(j));
                } else {
                    assert(!pre.has_addr(self.addr_at(j)));
                    if self.addr_at(i) == self.addr_at(j) {
                        assert(pre.addr_at(i) == self.addr_at(i));
                        assert(pre.has_addr(self.addr_at(j)));
                    }
                }
            }
            let new_addr = self.addr_at(n);
            self.lemma_entry_view(n);
            assert_maps_equal!(self@, pre@.insert(new_addr, inserted), a => {
                if self.has_addr(a) {
                    let i = choose|i: int| 0 <= i < self.entries@.len() && self.addr_at(i) == a;
                    self.lemma_entry_view(i);
                    if i < n {
                        assert(pre.addr_at(i) == a);
                        pre.lemma_entry_view(i);
                        assert(self.addr_at(i) != self.addr_at(n));
                    }
                }
                if pre.has_addr(a) {
                    let i = choose|i: int| 0 <= i < pre.entries@.len() && pre.addr_at(i) == a;
                    assert(self.addr_at(i) == a);
                    assert(self.has_addr(a));
                }
                assert(self.has_addr(new_addr));
            });
        }
        Ok(event)
    }

    /// Deletes the record at `address` when the requester is its author,
    /// returning the storage deposit of exactly the record's size; fails with
    /// `NotFound` when no record lives there and `Unauthorized` when the
    /// requester is anyone else, leaving the store exactly as it was.
    pub fn close_memo(&mut self, requester: &Vec<u8>, address: &Vec<u8>) -> (r: Result<
        u64,
        StoreError,
    >)
        requires
            old(self).wf(),
        ensures
            final(self).wf(),
            final(self).program() == old(self).program(),
            !old(self)@.contains_key(address@) ==> r == Err::<u64, StoreError>(StoreError::NotFound)
                && final(self)@ == old(self)@,
            old(self)@.contains_key(address@) && old(self)@[address@].author != requester@ ==> r
                == Err::<u64, StoreError>(StoreError::Unauthorized) && final(self)@ == old(self)@,
            old(self)@.contains_key(address@) && old(self)@[address@].author == requester@ ==> r
                == Ok::<u64, StoreError>((spec_space(old(self)@[address@].text.len()) as u64))
                && final(self)@ == old(self)@.remove(address@),
    {
        let idx = match self.find_index(address) {
            None => {
                return Err(StoreError::NotFound);
            },
            Some(i) => i,
        };
        proof {
            self.lemma_entry_view(idx as int);
            assert(self.entry_ok(idx as int));
        }
        if !bytes_eq(&self.entries[idx].memo.author, requester) {
            return Err(StoreError::Unauthorized);
        }
        let refund = Memo::space(&self.entries[idx].memo.text) as u64;
        self.entries.remove(idx);
        proof {
            let pre = *old(self);
            let k = idx as int;
            pre.entries@.remove_ensures(k);
            assert forall|i: int| 0 <= i < self.entries@.len() implies #[trigger] self.entry_ok(
                i,
            ) by {
                if i < k {
                    assert(self.entries@[i] == pre.entries@[i]);
                    assert(pre.entry_ok(i));
                } else {
                    assert(self.entries@[i] == pre.entries@[i + 1]);
                    assert(pre.entry_ok(i + 1));
                }
            }
            assert forall|i: int, j: int|
                #![trigger self.addr_at(i), self.addr_at(j)]
                0 <= i < j < self.entries@.len() implies self.addr_at(i) != self.addr_at(j) by {
                let pi = if i < k {
                    i
                } else {
                    i + 1
                };
                let pj = if j < k {
                    j
                } else {
                    j + 1
                };
                assert(self.entries@[i] == pre.entries@[pi]);
                assert(self.entries@[j] == pre.entries@[pj]);
                assert(pre.addr_at(pi) != pre.addr_at(pj));
            }
            assert_maps_equal!(self@, pre@.remove(address@), a => {
                if self.has_addr(a) {
                    let i = choose|i: int| 0 <= i < self.entries@.len() && self.addr_at(i) == a;
                    let pi = if i < k {
                        i
                    } else {
                        i + 1
                    };
                    assert(self.entries@[i] == pre.entries@[pi]);
                    assert(pre.addr_at(pi) == a);
                    pre.lemma_entry_view(pi);
                    self.lemma_entry_view(i);
                    if k < pi {
                        assert(pre.addr_at(k) != pre.addr_at(pi));
                    }
                    if pi < k {
                        assert(pre.addr_at(pi) != pre.addr_at(k));
                    }
                }
                if pre.has_addr(a) && a != address@ {
                    let i = choose|i: int| 0 <= i < pre.entries@.len() && pre.addr_at(i) == a;
                    pre.lemma_entry_view(i);
                    assert(i != k);
                    if i < k {
                        assert(self.entries@[i] == pre.entries@[i]);
                        assert(self.addr_at(i) == a);
                        self.lemma_entry_view(i);
                    } else {
                        assert(self.entries@[i - 1] == pre.entries@[i]);
                        assert(self.addr_at(i - 1) == a);
                        self.lemma_entry_view(i - 1);
                    }
                }
            });
        }
        Ok(refund)
    }

    /// Reads the record at `address`, or reports `NotFound` when no record
    /// lives there. The store itself is untouched.
    pub fn load(&self, address: &Vec<u8>) -> (r: Result<&Memo, StoreError>)
        requires
            self.wf(),
        ensures
            self@.contains_key(address@) ==> (r matches Ok(found) && found@ == self@[address@]),
            !self@.contains_key(address@) ==> (r matches Err(e) && e == StoreError::NotFound),
    {
        match self.find_index(address) {
            Some(i) => {
                proof {
                    self.lemma_entry_view(i as int);
                }
                Ok(&self.entries[i].memo)
            },
            None => Err(StoreError::NotFound),
        }
    }

    /// Every record the store holds is well formed: its author is a 32-byte
    /// identity and its payload has 1 to `MAX_TEXT_LEN` bytes.
    pub proof fn lemma_stored_record_wf(&self, addr: Seq<u8>)
        requires
            self.wf(),
            self@.contains_key(addr),
        ensures
            self@[addr].wf(),
    {
        let i = choose|i: int| 0 <= i < self.entries@.len() && self.addr_at(i) == addr;
        assert(self.entry_ok(i));
        self.lemma_entry_view(i);
    }

    /// Every record the store holds sits at exactly the address that
    /// re-derivation from the record's own author, nonce and bump reproduces:
    /// a lookup can reconstruct the address without a directory.
    pub proof fn lemma_stored_address_rederivable(&self, addr: Seq<u8>)
        requires
            self.wf(),
            self@.contains_key(addr),
        ensures
            rederived_memo_address(
                self@[addr].author,
                self@[addr].nonce,
                self@[addr].bump,
                self.program(),
            ) == Some(addr),
    {
        let i = choose|i: int| 0 <= i < self.entries@.len() && self.addr_at(i) == addr;
        assert(self.entry_ok(i));
        self.lemma_entry_view(i);
    }
}

} // verus!
