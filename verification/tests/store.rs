use memo_store::ClockSnapshot;
use memo_store::Memo;
use memo_store::RecordStore;
use memo_store::StoreError;
use memo_store::StoreMemoArgs;
use memo_store::derive_memo_address;

fn program_id() -> Vec<u8> {
    vec![3u8; 32]
}

fn author_a() -> Vec<u8> {
    vec![1u8; 32]
}

fn author_b() -> Vec<u8> {
    vec![2u8; 32]
}

fn clock() -> ClockSnapshot {
    ClockSnapshot { slot: 555, unix_timestamp: 1_700_000_000 }
}

fn plenty() -> u64 {
    1_000_000
}

#[test]
fn create_then_load_returns_matching_record() {
    let mut store = RecordStore::new(program_id());
    let author = author_a();
    let args = StoreMemoArgs { text: b"a fine memo".to_vec(), nonce: 9 };
    let event = store.store_memo(&author, args, &clock(), plenty()).unwrap();
    assert_eq!(event.author, author);
    assert_eq!(event.text, b"a fine memo".to_vec());
    assert_eq!(event.common.slot, 555);
    assert_eq!(event.common.unix_timestamp, 1_700_000_000);

    let record: &Memo = store.load(&event.memo).unwrap();
    assert_eq!(record.author, author);
    assert_eq!(record.text, b"a fine memo".to_vec());
    assert_eq!(record.nonce, 9);
    assert_eq!(record.timestamp, 1_700_000_000);
}

#[test]
fn empty_text_is_rejected_and_nothing_is_stored() {
    let mut store = RecordStore::new(program_id());
    let author = author_a();
    let args = StoreMemoArgs { text: Vec::new(), nonce: 4 };
    let r = store.store_memo(&author, args, &clock(), plenty());
    assert_eq!(r.err().unwrap(), StoreError::TextEmpty);

    let (would_be, _) = derive_memo_address(&author, 4, &program_id()).unwrap();
    assert_eq!(store.load(&would_be).err().unwrap(), StoreError::NotFound);
}

#[test]
fn overlong_text_is_rejected_and_nothing_is_stored() {
    let mut store = RecordStore::new(program_id());
    let author = author_a();
    let args = StoreMemoArgs { text: vec![b'q'; 281], nonce: 4 };
    let r = store.store_memo(&author, args, &clock(), plenty());
    assert_eq!(r.err().unwrap(), StoreError::TextTooLong);

    let (would_be, _) = derive_memo_address(&author, 4, &program_id()).unwrap();
    assert_eq!(store.load(&would_be).err().unwrap(), StoreError::NotFound);
}

#[test]
fn recreation_with_used_pair_fails_and_keeps_the_original() {
    let mut store = RecordStore::new(program_id());
    let author = author_a();
    let first = StoreMemoArgs { text: b"original".to_vec(), nonce: 12 };
    let event = store.store_memo(&author, first, &clock(), plenty()).unwrap();

    let second = StoreMemoArgs { text: b"usurper".to_vec(), nonce: 12 };
    let r = store.store_memo(&author, second, &clock(), plenty());
    assert_eq!(r.err().unwrap(), StoreError::AddressAlreadyInUse);

    let record = store.load(&event.memo).unwrap();
    assert_eq!(record.text, b"original".to_vec());
}

#[test]
fn underfunded_creation_fails_allocation() {
    let mut store = RecordStore::new(program_id());
    let author = author_a();
    let args = StoreMemoArgs { text: b"hello".to_vec(), nonce: 1 };
    // The record would take 66 bytes of storage; offer less.
    let r = store.store_memo(&author, args, &clock(), 65);
    assert_eq!(r.err().unwrap(), StoreError::AllocationFailed);

    let (would_be, _) = derive_memo_address(&author, 1, &program_id()).unwrap();
    assert_eq!(store.load(&would_be).err().unwrap(), StoreError::NotFound);
}

#[test]
fn close_refunds_exactly_the_allocated_size() {
    let mut store = RecordStore::new(program_id());
    let author = author_a();
    let args = StoreMemoArgs { text: b"hello".to_vec(), nonce: 2 };
    let event = store.store_memo(&author, args, &clock(), plenty()).unwrap();
    let refund = store.close_memo(&author, &event.memo).unwrap();
    assert_eq!(refund, 66);
}

#[test]
fn close_on_unknown_address_fails_not_found() {
    let mut store = RecordStore::new(program_id());
    let author = author_a();
    let nowhere = vec![9u8; 32];
    assert_eq!(store.close_memo(&author, &nowhere).err().unwrap(), StoreError::NotFound);
}

#[test]
fn nonce_reuse_across_authors_is_free() {
    let mut store = RecordStore::new(program_id());
    let args_a = StoreMemoArgs { text: b"from a".to_vec(), nonce: 77 };
    let args_b = StoreMemoArgs { text: b"from b".to_vec(), nonce: 77 };
    let event_a = store.store_memo(&author_a(), args_a, &clock(), plenty()).unwrap();
    let event_b = store.store_memo(&author_b(), args_b, &clock(), plenty()).unwrap();
    assert_ne!(event_a.memo, event_b.memo);
    assert_eq!(store.load(&event_a.memo).unwrap().text, b"from a".to_vec());
    assert_eq!(store.load(&event_b.memo).unwrap().text, b"from b".to_vec());
}

#[test]
fn full_story_create_guard_close() {
    let mut store = RecordStore::new(program_id());
    let a = author_a();
    let b = author_b();

    let args = StoreMemoArgs { text: b"hello".to_vec(), nonce: 1 };
    let event = store.store_memo(&a, args, &clock(), plenty()).unwrap();
    let address = event.memo.clone();

    let record = store.load(&address).unwrap();
    assert_eq!(record.author, a);
    assert_eq!(record.text, b"hello".to_vec());
    assert_eq!(record.nonce, 1);

    assert_eq!(store.close_memo(&b, &address).err().unwrap(), StoreError::Unauthorized);
    // The record survives an unauthorized attempt.
    assert_eq!(store.load(&address).unwrap().text, b"hello".to_vec());

    store.close_memo(&a, &address).unwrap();
    assert_eq!(store.load(&address).err().unwrap(), StoreError::NotFound);
}
