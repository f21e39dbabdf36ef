use memo_store::derive_memo_address;
use memo_store::rederive_memo_address;

fn some_author() -> Vec<u8> {
    let mut v = vec![0u8; 32];
    for (i, b) in v.iter_mut().enumerate() {
        *b = i as u8;
    }
    v
}

fn some_program() -> Vec<u8> {
    vec![11u8; 32]
}

#[test]
fn derivation_is_idempotent() {
    let author = some_author();
    let program = some_program();
    let first = derive_memo_address(&author, 1, &program).unwrap();
    let second = derive_memo_address(&author, 1, &program).unwrap();
    assert_eq!(first.0, second.0);
    assert_eq!(first.1, second.1);
}

#[test]
fn derived_address_is_32_bytes_and_not_an_input() {
    let author = some_author();
    let program = some_program();
    let (address, _) = derive_memo_address(&author, 99, &program).unwrap();
    assert_eq!(address.len(), 32);
    assert_ne!(address, author);
    assert_ne!(address, program);
}

#[test]
fn rederivation_reproduces_the_found_address() {
    let author = some_author();
    let program = some_program();
    let (address, bump) = derive_memo_address(&author, 7, &program).unwrap();
    let again = rederive_memo_address(&author, 7, bump, &program).unwrap();
    assert_eq!(again, address);
}

#[test]
fn derivation_matches_the_host_runtime() {
    let author = some_author();
    let program = some_program();
    let nonce: u64 = 42;
    let (address, bump) = derive_memo_address(&author, nonce, &program).unwrap();

    let program_id = solana_pubkey::Pubkey::new_from_array([11u8; 32]);
    let nonce_le = nonce.to_le_bytes();
    let seeds: &[&[u8]] = &[b"memo", author.as_slice(), &nonce_le];
    let (expected, expected_bump) =
        solana_pubkey::Pubkey::find_program_address(seeds, &program_id);
    assert_eq!(address, expected.to_bytes().to_vec());
    assert_eq!(bump, expected_bump);
}

#[test]
fn distinct_nonces_get_distinct_addresses() {
    let author = some_author();
    let program = some_program();
    let (first, _) = derive_memo_address(&author, 1, &program).unwrap();
    let (second, _) = derive_memo_address(&author, 2, &program).unwrap();
    assert_ne!(first, second);
}
