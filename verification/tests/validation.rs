use memo_store::Memo;
use memo_store::MemoError;
use memo_store::validate;

#[test]
fn validate_rejects_empty_text() {
    let text: Vec<u8> = Vec::new();
    assert_eq!(validate(&text), Err(MemoError::TextEmpty));
}

#[test]
fn validate_rejects_overlong_text() {
    let text = vec![b'x'; 281];
    assert_eq!(validate(&text), Err(MemoError::TextTooLong));
}

#[test]
fn validate_accepts_single_byte() {
    let text = vec![b'a'];
    assert_eq!(validate(&text), Ok(()));
}

#[test]
fn validate_accepts_longest_text() {
    let text = vec![b'y'; 280];
    assert_eq!(validate(&text), Ok(()));
}

#[test]
fn space_is_exactly_header_plus_length_field_plus_text() {
    let text = b"hello".to_vec();
    assert_eq!(Memo::space(&text), 8 + 32 + 4 + 5 + 8 + 8 + 1);
    let one = vec![b'z'];
    assert_eq!(Memo::space(&one), 62);
    let widest = vec![0u8; 280];
    assert_eq!(Memo::space(&widest), 341);
}
