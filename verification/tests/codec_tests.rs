use debt_escrow::codec::{decode_debt, decode_escrow, encode_debt, encode_escrow};
use debt_escrow::{Debt, Escrow};

fn sample_debt() -> Debt {
    Debt {
        id: 3,
        debtor: "alice".to_string(),
        creditor: "bob".to_string(),
        amount: 250,
        created_at: 99,
    }
}

#[test]
fn debt_encoding_round_trips() {
    let d = sample_debt();
    let bytes = encode_debt(&d);
    let back = decode_debt(&bytes).expect("own encoding must decode");
    assert_eq!(back.id, 3);
    assert_eq!(back.debtor, "alice");
    assert_eq!(back.creditor, "bob");
    assert_eq!(back.amount, 250);
    assert_eq!(back.created_at, 99);
}

#[test]
fn debt_encoding_round_trips_beyond_ascii() {
    let d = Debt {
        id: 11,
        debtor: "Ålice π".to_string(),
        creditor: "Bøb 💰".to_string(),
        amount: 1,
        created_at: 2,
    };
    let bytes = encode_debt(&d);
    let back = decode_debt(&bytes).unwrap();
    assert_eq!(back.debtor, "Ålice π");
    assert_eq!(back.creditor, "Bøb 💰");
}

#[test]
fn escrow_encoding_round_trips() {
    let e = Escrow { debt_id: 7, amount: 40, created_at: 5 };
    let bytes = encode_escrow(&e);
    assert_eq!(bytes.len(), 25);
    let back = decode_escrow(&bytes).unwrap();
    assert_eq!(back.debt_id, 7);
    assert_eq!(back.amount, 40);
    assert_eq!(back.created_at, 5);
}

#[test]
fn debt_encoding_length_is_header_plus_texts() {
    let d = sample_debt();
    let bytes = encode_debt(&d);
    assert_eq!(bytes.len(), 41 + "alice".len() + "bob".len());
}

#[test]
fn decode_rejects_a_wrong_tag() {
    let d = sample_debt();
    let mut bytes = encode_debt(&d);
    bytes[0] = 9;
    assert!(decode_debt(&bytes).is_none());
    let e = Escrow { debt_id: 1, amount: 2, created_at: 3 };
    let mut eb = encode_escrow(&e);
    eb[0] = 1;
    assert!(decode_escrow(&eb).is_none());
}

#[test]
fn decode_rejects_truncated_bytes() {
    let d = sample_debt();
    let bytes = encode_debt(&d);
    assert!(decode_debt(&bytes[..bytes.len() - 1]).is_none());
    assert!(decode_debt(&bytes[..10]).is_none());
    assert!(decode_debt(&[]).is_none());
    assert!(decode_escrow(&[2, 0, 0]).is_none());
}

#[test]
fn decode_rejects_invalid_text_bytes() {
    let d = sample_debt();
    let mut bytes = encode_debt(&d);
    // first byte of the debtor text: 0xFF can open no UTF-8 scalar
    bytes[41] = 0xFF;
    assert!(decode_debt(&bytes).is_none());
}
