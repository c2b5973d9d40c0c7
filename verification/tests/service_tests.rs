use debt_escrow::{DebtPayload, Error, Service};

fn payload(debtor: &str, creditor: &str, amount: u64) -> DebtPayload {
    DebtPayload { debtor: debtor.to_string(), creditor: creditor.to_string(), amount }
}

#[test]
fn debt_and_escrow_lifecycle() {
    let mut s = Service::new();
    let d = s.add_debt(payload("alice", "bob", 100), 7).expect("valid debt");
    assert_eq!(d.id, 0);
    assert_eq!(d.debtor, "alice");
    assert_eq!(d.creditor, "bob");
    assert_eq!(d.amount, 100);

    let e = s.create_escrow(0, 40, 9).expect("debt exists");
    assert_eq!(e.debt_id, 0);
    assert_eq!(e.amount, 40);

    let released = s.release_escrow(0).expect("escrow exists");
    assert_eq!(released, 40);

    match s.get_escrow(0) {
        Err(Error::NotFound { msg }) => assert_eq!(msg, "escrow for debt_id=0 not found"),
        _ => panic!("released escrow must be gone"),
    }
}

#[test]
fn create_escrow_against_missing_debt() {
    let mut s = Service::new();
    match s.create_escrow(999, 10, 1) {
        Err(Error::NotFound { msg }) => {
            assert_eq!(msg, "couldn't create escrow for debt_id=999. debt not found")
        }
        _ => panic!("no debt 999 exists"),
    }
}

#[test]
fn add_debt_with_empty_debtor_persists_nothing() {
    let mut s = Service::new();
    assert!(s.add_debt(payload("", "bob", 100), 1).is_none());
    assert!(s.debt_ids().is_empty());
    assert_eq!(s.next_id_value(), 0);
}

#[test]
fn add_debt_rejects_empty_creditor_and_zero_amount() {
    let mut s = Service::new();
    assert!(s.add_debt(payload("alice", "", 100), 1).is_none());
    assert!(s.add_debt(payload("alice", "bob", 0), 1).is_none());
    assert!(s.debt_ids().is_empty());
}

#[test]
fn update_preserves_id_and_created_at() {
    let mut s = Service::new();
    let d = s.add_debt(payload("alice", "bob", 100), 55).unwrap();
    let u = s.update_debt(d.id, payload("carol", "dave", 250)).expect("debt exists");
    assert_eq!(u.id, d.id);
    assert_eq!(u.created_at, 55);
    assert_eq!(u.debtor, "carol");
    assert_eq!(u.creditor, "dave");
    assert_eq!(u.amount, 250);
    let g = s.get_debt(d.id).unwrap();
    assert_eq!(g.debtor, "carol");
    assert_eq!(g.created_at, 55);
}

#[test]
fn delete_debt_is_terminal() {
    let mut s = Service::new();
    let d = s.add_debt(payload("alice", "bob", 100), 1).unwrap();
    let removed = s.delete_debt(d.id).expect("debt exists");
    assert_eq!(removed.id, d.id);
    assert_eq!(removed.amount, 100);
    match s.get_debt(d.id) {
        Err(Error::NotFound { msg }) => assert_eq!(msg, "a debt with id=0 not found"),
        _ => panic!("deleted debt must be gone"),
    }
}

#[test]
fn validation_precedes_existence_check() {
    let mut s = Service::new();
    match s.update_debt(424242, payload("", "x", 5)) {
        Err(Error::InvalidInput { msg }) => assert_eq!(msg, "Invalid input data"),
        _ => panic!("empty debtor must fail validation before the lookup"),
    }
    match s.update_escrow(424242, 0) {
        Err(Error::InvalidInput { msg }) => assert_eq!(msg, "Invalid escrow amount"),
        _ => panic!("zero amount must fail validation before the lookup"),
    }
}

#[test]
fn minted_ids_are_unique_and_never_reused() {
    let mut s = Service::new();
    let a = s.add_debt(payload("a", "b", 1), 1).unwrap();
    let b = s.add_debt(payload("c", "d", 2), 2).unwrap();
    assert_eq!(a.id, 0);
    assert_eq!(b.id, 1);
    s.delete_debt(a.id).unwrap();
    let c = s.add_debt(payload("e", "f", 3), 3).unwrap();
    assert_eq!(c.id, 2);
    // an escrow creation consumes an id too, even though it is not the key
    s.create_escrow(b.id, 5, 4).unwrap();
    let d = s.add_debt(payload("g", "h", 4), 5).unwrap();
    assert_eq!(d.id, 4);
}

#[test]
fn repeated_get_agrees_until_mutation() {
    let mut s = Service::new();
    let d = s.add_debt(payload("alice", "bob", 100), 1).unwrap();
    let g1 = s.get_debt(d.id).unwrap();
    let g2 = s.get_debt(d.id).unwrap();
    assert_eq!(g1.id, g2.id);
    assert_eq!(g1.debtor, g2.debtor);
    assert_eq!(g1.creditor, g2.creditor);
    assert_eq!(g1.amount, g2.amount);
    assert_eq!(g1.created_at, g2.created_at);
    s.update_debt(d.id, payload("alice", "bob", 7)).unwrap();
    let g3 = s.get_debt(d.id).unwrap();
    assert_eq!(g3.amount, 7);
}

#[test]
fn not_found_messages_name_id_and_kind() {
    let mut s = Service::new();
    match s.get_debt(7) {
        Err(Error::NotFound { msg }) => assert_eq!(msg, "a debt with id=7 not found"),
        _ => panic!("empty store"),
    }
    match s.update_debt(8, payload("a", "b", 1)) {
        Err(Error::NotFound { msg }) => {
            assert_eq!(msg, "couldn't update a debt with id=8. debt not found")
        }
        _ => panic!("empty store"),
    }
    match s.delete_debt(9) {
        Err(Error::NotFound { msg }) => {
            assert_eq!(msg, "couldn't delete a debt with id=9. debt not found.")
        }
        _ => panic!("empty store"),
    }
    match s.get_escrow(10) {
        Err(Error::NotFound { msg }) => assert_eq!(msg, "escrow for debt_id=10 not found"),
        _ => panic!("empty store"),
    }
    match s.release_escrow(11) {
        Err(Error::NotFound { msg }) => assert_eq!(msg, "escrow for debt_id=11 not found"),
        _ => panic!("empty store"),
    }
    match s.delete_escrow(12) {
        Err(Error::NotFound { msg }) => assert_eq!(msg, "escrow for debt_id=12 not found"),
        _ => panic!("empty store"),
    }
    match s.update_escrow(13, 5) {
        Err(Error::NotFound { msg }) => assert_eq!(msg, "escrow for debt_id=13 not found"),
        _ => panic!("empty store"),
    }
}

#[test]
fn escrow_update_and_delete() {
    let mut s = Service::new();
    let d = s.add_debt(payload("alice", "bob", 100), 3).unwrap();
    let e = s.create_escrow(d.id, 30, 4).unwrap();
    assert_eq!(e.created_at, 4);
    let u = s.update_escrow(d.id, 60).unwrap();
    assert_eq!(u.debt_id, d.id);
    assert_eq!(u.amount, 60);
    assert_eq!(u.created_at, 4);
    let removed = s.delete_escrow(d.id).unwrap();
    assert_eq!(removed.amount, 60);
    assert!(s.get_escrow(d.id).is_err());
}

#[test]
fn create_escrow_rejects_zero_amount_before_lookup() {
    let mut s = Service::new();
    match s.create_escrow(0, 0, 1) {
        Err(Error::InvalidInput { msg }) => assert_eq!(msg, "Invalid escrow amount"),
        _ => panic!("zero amount is invalid"),
    }
    assert_eq!(s.next_id_value(), 0);
}

#[test]
fn oversize_texts_fail_at_the_boundary() {
    let mut s = Service::new();
    let long = "x".repeat(1000);
    assert!(s.add_debt(payload(&long, "bob", 5), 1).is_none());
    let d = s.add_debt(payload("alice", "bob", 5), 1).unwrap();
    match s.update_debt(d.id, payload(&long, "bob", 5)) {
        Err(Error::InvalidInput { msg }) => assert_eq!(msg, "Invalid input data"),
        _ => panic!("a record over the size limit must be refused, not truncated"),
    }
    // both texts together may also breach the limit
    let half = "y".repeat(500);
    assert!(s.add_debt(payload(&half, &half, 5), 1).is_none());
    // well under the limit still passes
    let fits = "z".repeat(400);
    assert!(s.add_debt(payload(&fits, &fits, 5), 1).is_some());
}

#[test]
fn debt_ids_come_out_sorted() {
    let mut s = Service::new();
    for i in 0..5u64 {
        s.add_debt(payload("a", "b", i + 1), i).unwrap();
    }
    let ids = s.debt_ids();
    assert_eq!(ids, vec![0, 1, 2, 3, 4]);
    s.delete_debt(2).unwrap();
    assert_eq!(s.debt_ids(), vec![0, 1, 3, 4]);
}

#[test]
fn deleting_a_debt_leaves_its_escrow() {
    let mut s = Service::new();
    let d = s.add_debt(payload("alice", "bob", 100), 1).unwrap();
    s.create_escrow(d.id, 20, 2).unwrap();
    s.delete_debt(d.id).unwrap();
    let e = s.get_escrow(d.id).expect("the reference is weak; nothing cascades");
    assert_eq!(e.amount, 20);
    assert_eq!(s.escrow_ids(), vec![d.id]);
}

#[test]
fn created_at_comes_from_the_given_clock() {
    let mut s = Service::new();
    let d = s.add_debt(payload("alice", "bob", 100), 123456).unwrap();
    assert_eq!(d.created_at, 123456);
    let e = s.create_escrow(d.id, 10, 654321).unwrap();
    assert_eq!(e.created_at, 654321);
}
