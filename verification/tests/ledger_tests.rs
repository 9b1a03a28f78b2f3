use family_banking::ledger::{CredentialState, Ledger};
use family_banking::{split_repayment, LedgerError, AMOUNT_LIMIT};

#[test]
fn fresh_ledger_has_only_the_profit_row() {
    let ledger = Ledger::new();
    let (members, profit) = ledger.list_members();
    assert_eq!(members.len(), 0);
    assert_eq!(profit, 0);
}

#[test]
fn added_member_shows_up_with_share_and_no_debt() {
    let mut ledger = Ledger::new();
    let id = ledger.add_member(String::from("Alice"), 10000).unwrap();
    let (members, _) = ledger.list_members();
    assert_eq!(members.len(), 1);
    assert_eq!(members[0].id, id);
    assert_eq!(members[0].name, "Alice");
    assert_eq!(members[0].share, 10000);
    assert_eq!(members[0].loan, 0);
    assert_eq!(members[0].interest, 0);
}

#[test]
fn profit_row_is_never_listed() {
    let mut ledger = Ledger::new();
    ledger.add_member(String::from("Alice"), 100).unwrap();
    ledger.add_member(String::from("Bob"), 200).unwrap();
    let (members, _) = ledger.list_members();
    for m in &members {
        assert!(m.id != 0);
        assert!(m.name != "Profits");
    }
}

#[test]
fn listing_twice_gives_identical_results() {
    let mut ledger = Ledger::new();
    ledger.add_member(String::from("Alice"), 123).unwrap();
    ledger.add_member(String::from("Bob"), 456).unwrap();
    let (m1, p1) = ledger.list_members();
    let (m2, p2) = ledger.list_members();
    assert_eq!(p1, p2);
    assert_eq!(m1.len(), m2.len());
    for (a, b) in m1.iter().zip(m2.iter()) {
        assert_eq!(a.id, b.id);
        assert_eq!(a.name, b.name);
        assert_eq!(a.share, b.share);
        assert_eq!(a.loan, b.loan);
        assert_eq!(a.interest, b.interest);
    }
}

#[test]
fn member_ids_count_up_and_follow_the_largest() {
    let mut ledger = Ledger::new();
    let a = ledger.add_member(String::from("Alice"), 0).unwrap();
    let b = ledger.add_member(String::from("Bob"), 0).unwrap();
    assert_eq!(a, 1);
    assert_eq!(b, 2);
    ledger.delete_member(b).unwrap();
    let c = ledger.add_member(String::from("Carol"), 0).unwrap();
    assert_eq!(c, 2);
}

#[test]
fn add_member_validates_name_and_share() {
    let mut ledger = Ledger::new();
    assert_eq!(ledger.add_member(String::new(), 100), Err(LedgerError::Validation));
    assert_eq!(
        ledger.add_member(String::from("Alice"), AMOUNT_LIMIT + 1),
        Err(LedgerError::Validation)
    );
    let (members, _) = ledger.list_members();
    assert_eq!(members.len(), 0);
}

#[test]
fn edit_member_rewrites_name_and_share_only() {
    let mut ledger = Ledger::new();
    let id = ledger.add_member(String::from("Alice"), 100).unwrap();
    ledger.borrow(id, 40, 4).unwrap();
    ledger.edit_member(id, String::from("Alicia"), 250).unwrap();
    let (members, _) = ledger.list_members();
    assert_eq!(members[0].name, "Alicia");
    assert_eq!(members[0].share, 250);
    assert_eq!(members[0].loan, 40);
    assert_eq!(members[0].interest, 4);
}

#[test]
fn operations_on_missing_members_are_not_found() {
    let mut ledger = Ledger::new();
    assert_eq!(ledger.edit_member(7, String::from("X"), 1), Err(LedgerError::NotFound));
    assert_eq!(ledger.delete_member(7), Err(LedgerError::NotFound));
    assert_eq!(ledger.borrow(7, 1, 1), Err(LedgerError::NotFound));
    assert_eq!(ledger.repay(7, 0, 0), Err(LedgerError::NotFound));
    assert_eq!(ledger.repay_request(7, 0), Err(LedgerError::NotFound));
}

#[test]
fn the_profit_row_is_not_a_member() {
    let mut ledger = Ledger::new();
    assert_eq!(ledger.edit_member(0, String::from("X"), 1), Err(LedgerError::NotFound));
    assert_eq!(ledger.delete_member(0), Err(LedgerError::NotFound));
    assert_eq!(ledger.borrow(0, 1, 1), Err(LedgerError::NotFound));
}

#[test]
fn splits_repayment_principal_first() {
    assert_eq!(split_repayment(5000, 1000, 5500), (5000, 500));
    assert_eq!(split_repayment(5000, 1000, 4000), (4000, 0));
    assert_eq!(split_repayment(5000, 1000, 5000), (5000, 0));
    assert_eq!(split_repayment(5000, 1000, 6000), (5000, 1000));
    assert_eq!(split_repayment(0, 1000, 700), (0, 700));
}

#[test]
fn repayment_reduces_principal_first_and_credits_profit() {
    let mut ledger = Ledger::new();
    let id = ledger.add_member(String::from("Alice"), 10000).unwrap();
    ledger.borrow(id, 5000, 1000).unwrap();
    ledger.repay_request(id, 5500).unwrap();
    let (members, profit) = ledger.list_members();
    assert_eq!(members[0].loan, 0);
    assert_eq!(members[0].interest, 500);
    assert_eq!(profit, 500);
}

#[test]
fn repayment_above_the_debt_is_rejected_unchanged() {
    let mut ledger = Ledger::new();
    let id = ledger.add_member(String::from("Alice"), 10000).unwrap();
    ledger.borrow(id, 5000, 1000).unwrap();
    assert_eq!(ledger.repay_request(id, 6100), Err(LedgerError::Validation));
    let (members, profit) = ledger.list_members();
    assert_eq!(members[0].loan, 5000);
    assert_eq!(members[0].interest, 1000);
    assert_eq!(profit, 0);
}

#[test]
fn repay_rejects_portions_beyond_the_balances() {
    let mut ledger = Ledger::new();
    let id = ledger.add_member(String::from("Alice"), 0).unwrap();
    ledger.borrow(id, 100, 10).unwrap();
    assert_eq!(ledger.repay(id, 101, 0), Err(LedgerError::Validation));
    assert_eq!(ledger.repay(id, 0, 11), Err(LedgerError::Validation));
    assert_eq!(ledger.repay(id, 100, 10), Ok(()));
    let (members, profit) = ledger.list_members();
    assert_eq!(members[0].loan, 0);
    assert_eq!(members[0].interest, 0);
    assert_eq!(profit, 10);
}

#[test]
fn borrow_adds_to_both_balances() {
    let mut ledger = Ledger::new();
    let id = ledger.add_member(String::from("Alice"), 0).unwrap();
    ledger.borrow(id, 300, 30).unwrap();
    ledger.borrow(id, 200, 20).unwrap();
    let (members, _) = ledger.list_members();
    assert_eq!(members[0].loan, 500);
    assert_eq!(members[0].interest, 50);
}

#[test]
fn borrow_beyond_the_range_is_rejected() {
    let mut ledger = Ledger::new();
    let id = ledger.add_member(String::from("Alice"), 0).unwrap();
    ledger.borrow(id, AMOUNT_LIMIT, 0).unwrap();
    assert_eq!(ledger.borrow(id, 1, 0), Err(LedgerError::Validation));
}

#[test]
fn deleting_a_member_keeps_their_interest_in_the_pool() {
    let mut ledger = Ledger::new();
    let id = ledger.add_member(String::from("Alice"), 1000).unwrap();
    ledger.borrow(id, 0, 200).unwrap();
    ledger.repay_request(id, 200).unwrap();
    ledger.delete_member(id).unwrap();
    let (members, profit) = ledger.list_members();
    assert_eq!(members.len(), 0);
    assert_eq!(profit, 200);
}

#[test]
fn credential_starts_unset_and_each_store_overwrites() {
    let mut ledger = Ledger::new();
    assert!(matches!(ledger.read_credential(), CredentialState::Unset));
    ledger.set_credential(String::from("$hash-one"));
    match ledger.read_credential() {
        CredentialState::Hashed(h) => assert_eq!(h, "$hash-one"),
        CredentialState::Unset => panic!("credential should be set"),
    }
    ledger.set_credential(String::from("$hash-two"));
    match ledger.read_credential() {
        CredentialState::Hashed(h) => assert_eq!(h, "$hash-two"),
        CredentialState::Unset => panic!("credential should still be set"),
    }
    let (members, _) = ledger.list_members();
    assert_eq!(members.len(), 0);
}
