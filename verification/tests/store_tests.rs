use family_banking::ledger::CredentialState;
use family_banking::StoreError;
use family_banking::store::{
    borrow_debt, classify_credential, debts_tab_data, delete_user, edit_user, fetch_members,
    get_password, home_tab_data, initialize_db_tables, repay_debt, store_new_user,
    store_password, users_tab_data,
};
use rusqlite::Connection;

fn fresh_store() -> Connection {
    let conn = Connection::open_in_memory().unwrap();
    initialize_db_tables(&conn).unwrap();
    conn
}

#[test]
fn fresh_store_has_no_password() {
    let conn = fresh_store();
    assert_eq!(get_password(&conn), None);
}

#[test]
fn initializing_twice_is_an_error() {
    let conn = fresh_store();
    assert!(matches!(initialize_db_tables(&conn), Err(StoreError::Sql(_))));
}

#[test]
fn get_password_bootstraps_an_empty_database() {
    let conn = Connection::open_in_memory().unwrap();
    assert_eq!(get_password(&conn), None);
    // The tables exist now: members can be fetched and the sentinel sits
    // in the credential row.
    let (members, profit) = fetch_members(&conn).unwrap();
    assert!(members.is_empty());
    assert_eq!(profit, 0);
    assert_eq!(get_password(&conn), None);
}

#[test]
fn get_password_heals_a_missing_credential_row() {
    let conn = fresh_store();
    conn.execute("DELETE FROM admin", ()).unwrap();
    assert_eq!(get_password(&conn), None);
    let count: i64 = conn.query_row("SELECT COUNT(*) FROM admin", (), |r| r.get(0)).unwrap();
    assert_eq!(count, 1);
}

#[test]
fn stored_password_is_a_hash_and_never_the_sentinel() {
    let conn = fresh_store();
    store_password(&conn, String::from("hunter2")).unwrap();
    let hash = get_password(&conn).unwrap();
    assert_ne!(hash, " ");
    assert!(hash.starts_with('$'));
    assert_ne!(hash, "hunter2");
    // A second store overwrites without needing the sentinel back.
    store_password(&conn, String::from("correct horse")).unwrap();
    let hash2 = get_password(&conn).unwrap();
    assert_ne!(hash2, hash);
}

#[test]
fn classify_credential_reads_the_sentinel_as_unset() {
    assert!(matches!(classify_credential(None), CredentialState::Unset));
    assert!(matches!(classify_credential(Some(String::from(" "))), CredentialState::Unset));
    match classify_credential(Some(String::from("$abc"))) {
        CredentialState::Hashed(h) => assert_eq!(h, "$abc"),
        CredentialState::Unset => panic!("a non-sentinel value is a hash"),
    }
}

#[test]
fn new_member_round_trip_through_the_store() {
    let conn = fresh_store();
    store_new_user(&conn, String::from("Alice"), 10000).unwrap();
    let (members, profit) = fetch_members(&conn).unwrap();
    assert_eq!(profit, 0);
    assert_eq!(members.len(), 1);
    assert_eq!(members[0].name, "Alice");
    assert_eq!(members[0].share, 10000);
    assert_eq!(members[0].loan, 0);
    assert_eq!(members[0].interest, 0);
    assert!(members.iter().all(|m| m.id != 0));
}

#[test]
fn repayment_is_booked_atomically_with_the_profit_credit() {
    let conn = fresh_store();
    store_new_user(&conn, String::from("Alice"), 10000).unwrap();
    let (members, _) = fetch_members(&conn).unwrap();
    let id = members[0].id;
    borrow_debt(&conn, id, 5000, 1000).unwrap();
    repay_debt(&conn, id, 5000, 500).unwrap();
    let (members, profit) = fetch_members(&conn).unwrap();
    assert_eq!(members[0].loan, 0);
    assert_eq!(members[0].interest, 500);
    assert_eq!(profit, 500);
}

#[test]
fn editing_and_deleting_report_how_many_rows_changed() {
    let conn = fresh_store();
    store_new_user(&conn, String::from("Alice"), 100).unwrap();
    let (members, _) = fetch_members(&conn).unwrap();
    let id = members[0].id;
    assert_eq!(edit_user(&conn, id, String::from("Alicia"), 300).unwrap(), 1);
    assert_eq!(edit_user(&conn, id + 7, String::from("Nobody"), 1).unwrap(), 0);
    assert_eq!(delete_user(&conn, id).unwrap(), 1);
    assert_eq!(delete_user(&conn, id).unwrap(), 0);
}

#[test]
fn the_profit_row_is_shielded_from_member_operations() {
    let conn = fresh_store();
    assert_eq!(edit_user(&conn, 0, String::from("X"), 1).unwrap(), 0);
    assert_eq!(delete_user(&conn, 0).unwrap(), 0);
    assert_eq!(borrow_debt(&conn, 0, 1, 1).unwrap(), 0);
    assert_eq!(repay_debt(&conn, 0, 0, 1).unwrap(), 0);
    let (members, profit) = fetch_members(&conn).unwrap();
    assert!(members.is_empty());
    assert_eq!(profit, 0);
}

#[test]
fn out_of_range_rows_read_as_a_corrupt_store() {
    let conn = fresh_store();
    store_new_user(&conn, String::from("Alice"), 100).unwrap();
    conn.execute("UPDATE member SET share = -5 WHERE name = 'Alice'", ()).unwrap();
    assert!(matches!(fetch_members(&conn), Err(StoreError::Corrupt)));
}

#[test]
fn a_store_without_the_profit_row_is_corrupt() {
    let conn = fresh_store();
    conn.execute("DELETE FROM member WHERE memberId = 0", ()).unwrap();
    assert!(matches!(fetch_members(&conn), Err(StoreError::Corrupt)));
    assert!(matches!(home_tab_data(&conn), Err(StoreError::Corrupt)));
}

#[test]
fn tab_projections_come_fresh_from_the_store() {
    let conn = fresh_store();
    store_new_user(&conn, String::from("Alice"), 7500).unwrap();
    store_new_user(&conn, String::from("Bob"), 2500).unwrap();
    let h = home_tab_data(&conn).unwrap();
    assert_eq!(h.total_shares, 10000);
    assert_eq!(h.total_cash, 10000);
    let u = users_tab_data(&conn).unwrap();
    assert_eq!(u.user_details.len(), 2);
    assert_eq!(u.user_details[0].percent, 7500);
    let d = debts_tab_data(&conn).unwrap();
    assert_eq!(d.user_details.len(), 2);
}
