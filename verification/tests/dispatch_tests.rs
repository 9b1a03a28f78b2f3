use family_banking::auth::{hash_password, verify_password};
use family_banking::dispatch::{
    store_failure_message, write_outcome, FamilyBanking, Flags, Message, Status, TabData,
};
use family_banking::StoreError;
use family_banking::store::{get_password, initialize_db_tables};
use family_banking::views::{EditingPane, Tab};
use rusqlite::Connection;

fn fresh_app() -> FamilyBanking {
    let conn = Connection::open_in_memory().unwrap();
    initialize_db_tables(&conn).unwrap();
    let password = get_password(&conn);
    FamilyBanking::new(Flags { admin_password: password, db_connection: conn })
}

fn logged_in_app() -> FamilyBanking {
    let mut app = fresh_app();
    app.update(Message::PasswordInput1Changed(String::from("secret1")));
    app.update(Message::PasswordInput2Changed(String::from("secret1")));
    app.update(Message::NewPasswordButtonPressed);
    assert!(matches!(app.status, Status::LoggedIn(_)));
    app
}

fn login_error(app: &FamilyBanking) -> String {
    match &app.status {
        Status::NotLoggedIn(v) => v.login_error_message.clone(),
        Status::LoggedIn(_) => panic!("expected the login form"),
    }
}

fn users_pane(app: &FamilyBanking) -> &EditingPane {
    match &app.status {
        Status::LoggedIn(mv) => match &mv.tab_data {
            TabData::Users(Ok(u)) => &u.edit_pane,
            _ => panic!("expected the Users tab"),
        },
        _ => panic!("expected to be logged in"),
    }
}

fn debts_pane(app: &FamilyBanking) -> &EditingPane {
    match &app.status {
        Status::LoggedIn(mv) => match &mv.tab_data {
            TabData::Debts(Ok(d)) => &d.edit_pane,
            _ => panic!("expected the Debts tab"),
        },
        _ => panic!("expected to be logged in"),
    }
}

fn first_user_id(app: &mut FamilyBanking) -> i32 {
    app.update(Message::TabButtonPressed(Tab::Users));
    match &app.status {
        Status::LoggedIn(mv) => match &mv.tab_data {
            TabData::Users(Ok(u)) => u.user_details[0].id,
            _ => panic!("expected the Users tab"),
        },
        _ => panic!("expected to be logged in"),
    }
}

fn add_user(app: &mut FamilyBanking, name: &str, shares: &str) {
    app.update(Message::TabButtonPressed(Tab::Users));
    app.update(Message::AddUserButtonPressed);
    app.update(Message::EditPaneUserNameInputChanged(String::from(name)));
    app.update(Message::EditPaneUserShareInputChanged(String::from(shares)));
    app.update(Message::EditPaneConfirmButtonClicked);
}

#[test]
fn the_window_title_names_the_application() {
    let app = fresh_app();
    assert_eq!(app.title(), "Family Banking");
}

#[test]
fn short_passwords_are_refused_when_creating_one() {
    let mut app = fresh_app();
    app.update(Message::PasswordInput1Changed(String::from("abc")));
    app.update(Message::PasswordInput2Changed(String::from("abc")));
    app.update(Message::NewPasswordButtonPressed);
    assert_eq!(login_error(&app), "Password needs to be at least 6 characters long");
}

#[test]
fn mismatched_passwords_are_refused_when_creating_one() {
    let mut app = fresh_app();
    app.update(Message::PasswordInput1Changed(String::from("secret1")));
    app.update(Message::PasswordInput2Changed(String::from("secret2")));
    app.update(Message::NewPasswordButtonPressed);
    assert_eq!(login_error(&app), "Passwords do not match");
}

#[test]
fn creating_a_password_logs_in_and_persists_the_hash() {
    let app = logged_in_app();
    match &app.status {
        Status::LoggedIn(mv) => {
            assert_eq!(mv.current_tab, Tab::Home);
            assert!(matches!(mv.tab_data, TabData::Home(Ok(_))));
        },
        _ => panic!("expected to be logged in"),
    }
    let stored = get_password(&app.db_connection).unwrap();
    assert!(verify_password(&stored, "secret1"));
    assert!(!verify_password(&stored, "secret2"));
}

#[test]
fn logging_in_checks_the_stored_hash() {
    let conn = Connection::open_in_memory().unwrap();
    initialize_db_tables(&conn).unwrap();
    let hash = hash_password("secret1").unwrap();
    let mut app = FamilyBanking::new(
        Flags { admin_password: Some(hash), db_connection: conn },
    );
    app.update(Message::PasswordInput1Changed(String::from("wrong pass")));
    app.update(Message::LoginButtonPressed);
    match &app.status {
        Status::NotLoggedIn(v) => {
            assert_eq!(v.login_error_message, "Incorrect password");
            // The previous input is preserved on failure.
            assert_eq!(v.password_input_1_value, "wrong pass");
        },
        Status::LoggedIn(_) => panic!("a wrong password must not log in"),
    }
    app.update(Message::PasswordInput1Changed(String::from("secret1")));
    app.update(Message::LoginButtonPressed);
    assert!(matches!(app.status, Status::LoggedIn(_)));
}

#[test]
fn a_failed_password_store_surfaces_on_the_form() {
    let mut app = fresh_app();
    app.db_connection.execute("DROP TABLE admin", ()).unwrap();
    app.update(Message::PasswordInput1Changed(String::from("secret1")));
    app.update(Message::PasswordInput2Changed(String::from("secret1")));
    app.update(Message::NewPasswordButtonPressed);
    match &app.status {
        Status::NotLoggedIn(v) => {
            assert!(!v.login_error_message.is_empty());
            assert_eq!(v.password_input_1_value, "secret1");
            assert_eq!(v.password_input_2_value, "secret1");
        },
        Status::LoggedIn(_) => panic!("a failed credential write must not log in"),
    }
}

#[test]
fn store_answers_map_to_their_outcomes() {
    assert_eq!(write_outcome(Ok(0)), Some(String::from("User not found")));
    assert_eq!(write_outcome(Ok(1)), None);
    assert_eq!(write_outcome(Ok(3)), None);
    assert_eq!(
        write_outcome(Err(StoreError::Sql(String::from("boom")))),
        Some(String::from("boom"))
    );
    assert_eq!(
        write_outcome(Err(StoreError::Corrupt)),
        Some(String::from("The store is corrupt"))
    );
    // A blank store report still surfaces as a visible line.
    let blank = store_failure_message(&StoreError::Sql(String::new()));
    assert!(!blank.is_empty());
}

#[test]
fn a_failed_member_write_surfaces_on_the_pane() {
    let mut app = logged_in_app();
    app.update(Message::TabButtonPressed(Tab::Users));
    app.update(Message::AddUserButtonPressed);
    app.update(Message::EditPaneUserNameInputChanged(String::from("Alice")));
    app.update(Message::EditPaneUserShareInputChanged(String::from("100")));
    app.db_connection.execute("DROP TABLE member", ()).unwrap();
    app.update(Message::EditPaneConfirmButtonClicked);
    match users_pane(&app) {
        EditingPane::AddingUser(d) => {
            assert!(!d.error_message.is_empty());
            assert_eq!(d.name_value, "Alice");
            assert_eq!(d.shares_value, "100");
        },
        _ => panic!("expected the add-user form to stay open"),
    }
}

#[test]
fn hashing_is_one_way_but_verifiable() {
    let hash = hash_password("a passphrase").unwrap();
    assert!(hash.starts_with('$'));
    assert_ne!(hash, "a passphrase");
    assert!(verify_password(&hash, "a passphrase"));
    assert!(!verify_password(&hash, "another passphrase"));
    assert!(!verify_password("not a real hash", "a passphrase"));
}

#[test]
fn adding_a_user_refreshes_the_users_tab() {
    let mut app = logged_in_app();
    add_user(&mut app, "Alice", "100");
    match &app.status {
        Status::LoggedIn(mv) => {
            assert_eq!(mv.current_tab, Tab::Users);
            match &mv.tab_data {
                TabData::Users(Ok(u)) => {
                    assert!(matches!(u.edit_pane, EditingPane::Closed));
                    assert_eq!(u.user_details.len(), 1);
                    assert_eq!(u.user_details[0].name, "Alice");
                    assert_eq!(u.user_details[0].contribution, 10000);
                    assert_eq!(u.user_details[0].percent, 10000);
                },
                _ => panic!("expected the Users tab"),
            }
        },
        _ => panic!("expected to be logged in"),
    }
}

#[test]
fn an_empty_username_is_rejected_in_place() {
    let mut app = logged_in_app();
    add_user(&mut app, "", "100");
    match users_pane(&app) {
        EditingPane::AddingUser(d) => assert_eq!(d.error_message, "Enter valid username"),
        _ => panic!("expected the add-user form to stay open"),
    }
}

#[test]
fn a_malformed_share_is_rejected_in_place() {
    let mut app = logged_in_app();
    add_user(&mut app, "Alice", "ten");
    match users_pane(&app) {
        EditingPane::AddingUser(d) => {
            assert_eq!(d.error_message, "Enter valid number");
            assert_eq!(d.name_value, "Alice");
            assert_eq!(d.shares_value, "ten");
        },
        _ => panic!("expected the add-user form to stay open"),
    }
}

#[test]
fn a_negative_share_is_rejected_in_place() {
    let mut app = logged_in_app();
    add_user(&mut app, "Alice", "-100");
    match users_pane(&app) {
        EditingPane::AddingUser(d) => assert_eq!(d.error_message, "Enter valid number"),
        _ => panic!("expected the add-user form to stay open"),
    }
}

#[test]
fn the_edit_form_is_prefilled_and_edits_apply() {
    let mut app = logged_in_app();
    add_user(&mut app, "Alice", "100.5");
    let id = first_user_id(&mut app);
    app.update(Message::EditUserButtonPressed(id));
    match users_pane(&app) {
        EditingPane::EditingUser(pane_id, d) => {
            assert_eq!(*pane_id, id);
            assert_eq!(d.name_value, "Alice");
            assert_eq!(d.shares_value, "100.5");
        },
        _ => panic!("expected the edit form"),
    }
    app.update(Message::EditPaneUserNameInputChanged(String::from("Alicia")));
    app.update(Message::EditPaneUserShareInputChanged(String::from("200")));
    app.update(Message::EditPaneConfirmButtonClicked);
    match &app.status {
        Status::LoggedIn(mv) => match &mv.tab_data {
            TabData::Users(Ok(u)) => {
                assert_eq!(u.user_details[0].name, "Alicia");
                assert_eq!(u.user_details[0].contribution, 20000);
            },
            _ => panic!("expected the Users tab"),
        },
        _ => panic!("expected to be logged in"),
    }
}

#[test]
fn deleting_a_user_goes_through_confirmation() {
    let mut app = logged_in_app();
    add_user(&mut app, "Alice", "100");
    let id = first_user_id(&mut app);
    app.update(Message::DeleteUserButtonPressed(id));
    assert!(matches!(users_pane(&app), EditingPane::ConfirmingDeletion(_)));
    app.update(Message::EditPaneConfirmButtonClicked);
    match &app.status {
        Status::LoggedIn(mv) => match &mv.tab_data {
            TabData::Users(Ok(u)) => assert!(u.user_details.is_empty()),
            _ => panic!("expected the Users tab"),
        },
        _ => panic!("expected to be logged in"),
    }
}

#[test]
fn closing_the_pane_discards_the_form() {
    let mut app = logged_in_app();
    add_user(&mut app, "Alice", "100");
    app.update(Message::AddUserButtonPressed);
    app.update(Message::EditPaneUserNameInputChanged(String::from("half-typed")));
    app.update(Message::CloseEditPane);
    assert!(matches!(users_pane(&app), EditingPane::Closed));
}

#[test]
fn borrowing_and_repaying_moves_interest_into_profit() {
    let mut app = logged_in_app();
    add_user(&mut app, "Alice", "100");
    let id = first_user_id(&mut app);
    app.update(Message::TabButtonPressed(Tab::Debts));
    app.update(Message::AddDebtButtonPressed(id));
    app.update(Message::EditPaneDebtInputChanged(String::from("50")));
    app.update(Message::EditPaneInterestInputChanged(String::from("10")));
    app.update(Message::EditPaneConfirmButtonClicked);
    match &app.status {
        Status::LoggedIn(mv) => match &mv.tab_data {
            TabData::Debts(Ok(d)) => {
                assert_eq!(d.user_details[0].loan, 5000);
                assert_eq!(d.user_details[0].interest, 1000);
            },
            _ => panic!("expected the Debts tab"),
        },
        _ => panic!("expected to be logged in"),
    }
    app.update(Message::RepayDebtButtonPressed(id));
    app.update(Message::EditPaneRepaymentInputChanged(String::from("55")));
    app.update(Message::EditPaneConfirmButtonClicked);
    match &app.status {
        Status::LoggedIn(mv) => match &mv.tab_data {
            TabData::Debts(Ok(d)) => {
                assert_eq!(d.user_details[0].loan, 0);
                assert_eq!(d.user_details[0].interest, 500);
            },
            _ => panic!("expected the Debts tab"),
        },
        _ => panic!("expected to be logged in"),
    }
    app.update(Message::TabButtonPressed(Tab::Home));
    match &app.status {
        Status::LoggedIn(mv) => match &mv.tab_data {
            TabData::Home(Ok(h)) => {
                assert_eq!(h.profit, 500);
                assert_eq!(h.total_shares, 10000);
                assert_eq!(h.total_loans, 0);
                assert_eq!(h.total_debt, 500);
                assert_eq!(h.total_cash, 10500);
            },
            _ => panic!("expected the Home tab"),
        },
        _ => panic!("expected to be logged in"),
    }
}

#[test]
fn a_repayment_above_the_debt_is_rejected_with_no_change() {
    let mut app = logged_in_app();
    add_user(&mut app, "Alice", "100");
    let id = first_user_id(&mut app);
    app.update(Message::TabButtonPressed(Tab::Debts));
    app.update(Message::AddDebtButtonPressed(id));
    app.update(Message::EditPaneDebtInputChanged(String::from("50")));
    app.update(Message::EditPaneInterestInputChanged(String::from("10")));
    app.update(Message::EditPaneConfirmButtonClicked);
    app.update(Message::RepayDebtButtonPressed(id));
    app.update(Message::EditPaneRepaymentInputChanged(String::from("61")));
    app.update(Message::EditPaneConfirmButtonClicked);
    match debts_pane(&app) {
        EditingPane::RepayingDebt(rd) => {
            assert_eq!(rd.error_message, "Repayment is higher than debt");
        },
        _ => panic!("expected the repayment form to stay open"),
    }
    app.update(Message::TabButtonPressed(Tab::Debts));
    match &app.status {
        Status::LoggedIn(mv) => match &mv.tab_data {
            TabData::Debts(Ok(d)) => {
                assert_eq!(d.user_details[0].loan, 5000);
                assert_eq!(d.user_details[0].interest, 1000);
            },
            _ => panic!("expected the Debts tab"),
        },
        _ => panic!("expected to be logged in"),
    }
}

#[test]
fn negative_loan_and_interest_inputs_are_rejected() {
    let mut app = logged_in_app();
    add_user(&mut app, "Alice", "100");
    let id = first_user_id(&mut app);
    app.update(Message::TabButtonPressed(Tab::Debts));
    app.update(Message::AddDebtButtonPressed(id));
    app.update(Message::EditPaneDebtInputChanged(String::from("-50")));
    app.update(Message::EditPaneInterestInputChanged(String::from("10")));
    app.update(Message::EditPaneConfirmButtonClicked);
    match debts_pane(&app) {
        EditingPane::AddingDebt(ad) => {
            assert_eq!(ad.error_message, "Loan ammount cannot be negative");
        },
        _ => panic!("expected the loan form to stay open"),
    }
    app.update(Message::EditPaneDebtInputChanged(String::from("50")));
    app.update(Message::EditPaneInterestInputChanged(String::from("-10")));
    app.update(Message::EditPaneConfirmButtonClicked);
    match debts_pane(&app) {
        EditingPane::AddingDebt(ad) => {
            assert_eq!(ad.error_message, "Interest cannot be negative");
        },
        _ => panic!("expected the loan form to stay open"),
    }
    app.update(Message::EditPaneDebtInputChanged(String::from("fifty")));
    app.update(Message::EditPaneConfirmButtonClicked);
    match debts_pane(&app) {
        EditingPane::AddingDebt(ad) => {
            assert_eq!(ad.error_message, "Invalid loan ammount");
        },
        _ => panic!("expected the loan form to stay open"),
    }
}

#[test]
fn messages_for_other_screens_change_nothing() {
    let mut app = fresh_app();
    app.update(Message::TabButtonPressed(Tab::Users));
    assert!(matches!(app.status, Status::NotLoggedIn(_)));
    app.update(Message::AddUserButtonPressed);
    assert!(matches!(app.status, Status::NotLoggedIn(_)));
    app.update(Message::LoginButtonPressed);
    // No password is stored, so the login button does nothing either.
    assert!(matches!(app.status, Status::NotLoggedIn(_)));
}
