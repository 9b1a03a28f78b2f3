use family_banking::ledger::MemberRow;
use family_banking::style::{sidebar_button_style, table_row_style, SidebarButton, TableRow};
use family_banking::views::{project_debts, project_home, project_users, EditingPane, Tab};

fn member(id: i32, name: &str, share: u64, loan: u64, interest: u64) -> MemberRow {
    MemberRow { id, name: String::from(name), share, loan, interest }
}

#[test]
fn home_projection_totals_and_cash_identity() {
    let members = vec![member(1, "Alice", 7500, 1000, 200), member(2, "Bob", 2500, 0, 0)];
    let h = project_home(&members, 300);
    assert_eq!(h.total_shares, 10000);
    assert_eq!(h.total_loans, 1000);
    assert_eq!(h.total_debt, 1200);
    assert_eq!(h.profit, 300);
    assert_eq!(h.total_cash, 10000 - 1000 + 300);
    assert_eq!(h.user_details.len(), 2);
    assert_eq!(h.user_details[0].name, "Alice");
    assert_eq!(h.user_details[0].contribution, 7500);
    assert_eq!(h.user_details[0].percent, 7500);
    assert_eq!(h.user_details[1].percent, 2500);
}

#[test]
fn percentages_cover_the_whole_pool_up_to_rounding() {
    let members = vec![
        member(1, "A", 3333, 0, 0),
        member(2, "B", 3333, 0, 0),
        member(3, "C", 3334, 0, 0),
    ];
    let u = project_users(&members);
    let sum: u64 = u.user_details.iter().map(|d| d.percent).sum();
    assert_eq!(sum, 10000);

    let members = vec![member(1, "A", 1, 0, 0), member(2, "B", 1, 0, 0), member(3, "C", 1, 0, 0)];
    let u = project_users(&members);
    let sum: u64 = u.user_details.iter().map(|d| d.percent).sum();
    assert!(sum <= 10000);
    assert!(sum > 10000 - 3);
    assert_eq!(sum, 9999);
}

#[test]
fn empty_ledger_projects_all_zero_and_no_division() {
    let members: Vec<MemberRow> = Vec::new();
    let h = project_home(&members, 0);
    assert_eq!(h.total_shares, 0);
    assert_eq!(h.total_loans, 0);
    assert_eq!(h.total_debt, 0);
    assert_eq!(h.total_cash, 0);
    assert_eq!(h.profit, 0);
    assert!(h.user_details.is_empty());
}

#[test]
fn zero_total_shares_yields_zero_percent() {
    let members = vec![member(1, "A", 0, 50, 5)];
    let u = project_users(&members);
    assert_eq!(u.user_details[0].percent, 0);
}

#[test]
fn projected_tabs_start_with_the_pane_closed() {
    let members = vec![member(1, "A", 100, 0, 0)];
    let u = project_users(&members);
    assert!(matches!(u.edit_pane, EditingPane::Closed));
    let d = project_debts(&members);
    assert!(matches!(d.edit_pane, EditingPane::Closed));
    assert_eq!(d.user_details[0].loan, 0);
}

#[test]
fn sidebar_highlights_only_the_shown_tab() {
    assert_eq!(sidebar_button_style(Tab::Home, Tab::Home), SidebarButton::Selected);
    assert_eq!(sidebar_button_style(Tab::Users, Tab::Home), SidebarButton::Deselected);
    assert_eq!(sidebar_button_style(Tab::Debts, Tab::Debts), SidebarButton::Selected);
}

#[test]
fn table_rows_alternate_starting_light() {
    assert_eq!(table_row_style(0), TableRow::Lighter);
    assert_eq!(table_row_style(1), TableRow::Darker);
    assert_eq!(table_row_style(2), TableRow::Lighter);
}
