//! The command dispatcher: a state machine over the two top-level modes,
//! logged out (create-password or login form) and logged in (a tab plus
//! an optional edit pane). Every user intent is validated here, applied
//! to the store, and answered with a fresh view-model or an inline error.

use vstd::prelude::*;

verus! {

use rusqlite::Connection;
use crate::StoreError;
use crate::views::{Tab, HomeTabData, UsersTabData, DebtsTabData, EditingPane, EditUserDetails,
    ConfirmDeletion, AddDebt, RepayDebt, UserDetails};
use crate::store::{home_tab_data, users_tab_data, debts_tab_data};

/// The data behind the currently shown tab, or the store failure that
/// took its place.
pub enum TabData {
    Home(Result<HomeTabData, StoreError>),
    Users(Result<UsersTabData, StoreError>),
    Debts(Result<DebtsTabData, StoreError>),
}

impl Default for TabData {
    fn default() -> (r: TabData)
        ensures
            (r matches TabData::Home(h) && h matches Ok(d) && d.user_details@.len() == 0
                && d.total_shares == 0 && d.total_loans == 0 && d.total_debt == 0 && d.total_cash
                == 0 && d.profit == 0),
    {
        TabData::Home(
            Ok(
                HomeTabData {
                    total_shares: 0,
                    total_debt: 0,
                    total_loans: 0,
                    total_cash: 0,
                    profit: 0,
                    user_details: Vec::new(),
                },
            ),
        )
    }
}

/// The login / create-password form.
pub struct LoginView {
    pub password_input_1_value: String,
    pub password_input_2_value: String,
    pub login_error_message: String,
}

impl Default for LoginView {
    fn default() -> (r: LoginView)
        ensures
            r.password_input_1_value@ == Seq::<char>::empty(),
            r.password_input_2_value@ == Seq::<char>::empty(),
            r.login_error_message@ == Seq::<char>::empty(),
    {
        LoginView {
            password_input_1_value: String::new(),
            password_input_2_value: String::new(),
            login_error_message: String::new(),
        }
    }
}

/// The logged-in screen: which tab is shown and its data.
pub struct MainView {
    pub current_tab: Tab,
    pub tab_data: TabData,
}

/// The two top-level modes. There is no way back from `LoggedIn`.
pub enum Status {
    LoggedIn(MainView),
    NotLoggedIn(LoginView),
}

impl Default for Status {
    fn default() -> (r: Status)
        ensures
            (r matches Status::NotLoggedIn(v) && v.password_input_1_value@ == Seq::<
                char,
            >::empty() && v.password_input_2_value@ == Seq::<char>::empty()
                && v.login_error_message@ == Seq::<char>::empty()),
    {
        Status::NotLoggedIn(LoginView::default())
    }
}

/// Every user intent the interface can emit.
pub enum Message {
    TabButtonPressed(Tab),
    PasswordInput1Changed(String),
    PasswordInput2Changed(String),
    LoginButtonPressed,
    NewPasswordButtonPressed,
    AddUserButtonPressed,
    EditUserButtonPressed(i32),
    DeleteUserButtonPressed(i32),
    EditPaneUserNameInputChanged(String),
    EditPaneUserShareInputChanged(String),
    EditPaneConfirmButtonClicked,
    AddDebtButtonPressed(i32),
    RepayDebtButtonPressed(i32),
    EditPaneDebtInputChanged(String),
    EditPaneRepaymentInputChanged(String),
    EditPaneInterestInputChanged(String),
    CloseEditPane,
}

/// What the application starts from: the open store handle and the
/// password hash read from it, if one is set.
pub struct Flags {
    pub admin_password: Option<String>,
    pub db_connection: Connection,
}

/// The application state the dispatcher drives.
pub struct FamilyBanking {
    pub db_connection: Connection,
    pub status: Status,
    pub admin_password: Option<String>,
}

/// A freshly fetched tab of the given kind: the right variant, no edit
/// pane left open, and, when the store answered, data that is the
/// projection of some member table.
pub open spec fn fresh_tab(td: TabData, tab: Tab) -> bool {
    match tab {
        Tab::Home => td matches TabData::Home(r) && (r matches Ok(h)
            ==> crate::views::projected_home(h)),
        Tab::Users => td matches TabData::Users(r) && (r matches Ok(u) ==> u.edit_pane is Closed
            && crate::views::projected_lines(u.user_details@)),
        Tab::Debts => td matches TabData::Debts(r) && (r matches Ok(d) ==> d.edit_pane is Closed
            && crate::views::projected_lines(d.user_details@)),
    }
}

/// The state after switching to (or refreshing) a tab.
pub open spec fn shows_fresh_tab(post: Status, tab: Tab) -> bool {
    post matches Status::LoggedIn(mv) && mv.current_tab == tab && fresh_tab(mv.tab_data, tab)
}

impl FamilyBanking {
    pub fn new(flags: Flags) -> (r: FamilyBanking)
        ensures
            r.db_connection == flags.db_connection,
            r.admin_password == flags.admin_password,
            (r.status matches Status::NotLoggedIn(v) && v.password_input_1_value@ == Seq::<
                char,
            >::empty() && v.password_input_2_value@ == Seq::<char>::empty()
                && v.login_error_message@ == Seq::<char>::empty()),
    {
        FamilyBanking {
            db_connection: flags.db_connection,
            admin_password: flags.admin_password,
            status: Status::default(),
        }
    }

    pub fn title(&self) -> (r: String)
        ensures
            r@ == "Family Banking"@,
    {
        String::from_str("Family Banking")
    }
}

/// Switches to a tab: only meaningful when logged in, and always loads
/// the tab's data fresh from the store.
fn on_tab_button(conn: &Connection, status: &mut Status, tab: Tab)
    ensures
        *old(status) is NotLoggedIn ==> *final(status) == *old(status),
        *old(status) is LoggedIn ==> shows_fresh_tab(*final(status), tab),
{
    match status {
        Status::LoggedIn(_) => {
            let tab_data = match tab {
                Tab::Home => TabData::Home(home_tab_data(conn)),
                Tab::Users => TabData::Users(users_tab_data(conn)),
                Tab::Debts => TabData::Debts(debts_tab_data(conn)),
            };
            *status = Status::LoggedIn(MainView { current_tab: tab, tab_data });
        },
        Status::NotLoggedIn(_) => {},
    }
}

/// Records typing into one of the two password fields.
fn on_password_input(status: &mut Status, text: String, second: bool)
    ensures
        *old(status) is LoggedIn ==> *final(status) == *old(status),
        (*old(status) matches Status::NotLoggedIn(v) ==> (*final(status)
            matches Status::NotLoggedIn(w) && w.login_error_message == v.login_error_message && (
        second ==> w.password_input_2_value == text && w.password_input_1_value
            == v.password_input_1_value) && (!second ==> w.password_input_1_value == text
            && w.password_input_2_value == v.password_input_2_value))),
{
    match status {
        Status::NotLoggedIn(view) => {
            if second {
                view.password_input_2_value = text;
            } else {
                view.password_input_1_value = text;
            }
        },
        Status::LoggedIn(_) => {},
    }
}

/// Whether the Users tab is shown with data (so its panes can be used).
pub open spec fn users_tab_ok(s: Status) -> bool {
    s matches Status::LoggedIn(mv) && mv.tab_data matches TabData::Users(r) && r is Ok
}

/// Whether the Debts tab is shown with data.
pub open spec fn debts_tab_ok(s: Status) -> bool {
    s matches Status::LoggedIn(mv) && mv.tab_data matches TabData::Debts(r) && r is Ok
}

/// The edit pane of the Users tab, when it is shown with data.
pub open spec fn users_pane_of(s: Status) -> EditingPane {
    match s {
        Status::LoggedIn(mv) => match mv.tab_data {
            TabData::Users(r) => match r {
                Ok(u) => u.edit_pane,
                Err(_) => EditingPane::Closed,
            },
            _ => EditingPane::Closed,
        },
        _ => EditingPane::Closed,
    }
}

/// The member lines of the Users tab, when it is shown with data.
pub open spec fn users_details_of(s: Status) -> Seq<UserDetails> {
    match s {
        Status::LoggedIn(mv) => match mv.tab_data {
            TabData::Users(r) => match r {
                Ok(u) => u.user_details@,
                Err(_) => Seq::empty(),
            },
            _ => Seq::empty(),
        },
        _ => Seq::empty(),
    }
}

/// The edit pane of the Debts tab, when it is shown with data.
pub open spec fn debts_pane_of(s: Status) -> EditingPane {
    match s {
        Status::LoggedIn(mv) => match mv.tab_data {
            TabData::Debts(r) => match r {
                Ok(d) => d.edit_pane,
                Err(_) => EditingPane::Closed,
            },
            _ => EditingPane::Closed,
        },
        _ => EditingPane::Closed,
    }
}

/// The member lines of the Debts tab, when it is shown with data.
pub open spec fn debts_details_of(s: Status) -> Seq<UserDetails> {
    match s {
        Status::LoggedIn(mv) => match mv.tab_data {
            TabData::Debts(r) => match r {
                Ok(d) => d.user_details@,
                Err(_) => Seq::empty(),
            },
            _ => Seq::empty(),
        },
        _ => Seq::empty(),
    }
}

/// The two states show the same Users tab (same tab selection and member
/// lines); only the edit pane may differ.
pub open spec fn same_users_tab(pre: Status, post: Status) -> bool {
    &&& pre matches Status::LoggedIn(mv)
    &&& mv.tab_data matches TabData::Users(r)
    &&& r matches Ok(u)
    &&& post matches Status::LoggedIn(mw)
    &&& mw.current_tab == mv.current_tab
    &&& mw.tab_data matches TabData::Users(r2)
    &&& r2 matches Ok(u2)
    &&& u2.user_details == u.user_details
}

/// The two states show the same Debts tab; only the edit pane may differ.
pub open spec fn same_debts_tab(pre: Status, post: Status) -> bool {
    &&& pre matches Status::LoggedIn(mv)
    &&& mv.tab_data matches TabData::Debts(r)
    &&& r matches Ok(d)
    &&& post matches Status::LoggedIn(mw)
    &&& mw.current_tab == mv.current_tab
    &&& mw.tab_data matches TabData::Debts(r2)
    &&& r2 matches Ok(d2)
    &&& d2.user_details == d.user_details
}

/// Opens the add-user form on the Users tab.
fn on_add_user(status: &mut Status)
    ensures
        !users_tab_ok(*old(status)) ==> *final(status) == *old(status),
        users_tab_ok(*old(status)) ==> same_users_tab(*old(status), *final(status)) && (
        users_pane_of(*final(status)) matches EditingPane::AddingUser(d) && d.name_value@.len()
            == 0 && d.shares_value@.len() == 0 && d.error_message@.len() == 0),
{
    match status {
        Status::LoggedIn(mv) => match &mut mv.tab_data {
            TabData::Users(r) => match r {
                Ok(u) => {
                    u.edit_pane = EditingPane::AddingUser(EditUserDetails::default());
                },
                Err(_) => {},
            },
            _ => {},
        },
        _ => {},
    }
}

/// Whether the displayed member lines hold one with this id.
pub open spec fn has_user_line(details: Seq<UserDetails>, user_id: i32) -> bool {
    exists|k: int| 0 <= k < details.len() && (#[trigger] details[k]).id == user_id
}

/// The form texts prefill the member's current name and share: some line
/// with this id carries exactly the name, and the share text is a
/// numeral for its contribution.
pub open spec fn prefills_user_line(
    details: Seq<UserDetails>,
    user_id: i32,
    name_text: Seq<char>,
    shares_text: Seq<char>,
) -> bool {
    exists|k: int|
        0 <= k < details.len() && (#[trigger] details[k]).id == user_id && name_text
            == details[k].name@ && crate::money::amount_spec(shares_text) == Some(
            details[k].contribution as int,
        )
}

/// Opens the edit form for the member with this id, prefilled with their
/// current name and share. Unknown ids leave the state as it is.
fn on_edit_user(status: &mut Status, user_id: i32)
    ensures
        !users_tab_ok(*old(status)) ==> *final(status) == *old(status),
        users_tab_ok(*old(status)) && !has_user_line(users_details_of(*old(status)), user_id)
            ==> *final(status) == *old(status),
        users_tab_ok(*old(status)) && has_user_line(users_details_of(*old(status)), user_id) ==> (
        same_users_tab(*old(status), *final(status)) && (users_pane_of(*final(status))
            matches EditingPane::EditingUser(id2, d) && id2 == user_id && prefills_user_line(
            users_details_of(*old(status)),
            user_id,
            d.name_value@,
            d.shares_value@,
        ) && d.error_message@.len() == 0)),
{
    let found: Option<(String, String)> = match &*status {
        Status::LoggedIn(mv) => match &mv.tab_data {
            TabData::Users(r) => match r {
                Ok(u) => find_user_fields(&u.user_details, user_id),
                Err(_) => None,
            },
            _ => None,
        },
        _ => None,
    };
    match found {
        None => {},
        Some(fields) => {
            let (name_value, shares_value) = fields;
            match status {
                Status::LoggedIn(mv) => match &mut mv.tab_data {
                    TabData::Users(r) => match r {
                        Ok(u) => {
                            u.edit_pane = EditingPane::EditingUser(
                                user_id,
                                EditUserDetails {
                                    name_value,
                                    shares_value,
                                    error_message: String::new(),
                                },
                            );
                        },
                        Err(_) => {},
                    },
                    _ => {},
                },
                _ => {},
            }
        },
    }
}

/// Looks a member up in displayed lines and hands back their name and
/// their share as form text.
fn find_user_fields(details: &Vec<UserDetails>, user_id: i32) -> (r: Option<(String, String)>)
    ensures
        match r {
            Some(t) => has_user_line(details@, user_id) && prefills_user_line(
                details@,
                user_id,
                t.0@,
                t.1@,
            ),
            None => !has_user_line(details@, user_id),
        },
{
    let n = details.len();
    let mut i: usize = 0;
    while i < n
        invariant
            0 <= i <= n == details@.len(),
            forall|k: int| 0 <= k < i ==> (#[trigger] details@[k]).id != user_id,
        decreases n - i,
    {
        if details[i].id == user_id {
            let name_value = details[i].name.clone();
            let shares_value = crate::money::amount_to_text(details[i].contribution);
            proof {
                assert(0 <= i < details@.len() && details@[i as int].id == user_id && name_value@
                    == details@[i as int].name@ && crate::money::amount_spec(shares_value@)
                    == Some(details@[i as int].contribution as int));
            }
            return Some((name_value, shares_value));
        }
        i = i + 1;
    }
    None
}

/// Opens the delete-confirmation dialog for the member with this id.
fn on_delete_user(status: &mut Status, user_id: i32)
    ensures
        !users_tab_ok(*old(status)) ==> *final(status) == *old(status),
        users_tab_ok(*old(status)) ==> same_users_tab(*old(status), *final(status)) && (
        users_pane_of(*final(status)) matches EditingPane::ConfirmingDeletion(cd) && cd.user_id
            == user_id && cd.error_message@.len() == 0),
{
    match status {
        Status::LoggedIn(mv) => match &mut mv.tab_data {
            TabData::Users(r) => match r {
                Ok(u) => {
                    u.edit_pane = EditingPane::ConfirmingDeletion(
                        ConfirmDeletion { user_id, error_message: String::new() },
                    );
                },
                Err(_) => {},
            },
            _ => {},
        },
        _ => {},
    }
}

/// Opens the new-loan form for the member with this id on the Debts tab.
fn on_add_debt(status: &mut Status, user_id: i32)
    ensures
        !debts_tab_ok(*old(status)) ==> *final(status) == *old(status),
        debts_tab_ok(*old(status)) ==> same_debts_tab(*old(status), *final(status)) && (
        debts_pane_of(*final(status)) matches EditingPane::AddingDebt(ad) && ad.user_id == user_id
            && ad.debt_value@.len() == 0 && ad.interest_value@.len() == 0
            && ad.error_message@.len() == 0),
{
    match status {
        Status::LoggedIn(mv) => match &mut mv.tab_data {
            TabData::Debts(r) => match r {
                Ok(d) => {
                    d.edit_pane = EditingPane::AddingDebt(
                        AddDebt {
                            user_id,
                            debt_value: String::new(),
                            interest_value: String::new(),
                            error_message: String::new(),
                        },
                    );
                },
                Err(_) => {},
            },
            _ => {},
        },
        _ => {},
    }
}

/// Opens the repayment form for the member with this id on the Debts tab.
fn on_repay_debt(status: &mut Status, user_id: i32)
    ensures
        !debts_tab_ok(*old(status)) ==> *final(status) == *old(status),
        debts_tab_ok(*old(status)) ==> same_debts_tab(*old(status), *final(status)) && (
        debts_pane_of(*final(status)) matches EditingPane::RepayingDebt(rd) && rd.user_id
            == user_id && rd.repayment_value@.len() == 0 && rd.error_message@.len() == 0),
{
    match status {
        Status::LoggedIn(mv) => match &mut mv.tab_data {
            TabData::Debts(r) => match r {
                Ok(d) => {
                    d.edit_pane = EditingPane::RepayingDebt(
                        RepayDebt {
                            user_id,
                            repayment_value: String::new(),
                            error_message: String::new(),
                        },
                    );
                },
                Err(_) => {},
            },
            _ => {},
        },
        _ => {},
    }
}

/// Records typing into the name or share field of an open user form.
fn on_user_form_input(status: &mut Status, value: String, share_field: bool)
    ensures
        !users_tab_ok(*old(status)) ==> *final(status) == *old(status),
        users_tab_ok(*old(status)) ==> match users_pane_of(*old(status)) {
            EditingPane::AddingUser(d) => same_users_tab(*old(status), *final(status)) && (
            users_pane_of(*final(status)) matches EditingPane::AddingUser(d2) && d2.error_message
                == d.error_message && (share_field ==> d2.shares_value == value && d2.name_value
                == d.name_value) && (!share_field ==> d2.name_value == value && d2.shares_value
                == d.shares_value)),
            EditingPane::EditingUser(id, d) => same_users_tab(*old(status), *final(status)) && (
            users_pane_of(*final(status)) matches EditingPane::EditingUser(id2, d2) && id2 == id
                && d2.error_message == d.error_message && (share_field ==> d2.shares_value == value
                && d2.name_value == d.name_value) && (!share_field ==> d2.name_value == value
                && d2.shares_value == d.shares_value)),
            _ => *final(status) == *old(status),
        },
{
    match status {
        Status::LoggedIn(mv) => match &mut mv.tab_data {
            TabData::Users(r) => match r {
                Ok(u) => match &mut u.edit_pane {
                    EditingPane::AddingUser(d) => {
                        if share_field {
                            d.shares_value = value;
                        } else {
                            d.name_value = value;
                        }
                    },
                    EditingPane::EditingUser(_, d) => {
                        if share_field {
                            d.shares_value = value;
                        } else {
                            d.name_value = value;
                        }
                    },
                    _ => {},
                },
                Err(_) => {},
            },
            _ => {},
        },
        _ => {},
    }
}

/// Records typing into the loan or interest field of an open new-loan
/// form, or the amount field of an open repayment form.
fn on_debt_form_input(status: &mut Status, value: String, which: u8)
    requires
        which <= 2,
    ensures
        !debts_tab_ok(*old(status)) ==> *final(status) == *old(status),
        debts_tab_ok(*old(status)) ==> match debts_pane_of(*old(status)) {
            EditingPane::AddingDebt(ad) => if which == 0 || which == 1 {
                same_debts_tab(*old(status), *final(status)) && (debts_pane_of(*final(status))
                    matches EditingPane::AddingDebt(ad2) && ad2.user_id == ad.user_id
                    && ad2.error_message == ad.error_message && (which == 0 ==> ad2.debt_value
                    == value && ad2.interest_value == ad.interest_value) && (which == 1
                    ==> ad2.interest_value == value && ad2.debt_value == ad.debt_value))
            } else {
                *final(status) == *old(status)
            },
            EditingPane::RepayingDebt(rd) => if which == 2 {
                same_debts_tab(*old(status), *final(status)) && (debts_pane_of(*final(status))
                    matches EditingPane::RepayingDebt(rd2) && rd2.user_id == rd.user_id
                    && rd2.error_message == rd.error_message && rd2.repayment_value == value)
            } else {
                *final(status) == *old(status)
            },
            _ => *final(status) == *old(status),
        },
{
    match status {
        Status::LoggedIn(mv) => match &mut mv.tab_data {
            TabData::Debts(r) => match r {
                Ok(d) => match &mut d.edit_pane {
                    EditingPane::AddingDebt(ad) => {
                        if which == 0 {
                            ad.debt_value = value;
                        } else if which == 1 {
                            ad.interest_value = value;
                        }
                    },
                    EditingPane::RepayingDebt(rd) => {
                        if which == 2 {
                            rd.repayment_value = value;
                        }
                    },
                    _ => {},
                },
                Err(_) => {},
            },
            _ => {},
        },
        _ => {},
    }
}

/// Closes whatever edit pane is open on the Users or Debts tab.
fn on_close_pane(status: &mut Status)
    ensures
        *old(status) is NotLoggedIn ==> *final(status) == *old(status),
        (*old(status) matches Status::LoggedIn(mv) ==> (*final(status) matches Status::LoggedIn(mw)
            && mw.current_tab == mv.current_tab && match mv.tab_data {
            TabData::Home(_) => mw.tab_data == mv.tab_data,
            TabData::Users(r) => mw.tab_data matches TabData::Users(r2) && match r {
                Ok(u) => r2 matches Ok(u2) && u2.user_details == u.user_details
                    && u2.edit_pane is Closed,
                Err(e) => r2 matches Err(e2) && e2 == e,
            },
            TabData::Debts(r) => mw.tab_data matches TabData::Debts(r2) && match r {
                Ok(d) => r2 matches Ok(d2) && d2.user_details == d.user_details
                    && d2.edit_pane is Closed,
                Err(e) => r2 matches Err(e2) && e2 == e,
            },
        })),
{
    match status {
        Status::LoggedIn(mv) => {
            match &mut mv.tab_data {
                TabData::Users(r) => {
                    match r {
                        Ok(u) => {
                            u.edit_pane = EditingPane::Closed;
                        },
                        Err(_) => {},
                    }
                },
                TabData::Debts(r) => {
                    match r {
                        Ok(d) => {
                            d.edit_pane = EditingPane::Closed;
                        },
                        Err(_) => {},
                    }
                },
                TabData::Home(_) => {},
            }
        },
        Status::NotLoggedIn(_) => {},
    }
}

/// Logging in: with a stored hash and the login form showing, the typed
/// password is handed to the opaque verify primitive; exactly when it
/// accepts, the Home tab is loaded, and otherwise the form stays with an
/// error and the previous input preserved. Without a stored hash, or
/// when already logged in, nothing changes.
pub open spec fn login_post(pre: Status, post: Status, admin: Option<String>) -> bool {
    &&& (pre is LoggedIn ==> post == pre)
    &&& (admin is None ==> post == pre)
    &&& (pre matches Status::NotLoggedIn(v) ==> (admin matches Some(hash) ==> (
    if crate::auth::argon2_verify_of(
        hash@,
        vstd::utf8::encode_utf8(v.password_input_1_value@),
    ) {
        shows_fresh_tab(post, Tab::Home)
    } else {
        post matches Status::NotLoggedIn(w) && w.login_error_message@ == "Incorrect password"@
            && w.password_input_1_value == v.password_input_1_value && w.password_input_2_value
            == v.password_input_2_value
    })))
}

/// Creating the password: both fields must be at least six characters
/// and equal; then the hash is stored and the Home tab shows, or, if the
/// store refused the write, the form stays with the failure surfaced as
/// its message and the inputs kept. A password too long for the hash
/// primitive is refused by the library itself, before any store access.
pub open spec fn new_password_post(pre: Status, post: Status) -> bool {
    &&& (pre is LoggedIn ==> post == pre)
    &&& (pre matches Status::NotLoggedIn(v) ==> (if v.password_input_1_value@.len() < 6
        || v.password_input_2_value@.len() < 6 {
        post matches Status::NotLoggedIn(w) && w.login_error_message@
            == "Password needs to be at least 6 characters long"@ && w.password_input_1_value
            == v.password_input_1_value && w.password_input_2_value == v.password_input_2_value
    } else if v.password_input_1_value@ != v.password_input_2_value@ {
        post matches Status::NotLoggedIn(w) && w.login_error_message@ == "Passwords do not match"@
            && w.password_input_1_value == v.password_input_1_value && w.password_input_2_value
            == v.password_input_2_value
    } else {
        let kept = (post matches Status::NotLoggedIn(w) && w.password_input_1_value
            == v.password_input_1_value && w.password_input_2_value == v.password_input_2_value
            && w.login_error_message@.len() > 0);
        let too_long = vstd::utf8::encode_utf8(v.password_input_1_value@).len() > 0xFFFF_FFFF;
        &&& (shows_fresh_tab(post, Tab::Home) || kept)
        &&& (too_long ==> kept && (post matches Status::NotLoggedIn(w) && w.login_error_message@
            == "password too long"@))
    }))
}

/// Attempts the login.
fn on_login(conn: &Connection, status: &mut Status, admin_password: &Option<String>)
    ensures
        login_post(*old(status), *final(status), *admin_password),
{
    match admin_password {
        None => {},
        Some(hash) => {
            match status {
                Status::NotLoggedIn(view) => {
                    let matched = crate::auth::verify_password(
                        hash.as_str(),
                        view.password_input_1_value.as_str(),
                    );
                    if matched {
                        *status = Status::LoggedIn(
                            MainView { current_tab: Tab::Home, tab_data: TabData::Home(
                                home_tab_data(conn),
                            ) },
                        );
                    } else {
                        view.login_error_message = String::from_str("Incorrect password");
                    }
                },
                Status::LoggedIn(_) => {},
            }
        },
    }
}

/// Checks and stores a new admin password.
fn on_new_password(conn: &Connection, status: &mut Status)
    ensures
        new_password_post(*old(status), *final(status)),
{
    match status {
        Status::NotLoggedIn(view) => {
            let l1 = view.password_input_1_value.as_str().unicode_len();
            let l2 = view.password_input_2_value.as_str().unicode_len();
            if l1 < 6 || l2 < 6 {
                view.login_error_message = String::from_str(
                    "Password needs to be at least 6 characters long",
                );
            } else if !(view.password_input_1_value == view.password_input_2_value) {
                view.login_error_message = String::from_str("Passwords do not match");
            } else {
                match crate::store::store_password(conn, view.password_input_1_value.clone()) {
                    Ok(_) => {
                        *status = Status::LoggedIn(
                            MainView { current_tab: Tab::Home, tab_data: TabData::Home(
                                home_tab_data(conn),
                            ) },
                        );
                    },
                    Err(e) => {
                        proof {
                            reveal_strlit("password too long");
                        }
                        view.login_error_message = store_failure_message(&e);
                    },
                }
            }
        },
        Status::LoggedIn(_) => {},
    }
}

/// The inline message for a store failure: the failure's own text, or a
/// fixed line in its place should that text be empty, so a failure never
/// reads as a blank line.
pub fn store_failure_message(e: &StoreError) -> (m: String)
    ensures
        m@.len() > 0,
        crate::store_error_text(*e).len() > 0 ==> m@ == crate::store_error_text(*e),
{
    let t = e.text();
    if t.as_str().is_empty() {
        let fallback = String::from_str("The store reported an error");
        proof {
            reveal_strlit("The store reported an error");
        }
        fallback
    } else {
        t
    }
}

/// What follows from the store's answer to a write aimed at one member:
/// an error carries its message, zero changed rows means no such member
/// (the inline "not found" of spec'd member operations), and anything
/// else calls for a fresh view. The message is never blank.
pub fn write_outcome(r: Result<usize, StoreError>) -> (out: Option<String>)
    ensures
        (r matches Ok(n) && n == 0 ==> (out matches Some(m) && m@ == "User not found"@
            && m@.len() > 0)),
        (r matches Ok(n) && n > 0 ==> out is None),
        (r matches Err(e) ==> (out matches Some(m) && m@.len() > 0 && (crate::store_error_text(
            e,
        ).len() > 0 ==> m@ == crate::store_error_text(e)))),
{
    match r {
        Ok(n) => {
            if n == 0 {
                let m = String::from_str("User not found");
                proof {
                    reveal_strlit("User not found");
                }
                Some(m)
            } else {
                None
            }
        },
        Err(e) => Some(store_failure_message(&e)),
    }
}

/// The add-user form stands as before, with its inputs kept and this
/// error shown.
pub open spec fn adding_user_kept(pre: Status, post: Status, d: EditUserDetails, msg: Seq<char>)
    -> bool {
    same_users_tab(pre, post) && (users_pane_of(post) matches EditingPane::AddingUser(d2)
        && d2.name_value == d.name_value && d2.shares_value == d.shares_value && d2.error_message@
        == msg)
}

/// The add-user form stands as before with its inputs kept; the error
/// line carries the failure `write_outcome` derived from the store's
/// answer, and is never blank.
pub open spec fn adding_user_kept_any(pre: Status, post: Status, d: EditUserDetails) -> bool {
    same_users_tab(pre, post) && (users_pane_of(post) matches EditingPane::AddingUser(d2)
        && d2.name_value == d.name_value && d2.shares_value == d.shares_value
        && d2.error_message@.len() > 0)
}

/// The edit-user form stands as before, with this error shown.
pub open spec fn editing_user_kept(
    pre: Status,
    post: Status,
    id: i32,
    d: EditUserDetails,
    msg: Seq<char>,
) -> bool {
    same_users_tab(pre, post) && (users_pane_of(post) matches EditingPane::EditingUser(id2, d2)
        && id2 == id && d2.name_value == d.name_value && d2.shares_value == d.shares_value
        && d2.error_message@ == msg)
}

/// The edit-user form stands as before; the error line carries the
/// failure `write_outcome` derived from the store's answer, and is never
/// blank.
pub open spec fn editing_user_kept_any(pre: Status, post: Status, id: i32, d: EditUserDetails)
    -> bool {
    same_users_tab(pre, post) && (users_pane_of(post) matches EditingPane::EditingUser(id2, d2)
        && id2 == id && d2.name_value == d.name_value && d2.shares_value == d.shares_value
        && d2.error_message@.len() > 0)
}

/// The delete-confirmation dialog stands as before; the error line
/// carries the failure `write_outcome` derived from the store's answer,
/// and is never blank.
pub open spec fn deletion_kept_any(pre: Status, post: Status, cd: ConfirmDeletion) -> bool {
    same_users_tab(pre, post) && (users_pane_of(post) matches EditingPane::ConfirmingDeletion(cd2)
        && cd2.user_id == cd.user_id && cd2.error_message@.len() > 0)
}

/// The new-loan form stands as before, with this error shown.
pub open spec fn adding_debt_kept(pre: Status, post: Status, ad: AddDebt, msg: Seq<char>) -> bool {
    same_debts_tab(pre, post) && (debts_pane_of(post) matches EditingPane::AddingDebt(ad2)
        && ad2.user_id == ad.user_id && ad2.debt_value == ad.debt_value && ad2.interest_value
        == ad.interest_value && ad2.error_message@ == msg)
}

/// The new-loan form stands as before; the error line carries the
/// failure `write_outcome` derived from the store's answer, and is never
/// blank.
pub open spec fn adding_debt_kept_any(pre: Status, post: Status, ad: AddDebt) -> bool {
    same_debts_tab(pre, post) && (debts_pane_of(post) matches EditingPane::AddingDebt(ad2)
        && ad2.user_id == ad.user_id && ad2.debt_value == ad.debt_value && ad2.interest_value
        == ad.interest_value && ad2.error_message@.len() > 0)
}

/// The repayment form stands as before, with this error shown.
pub open spec fn repaying_kept(pre: Status, post: Status, rd: RepayDebt, msg: Seq<char>) -> bool {
    same_debts_tab(pre, post) && (debts_pane_of(post) matches EditingPane::RepayingDebt(rd2)
        && rd2.user_id == rd.user_id && rd2.repayment_value == rd.repayment_value
        && rd2.error_message@ == msg)
}

/// The repayment form stands as before; the error line carries the
/// failure `write_outcome` derived from the store's answer, and is never
/// blank.
pub open spec fn repaying_kept_any(pre: Status, post: Status, rd: RepayDebt) -> bool {
    same_debts_tab(pre, post) && (debts_pane_of(post) matches EditingPane::RepayingDebt(rd2)
        && rd2.user_id == rd.user_id && rd2.repayment_value == rd.repayment_value
        && rd2.error_message@.len() > 0)
}

/// The member line the repayment form addresses: the first line with its
/// id.
pub open spec fn is_first_line(details: Seq<UserDetails>, id: i32, k: int) -> bool {
    0 <= k < details.len() && details[k].id == id && (forall|j: int|
        0 <= j < k ==> (#[trigger] details[j]).id != id)
}

/// Whether the requested repayment exceeds that line's combined debt.
pub open spec fn exceeds_debt(details: Seq<UserDetails>, id: i32, v: int) -> bool {
    exists|k: int|
        #[trigger] is_first_line(details, id, k) && v > details[k].loan + details[k].interest
}

/// Confirming on the Users tab: an empty name or a malformed or negative
/// share is rejected in place; a valid add or edit goes to the store and
/// either refreshes the tab or shows the store's error; deleting always
/// goes to the store. The profit row is not a member: editing or
/// deleting it reads as "not found".
pub open spec fn confirm_users_post(pre: Status, post: Status) -> bool {
    match users_pane_of(pre) {
        EditingPane::AddingUser(d) => if d.name_value@.len() == 0 {
            adding_user_kept(pre, post, d, "Enter valid username"@)
        } else if crate::money::reads_as_value(d.shares_value@) {
            shows_fresh_tab(post, Tab::Users) || adding_user_kept_any(pre, post, d)
        } else {
            adding_user_kept(pre, post, d, "Enter valid number"@)
        },
        EditingPane::EditingUser(id, d) => if d.name_value@.len() == 0 {
            editing_user_kept(pre, post, id, d, "Enter valid username"@)
        } else if crate::money::reads_as_value(d.shares_value@) {
            shows_fresh_tab(post, Tab::Users) || editing_user_kept(
                pre,
                post,
                id,
                d,
                "User not found"@,
            ) || editing_user_kept_any(pre, post, id, d)
        } else {
            editing_user_kept(pre, post, id, d, "Enter valid number"@)
        },
        EditingPane::ConfirmingDeletion(cd) => shows_fresh_tab(post, Tab::Users)
            || deletion_kept_any(pre, post, cd),
        _ => post == pre,
    }
}

/// Confirming on the Debts tab: malformed or negative inputs are
/// rejected in place with the matching message; a new loan goes to the
/// store; a repayment is first held against the member's combined debt,
/// then split by `split_repayment` — the booked portions are exactly
/// `principal_part` and `interest_part` of the request against the
/// member's loan — before it goes to the store.
pub open spec fn confirm_debts_post(pre: Status, post: Status) -> bool {
    match debts_pane_of(pre) {
        EditingPane::AddingDebt(ad) => if !crate::money::reads_as_value(ad.debt_value@)
            && !crate::money::reads_as_negative(ad.debt_value@) {
            adding_debt_kept(pre, post, ad, "Invalid loan ammount"@)
        } else if !crate::money::reads_as_value(ad.interest_value@)
            && !crate::money::reads_as_negative(ad.interest_value@) {
            adding_debt_kept(pre, post, ad, "Invalid interest"@)
        } else if crate::money::reads_as_negative(ad.debt_value@) {
            adding_debt_kept(pre, post, ad, "Loan ammount cannot be negative"@)
        } else if crate::money::reads_as_negative(ad.interest_value@) {
            adding_debt_kept(pre, post, ad, "Interest cannot be negative"@)
        } else {
            shows_fresh_tab(post, Tab::Debts) || adding_debt_kept(
                pre,
                post,
                ad,
                "User not found"@,
            ) || adding_debt_kept_any(pre, post, ad)
        },
        EditingPane::RepayingDebt(rd) => if !crate::money::reads_as_value(rd.repayment_value@)
            && !crate::money::reads_as_negative(rd.repayment_value@) {
            repaying_kept(pre, post, rd, "Enter valid number"@)
        } else if crate::money::reads_as_negative(rd.repayment_value@) {
            repaying_kept(pre, post, rd, "Repayment ammount cannot be negative"@)
        } else if !has_user_line(debts_details_of(pre), rd.user_id) {
            repaying_kept(pre, post, rd, "User not found"@)
        } else if exceeds_debt(
            debts_details_of(pre),
            rd.user_id,
            crate::money::amount_spec(rd.repayment_value@)->Some_0,
        ) {
            repaying_kept(pre, post, rd, "Repayment is higher than debt"@)
        } else {
            shows_fresh_tab(post, Tab::Debts) || repaying_kept(pre, post, rd, "User not found"@)
                || repaying_kept_any(pre, post, rd)
        },
        _ => post == pre,
    }
}

/// The position of the first member line with this id, if any.
fn find_line_index(details: &Vec<UserDetails>, user_id: i32) -> (r: Option<usize>)
    ensures
        match r {
            Some(k) => is_first_line(details@, user_id, k as int),
            None => !has_user_line(details@, user_id),
        },
{
    let n = details.len();
    let mut i: usize = 0;
    while i < n
        invariant
            0 <= i <= n == details@.len(),
            forall|k: int| 0 <= k < i ==> (#[trigger] details@[k]).id != user_id,
        decreases n - i,
    {
        if details[i].id == user_id {
            return Some(i);
        }
        i = i + 1;
    }
    None
}

/// Confirms whatever edit pane is open: validates, applies the matching
/// store operation, and either refreshes the tab or shows the error.
fn on_confirm(conn: &Connection, status: &mut Status)
    ensures
        !users_tab_ok(*old(status)) && !debts_tab_ok(*old(status)) ==> *final(status) == *old(
            status,
        ),
        users_tab_ok(*old(status)) ==> confirm_users_post(*old(status), *final(status)),
        debts_tab_ok(*old(status)) ==> confirm_debts_post(*old(status), *final(status)),
{
    let action: u8 = match status {
        Status::LoggedIn(mv) => match &mut mv.tab_data {
            TabData::Users(tr) => match tr {
                Ok(u) => match &mut u.edit_pane {
                    EditingPane::AddingUser(d) => {
                        if d.name_value.as_str().is_empty() {
                            d.error_message = String::from_str("Enter valid username");
                            0
                        } else {
                            match crate::money::parse_money(d.shares_value.as_str()) {
                                crate::money::MoneyParse::Value(v) => {
                                    match crate::store::store_new_user(
                                        conn,
                                        d.name_value.clone(),
                                        v,
                                    ) {
                                        Ok(_) => 1,
                                        Err(e) => {
                                            d.error_message = store_failure_message(&e);
                                            0
                                        },
                                    }
                                },
                                _ => {
                                    d.error_message = String::from_str("Enter valid number");
                                    0
                                },
                            }
                        }
                    },
                    EditingPane::EditingUser(user_id, d) => {
                        let uid = *user_id;
                        if d.name_value.as_str().is_empty() {
                            d.error_message = String::from_str("Enter valid username");
                            0
                        } else {
                            match crate::money::parse_money(d.shares_value.as_str()) {
                                crate::money::MoneyParse::Value(v) => {
                                    match write_outcome(
                                        crate::store::edit_user(
                                            conn,
                                            uid,
                                            d.name_value.clone(),
                                            v,
                                        ),
                                    ) {
                                        None => 1,
                                        Some(m) => {
                                            d.error_message = m;
                                            0
                                        },
                                    }
                                },
                                _ => {
                                    d.error_message = String::from_str("Enter valid number");
                                    0
                                },
                            }
                        }
                    },
                    EditingPane::ConfirmingDeletion(cd) => {
                        match write_outcome(crate::store::delete_user(conn, cd.user_id)) {
                            None => 1,
                            Some(m) => {
                                cd.error_message = m;
                                0
                            },
                        }
                    },
                    _ => 0,
                },
                Err(_) => 0,
            },
            TabData::Debts(dr) => match dr {
                Ok(dt) => match &mut dt.edit_pane {
                    EditingPane::AddingDebt(ad) => {
                        match crate::money::parse_money(ad.debt_value.as_str()) {
                            crate::money::MoneyParse::Invalid => {
                                ad.error_message = String::from_str("Invalid loan ammount");
                                0
                            },
                            loan_parse => {
                                match crate::money::parse_money(ad.interest_value.as_str()) {
                                    crate::money::MoneyParse::Invalid => {
                                        ad.error_message = String::from_str("Invalid interest");
                                        0
                                    },
                                    interest_parse => {
                                        match (loan_parse, interest_parse) {
                                            (
                                                crate::money::MoneyParse::Value(lv),
                                                crate::money::MoneyParse::Value(iv),
                                            ) => {
                                                match write_outcome(
                                                    crate::store::borrow_debt(
                                                        conn,
                                                        ad.user_id,
                                                        lv,
                                                        iv,
                                                    ),
                                                ) {
                                                    None => 2,
                                                    Some(m) => {
                                                        ad.error_message = m;
                                                        0
                                                    },
                                                }
                                            },
                                            (crate::money::MoneyParse::Negative, _) => {
                                                ad.error_message = String::from_str(
                                                    "Loan ammount cannot be negative",
                                                );
                                                0
                                            },
                                            (_, _) => {
                                                ad.error_message = String::from_str(
                                                    "Interest cannot be negative",
                                                );
                                                0
                                            },
                                        }
                                    },
                                }
                            },
                        }
                    },
                    EditingPane::RepayingDebt(rd) => {
                        match crate::money::parse_money(rd.repayment_value.as_str()) {
                            crate::money::MoneyParse::Invalid => {
                                rd.error_message = String::from_str("Enter valid number");
                                0
                            },
                            crate::money::MoneyParse::Negative => {
                                rd.error_message = String::from_str(
                                    "Repayment ammount cannot be negative",
                                );
                                0
                            },
                            crate::money::MoneyParse::Value(v) => {
                                match find_line_index(&dt.user_details, rd.user_id) {
                                    None => {
                                        rd.error_message = String::from_str("User not found");
                                        0
                                    },
                                    Some(k) => {
                                        let loan = dt.user_details[k].loan;
                                        let inter = dt.user_details[k].interest;
                                        if (v as u128) <= (loan as u128) + (inter as u128) {
                                            let portions = crate::split_repayment(loan, inter, v);
                                            assert(portions.0 == crate::principal_part(
                                                loan as int,
                                                v as int,
                                            ) && portions.1 == crate::interest_part(
                                                loan as int,
                                                v as int,
                                            ));
                                            match write_outcome(
                                                crate::store::repay_debt(
                                                    conn,
                                                    rd.user_id,
                                                    portions.0,
                                                    portions.1,
                                                ),
                                            ) {
                                                None => 2,
                                                Some(m) => {
                                                    rd.error_message = m;
                                                    0
                                                },
                                            }
                                        } else {
                                            proof {
                                                assert(is_first_line(
                                                    dt.user_details@,
                                                    rd.user_id,
                                                    k as int,
                                                ));
                                            }
                                            rd.error_message = String::from_str(
                                                "Repayment is higher than debt",
                                            );
                                            0
                                        }
                                    },
                                }
                            },
                        }
                    },
                    _ => 0,
                },
                Err(_) => 0,
            },
            TabData::Home(_) => 0,
        },
        Status::NotLoggedIn(_) => 0,
    };
    if action == 1 {
        *status = Status::LoggedIn(
            MainView { current_tab: Tab::Users, tab_data: TabData::Users(users_tab_data(conn)) },
        );
    } else if action == 2 {
        *status = Status::LoggedIn(
            MainView { current_tab: Tab::Debts, tab_data: TabData::Debts(debts_tab_data(conn)) },
        );
    }
}

/// Switching tabs: nothing happens logged out; logged in, the chosen
/// tab is loaded fresh.
pub open spec fn tab_button_post(pre: Status, post: Status, tab: Tab) -> bool {
    &&& (pre is NotLoggedIn ==> post == pre)
    &&& (pre is LoggedIn ==> shows_fresh_tab(post, tab))
}

/// Typing into a password field: recorded on the form, everything else
/// kept; nothing happens logged in.
pub open spec fn password_input_post(pre: Status, post: Status, text: String, second: bool)
    -> bool {
    &&& (pre is LoggedIn ==> post == pre)
    &&& (pre matches Status::NotLoggedIn(v) ==> (post matches Status::NotLoggedIn(w)
        && w.login_error_message == v.login_error_message && (second ==> w.password_input_2_value
        == text && w.password_input_1_value == v.password_input_1_value) && (!second
        ==> w.password_input_1_value == text && w.password_input_2_value
        == v.password_input_2_value)))
}

/// Closing the edit pane: the shown tab and its lines stay, the pane is
/// closed; a failed tab or the Home tab stays as it is.
pub open spec fn close_pane_post(pre: Status, post: Status) -> bool {
    &&& (pre is NotLoggedIn ==> post == pre)
    &&& (pre matches Status::LoggedIn(mv) ==> (post matches Status::LoggedIn(mw)
        && mw.current_tab == mv.current_tab && match mv.tab_data {
        TabData::Home(_) => mw.tab_data == mv.tab_data,
        TabData::Users(r) => mw.tab_data matches TabData::Users(r2) && match r {
            Ok(u) => r2 matches Ok(u2) && u2.user_details == u.user_details
                && u2.edit_pane is Closed,
            Err(e) => r2 matches Err(e2) && e2 == e,
        },
        TabData::Debts(r) => mw.tab_data matches TabData::Debts(r2) && match r {
            Ok(d) => r2 matches Ok(d2) && d2.user_details == d.user_details
                && d2.edit_pane is Closed,
            Err(e) => r2 matches Err(e2) && e2 == e,
        },
    }))
}

/// Opening the add-user form.
pub open spec fn add_user_pane_post(pre: Status, post: Status) -> bool {
    &&& (!users_tab_ok(pre) ==> post == pre)
    &&& (users_tab_ok(pre) ==> same_users_tab(pre, post) && (users_pane_of(post)
        matches EditingPane::AddingUser(d) && d.name_value@.len() == 0 && d.shares_value@.len()
        == 0 && d.error_message@.len() == 0))
}

/// Opening the edit-user form, prefilled from the member's line.
pub open spec fn edit_user_pane_post(pre: Status, post: Status, user_id: i32) -> bool {
    &&& (!users_tab_ok(pre) ==> post == pre)
    &&& (users_tab_ok(pre) && !has_user_line(users_details_of(pre), user_id) ==> post == pre)
    &&& (users_tab_ok(pre) && has_user_line(users_details_of(pre), user_id) ==> (same_users_tab(
        pre,
        post,
    ) && (users_pane_of(post) matches EditingPane::EditingUser(id2, d) && id2 == user_id
        && prefills_user_line(users_details_of(pre), user_id, d.name_value@, d.shares_value@)
        && d.error_message@.len() == 0)))
}

/// Opening the delete-confirmation dialog.
pub open spec fn delete_user_pane_post(pre: Status, post: Status, user_id: i32) -> bool {
    &&& (!users_tab_ok(pre) ==> post == pre)
    &&& (users_tab_ok(pre) ==> same_users_tab(pre, post) && (users_pane_of(post)
        matches EditingPane::ConfirmingDeletion(cd) && cd.user_id == user_id
        && cd.error_message@.len() == 0))
}

/// Opening the new-loan form.
pub open spec fn add_debt_pane_post(pre: Status, post: Status, user_id: i32) -> bool {
    &&& (!debts_tab_ok(pre) ==> post == pre)
    &&& (debts_tab_ok(pre) ==> same_debts_tab(pre, post) && (debts_pane_of(post)
        matches EditingPane::AddingDebt(ad) && ad.user_id == user_id && ad.debt_value@.len() == 0
        && ad.interest_value@.len() == 0 && ad.error_message@.len() == 0))
}

/// Opening the repayment form.
pub open spec fn repay_debt_pane_post(pre: Status, post: Status, user_id: i32) -> bool {
    &&& (!debts_tab_ok(pre) ==> post == pre)
    &&& (debts_tab_ok(pre) ==> same_debts_tab(pre, post) && (debts_pane_of(post)
        matches EditingPane::RepayingDebt(rd) && rd.user_id == user_id
        && rd.repayment_value@.len() == 0 && rd.error_message@.len() == 0))
}

/// Typing into the name or share field of an open user form.
pub open spec fn user_form_input_post(pre: Status, post: Status, value: String, share_field: bool)
    -> bool {
    &&& (!users_tab_ok(pre) ==> post == pre)
    &&& (users_tab_ok(pre) ==> match users_pane_of(pre) {
        EditingPane::AddingUser(d) => same_users_tab(pre, post) && (users_pane_of(post)
            matches EditingPane::AddingUser(d2) && d2.error_message == d.error_message && (
        share_field ==> d2.shares_value == value && d2.name_value == d.name_value) && (
        !share_field ==> d2.name_value == value && d2.shares_value == d.shares_value)),
        EditingPane::EditingUser(id, d) => same_users_tab(pre, post) && (users_pane_of(post)
            matches EditingPane::EditingUser(id2, d2) && id2 == id && d2.error_message
            == d.error_message && (share_field ==> d2.shares_value == value && d2.name_value
            == d.name_value) && (!share_field ==> d2.name_value == value && d2.shares_value
            == d.shares_value)),
        _ => post == pre,
    })
}

/// Typing into a field of an open loan or repayment form.
pub open spec fn debt_form_input_post(pre: Status, post: Status, value: String, which: u8)
    -> bool {
    &&& (!debts_tab_ok(pre) ==> post == pre)
    &&& (debts_tab_ok(pre) ==> match debts_pane_of(pre) {
        EditingPane::AddingDebt(ad) => if which == 0 || which == 1 {
            same_debts_tab(pre, post) && (debts_pane_of(post) matches EditingPane::AddingDebt(ad2)
                && ad2.user_id == ad.user_id && ad2.error_message == ad.error_message && (which
                == 0 ==> ad2.debt_value == value && ad2.interest_value == ad.interest_value) && (
            which == 1 ==> ad2.interest_value == value && ad2.debt_value == ad.debt_value))
        } else {
            post == pre
        },
        EditingPane::RepayingDebt(rd) => if which == 2 {
            same_debts_tab(pre, post) && (debts_pane_of(post) matches EditingPane::RepayingDebt(
                rd2,
            ) && rd2.user_id == rd.user_id && rd2.error_message == rd.error_message
                && rd2.repayment_value == value)
        } else {
            post == pre
        },
        _ => post == pre,
    })
}

/// Confirming whatever pane is open.
pub open spec fn confirm_post(pre: Status, post: Status) -> bool {
    &&& (!users_tab_ok(pre) && !debts_tab_ok(pre) ==> post == pre)
    &&& (users_tab_ok(pre) ==> confirm_users_post(pre, post))
    &&& (debts_tab_ok(pre) ==> confirm_debts_post(pre, post))
}

impl FamilyBanking {
    /// Handles one user intent: the whole state machine of the
    /// application. The stored credential reference and the open store
    /// handle never change; the status moves as the intent's relation
    /// says.
    pub fn update(&mut self, message: Message)
        ensures
            final(self).admin_password == old(self).admin_password,
            final(self).db_connection == old(self).db_connection,
            match message {
                Message::TabButtonPressed(tab) => tab_button_post(
                    old(self).status,
                    final(self).status,
                    tab,
                ),
                Message::PasswordInput1Changed(text) => password_input_post(
                    old(self).status,
                    final(self).status,
                    text,
                    false,
                ),
                Message::PasswordInput2Changed(text) => password_input_post(
                    old(self).status,
                    final(self).status,
                    text,
                    true,
                ),
                Message::LoginButtonPressed => login_post(
                    old(self).status,
                    final(self).status,
                    old(self).admin_password,
                ),
                Message::NewPasswordButtonPressed => new_password_post(
                    old(self).status,
                    final(self).status,
                ),
                Message::AddUserButtonPressed => add_user_pane_post(
                    old(self).status,
                    final(self).status,
                ),
                Message::EditUserButtonPressed(user_id) => edit_user_pane_post(
                    old(self).status,
                    final(self).status,
                    user_id,
                ),
                Message::DeleteUserButtonPressed(user_id) => delete_user_pane_post(
                    old(self).status,
                    final(self).status,
                    user_id,
                ),
                Message::EditPaneUserNameInputChanged(value) => user_form_input_post(
                    old(self).status,
                    final(self).status,
                    value,
                    false,
                ),
                Message::EditPaneUserShareInputChanged(value) => user_form_input_post(
                    old(self).status,
                    final(self).status,
                    value,
                    true,
                ),
                Message::EditPaneConfirmButtonClicked => confirm_post(
                    old(self).status,
                    final(self).status,
                ),
                Message::AddDebtButtonPressed(user_id) => add_debt_pane_post(
                    old(self).status,
                    final(self).status,
                    user_id,
                ),
                Message::RepayDebtButtonPressed(user_id) => repay_debt_pane_post(
                    old(self).status,
                    final(self).status,
                    user_id,
                ),
                Message::EditPaneDebtInputChanged(value) => debt_form_input_post(
                    old(self).status,
                    final(self).status,
                    value,
                    0,
                ),
                Message::EditPaneInterestInputChanged(value) => debt_form_input_post(
                    old(self).status,
                    final(self).status,
                    value,
                    1,
                ),
                Message::EditPaneRepaymentInputChanged(value) => debt_form_input_post(
                    old(self).status,
                    final(self).status,
                    value,
                    2,
                ),
                Message::CloseEditPane => close_pane_post(old(self).status, final(self).status),
            },
    {
        match message {
            Message::TabButtonPressed(tab) => on_tab_button(
                &self.db_connection,
                &mut self.status,
                tab,
            ),
            Message::PasswordInput1Changed(text) => on_password_input(
                &mut self.status,
                text,
                false,
            ),
            Message::PasswordInput2Changed(text) => on_password_input(
                &mut self.status,
                text,
                true,
            ),
            Message::LoginButtonPressed => on_login(
                &self.db_connection,
                &mut self.status,
                &self.admin_password,
            ),
            Message::NewPasswordButtonPressed => on_new_password(
                &self.db_connection,
                &mut self.status,
            ),
            Message::AddUserButtonPressed => on_add_user(&mut self.status),
            Message::EditUserButtonPressed(user_id) => on_edit_user(&mut self.status, user_id),
            Message::DeleteUserButtonPressed(user_id) => on_delete_user(
                &mut self.status,
                user_id,
            ),
            Message::EditPaneUserNameInputChanged(value) => on_user_form_input(
                &mut self.status,
                value,
                false,
            ),
            Message::EditPaneUserShareInputChanged(value) => on_user_form_input(
                &mut self.status,
                value,
                true,
            ),
            Message::EditPaneConfirmButtonClicked => on_confirm(
                &self.db_connection,
                &mut self.status,
            ),
            Message::AddDebtButtonPressed(user_id) => on_add_debt(&mut self.status, user_id),
            Message::RepayDebtButtonPressed(user_id) => on_repay_debt(&mut self.status, user_id),
            Message::EditPaneDebtInputChanged(value) => on_debt_form_input(
                &mut self.status,
                value,
                0,
            ),
            Message::EditPaneInterestInputChanged(value) => on_debt_form_input(
                &mut self.status,
                value,
                1,
            ),
            Message::EditPaneRepaymentInputChanged(value) => on_debt_form_input(
                &mut self.status,
                value,
                2,
            ),
            Message::CloseEditPane => on_close_pane(&mut self.status),
        }
    }
}

} // verus!
