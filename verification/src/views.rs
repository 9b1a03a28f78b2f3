//! View-model projection: pure transforms that turn the member rows into
//! the data each tab displays, together with the forms (edit panes) those
//! tabs carry. Percentages are integers counting hundredths of a percent,
//! so the whole pool is 10000.

use vstd::prelude::*;

verus! {

use vstd::arithmetic::div_mod::{
    lemma_fundamental_div_mod,
    lemma_div_is_ordered,
    lemma_div_multiples_vanish,
};
use vstd::arithmetic::mul::lemma_mul_inequality;
use crate::AMOUNT_LIMIT;
use crate::ledger::{MemberRow, MemberModel, rows_model, amounts_bounded};

/// The three tabs of the main screen.
#[derive(Debug, Clone, Copy, PartialEq, Eq, Structural)]
pub enum Tab {
    Home,
    Users,
    Debts,
}

impl Default for Tab {
    fn default() -> (t: Tab)
        ensures
            t is Home,
    {
        Tab::Home
    }
}

/// One line of the member table as a tab shows it: the member, their
/// contribution, their part of all shares, and their debt balances.
pub struct UserDetails {
    pub id: i32,
    pub name: String,
    pub contribution: u64,
    /// This member's part of all shares, in hundredths of a percent;
    /// zero when no shares exist at all.
    pub percent: u64,
    pub loan: u64,
    pub interest: u64,
}

/// The mathematical image of a displayed member line.
pub ghost struct UserDetailsModel {
    pub id: int,
    pub name: Seq<char>,
    pub contribution: int,
    pub percent: int,
    pub loan: int,
    pub interest: int,
}

impl View for UserDetails {
    type V = UserDetailsModel;

    open spec fn view(&self) -> UserDetailsModel {
        UserDetailsModel {
            id: self.id as int,
            name: self.name@,
            contribution: self.contribution as int,
            percent: self.percent as int,
            loan: self.loan as int,
            interest: self.interest as int,
        }
    }
}

pub open spec fn details_model(v: Seq<UserDetails>) -> Seq<UserDetailsModel> {
    v.map_values(|d: UserDetails| d@)
}

/// A member's part of the total shares, in hundredths of a percent,
/// rounded down; defined as zero when there are no shares at all.
pub open spec fn percent_spec(share: int, total: int) -> int {
    if total > 0 {
        share * 10000 / total
    } else {
        0
    }
}

/// The displayed line for one member row, against a given share total.
pub open spec fn detail_of(m: MemberModel, total: int) -> UserDetailsModel {
    UserDetailsModel {
        id: m.id,
        name: m.name,
        contribution: m.share,
        percent: percent_spec(m.share, total),
        loan: m.loan,
        interest: m.interest,
    }
}

pub open spec fn details_of(ms: Seq<MemberModel>, total: int) -> Seq<UserDetailsModel> {
    ms.map_values(|m: MemberModel| detail_of(m, total))
}

pub open spec fn sum_shares(s: Seq<MemberModel>) -> int
    decreases s.len(),
{
    if s.len() == 0 {
        0
    } else {
        sum_shares(s.drop_last()) + s.last().share
    }
}

pub open spec fn sum_loans(s: Seq<MemberModel>) -> int
    decreases s.len(),
{
    if s.len() == 0 {
        0
    } else {
        sum_loans(s.drop_last()) + s.last().loan
    }
}

/// Combined outstanding debt: principal and interest together.
pub open spec fn sum_debt(s: Seq<MemberModel>) -> int
    decreases s.len(),
{
    if s.len() == 0 {
        0
    } else {
        sum_debt(s.drop_last()) + s.last().loan + s.last().interest
    }
}

pub open spec fn amounts_nonneg(s: Seq<MemberModel>) -> bool {
    forall|i: int|
        0 <= i < s.len() ==> (#[trigger] s[i]).share >= 0 && s[i].loan >= 0 && s[i].interest >= 0
}

/// Rows that came out of executable member rows carry `u64` amounts, so
/// their models are non-negative.
pub proof fn lemma_rows_model_nonneg(v: Seq<MemberRow>)
    ensures
        amounts_nonneg(rows_model(v)),
{
    assert forall|i: int| 0 <= i < rows_model(v).len() implies (#[trigger] rows_model(
        v,
    )[i]).share >= 0 && rows_model(v)[i].loan >= 0 && rows_model(v)[i].interest >= 0 by {
        assert(rows_model(v)[i] == v[i]@);
    };
}

pub proof fn lemma_sum_shares_nonneg(s: Seq<MemberModel>)
    requires
        amounts_nonneg(s),
    ensures
        sum_shares(s) >= 0,
    decreases s.len(),
{
    if s.len() > 0 {
        assert(amounts_nonneg(s.drop_last()));
        lemma_sum_shares_nonneg(s.drop_last());
    }
}

/// Each member's share is one of the summands, so it never exceeds the
/// total of all shares.
pub proof fn lemma_share_le_sum(s: Seq<MemberModel>, i: int)
    requires
        amounts_nonneg(s),
        0 <= i < s.len(),
    ensures
        s[i].share <= sum_shares(s),
    decreases s.len(),
{
    assert(amounts_nonneg(s.drop_last()));
    if i == s.len() - 1 {
        lemma_sum_shares_nonneg(s.drop_last());
    } else {
        lemma_share_le_sum(s.drop_last(), i);
        assert(s.drop_last()[i] == s[i]);
    }
}

/// One member's slice of the pool, in hundredths of a percent.
fn percent_of(share: u64, total: u128) -> (p: u64)
    requires
        total > 0 ==> share as int <= total as int,
    ensures
        p == percent_spec(share as int, total as int),
        p <= 10000,
{
    if total == 0 {
        return 0;
    }
    let wide: u128 = (share as u128) * 10000;
    let q: u128 = wide / total;
    proof {
        let sh = share as int;
        let t = total as int;
        lemma_mul_inequality(sh, t, 10000);
        lemma_div_is_ordered(sh * 10000, t * 10000, t);
        assert(t * 10000 == 10000 * t) by (nonlinear_arith);
        lemma_div_multiples_vanish(10000, t);
        assert((t * 10000) / t == 10000);
        assert(q == sh * 10000 / t);
    }
    q as u64
}

/// Totals over a member list (the profit row excluded): all shares, all
/// loan principal, and all combined debt.
fn compute_totals(members: &Vec<MemberRow>) -> (t: (u128, u128, u128))
    requires
        amounts_bounded(rows_model(members@)),
    ensures
        t.0 == sum_shares(rows_model(members@)),
        t.1 == sum_loans(rows_model(members@)),
        t.2 == sum_debt(rows_model(members@)),
        t.0 <= members@.len() * AMOUNT_LIMIT,
        t.1 <= members@.len() * AMOUNT_LIMIT,
        t.2 <= members@.len() * (2 * AMOUNT_LIMIT),
{
    let ghost model = rows_model(members@);
    let mut shares: u128 = 0;
    let mut loans: u128 = 0;
    let mut debt: u128 = 0;
    let n = members.len();
    let mut i: usize = 0;
    while i < n
        invariant
            0 <= i <= n == members@.len(),
            model == rows_model(members@),
            amounts_bounded(model),
            shares == sum_shares(model.take(i as int)),
            loans == sum_loans(model.take(i as int)),
            debt == sum_debt(model.take(i as int)),
            shares <= i * AMOUNT_LIMIT,
            loans <= i * AMOUNT_LIMIT,
            debt <= i * (2 * AMOUNT_LIMIT),
        decreases n - i,
    {
        let row = &members[i];
        proof {
            assert(model[i as int] == members@[i as int]@);
            assert(model[i as int].share <= AMOUNT_LIMIT && model[i as int].loan <= AMOUNT_LIMIT
                && model[i as int].interest <= AMOUNT_LIMIT);
            let t1 = model.take(i + 1 as int);
            assert(t1.drop_last() =~= model.take(i as int));
            assert(t1.last() == model[i as int]);
            assert(i * AMOUNT_LIMIT + AMOUNT_LIMIT == (i + 1) * AMOUNT_LIMIT) by (nonlinear_arith);
            assert(i * (2 * AMOUNT_LIMIT) + 2 * AMOUNT_LIMIT == (i + 1) * (2 * AMOUNT_LIMIT))
                by (nonlinear_arith);
            assert((i + 1) * AMOUNT_LIMIT <= n * AMOUNT_LIMIT) by (nonlinear_arith)
                requires
                    i + 1 <= n,
            ;
            assert((i + 1) * (2 * AMOUNT_LIMIT) <= n * (2 * AMOUNT_LIMIT)) by (nonlinear_arith)
                requires
                    i + 1 <= n,
            ;
            assert(n * AMOUNT_LIMIT <= 0xffff_ffff_ffff_ffff * (AMOUNT_LIMIT as int))
                by (nonlinear_arith)
                requires
                    n <= 0xffff_ffff_ffff_ffff,
            ;
            assert(n * (2 * AMOUNT_LIMIT) <= 0xffff_ffff_ffff_ffff * (2 * AMOUNT_LIMIT as int))
                by (nonlinear_arith)
                requires
                    n <= 0xffff_ffff_ffff_ffff,
            ;
        }
        shares = shares + (row.share as u128);
        loans = loans + (row.loan as u128);
        debt = debt + (row.loan as u128) + (row.interest as u128);
        i = i + 1;
    }
    proof {
        assert(model.take(n as int) =~= model);
    }
    (shares, loans, debt)
}

/// The displayed member lines, with each percentage taken against the
/// given share total.
fn build_details(members: &Vec<MemberRow>, total: u128) -> (v: Vec<UserDetails>)
    requires
        total == sum_shares(rows_model(members@)),
    ensures
        details_model(v@) == details_of(rows_model(members@), total as int),
{
    let ghost model = rows_model(members@);
    let mut out: Vec<UserDetails> = Vec::new();
    let n = members.len();
    let mut i: usize = 0;
    while i < n
        invariant
            0 <= i <= n == members@.len(),
            model == rows_model(members@),
            total == sum_shares(model),
            details_model(out@) =~= details_of(model, total as int).take(i as int),
        decreases n - i,
    {
        let row = &members[i];
        proof {
            assert(model[i as int] == members@[i as int]@);
            lemma_rows_model_nonneg(members@);
            lemma_share_le_sum(model, i as int);
        }
        let p = percent_of(row.share, total);
        let ghost prev = out@;
        out.push(
            UserDetails {
                id: row.id,
                name: row.name.clone(),
                contribution: row.share,
                percent: p,
                loan: row.loan,
                interest: row.interest,
            },
        );
        proof {
            assert(model.len() == members@.len());
            assert(details_of(model, total as int).len() == model.len());
            assert(details_model(out@).len() == out@.len());
            assert(details_model(prev).len() == prev.len());
            assert forall|k: int| 0 <= k < out@.len() implies details_model(out@)[k] == details_of(
                model,
                total as int,
            ).take(i + 1 as int)[k] by {
                assert(details_model(out@)[k] == out@[k]@);
                if k < prev.len() {
                    assert(out@[k] == prev[k]);
                    assert(details_model(prev)[k] == prev[k]@);
                    assert(details_of(model, total as int)[k] == detail_of(
                        model[k],
                        total as int,
                    ));
                } else {
                    assert(out@[k] == out@.last());
                    assert(details_of(model, total as int)[k] == detail_of(
                        model[k],
                        total as int,
                    ));
                }
            };
            assert(details_model(out@) =~= details_of(model, total as int).take(i + 1 as int));
        }
        i = i + 1;
    }
    proof {
        assert(details_of(model, total as int).take(n as int) =~= details_of(
            model,
            total as int,
        ));
    }
    out
}

/// The Home tab's summary numbers and member lines.
pub struct HomeTabData {
    pub total_shares: u128,
    pub total_debt: u128,
    pub total_loans: u128,
    /// Cash on hand: contributed capital minus what is out on loan, plus
    /// the pooled profit. Can be negative only if the store was tampered
    /// with, so it is carried signed.
    pub total_cash: i128,
    pub profit: u64,
    pub user_details: Vec<UserDetails>,
}

/// The Users tab: member lines plus whatever edit pane is open.
pub struct UsersTabData {
    pub user_details: Vec<UserDetails>,
    pub edit_pane: EditingPane,
}

impl UsersTabData {
    pub fn new(user_details: Vec<UserDetails>) -> (r: UsersTabData)
        ensures
            r.user_details == user_details,
            r.edit_pane is Closed,
    {
        UsersTabData { user_details, edit_pane: EditingPane::Closed }
    }
}

/// The Debts tab: member lines plus whatever edit pane is open.
pub struct DebtsTabData {
    pub user_details: Vec<UserDetails>,
    pub edit_pane: EditingPane,
}

impl DebtsTabData {
    pub fn new(user_details: Vec<UserDetails>) -> (r: DebtsTabData)
        ensures
            r.user_details == user_details,
            r.edit_pane is Closed,
    {
        DebtsTabData { user_details, edit_pane: EditingPane::Closed }
    }
}

/// The form for adding a member or editing one.
pub struct EditUserDetails {
    pub name_value: String,
    pub shares_value: String,
    pub error_message: String,
}

impl Default for EditUserDetails {
    fn default() -> (r: EditUserDetails)
        ensures
            r.name_value@ == Seq::<char>::empty(),
            r.shares_value@ == Seq::<char>::empty(),
            r.error_message@ == Seq::<char>::empty(),
    {
        EditUserDetails {
            name_value: String::new(),
            shares_value: String::new(),
            error_message: String::new(),
        }
    }
}

/// The confirmation dialog for deleting a member.
pub struct ConfirmDeletion {
    pub user_id: i32,
    pub error_message: String,
}

/// The form for handing out a new loan.
pub struct AddDebt {
    pub user_id: i32,
    pub debt_value: String,
    pub interest_value: String,
    pub error_message: String,
}

/// The form for taking a repayment.
pub struct RepayDebt {
    pub user_id: i32,
    pub repayment_value: String,
    pub error_message: String,
}

/// The mutually exclusive edit panes a tab can have open.
pub enum EditingPane {
    Closed,
    AddingUser(EditUserDetails),
    EditingUser(i32, EditUserDetails),
    ConfirmingDeletion(ConfirmDeletion),
    AddingDebt(AddDebt),
    RepayingDebt(RepayDebt),
}

impl Default for EditingPane {
    fn default() -> (r: EditingPane)
        ensures
            r is Closed,
    {
        EditingPane::Closed
    }
}

/// Projects the Home tab from a fetched member list (profit row already
/// taken aside) and the pooled profit balance.
pub fn project_home(members: &Vec<MemberRow>, profit: u64) -> (h: HomeTabData)
    requires
        amounts_bounded(rows_model(members@)),
    ensures
        h.total_shares == sum_shares(rows_model(members@)),
        h.total_loans == sum_loans(rows_model(members@)),
        h.total_debt == sum_debt(rows_model(members@)),
        h.total_cash == sum_shares(rows_model(members@)) + profit - sum_loans(
            rows_model(members@),
        ),
        h.profit == profit,
        details_model(h.user_details@) == details_of(
            rows_model(members@),
            sum_shares(rows_model(members@)),
        ),
{
    let (total_shares, total_loans, total_debt) = compute_totals(members);
    let user_details = build_details(members, total_shares);
    let n_exec = members.len();
    proof {
        let limit = AMOUNT_LIMIT as int;
        let n = members@.len() as int;
        assert(n == n_exec);
        assert(n * limit <= 0xffff_ffff_ffff_ffff * limit) by (nonlinear_arith)
            requires
                n <= 0xffff_ffff_ffff_ffff,
                limit > 0,
        ;
        assert(n * (2 * limit) <= 0xffff_ffff_ffff_ffff * (2 * limit)) by (nonlinear_arith)
            requires
                n <= 0xffff_ffff_ffff_ffff,
                limit > 0,
        ;
    }
    let total_cash: i128 = (total_shares as i128) + (profit as i128) - (total_loans as i128);
    HomeTabData { total_shares, total_debt, total_loans, total_cash, profit, user_details }
}

/// Projects the Users tab from a fetched member list, with no pane open.
pub fn project_users(members: &Vec<MemberRow>) -> (r: UsersTabData)
    requires
        amounts_bounded(rows_model(members@)),
    ensures
        details_model(r.user_details@) == details_of(
            rows_model(members@),
            sum_shares(rows_model(members@)),
        ),
        r.edit_pane is Closed,
{
    let (total_shares, _, _) = compute_totals(members);
    UsersTabData::new(build_details(members, total_shares))
}

/// Projects the Debts tab from a fetched member list, with no pane open.
pub fn project_debts(members: &Vec<MemberRow>) -> (r: DebtsTabData)
    requires
        amounts_bounded(rows_model(members@)),
    ensures
        details_model(r.user_details@) == details_of(
            rows_model(members@),
            sum_shares(rows_model(members@)),
        ),
        r.edit_pane is Closed,
{
    let (total_shares, _, _) = compute_totals(members);
    DebtsTabData::new(build_details(members, total_shares))
}

/// Member lines that are the image of some member table: each line comes
/// from a row, with its percentage taken against that table's share
/// total.
pub open spec fn projected_lines(v: Seq<UserDetails>) -> bool {
    exists|ms: Seq<MemberModel>|
        amounts_bounded(ms) && details_model(v) == #[trigger] details_of(ms, sum_shares(ms))
}

/// A Home tab that is the projection of some member table: the totals,
/// the cash identity, and the member lines all come from the same table.
pub open spec fn projected_home(h: HomeTabData) -> bool {
    exists|ms: Seq<MemberModel>|
        {
            &&& amounts_bounded(ms)
            &&& h.total_shares == sum_shares(ms)
            &&& h.total_loans == sum_loans(ms)
            &&& h.total_debt == sum_debt(ms)
            &&& h.total_cash == sum_shares(ms) + h.profit - sum_loans(ms)
            &&& h.profit <= AMOUNT_LIMIT
            &&& details_model(h.user_details@) == #[trigger] details_of(ms, sum_shares(ms))
        }
}

/// The projected member lines never show the profit row: every line's id
/// comes from a member row, and no member row has id 0.
pub proof fn lemma_views_exclude_profit(ms: Seq<MemberModel>, total: int)
    requires
        forall|k: int| 0 <= k < ms.len() ==> (#[trigger] ms[k]).id != 0,
    ensures
        forall|k: int|
            0 <= k < details_of(ms, total).len() ==> (#[trigger] details_of(ms, total)[k]).id
                != 0,
{
    assert forall|k: int| 0 <= k < details_of(ms, total).len() implies (#[trigger] details_of(
        ms,
        total,
    )[k]).id != 0 by {
        assert(details_of(ms, total)[k] == detail_of(ms[k], total));
    };
}

pub open spec fn sum_percents(s: Seq<MemberModel>, total: int) -> int
    decreases s.len(),
{
    if s.len() == 0 {
        0
    } else {
        sum_percents(s.drop_last(), total) + percent_spec(s.last().share, total)
    }
}

proof fn lemma_percents_scaled(s: Seq<MemberModel>, total: int)
    requires
        total > 0,
        amounts_nonneg(s),
    ensures
        total * sum_percents(s, total) <= sum_shares(s) * 10000,
        total * sum_percents(s, total) >= sum_shares(s) * 10000 - s.len() * (total - 1),
    decreases s.len(),
{
    if s.len() == 0 {
        assert(total * 0 == 0) by (nonlinear_arith);
    } else {
        let d = s.drop_last();
        let m = s.last();
        assert(amounts_nonneg(d));
        lemma_percents_scaled(d, total);
        let q = m.share * 10000 / total;
        let r = m.share * 10000 % total;
        lemma_fundamental_div_mod(m.share * 10000, total);
        assert(m.share * 10000 == total * q + r);
        assert(0 <= r < total) by {
            assert(m.share >= 0);
            assert(m.share * 10000 >= 0) by (nonlinear_arith)
                requires
                    m.share >= 0,
            ;
            vstd::arithmetic::div_mod::lemma_mod_bound(m.share * 10000, total);
        };
        assert(total * sum_percents(s, total) == total * sum_percents(d, total) + total * q)
            by (nonlinear_arith)
            requires
                sum_percents(s, total) == sum_percents(d, total) + q,
        ;
        assert(sum_shares(s) * 10000 == sum_shares(d) * 10000 + m.share * 10000)
            by (nonlinear_arith)
            requires
                sum_shares(s) == sum_shares(d) + m.share,
        ;
        assert(s.len() * (total - 1) == d.len() * (total - 1) + (total - 1)) by (nonlinear_arith)
            requires
                s.len() == d.len() + 1,
        ;
    }
}

/// Whenever any shares exist at all, the displayed percentages sum to the
/// whole pool up to rounding: more than `10000 - n` and at most `10000`
/// hundredths of a percent over the `n` members.
pub proof fn lemma_percents_sum_to_whole(s: Seq<MemberModel>, total: int)
    requires
        total == sum_shares(s),
        total > 0,
        amounts_nonneg(s),
    ensures
        sum_percents(s, total) <= 10000,
        sum_percents(s, total) > 10000 - s.len(),
{
    lemma_percents_scaled(s, total);
    let p = sum_percents(s, total);
    let n = s.len() as int;
    assert(s.len() > 0);
    assert(total * p <= total * 10000) by (nonlinear_arith)
        requires
            total * p <= total * 10000,
    ;
    assert(p <= 10000) by (nonlinear_arith)
        requires
            total > 0,
            total * p <= total * 10000,
    ;
    assert(total * p >= total * 10000 - n * (total - 1));
    assert(p > 10000 - n) by (nonlinear_arith)
        requires
            total > 0,
            n >= 1,
            total * p >= total * 10000 - n * (total - 1),
    ;
}

/// The percentages of a sequence of displayed lines, added up.
pub open spec fn sum_line_percents(ds: Seq<UserDetailsModel>) -> int
    decreases ds.len(),
{
    if ds.len() == 0 {
        0
    } else {
        sum_line_percents(ds.drop_last()) + ds.last().percent
    }
}

proof fn lemma_line_percents_match(ms: Seq<MemberModel>, total: int)
    ensures
        sum_line_percents(details_of(ms, total)) == sum_percents(ms, total),
    decreases ms.len(),
{
    let ds = details_of(ms, total);
    assert(ds.len() == ms.len());
    if ms.len() > 0 {
        lemma_line_percents_match(ms.drop_last(), total);
        assert(ds.drop_last() =~= details_of(ms.drop_last(), total));
        assert(ds.last() == detail_of(ms.last(), total));
    }
}

/// Across the member lines of a projected tab, the percentages sum to
/// the whole pool up to rounding whenever any shares exist: over
/// `10000 - n` and at most `10000` hundredths of a percent for `n`
/// members.
pub proof fn lemma_view_percents_cover_pool(ms: Seq<MemberModel>, ds: Seq<UserDetailsModel>)
    requires
        ds == details_of(ms, sum_shares(ms)),
        sum_shares(ms) > 0,
        amounts_nonneg(ms),
    ensures
        sum_line_percents(ds) <= 10000,
        sum_line_percents(ds) > 10000 - ds.len(),
{
    lemma_percents_sum_to_whole(ms, sum_shares(ms));
    lemma_line_percents_match(ms, sum_shares(ms));
    assert(ds.len() == ms.len());
}

} // verus!
