//! The ledger: member rows (shares, loans, interest), the reserved pooled
//! profit row, and the admin credential, together with every atomic
//! operation the application performs on them. This in-memory form is the
//! verified heart of the library; the SQLite-backed store mirrors it.

use vstd::prelude::*;

verus! {

use crate::{AMOUNT_LIMIT, LedgerError, principal_part, interest_part, split_repayment};

/// One row of the member table. The row with `id == 0` is the reserved
/// profit pseudo-member and never appears in user-facing lists.
pub struct MemberRow {
    pub id: i32,
    pub name: String,
    /// Contributed capital, in hundredths of a unit. For the profit row:
    /// accumulated undistributed interest income.
    pub share: u64,
    /// Outstanding loan principal, in hundredths of a unit.
    pub loan: u64,
    /// Outstanding interest, tracked apart from principal so that repayment
    /// can be allocated principal-first.
    pub interest: u64,
}

/// The mathematical image of a member row.
pub ghost struct MemberModel {
    pub id: int,
    pub name: Seq<char>,
    pub share: int,
    pub loan: int,
    pub interest: int,
}

impl View for MemberRow {
    type V = MemberModel;

    open spec fn view(&self) -> MemberModel {
        MemberModel {
            id: self.id as int,
            name: self.name@,
            share: self.share as int,
            loan: self.loan as int,
            interest: self.interest as int,
        }
    }
}

impl MemberRow {
    /// A field-for-field copy of the row.
    pub fn duplicate(&self) -> (r: MemberRow)
        ensures
            r@ == self@,
    {
        MemberRow {
            id: self.id,
            name: self.name.clone(),
            share: self.share,
            loan: self.loan,
            interest: self.interest,
        }
    }
}

pub open spec fn rows_model(rows: Seq<MemberRow>) -> Seq<MemberModel> {
    rows.map_values(|r: MemberRow| r@)
}

/// Row ids strictly increase, so they are unique and the profit row in
/// front is the only row with id 0.
pub open spec fn ids_sorted(s: Seq<MemberModel>) -> bool {
    forall|i: int, j: int| 0 <= i < j < s.len() ==> #[trigger] s[i].id < #[trigger] s[j].id
}

pub open spec fn amounts_bounded(s: Seq<MemberModel>) -> bool {
    forall|i: int|
        0 <= i < s.len() ==> (#[trigger] s[i]).share <= AMOUNT_LIMIT && s[i].loan <= AMOUNT_LIMIT
            && s[i].interest <= AMOUNT_LIMIT
}

pub open spec fn names_nonempty(s: Seq<MemberModel>) -> bool {
    forall|i: int| 1 <= i < s.len() ==> (#[trigger] s[i]).name.len() >= 1
}

/// Well-formedness of the member table: the profit row sits in front with
/// id 0, owes nothing, and keeps its fixed label; ids strictly increase;
/// every amount is within range; every real member has a name.
pub open spec fn wf_rows(s: Seq<MemberModel>) -> bool {
    &&& s.len() >= 1
    &&& s[0].id == 0
    &&& s[0].name == "Profits"@
    &&& s[0].loan == 0
    &&& s[0].interest == 0
    &&& ids_sorted(s)
    &&& amounts_bounded(s)
    &&& names_nonempty(s)
}

/// Whether a real member (never the profit row) with this id exists.
pub open spec fn has_member(s: Seq<MemberModel>, id: int) -> bool {
    exists|i: int| 1 <= i < s.len() && (#[trigger] s[i]).id == id
}

/// The position of the member with this id.
pub open spec fn member_index(s: Seq<MemberModel>, id: int) -> int {
    choose|i: int| 1 <= i < s.len() && (#[trigger] s[i]).id == id
}

/// With strictly increasing ids, the member's position is unique, so any
/// witness of `has_member` is `member_index`.
pub proof fn lemma_member_index_unique(s: Seq<MemberModel>, id: int, i: int)
    requires
        ids_sorted(s),
        1 <= i < s.len(),
        s[i].id == id,
    ensures
        member_index(s, id) == i,
{
    assert(has_member(s, id));
    let j = member_index(s, id);
    if i < j {
        assert(s[i].id < s[j].id);
    }
    if j < i {
        assert(s[j].id < s[i].id);
    }
}

/// In every well-formed ledger state exactly one row has id 0 — the
/// profit row in front — and the member list (everything after it) holds
/// no row with id 0. Every operation of this module keeps the state
/// well-formed, so this holds of all reachable states.
pub proof fn lemma_profit_row_unique(rows: Seq<MemberModel>)
    requires
        wf_rows(rows),
    ensures
        rows[0].id == 0,
        forall|i: int| 1 <= i < rows.len() ==> (#[trigger] rows[i]).id != 0,
        forall|i: int| 0 <= i < rows.skip(1).len() ==> (#[trigger] rows.skip(1)[i]).id != 0,
{
    assert forall|i: int| 1 <= i < rows.len() implies (#[trigger] rows[i]).id != 0 by {
        assert(rows[0].id < rows[i].id);
    };
    assert forall|i: int| 0 <= i < rows.skip(1).len() implies (#[trigger] rows.skip(1)[i]).id
        != 0 by {
        assert(rows.skip(1)[i] == rows[i + 1]);
    };
}

/// Listing members computes nothing but a function of the ledger state:
/// any two results drawn from the same state, with no write in between,
/// are the same members and the same profit balance.
pub proof fn lemma_list_members_idempotent(
    l: LedgerModel,
    m1: Seq<MemberModel>,
    p1: int,
    m2: Seq<MemberModel>,
    p2: int,
)
    requires
        m1 == l.rows.skip(1),
        p1 == l.rows[0].share,
        m2 == l.rows.skip(1),
        p2 == l.rows[0].share,
    ensures
        m1 == m2,
        p1 == p2,
{
}

/// Round trip: after adding a member, the member list contains a row
/// with exactly that name and share, owing nothing.
pub proof fn lemma_added_member_listed(
    pre: LedgerModel,
    post: LedgerModel,
    id: int,
    name: Seq<char>,
    share: int,
)
    requires
        wf_rows(pre.rows),
        post.rows == pre.rows.push(
            MemberModel { id: id, name: name, share: share, loan: 0, interest: 0 },
        ),
    ensures
        exists|k: int|
            0 <= k < post.rows.skip(1).len() && (#[trigger] post.rows.skip(1)[k]).name == name
                && post.rows.skip(1)[k].share == share && post.rows.skip(1)[k].loan == 0
                && post.rows.skip(1)[k].interest == 0,
{
    let k = pre.rows.len() - 1;
    assert(post.rows.skip(1)[k] == post.rows[k + 1]);
    assert(post.rows[k + 1] == MemberModel {
        id: id,
        name: name,
        share: share,
        loan: 0,
        interest: 0,
    });
}

/// The whole persisted state: member rows and the admin credential text
/// (the single blank space standing for "no password configured yet").
pub ghost struct LedgerModel {
    pub rows: Seq<MemberModel>,
    pub credential: Seq<char>,
}

/// What reading the admin credential yields.
pub enum CredentialState {
    /// The sentinel is stored: no password has been configured yet.
    Unset,
    /// A password hash is stored.
    Hashed(String),
}

/// The in-memory ledger.
pub struct Ledger {
    rows: Vec<MemberRow>,
    credential: String,
}

impl View for Ledger {
    type V = LedgerModel;

    closed spec fn view(&self) -> LedgerModel {
        LedgerModel { rows: rows_model(self.rows@), credential: self.credential@ }
    }
}

impl Ledger {
    /// Ledger states reachable through this interface all satisfy this.
    pub open spec fn inv(&self) -> bool {
        wf_rows(self@.rows) && self@.credential.len() >= 1
    }

    /// A fresh store: only the profit row, and the sentinel credential.
    pub fn new() -> (l: Ledger)
        ensures
            l.inv(),
            l@.rows =~= seq![
                MemberModel { id: 0, name: "Profits"@, share: 0, loan: 0, interest: 0 },
            ],
            l@.credential == " "@,
    {
        let mut rows: Vec<MemberRow> = Vec::new();
        rows.push(
            MemberRow {
                id: 0,
                name: String::from_str("Profits"),
                share: 0,
                loan: 0,
                interest: 0,
            },
        );
        proof {
            reveal_strlit(" ");
        }
        let l = Ledger { rows, credential: String::from_str(" ") };
        proof {
            assert(l@.rows =~= seq![
                MemberModel { id: 0, name: "Profits"@, share: 0, loan: 0, interest: 0 },
            ]);
        }
        l
    }

    /// The position of the member with this id, if any.
    fn find_index(&self, id: i32) -> (r: Option<usize>)
        requires
            self.inv(),
        ensures
            match r {
                Some(i) => 1 <= i < self@.rows.len() && self@.rows[i as int].id == id
                    && member_index(self@.rows, id as int) == i,
                None => !has_member(self@.rows, id as int),
            },
    {
        let n = self.rows.len();
        let mut i: usize = 1;
        while i < n
            invariant
                self.inv(),
                1 <= i <= n == self@.rows.len(),
                forall|j: int| 1 <= j < i ==> (#[trigger] self@.rows[j]).id != id,
            decreases n - i,
        {
            if self.rows[i].id == id {
                proof {
                    lemma_member_index_unique(self@.rows, id as int, i as int);
                }
                return Some(i);
            }
            i = i + 1;
        }
        None
    }

    /// Every member row except the reserved profit row, in table order,
    /// together with the pooled profit balance.
    pub fn list_members(&self) -> (r: (Vec<MemberRow>, u64))
        requires
            self.inv(),
        ensures
            rows_model(r.0@) == self@.rows.skip(1),
            r.1 == self@.rows[0].share,
    {
        let mut out: Vec<MemberRow> = Vec::new();
        let n = self.rows.len();
        let mut i: usize = 1;
        while i < n
            invariant
                self.inv(),
                1 <= i <= n == self@.rows.len(),
                rows_model(out@) =~= self@.rows.subrange(1, i as int),
            decreases n - i,
        {
            let ghost prev = out@;
            out.push(self.rows[i].duplicate());
            proof {
                assert(rows_model(prev).len() == prev.len());
                assert(prev.len() == i - 1);
                assert(out@.len() == i);
                assert(rows_model(out@).len() == i);
                assert forall|k: int| 0 <= k < out@.len() implies rows_model(out@)[k]
                    == self@.rows.subrange(1, i + 1 as int)[k] by {
                    assert(rows_model(out@)[k] == out@[k]@);
                    if k < prev.len() {
                        assert(out@[k] == prev[k]);
                        assert(rows_model(prev)[k] == prev[k]@);
                    }
                };
                assert(rows_model(out@) =~= self@.rows.subrange(1, i + 1 as int));
            }
            i = i + 1;
        }
        proof {
            assert(self@.rows.subrange(1, n as int) =~= self@.rows.skip(1));
        }
        (out, self.rows[0].share)
    }

    /// Adds a member with the next free id and no debt. Rejected when the
    /// name is empty, the share is out of range, or no id is left.
    pub fn add_member(&mut self, name: String, share: u64) -> (r: Result<i32, LedgerError>)
        requires
            old(self).inv(),
        ensures
            final(self).inv(),
            final(self)@.credential == old(self)@.credential,
            (r is Err <==> name@.len() == 0 || share > AMOUNT_LIMIT || old(self)@.rows.last().id
                == i32::MAX),
            (r matches Err(e) ==> e is Validation && final(self)@ == old(self)@),
            (r matches Ok(id) ==> id == old(self)@.rows.last().id + 1 && final(self)@.rows == old(
                self,
            )@.rows.push(
                MemberModel {
                    id: id as int,
                    name: name@,
                    share: share as int,
                    loan: 0,
                    interest: 0,
                },
            )),
    {
        if name.as_str().is_empty() || share > AMOUNT_LIMIT {
            return Err(LedgerError::Validation);
        }
        let last_id = self.rows[self.rows.len() - 1].id;
        if last_id == i32::MAX {
            return Err(LedgerError::Validation);
        }
        let id = last_id + 1;
        let ghost prev = self.rows@;
        self.rows.push(MemberRow { id, name, share, loan: 0, interest: 0 });
        proof {
            lemma_rows_model_push(prev, self.rows@.last());
            assert(self@.rows =~= rows_model(prev).push(self.rows@.last()@));
            assert(rows_model(prev).last().id == last_id);
            lemma_wf_push(rows_model(prev), self.rows@.last()@);
            assert(self.inv());
        }
        Ok(id)
    }

    /// Rewrites a member's name and share in place; loan and interest are
    /// untouched. The profit row is not a member and cannot be edited.
    pub fn edit_member(&mut self, id: i32, name: String, share: u64) -> (r: Result<
        (),
        LedgerError,
    >)
        requires
            old(self).inv(),
        ensures
            final(self).inv(),
            final(self)@.credential == old(self)@.credential,
            (r matches Err(LedgerError::Validation) <==> name@.len() == 0 || share
                > AMOUNT_LIMIT),
            (r matches Err(LedgerError::NotFound) <==> name@.len() >= 1 && share <= AMOUNT_LIMIT
                && !has_member(old(self)@.rows, id as int)),
            (r is Err ==> final(self)@ == old(self)@),
            (r is Ok ==> has_member(old(self)@.rows, id as int) && final(self)@.rows == old(
                self,
            )@.rows.update(
                member_index(old(self)@.rows, id as int),
                MemberModel {
                    id: id as int,
                    name: name@,
                    share: share as int,
                    loan: old(self)@.rows[member_index(old(self)@.rows, id as int)].loan,
                    interest: old(self)@.rows[member_index(old(self)@.rows, id as int)].interest,
                },
            )),
    {
        if name.as_str().is_empty() || share > AMOUNT_LIMIT {
            return Err(LedgerError::Validation);
        }
        match self.find_index(id) {
            None => Err(LedgerError::NotFound),
            Some(i) => {
                let loan = self.rows[i].loan;
                let interest = self.rows[i].interest;
                let ghost prev = self.rows@;
                self.rows[i] = MemberRow { id, name, share, loan, interest };
                proof {
                    lemma_rows_model_update(prev, i as int, self.rows@[i as int]);
                    assert(self@.rows =~= rows_model(prev).update(
                        i as int,
                        self.rows@[i as int]@,
                    ));
                    assert(rows_model(prev)[i as int].share <= AMOUNT_LIMIT && rows_model(
                        prev,
                    )[i as int].loan <= AMOUNT_LIMIT && rows_model(prev)[i as int].interest
                        <= AMOUNT_LIMIT);
                    lemma_wf_update(rows_model(prev), i as int, self.rows@[i as int]@);
                    assert(self.inv());
                }
                Ok(())
            },
        }
    }

    /// Removes a member row. The profit row is not a member and cannot be
    /// deleted; a deleted member's past interest stays in the profit row.
    pub fn delete_member(&mut self, id: i32) -> (r: Result<(), LedgerError>)
        requires
            old(self).inv(),
        ensures
            final(self).inv(),
            final(self)@.credential == old(self)@.credential,
            (r matches Err(e) ==> e is NotFound),
            (r is Err <==> !has_member(old(self)@.rows, id as int)),
            (r is Err ==> final(self)@ == old(self)@),
            (r is Ok ==> final(self)@.rows == old(self)@.rows.remove(
                member_index(old(self)@.rows, id as int),
            )),
    {
        match self.find_index(id) {
            None => Err(LedgerError::NotFound),
            Some(i) => {
                let ghost prev = self.rows@;
                self.rows.remove(i);
                proof {
                    lemma_rows_model_remove(prev, i as int);
                    assert(self@.rows =~= rows_model(prev).remove(i as int));
                    lemma_wf_remove(rows_model(prev), i as int);
                    assert(self.inv());
                }
                Ok(())
            },
        }
    }

    /// Lends to a member: both deltas are added to the member's balances.
    pub fn borrow(&mut self, id: i32, principal: u64, interest: u64) -> (r: Result<
        (),
        LedgerError,
    >)
        requires
            old(self).inv(),
        ensures
            final(self).inv(),
            final(self)@.credential == old(self)@.credential,
            (r matches Err(LedgerError::NotFound) <==> !has_member(old(self)@.rows, id as int)),
            (r matches Err(LedgerError::Validation) <==> has_member(old(self)@.rows, id as int)
                && (old(self)@.rows[member_index(old(self)@.rows, id as int)].loan + principal
                > AMOUNT_LIMIT || old(self)@.rows[member_index(old(self)@.rows, id as int)].interest
                + interest > AMOUNT_LIMIT)),
            (r is Err ==> final(self)@ == old(self)@),
            (r is Ok ==> final(self)@.rows == old(self)@.rows.update(
                member_index(old(self)@.rows, id as int),
                MemberModel {
                    loan: old(self)@.rows[member_index(old(self)@.rows, id as int)].loan
                        + principal,
                    interest: old(self)@.rows[member_index(old(self)@.rows, id as int)].interest
                        + interest,
                    ..old(self)@.rows[member_index(old(self)@.rows, id as int)]
                },
            )),
    {
        match self.find_index(id) {
            None => Err(LedgerError::NotFound),
            Some(i) => {
                let loan = self.rows[i].loan;
                let inter = self.rows[i].interest;
                if principal > AMOUNT_LIMIT - loan || interest > AMOUNT_LIMIT - inter {
                    return Err(LedgerError::Validation);
                }
                let ghost prev = self.rows@;
                let row = &mut self.rows[i];
                row.loan = loan + principal;
                row.interest = inter + interest;
                proof {
                    lemma_rows_model_update(prev, i as int, self.rows@[i as int]);
                    assert(self@.rows =~= rows_model(prev).update(
                        i as int,
                        self.rows@[i as int]@,
                    ));
                    lemma_wf_update(rows_model(prev), i as int, self.rows@[i as int]@);
                    assert(self.inv());
                }
                Ok(())
            },
        }
    }

    /// Books a repayment already split into portions: the member's loan and
    /// interest go down, and, in the same step, the interest portion is
    /// credited to the profit row. The two cannot be applied separately.
    pub fn repay(&mut self, id: i32, principal_portion: u64, interest_portion: u64) -> (r: Result<
        (),
        LedgerError,
    >)
        requires
            old(self).inv(),
        ensures
            final(self).inv(),
            final(self)@.credential == old(self)@.credential,
            (r matches Err(LedgerError::NotFound) <==> !has_member(old(self)@.rows, id as int)),
            (r matches Err(LedgerError::Validation) <==> has_member(old(self)@.rows, id as int)
                && (principal_portion > old(self)@.rows[member_index(
                old(self)@.rows,
                id as int,
            )].loan || interest_portion > old(self)@.rows[member_index(
                old(self)@.rows,
                id as int,
            )].interest || old(self)@.rows[0].share + interest_portion > AMOUNT_LIMIT)),
            (r is Err ==> final(self)@ == old(self)@),
            (r is Ok ==> final(self)@.rows == old(self)@.rows.update(
                member_index(old(self)@.rows, id as int),
                MemberModel {
                    loan: old(self)@.rows[member_index(old(self)@.rows, id as int)].loan
                        - principal_portion,
                    interest: old(self)@.rows[member_index(old(self)@.rows, id as int)].interest
                        - interest_portion,
                    ..old(self)@.rows[member_index(old(self)@.rows, id as int)]
                },
            ).update(
                0,
                MemberModel {
                    share: old(self)@.rows[0].share + interest_portion,
                    ..old(self)@.rows[0]
                },
            )),
    {
        match self.find_index(id) {
            None => Err(LedgerError::NotFound),
            Some(i) => {
                let loan = self.rows[i].loan;
                let inter = self.rows[i].interest;
                let profit = self.rows[0].share;
                if principal_portion > loan || interest_portion > inter || interest_portion
                    > AMOUNT_LIMIT - profit {
                    return Err(LedgerError::Validation);
                }
                let ghost prev = self.rows@;
                let row = &mut self.rows[i];
                row.loan = loan - principal_portion;
                row.interest = inter - interest_portion;
                let ghost mid = self.rows@;
                let profit_row = &mut self.rows[0];
                profit_row.share = profit + interest_portion;
                proof {
                    lemma_rows_model_update(prev, i as int, mid[i as int]);
                    lemma_rows_model_update(mid, 0, self.rows@[0]);
                    assert(self@.rows =~= rows_model(prev).update(
                        i as int,
                        mid[i as int]@,
                    ).update(0, self.rows@[0]@));
                    lemma_wf_update(rows_model(prev), i as int, mid[i as int]@);
                    assert(rows_model(mid) =~= rows_model(prev).update(i as int, mid[i as int]@));
                    lemma_wf_update(rows_model(mid), 0, self.rows@[0]@);
                    assert(self.inv());
                }
                Ok(())
            },
        }
    }

    /// Takes a member's repayment request for a total amount and books it
    /// under the principal-first policy: the request is refused outright if
    /// it exceeds the member's combined debt; otherwise principal is paid
    /// off first and the remainder reduces interest (becoming profit).
    pub fn repay_request(&mut self, id: i32, repayment: u64) -> (r: Result<(), LedgerError>)
        requires
            old(self).inv(),
        ensures
            final(self).inv(),
            final(self)@.credential == old(self)@.credential,
            (r matches Err(LedgerError::NotFound) <==> !has_member(old(self)@.rows, id as int)),
            (r matches Err(LedgerError::Validation) <==> has_member(old(self)@.rows, id as int)
                && (repayment > old(self)@.rows[member_index(old(self)@.rows, id as int)].loan
                + old(self)@.rows[member_index(old(self)@.rows, id as int)].interest || old(
                self,
            )@.rows[0].share + interest_part(
                old(self)@.rows[member_index(old(self)@.rows, id as int)].loan,
                repayment as int,
            ) > AMOUNT_LIMIT)),
            (r is Err ==> final(self)@ == old(self)@),
            (r is Ok ==> final(self)@.rows == old(self)@.rows.update(
                member_index(old(self)@.rows, id as int),
                MemberModel {
                    loan: old(self)@.rows[member_index(old(self)@.rows, id as int)].loan
                        - principal_part(
                        old(self)@.rows[member_index(old(self)@.rows, id as int)].loan,
                        repayment as int,
                    ),
                    interest: old(self)@.rows[member_index(old(self)@.rows, id as int)].interest
                        - interest_part(
                        old(self)@.rows[member_index(old(self)@.rows, id as int)].loan,
                        repayment as int,
                    ),
                    ..old(self)@.rows[member_index(old(self)@.rows, id as int)]
                },
            ).update(
                0,
                MemberModel {
                    share: old(self)@.rows[0].share + interest_part(
                        old(self)@.rows[member_index(old(self)@.rows, id as int)].loan,
                        repayment as int,
                    ),
                    ..old(self)@.rows[0]
                },
            )),
    {
        match self.find_index(id) {
            None => Err(LedgerError::NotFound),
            Some(i) => {
                let loan = self.rows[i].loan;
                let inter = self.rows[i].interest;
                if repayment > loan + inter {
                    return Err(LedgerError::Validation);
                }
                let (principal_portion, interest_portion) = split_repayment(
                    loan,
                    inter,
                    repayment,
                );
                self.repay(id, principal_portion, interest_portion)
            },
        }
    }

    /// What the credential slot holds: the sentinel means no password has
    /// been configured yet; anything else is a password hash.
    pub fn read_credential(&self) -> (r: CredentialState)
        requires
            self.inv(),
        ensures
            (r is Unset <==> self@.credential == " "@),
            (r matches CredentialState::Hashed(h) ==> h@ == self@.credential),
    {
        if is_sentinel(self.credential.as_str()) {
            CredentialState::Unset
        } else {
            CredentialState::Hashed(self.credential.clone())
        }
    }

    /// Overwrites the credential slot with a password hash. The slot never
    /// goes back to the sentinel: a hash is never the single blank space.
    pub fn set_credential(&mut self, hash: String)
        requires
            old(self).inv(),
            hash@.len() >= 1,
            hash@ != " "@,
        ensures
            final(self).inv(),
            final(self)@.credential == hash@,
            final(self)@.rows == old(self)@.rows,
    {
        self.credential = hash;
    }
}

/// Whether a stored credential text is the "unset" sentinel: one blank.
pub fn is_sentinel(s: &str) -> (r: bool)
    ensures
        r == (s@ == " "@),
{
    proof {
        reveal_strlit(" ");
    }
    let n = s.unicode_len();
    if n != 1 {
        proof {
            assert(" "@.len() == 1);
        }
        return false;
    }
    let c = s.get_char(0);
    proof {
        assert(" "@[0] == ' ');
        if c == ' ' {
            assert(s@ =~= " "@);
        }
    }
    c == ' '
}

proof fn lemma_wf_push(s: Seq<MemberModel>, m: MemberModel)
    requires
        wf_rows(s),
        m.id > s.last().id,
        m.name.len() >= 1,
        0 <= m.share <= AMOUNT_LIMIT,
        0 <= m.loan <= AMOUNT_LIMIT,
        0 <= m.interest <= AMOUNT_LIMIT,
    ensures
        wf_rows(s.push(m)),
{
    let t = s.push(m);
    assert(t[0] == s[0]);
    assert forall|i: int, j: int| 0 <= i < j < t.len() implies (#[trigger] t[i]).id < (
    #[trigger] t[j]).id by {
        if j < s.len() {
            assert(s[i].id < s[j].id);
        } else {
            if i < s.len() - 1 {
                assert(s[i].id < s[s.len() - 1].id);
            }
        }
    };
    assert forall|i: int| 0 <= i < t.len() implies (#[trigger] t[i]).share <= AMOUNT_LIMIT
        && t[i].loan <= AMOUNT_LIMIT && t[i].interest <= AMOUNT_LIMIT by {
        if i < s.len() {
            assert(s[i].share <= AMOUNT_LIMIT && s[i].loan <= AMOUNT_LIMIT && s[i].interest
                <= AMOUNT_LIMIT);
        }
    };
    assert forall|i: int| 1 <= i < t.len() implies (#[trigger] t[i]).name.len() >= 1 by {
        if i < s.len() {
            assert(s[i].name.len() >= 1);
        }
    };
}

proof fn lemma_wf_update(s: Seq<MemberModel>, i: int, m: MemberModel)
    requires
        wf_rows(s),
        0 <= i < s.len(),
        m.id == s[i].id,
        0 <= m.share <= AMOUNT_LIMIT,
        0 <= m.loan <= AMOUNT_LIMIT,
        0 <= m.interest <= AMOUNT_LIMIT,
        i == 0 ==> m.name == s[0].name && m.loan == 0 && m.interest == 0,
        i >= 1 ==> m.name.len() >= 1,
    ensures
        wf_rows(s.update(i, m)),
{
    let t = s.update(i, m);
    assert forall|a: int, b: int| 0 <= a < b < t.len() implies (#[trigger] t[a]).id < (
    #[trigger] t[b]).id by {
        assert(s[a].id < s[b].id);
    };
    assert forall|a: int| 0 <= a < t.len() implies (#[trigger] t[a]).share <= AMOUNT_LIMIT
        && t[a].loan <= AMOUNT_LIMIT && t[a].interest <= AMOUNT_LIMIT by {
        if a != i {
            assert(s[a].share <= AMOUNT_LIMIT && s[a].loan <= AMOUNT_LIMIT && s[a].interest
                <= AMOUNT_LIMIT);
        }
    };
    assert forall|a: int| 1 <= a < t.len() implies (#[trigger] t[a]).name.len() >= 1 by {
        if a != i {
            assert(s[a].name.len() >= 1);
        }
    };
}

proof fn lemma_wf_remove(s: Seq<MemberModel>, i: int)
    requires
        wf_rows(s),
        1 <= i < s.len(),
    ensures
        wf_rows(s.remove(i)),
{
    let t = s.remove(i);
    assert(t[0] == s[0]);
    assert forall|a: int, b: int| 0 <= a < b < t.len() implies (#[trigger] t[a]).id < (
    #[trigger] t[b]).id by {
        let a0 = if a < i { a } else { a + 1 };
        let b0 = if b < i { b } else { b + 1 };
        assert(t[a] == s[a0] && t[b] == s[b0]);
        assert(s[a0].id < s[b0].id);
    };
    assert forall|a: int| 0 <= a < t.len() implies (#[trigger] t[a]).share <= AMOUNT_LIMIT
        && t[a].loan <= AMOUNT_LIMIT && t[a].interest <= AMOUNT_LIMIT by {
        let a0 = if a < i { a } else { a + 1 };
        assert(t[a] == s[a0]);
        assert(s[a0].share <= AMOUNT_LIMIT && s[a0].loan <= AMOUNT_LIMIT && s[a0].interest
            <= AMOUNT_LIMIT);
    };
    assert forall|a: int| 1 <= a < t.len() implies (#[trigger] t[a]).name.len() >= 1 by {
        let a0 = if a < i { a } else { a + 1 };
        assert(t[a] == s[a0]);
        assert(s[a0].name.len() >= 1);
    };
}

proof fn lemma_rows_model_push(rows: Seq<MemberRow>, r: MemberRow)
    ensures
        rows_model(rows.push(r)) =~= rows_model(rows).push(r@),
{
    assert forall|k: int| 0 <= k < rows.len() + 1 implies rows_model(rows.push(r))[k]
        == rows_model(rows).push(r@)[k] by {
        if k < rows.len() {
            assert(rows.push(r)[k] == rows[k]);
            assert(rows_model(rows)[k] == rows[k]@);
        } else {
            assert(rows.push(r)[k] == r);
        }
    };
}

proof fn lemma_rows_model_update(rows: Seq<MemberRow>, i: int, r: MemberRow)
    requires
        0 <= i < rows.len(),
    ensures
        rows_model(rows.update(i, r)) =~= rows_model(rows).update(i, r@),
{
    assert forall|k: int| 0 <= k < rows.len() implies rows_model(rows.update(i, r))[k]
        == rows_model(rows).update(i, r@)[k] by {
        if k != i {
            assert(rows.update(i, r)[k] == rows[k]);
            assert(rows_model(rows)[k] == rows[k]@);
        } else {
            assert(rows.update(i, r)[k] == r);
        }
    };
}

proof fn lemma_rows_model_remove(rows: Seq<MemberRow>, i: int)
    requires
        0 <= i < rows.len(),
    ensures
        rows_model(rows.remove(i)) =~= rows_model(rows).remove(i),
{
    assert forall|k: int| 0 <= k < rows.len() - 1 implies rows_model(rows.remove(i))[k]
        == rows_model(rows).remove(i)[k] by {
        if k < i {
            assert(rows.remove(i)[k] == rows[k]);
            assert(rows_model(rows)[k] == rows[k]@);
        } else {
            assert(rows.remove(i)[k] == rows[k + 1]);
            assert(rows_model(rows)[k + 1] == rows[k + 1]@);
        }
    };
}

} // verus!
