//! The SQLite-backed persistent store: schema bootstrap, the admin
//! credential row, and the member table. Each SQL statement sits behind a
//! trusted wrapper; everything that can be decided on the values alone
//! (the sentinel, the profit-row partition, the projections) is verified.

use vstd::prelude::*;

verus! {

use rusqlite::Connection;
use crate::{AMOUNT_LIMIT, StoreError};
use crate::auth::hash_password;
use crate::ledger::{
    MemberRow,
    MemberModel,
    CredentialState,
    rows_model,
    amounts_bounded,
    is_sentinel,
};
use crate::views::{
    HomeTabData,
    UsersTabData,
    DebtsTabData,
    details_model,
    details_of,
    sum_shares,
    projected_home,
    projected_lines,
    project_home,
    project_users,
    project_debts,
};

#[verifier::external_type_specification]
#[verifier::external_body]
pub struct ExConnection(Connection);

/// Relies on rusqlite's Connection::execute, with no statement parameters.
#[verifier::external_body]
fn sql_execute(conn: &Connection, sql: &str) -> (r: Result<usize, String>) {
    conn.execute(sql, ()).map_err(|e| e.to_string())
}

/// Relies on rusqlite's Connection::execute, with one text parameter.
#[verifier::external_body]
fn sql_execute_text(conn: &Connection, sql: &str, p1: &str) -> (r: Result<usize, String>) {
    conn.execute(sql, (p1,)).map_err(|e| e.to_string())
}

/// Relies on rusqlite's Connection::execute, with one text and one
/// integer parameter.
#[verifier::external_body]
fn sql_execute_text_i64(conn: &Connection, sql: &str, p1: &str, p2: i64) -> (r: Result<
    usize,
    String,
>) {
    conn.execute(sql, (p1, p2)).map_err(|e| e.to_string())
}

/// Relies on rusqlite's Connection::execute, with an id, a text and an
/// integer parameter.
#[verifier::external_body]
fn sql_execute_i64_text_i64(conn: &Connection, sql: &str, p1: i64, p2: &str, p3: i64) -> (r:
    Result<usize, String>) {
    conn.execute(sql, (p1, p2, p3)).map_err(|e| e.to_string())
}

/// Relies on rusqlite's Connection::execute, with one integer parameter.
#[verifier::external_body]
fn sql_execute_i64(conn: &Connection, sql: &str, p1: i64) -> (r: Result<usize, String>) {
    conn.execute(sql, (p1,)).map_err(|e| e.to_string())
}

/// Relies on rusqlite's Connection::execute, with an id and two integer
/// parameters.
#[verifier::external_body]
fn sql_execute_i64_i64_i64(conn: &Connection, sql: &str, p1: i64, p2: i64, p3: i64) -> (r: Result<
    usize,
    String,
>) {
    conn.execute(sql, (p1, p2, p3)).map_err(|e| e.to_string())
}

/// Relies on rusqlite's unchecked_transaction, execute and commit: the
/// two repayment updates (the member's balances down, the profit row's
/// share up) run inside one transaction, so a failure partway leaves the
/// prior state in place. This pair cannot be split without giving up that
/// atomicity.
#[verifier::external_body]
fn sql_repay_transaction(conn: &Connection, id: i64, principal: i64, interest: i64) -> (r: Result<
    usize,
    String,
>) {
    let go = || -> rusqlite::Result<usize> {
        let tx = conn.unchecked_transaction()?;
        let a = tx.execute(
            "UPDATE member SET loan = loan - ?2, interest = interest - ?3 WHERE memberId = ?1;",
            (id, principal, interest),
        )?;
        let b = tx.execute(
            "UPDATE member SET share = share + ?1 WHERE memberId = 0;",
            (interest,),
        )?;
        tx.commit()?;
        Ok(a + b)
    };
    go().map_err(|e| e.to_string())
}

/// Relies on rusqlite's query_row: the stored credential text, or None
/// when the credential table holds no row at all.
#[verifier::external_body]
fn sql_query_password(conn: &Connection) -> (r: Result<Option<String>, String>) {
    match conn.query_row("SELECT passwordHash FROM admin", (), |row| row.get::<_, String>(0)) {
        Ok(h) => Ok(Some(h)),
        Err(rusqlite::Error::QueryReturnedNoRows) => Ok(None),
        Err(e) => Err(e.to_string()),
    }
}

/// A member row exactly as the database hands it over: ids and amounts
/// as the signed 64-bit integers SQLite stores. Validation into the
/// ledger's own range happens afterwards, in verified code.
pub struct RawMemberRow {
    pub id: i64,
    pub name: String,
    pub share: i64,
    pub loan: i64,
    pub interest: i64,
}

/// Relies on rusqlite's prepare and query_map: every row of the member
/// table, read into plain values.
#[verifier::external_body]
fn sql_fetch_member_rows(conn: &Connection) -> (r: Result<Vec<RawMemberRow>, String>) {
    let go = || -> rusqlite::Result<Vec<RawMemberRow>> {
        let mut stmt = conn.prepare("SELECT memberId, name, share, loan, interest FROM member")?;
        let rows = stmt.query_map((), |row| {
            Ok(RawMemberRow {
                id: row.get(0)?,
                name: row.get(1)?,
                share: row.get(2)?,
                loan: row.get(3)?,
                interest: row.get(4)?,
            })
        })?.collect::<rusqlite::Result<Vec<RawMemberRow>>>()?;
        Ok(rows)
    };
    go().map_err(|e| e.to_string())
}

/// Takes the raw rows into the ledger's own representation, refusing any
/// row whose id does not fit 32 bits or whose amounts lie outside the
/// ledger's range: such a store is corrupt.
pub fn check_rows(raw: Vec<RawMemberRow>) -> (r: Result<Vec<MemberRow>, StoreError>)
    ensures
        (r matches Err(e) ==> e is Corrupt),
        (r matches Ok(v) ==> {
            &&& v@.len() == raw@.len()
            &&& forall|k: int|
                0 <= k < v@.len() ==> {
                    &&& (#[trigger] rows_model(v@)[k]).id == raw@[k].id
                    &&& rows_model(v@)[k].name == raw@[k].name@
                    &&& rows_model(v@)[k].share == raw@[k].share
                    &&& rows_model(v@)[k].loan == raw@[k].loan
                    &&& rows_model(v@)[k].interest == raw@[k].interest
                }
        }),
{
    let mut out: Vec<MemberRow> = Vec::new();
    let n = raw.len();
    let mut i: usize = 0;
    while i < n
        invariant
            0 <= i <= n == raw@.len(),
            out@.len() == i,
            forall|k: int|
                0 <= k < i ==> {
                    &&& (#[trigger] rows_model(out@)[k]).id == raw@[k].id
                    &&& rows_model(out@)[k].name == raw@[k].name@
                    &&& rows_model(out@)[k].share == raw@[k].share
                    &&& rows_model(out@)[k].loan == raw@[k].loan
                    &&& rows_model(out@)[k].interest == raw@[k].interest
                },
        decreases n - i,
    {
        let row = &raw[i];
        if row.id < i32::MIN as i64 || row.id > i32::MAX as i64 {
            return Err(StoreError::Corrupt);
        }
        if row.share < 0 || row.share > AMOUNT_LIMIT as i64 || row.loan < 0 || row.loan
            > AMOUNT_LIMIT as i64 || row.interest < 0 || row.interest > AMOUNT_LIMIT as i64 {
            return Err(StoreError::Corrupt);
        }
        let ghost prev = out@;
        out.push(
            MemberRow {
                id: row.id as i32,
                name: row.name.clone(),
                share: row.share as u64,
                loan: row.loan as u64,
                interest: row.interest as u64,
            },
        );
        proof {
            assert forall|k: int| 0 <= k < out@.len() implies rows_model(out@)[k] == out@[k]@ by {};
            assert forall|k: int| 0 <= k < i implies out@[k] == prev[k] && rows_model(prev)[k]
                == prev[k]@ by {};
        }
        i = i + 1;
    }
    Ok(out)
}

/// Creates the two tables and their fixed rows: the profit pseudo-member
/// and the sentinel credential. Calling this when the tables already
/// exist is an error handed back to the caller, since it means the store
/// is in an unexpected state. Every failure is the store's own report.
pub fn initialize_db_tables(conn: &Connection) -> (r: Result<usize, StoreError>)
    ensures
        (r matches Err(e) ==> e is Sql),
{
    let a = match sql_execute(
        conn,
        "
        CREATE TABLE admin (
            id              INTEGER PRIMARY KEY,
            passwordHash    TEXT NOT NULL
        );",
    ) {
        Ok(n) => n,
        Err(e) => {
            return Err(StoreError::Sql(e));
        },
    };
    let b = match sql_execute(
        conn,
        "
        CREATE TABLE member (
            memberId    INTEGER PRIMARY KEY,
            name        TEXT NOT NULL,
            share       DECIMAL,
            loan        DECIMAL,
            interest    DECIMAL
        );",
    ) {
        Ok(n) => n,
        Err(e) => {
            return Err(StoreError::Sql(e));
        },
    };
    let c = match sql_execute(
        conn,
        "
        INSERT INTO member
        VALUES (0, 'Profits', 0, 0, 0);",
    ) {
        Ok(n) => n,
        Err(e) => {
            return Err(StoreError::Sql(e));
        },
    };
    let d = match create_default_admin_row(conn) {
        Ok(n) => n,
        Err(e) => {
            return Err(e);
        },
    };
    let mut total = a;
    total = if total <= usize::MAX - b {
        total + b
    } else {
        usize::MAX
    };
    total = if total <= usize::MAX - c {
        total + c
    } else {
        usize::MAX
    };
    total = if total <= usize::MAX - d {
        total + d
    } else {
        usize::MAX
    };
    Ok(total)
}

/// Inserts the sentinel credential row: no password configured yet.
/// Every failure is the store's own report.
pub fn create_default_admin_row(conn: &Connection) -> (r: Result<usize, StoreError>)
    ensures
        (r matches Err(e) ==> e is Sql),
{
    match sql_execute(
        conn,
        "
        INSERT INTO admin
        VALUES (1, ' ');",
    ) {
        Ok(n) => Ok(n),
        Err(e) => Err(StoreError::Sql(e)),
    }
}

/// How a credential row, as fetched, reads: absent or sentinel means no
/// password is configured; anything else is the stored hash.
pub fn classify_credential(row: Option<String>) -> (r: CredentialState)
    ensures
        (row is None ==> r is Unset),
        (row matches Some(h) && h@ == " "@ ==> r is Unset),
        (row is Some && row->Some_0@ != " "@ ==> (r matches CredentialState::Hashed(x) && x@
            == row->Some_0@)),
{
    match row {
        None => CredentialState::Unset,
        Some(h) => {
            if is_sentinel(h.as_str()) {
                CredentialState::Unset
            } else {
                CredentialState::Hashed(h)
            }
        },
    }
}

/// The stored admin password hash, or None when no password is set. A
/// store without a credential row heals itself by inserting the sentinel;
/// a store whose tables cannot be read at all is initialized from
/// scratch. The sentinel itself is never handed out as a hash.
pub fn get_password(conn: &Connection) -> (r: Option<String>)
    ensures
        (r matches Some(h) ==> h@ != " "@),
{
    match sql_query_password(conn) {
        Ok(row) => match row {
            Some(h) => {
                if is_sentinel(h.as_str()) {
                    None
                } else {
                    Some(h)
                }
            },
            None => {
                let _ = create_default_admin_row(conn);
                None
            },
        },
        Err(_) => {
            let _ = initialize_db_tables(conn);
            None
        },
    }
}

/// Hashes the password and overwrites the credential row with it. The
/// library itself refuses only a password too long for argon2's 32-bit
/// length field, before any store access; every other failure comes from
/// the store.
pub fn store_password(conn: &Connection, password: String) -> (r: Result<usize, StoreError>)
    ensures
        (vstd::utf8::encode_utf8(password@).len() > 0xFFFF_FFFF ==> (r matches Err(
            StoreError::Sql(m),
        ) && m@ == "password too long"@)),
        (r is Ok ==> vstd::utf8::encode_utf8(password@).len() <= 0xFFFF_FFFF),
        (r matches Err(e) ==> e is Sql),
{
    match hash_password(password.as_str()) {
        Some(hash) => {
            match sql_execute_text(
                conn,
                "UPDATE admin
                        SET passwordHash = ?1
                        WHERE id = 1",
                hash.as_str(),
            ) {
                Ok(n) => Ok(n),
                Err(e) => Err(StoreError::Sql(e)),
            }
        },
        None => Err(StoreError::Sql(String::from_str("password too long"))),
    }
}

/// Whether the table holds a row with id 0, and no second one.
pub open spec fn unique_profit(s: Seq<MemberModel>) -> bool {
    &&& exists|i: int| 0 <= i < s.len() && (#[trigger] s[i]).id == 0
    &&& forall|i: int, j: int|
        0 <= i < s.len() && 0 <= j < s.len() && (#[trigger] s[i]).id == 0 && (#[trigger] s[j]).id
            == 0 ==> i == j
}

/// The position of the single profit row.
pub open spec fn profit_index(s: Seq<MemberModel>) -> int {
    choose|i: int| 0 <= i < s.len() && (#[trigger] s[i]).id == 0
}

/// Splits fetched rows into the member list and the pooled profit
/// balance. Rejects a table that does not hold exactly one profit row or
/// holds an amount outside the ledger's range: such a store is corrupt.
pub fn partition_profit(rows: &Vec<MemberRow>) -> (r: Result<(Vec<MemberRow>, u64), StoreError>)
    ensures
        (r is Err <==> !(unique_profit(rows_model(rows@)) && amounts_bounded(
            rows_model(rows@),
        ))),
        (r matches Err(e) ==> e is Corrupt),
        (r matches Ok(t) ==> {
            &&& rows_model(t.0@) == rows_model(rows@).remove(profit_index(rows_model(rows@)))
            &&& t.1 == rows_model(rows@)[profit_index(rows_model(rows@))].share
            &&& t.1 <= AMOUNT_LIMIT
            &&& amounts_bounded(rows_model(t.0@))
            &&& forall|k: int|
                0 <= k < rows_model(t.0@).len() ==> (#[trigger] rows_model(t.0@)[k]).id != 0
        }),
{
    let ghost model = rows_model(rows@);
    proof {
        assert(model.len() == rows@.len());
    }
    let n = rows.len();
    let mut profit_at: Option<usize> = None;
    let mut i: usize = 0;
    while i < n
        invariant
            0 <= i <= n == rows@.len(),
            model == rows_model(rows@),
            forall|k: int|
                0 <= k < i ==> (#[trigger] model[k]).share <= AMOUNT_LIMIT && model[k].loan
                    <= AMOUNT_LIMIT && model[k].interest <= AMOUNT_LIMIT,
            match profit_at {
                Some(p) => 0 <= p < i && model[p as int].id == 0 && forall|k: int|
                    0 <= k < i && k != p ==> (#[trigger] model[k]).id != 0,
                None => forall|k: int| 0 <= k < i ==> (#[trigger] model[k]).id != 0,
            },
        decreases n - i,
    {
        let row = &rows[i];
        proof {
            assert(model[i as int] == rows@[i as int]@);
        }
        if row.share > AMOUNT_LIMIT || row.loan > AMOUNT_LIMIT || row.interest > AMOUNT_LIMIT {
            return Err(StoreError::Corrupt);
        }
        if row.id == 0 {
            match profit_at {
                Some(p) => {
                    proof {
                        assert(model[p as int].id == 0 && model[i as int].id == 0 && p != i);
                    }
                    return Err(StoreError::Corrupt);
                },
                None => {
                    profit_at = Some(i);
                },
            }
        }
        i = i + 1;
    }
    match profit_at {
        None => {
            proof {
                assert(!unique_profit(model));
            }
            Err(StoreError::Corrupt)
        },
        Some(p) => {
            proof {
                assert(unique_profit(model));
                assert(amounts_bounded(model));
                let ci = profit_index(model);
                assert(model[ci].id == 0 && model[p as int].id == 0);
                assert(ci == p);
            }
            let profit = rows[p].share;
            let mut out: Vec<MemberRow> = Vec::new();
            let mut j: usize = 0;
            while j < n
                invariant
                    0 <= j <= n == rows@.len(),
                    model == rows_model(rows@),
                    p < n,
                    rows_model(out@) =~= if j <= p {
                        model.take(j as int)
                    } else {
                        model.remove(p as int).take(j - 1)
                    },
                decreases n - j,
            {
                if j != p {
                    let ghost prev = out@;
                    out.push(rows[j].duplicate());
                    proof {
                        assert(rows@[j as int]@ == model[j as int]);
                        assert(rows_model(prev).len() == prev.len());
                        assert(rows_model(out@).len() == out@.len());
                        assert(out@.len() == prev.len() + 1);
                        assert forall|k: int| 0 <= k < out@.len() implies rows_model(out@)[k]
                            == out@[k]@ by {};
                        assert forall|k: int| 0 <= k < prev.len() implies out@[k] == prev[k]
                            && rows_model(prev)[k] == prev[k]@ by {};
                        assert(out@[out@.len() - 1]@ == model[j as int]);
                        if j < p {
                            assert(rows_model(out@) =~= model.take(j + 1 as int));
                        } else {
                            assert(model.remove(p as int)[j - 1] == model[j as int]);
                            assert(rows_model(out@) =~= model.remove(p as int).take(j as int));
                        }
                    }
                } else {
                    proof {
                        if p == 0 {
                            assert(model.remove(p as int).take(0) =~= model.take(0));
                        } else {
                            assert(model.remove(p as int).take(j as int) =~= model.take(
                                j as int,
                            ));
                        }
                    }
                }
                j = j + 1;
            }
            proof {
                assert(rows_model(out@) =~= model.remove(p as int).take(n - 1));
                assert(model.remove(p as int).take(n - 1) =~= model.remove(p as int));
                assert forall|k: int| 0 <= k < rows_model(out@).len() implies (
                #[trigger] rows_model(out@)[k]).id != 0 && rows_model(out@)[k].share
                    <= AMOUNT_LIMIT && rows_model(out@)[k].loan <= AMOUNT_LIMIT && rows_model(
                    out@,
                )[k].interest <= AMOUNT_LIMIT by {
                    let k0 = if k < p { k } else { k + 1 };
                    assert(rows_model(out@)[k] == model[k0]);
                    assert(model[k0].share <= AMOUNT_LIMIT && model[k0].loan <= AMOUNT_LIMIT
                        && model[k0].interest <= AMOUNT_LIMIT);
                    assert(k0 != p ==> model[k0].id != 0);
                };
            }
            Ok((out, profit))
        },
    }
}

/// Every member row (the profit row set aside) and the pooled profit
/// balance, from the store. A corrupt table is reported, not repaired.
pub fn fetch_members(conn: &Connection) -> (r: Result<(Vec<MemberRow>, u64), StoreError>)
    ensures
        (r matches Ok(t) ==> {
            &&& amounts_bounded(rows_model(t.0@))
            &&& t.1 <= AMOUNT_LIMIT
            &&& forall|k: int|
                0 <= k < rows_model(t.0@).len() ==> (#[trigger] rows_model(t.0@)[k]).id != 0
        }),
{
    match sql_fetch_member_rows(conn) {
        Err(e) => Err(StoreError::Sql(e)),
        Ok(raw) => match check_rows(raw) {
            Err(e) => Err(e),
            Ok(rows) => partition_profit(&rows),
        },
    }
}

/// The Home tab, fresh from the store: totals over all members, the cash
/// identity, and one line per member.
pub fn home_tab_data(conn: &Connection) -> (r: Result<HomeTabData, StoreError>)
    ensures
        (r matches Ok(h) ==> projected_home(h)),
{
    match fetch_members(conn) {
        Err(e) => Err(e),
        Ok((members, profit)) => {
            let h = project_home(&members, profit);
            proof {
                let ms = rows_model(members@);
                assert(details_model(h.user_details@) == details_of(ms, sum_shares(ms)));
            }
            Ok(h)
        },
    }
}

/// The Users tab, fresh from the store, with no edit pane open.
pub fn users_tab_data(conn: &Connection) -> (r: Result<UsersTabData, StoreError>)
    ensures
        (r matches Ok(u) ==> u.edit_pane is Closed && projected_lines(u.user_details@)),
{
    match fetch_members(conn) {
        Err(e) => Err(e),
        Ok((members, _profit)) => {
            let u = project_users(&members);
            proof {
                let ms = rows_model(members@);
                assert(details_model(u.user_details@) == details_of(ms, sum_shares(ms)));
            }
            Ok(u)
        },
    }
}

/// The Debts tab, fresh from the store, with no edit pane open.
pub fn debts_tab_data(conn: &Connection) -> (r: Result<DebtsTabData, StoreError>)
    ensures
        (r matches Ok(d) ==> d.edit_pane is Closed && projected_lines(d.user_details@)),
{
    match fetch_members(conn) {
        Err(e) => Err(e),
        Ok((members, _profit)) => {
            let d = project_debts(&members);
            proof {
                let ms = rows_model(members@);
                assert(details_model(d.user_details@) == details_of(ms, sum_shares(ms)));
            }
            Ok(d)
        },
    }
}

/// Inserts a member row with no debt; the store assigns the id. The
/// share must be within the ledger's range, a machine limit of the
/// store's 64-bit signed columns.
pub fn store_new_user(conn: &Connection, name: String, shares: u64) -> (r: Result<
    usize,
    StoreError,
>)
    requires
        shares <= AMOUNT_LIMIT,
    ensures
        (r matches Err(e) ==> e is Sql),
{
    match sql_execute_text_i64(
        conn,
        "INSERT INTO member (name, share, loan, interest) VALUES (?1, ?2, 0, 0);",
        name.as_str(),
        shares as i64,
    ) {
        Ok(n) => Ok(n),
        Err(e) => Err(StoreError::Sql(e)),
    }
}

/// Rewrites a member's name and share; loan and interest are untouched.
/// The count of changed rows is handed back: zero means no such member.
pub fn edit_user(conn: &Connection, id: i32, name: String, shares: u64) -> (r: Result<
    usize,
    StoreError,
>)
    requires
        shares <= AMOUNT_LIMIT,
    ensures
        id == 0 ==> (r matches Ok(n) && n == 0),
        (r matches Err(e) ==> e is Sql),
{
    if id == 0 {
        return Ok(0);
    }
    match sql_execute_i64_text_i64(
        conn,
        "
        UPDATE member
        SET name = ?2, share = ?3
        WHERE memberId = ?1;",
        id as i64,
        name.as_str(),
        shares as i64,
    ) {
        Ok(n) => Ok(n),
        Err(e) => Err(StoreError::Sql(e)),
    }
}

/// Removes a member row. The count of changed rows is handed back: zero
/// means no such member.
pub fn delete_user(conn: &Connection, id: i32) -> (r: Result<usize, StoreError>)
    ensures
        id == 0 ==> (r matches Ok(n) && n == 0),
        (r matches Err(e) ==> e is Sql),
{
    if id == 0 {
        return Ok(0);
    }
    match sql_execute_i64(
        conn,
        "
        DELETE FROM member
        WHERE memberId = ?1;",
        id as i64,
    ) {
        Ok(n) => Ok(n),
        Err(e) => Err(StoreError::Sql(e)),
    }
}

/// Adds a loan to a member: principal and interest deltas, both already
/// validated as non-negative amounts by the caller.
pub fn borrow_debt(conn: &Connection, user_id: i32, loan: u64, interest: u64) -> (r: Result<
    usize,
    StoreError,
>)
    requires
        loan <= AMOUNT_LIMIT,
        interest <= AMOUNT_LIMIT,
    ensures
        user_id == 0 ==> (r matches Ok(n) && n == 0),
        (r matches Err(e) ==> e is Sql),
{
    if user_id == 0 {
        return Ok(0);
    }
    match sql_execute_i64_i64_i64(
        conn,
        "
        UPDATE member
        SET loan = loan + ?2, interest = interest + ?3
        WHERE memberId = ?1;",
        user_id as i64,
        loan as i64,
        interest as i64,
    ) {
        Ok(n) => Ok(n),
        Err(e) => Err(StoreError::Sql(e)),
    }
}

/// Books a repayment already split into portions: the member's balances
/// go down and, within the same transaction, the interest portion is
/// credited to the profit row.
pub fn repay_debt(conn: &Connection, user_id: i32, loan: u64, interest: u64) -> (r: Result<
    usize,
    StoreError,
>)
    requires
        loan <= AMOUNT_LIMIT,
        interest <= AMOUNT_LIMIT,
    ensures
        user_id == 0 ==> (r matches Ok(n) && n == 0),
        (r matches Err(e) ==> e is Sql),
{
    if user_id == 0 {
        return Ok(0);
    }
    match sql_repay_transaction(conn, user_id as i64, loan as i64, interest as i64) {
        Ok(n) => Ok(n),
        Err(e) => Err(StoreError::Sql(e)),
    }
}

} // verus!
