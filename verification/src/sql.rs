//! The statements that grant and revoke roles and role permissions, each
//! with the values bound to its placeholders. Each statement is built for a
//! given number of rows.
use vstd::prelude::*;
use vstd::string::StringExecFns;
use crate::ids::{parse_uuid, uuid_parse, InvalidUuid};
use crate::pg_args::{
    lemma_rows_args_at, null_arg, opt_text_arg, pg_add_opt_text, pg_add_text, pg_add_uuid,
    pg_args_new, pg_bound, rows_args, text_arg, uuid_arg, BoundStatement, BoundValue,
};
use crate::text::{decimal, decimal_string};

verus! {

/// The statement texts are built for at most this many rows, so that every
/// placeholder number fits in a `usize`.
pub open spec fn row_bound() -> nat {
    (usize::MAX / 8) as nat
}

/// `item(0) + sep + item(1) + ... + sep + item(n - 1)`.
pub open spec fn joined(n: nat, item: spec_fn(nat) -> Seq<char>, sep: Seq<char>) -> Seq<char>
    decreases n,
{
    if n == 0 {
        Seq::empty()
    } else if n == 1 {
        item(0)
    } else {
        joined((n - 1) as nat, item, sep) + sep + item((n - 1) as nat)
    }
}

/// The placeholder triple of row `i` of a user-role insert: `($a,$b,c)` with
/// `a, b, c = 3i+1, 3i+2, 3i+3` (the third number carries no `$`).
pub open spec fn user_role_row(i: nat) -> Seq<char> {
    "($"@ + decimal(3 * i + 1) + ",$"@ + decimal(3 * i + 2) + ","@ + decimal(3 * i + 3) + ")"@
}

/// The insert into `sys_user_role` for `n` rows.
pub open spec fn user_role_insert_sql(n: nat) -> Seq<char> {
    "INSERT INTO sys_user_role (user_id, role_id, created_bys) VALUES "@ + joined(
        n,
        |i: nat| user_role_row(i),
        ", "@,
    ) + " ON CONFLICT ON CONSTRAINT sys_role_user_pkey DO NOTHING"@
}

/// The placeholder `$k` for `k = i + 1`.
pub open spec fn dollar_placeholder(i: nat) -> Seq<char> {
    "$"@ + decimal(i + 1)
}

/// The delete from `sys_user_role` of `n` users, optionally restricted to one role.
pub open spec fn user_role_delete_sql(n: nat, with_role: bool) -> Seq<char> {
    "DELETE FROM sys_user_role WHERE user_id IN ("@ + joined(
        n,
        |i: nat| dollar_placeholder(i),
        ", "@,
    ) + if with_role {
        ") AND role_id = $"@ + decimal(n + 1)
    } else {
        ")"@
    }
}

/// The numbered quintuple of row `i` of a role-permission insert:
/// `(6i+1, 6i+2, 6i+3, 6i+4, 6i+5)`.
pub open spec fn role_api_row(i: nat) -> Seq<char> {
    "("@ + decimal(6 * i + 1) + ", "@ + decimal(6 * i + 2) + ", "@ + decimal(6 * i + 3) + ", "@
        + decimal(6 * i + 4) + ", "@ + decimal(6 * i + 5) + ")"@
}

/// The head of the insert into `sys_role_api`.
pub open spec fn role_api_insert_head() -> Seq<char> {
    "
        INSERT INTO \"sys_role_api\" ( role_id, api, method, created_by, auth_type)
        VALUES "@
}

/// The insert into `sys_role_api` for `n` rows.
pub open spec fn role_api_insert_sql(n: nat) -> Seq<char> {
    role_api_insert_head() + joined(n, |i: nat| role_api_row(i), ","@)
}

/// The id list of a role-permission delete: each id followed by `", "`, and
/// every one but the last followed by a further `","`.
pub open spec fn role_id_list(ids: Seq<Seq<char>>, k: nat) -> Seq<char>
    decreases k,
{
    if k == 0 || k > ids.len() {
        Seq::empty()
    } else {
        role_id_list(ids, (k - 1) as nat) + ids[k - 1] + ", "@ + if k - 1 != ids.len() - 1 {
            ","@
        } else {
            Seq::empty()
        }
    }
}

/// The delete from `sys_role_api` of the given role ids, spliced in as text.
pub open spec fn role_api_delete_sql(ids: Seq<Seq<char>>) -> Seq<char> {
    "DELETE FROM sys_role_api WHERE role_id IN ("@ + role_id_list(ids, ids.len()) + ")"@
}

/// The text of each string in `v`.
pub open spec fn texts(v: Seq<String>) -> Seq<Seq<char>> {
    v.map_values(|s: String| s@)
}

/// One permission of a role: an endpoint and method it may call.
#[derive(Debug)]
pub struct AddReq {
    pub role_id: String,
    pub api: String,
    pub method: Option<String>,
    pub auth_type: String,
}

/// The values of a grant of `roles` to the user `user_id` by `creator`: per
/// role, the user, the role and the creator.
pub open spec fn edit_user_role_args(user_id: u128, roles: Seq<u128>, creator: u128) -> Seq<BoundValue> {
    rows_args(roles.len(), |i: nat| seq![uuid_arg(user_id), uuid_arg(roles[i as int]), uuid_arg(creator)])
}

/// The values of a grant of the role `role` to `users` by `creator`: per
/// user, the user's id as text, the role and the creator.
pub open spec fn lot_user_role_args(users: Seq<Seq<char>>, role: u128, creator: u128) -> Seq<BoundValue> {
    rows_args(users.len(), |i: nat| seq![text_arg(users[i as int]), uuid_arg(role), uuid_arg(creator)])
}

/// The values of a revocation from `users`: each user's id as text, then the
/// role's id when one is given.
pub open spec fn user_role_delete_args(users: Seq<Seq<char>>, role: Option<String>) -> Seq<BoundValue> {
    rows_args(users.len(), |i: nat| seq![text_arg(users[i as int])]) + match role {
        Some(r) => seq![text_arg(r@)],
        None => Seq::empty(),
    }
}

/// The values of one stored permission: its role, endpoint and method, the
/// creator, and its kind.
pub open spec fn role_api_row_args(req: AddReq, creator: u128) -> Seq<BoundValue> {
    seq![text_arg(req.role_id@), text_arg(req.api@), opt_text_arg(req.method), uuid_arg(creator), text_arg(req.auth_type@)]
}

/// The values of a store of `reqs` by `creator`, one permission after the other.
pub open spec fn role_api_args(reqs: Seq<AddReq>, creator: u128) -> Seq<BoundValue> {
    rows_args(reqs.len(), |i: nat| role_api_row_args(reqs[i as int], creator))
}

/// A grant of roles to a user fills, for the i-th role, the row whose
/// placeholders are `$(3i+1)` (the user id column), `$(3i+2)` (the role id
/// column) and `3i+3` (the creator): the three values from `3i` are the
/// user, the i-th role and the creator, and nothing else is bound.
pub proof fn lemma_edit_user_role_binds(user_id: u128, roles: Seq<u128>, creator: u128)
    ensures
        edit_user_role_args(user_id, roles, creator).len() == 3 * roles.len(),
        forall|i: int|
            0 <= i < roles.len() ==> edit_user_role_args(user_id, roles, creator).subrange(
                3 * i,
                3 * i + 3,
            ) == seq![uuid_arg(user_id), uuid_arg(#[trigger] roles[i]), uuid_arg(creator)],
{
    let row = |i: nat| seq![uuid_arg(user_id), uuid_arg(roles[i as int]), uuid_arg(creator)];
    let a = edit_user_role_args(user_id, roles, creator);
    assert(a == rows_args(roles.len(), row));
    lemma_rows_args_at(roles.len(), 3, row);
    assert forall|i: int| 0 <= i < roles.len() implies a.subrange(3 * i, 3 * i + 3) == seq![
        uuid_arg(user_id),
        uuid_arg(#[trigger] roles[i]),
        uuid_arg(creator),
    ] by {
        let k = i as nat;
        assert(row(k)[0] == uuid_arg(user_id));
        assert(row(k)[1] == uuid_arg(roles[i]));
        assert(row(k)[2] == uuid_arg(creator));
        assert(a.subrange(3 * i, 3 * i + 3) =~= row(k));
    }
}

/// A grant of one role to many users fills, for the i-th user, the row whose
/// placeholders are `$(3i+1)` (the user id column), `$(3i+2)` (the role id
/// column) and `3i+3`: the three values from `3i` are that user's id, the
/// role and the creator, and nothing else is bound.
pub proof fn lemma_lot_user_role_binds(users: Seq<Seq<char>>, role: u128, creator: u128)
    ensures
        lot_user_role_args(users, role, creator).len() == 3 * users.len(),
        forall|i: int|
            0 <= i < users.len() ==> lot_user_role_args(users, role, creator).subrange(
                3 * i,
                3 * i + 3,
            ) == seq![text_arg(#[trigger] users[i]), uuid_arg(role), uuid_arg(creator)],
{
    let row = |i: nat| seq![text_arg(users[i as int]), uuid_arg(role), uuid_arg(creator)];
    let a = lot_user_role_args(users, role, creator);
    assert(a == rows_args(users.len(), row));
    lemma_rows_args_at(users.len(), 3, row);
    assert forall|i: int| 0 <= i < users.len() implies a.subrange(3 * i, 3 * i + 3) == seq![
        text_arg(#[trigger] users[i]),
        uuid_arg(role),
        uuid_arg(creator),
    ] by {
        let k = i as nat;
        assert(row(k)[0] == text_arg(users[i]));
        assert(row(k)[1] == uuid_arg(role));
        assert(row(k)[2] == uuid_arg(creator));
        assert(a.subrange(3 * i, 3 * i + 3) =~= row(k));
    }
}

/// A revocation binds the i-th user's id to `$(i+1)`, and the role, when one
/// is given, to the placeholder after the last user; nothing else is bound.
pub proof fn lemma_user_role_delete_binds(users: Seq<Seq<char>>, role: Option<String>)
    ensures
        user_role_delete_args(users, role).len() == users.len() + if role is Some {
            1int
        } else {
            0int
        },
        forall|i: int|
            0 <= i < users.len() ==> user_role_delete_args(users, role)[i] == text_arg(
                #[trigger] users[i],
            ),
        role is Some ==> user_role_delete_args(users, role)[users.len() as int] == text_arg(
            role->0@,
        ),
{
    let row = |i: nat| seq![text_arg(users[i as int])];
    lemma_rows_args_at(users.len(), 1, row);
    assert forall|i: int| 0 <= i < users.len() implies user_role_delete_args(users, role)[i]
        == text_arg(#[trigger] users[i]) by {
        let k = i as nat;
        assert(row(k)[0] == text_arg(users[i]));
        assert(1 * k + 0 == i);
    }
}

/// A store of permissions fills, for the i-th permission, the five values
/// from `5i`: its role, its endpoint (the api column), its method (the
/// method column, `NULL` when it has none), the creator and its kind; nothing
/// else is bound.
pub proof fn lemma_role_api_binds(reqs: Seq<AddReq>, creator: u128)
    ensures
        role_api_args(reqs, creator).len() == 5 * reqs.len(),
        forall|i: int|
            0 <= i < reqs.len() ==> {
                &&& role_api_args(reqs, creator)[5 * i] == text_arg((#[trigger] reqs[i]).role_id@)
                &&& role_api_args(reqs, creator)[5 * i + 1] == text_arg(reqs[i].api@)
                &&& role_api_args(reqs, creator)[5 * i + 2] == match reqs[i].method {
                    Some(m) => text_arg(m@),
                    None => null_arg(),
                }
                &&& role_api_args(reqs, creator)[5 * i + 3] == uuid_arg(creator)
                &&& role_api_args(reqs, creator)[5 * i + 4] == text_arg(reqs[i].auth_type@)
            },
{
    let row = |i: nat| role_api_row_args(reqs[i as int], creator);
    lemma_rows_args_at(reqs.len(), 5, row);
    assert forall|i: int| 0 <= i < reqs.len() implies {
        &&& role_api_args(reqs, creator)[5 * i] == text_arg((#[trigger] reqs[i]).role_id@)
        &&& role_api_args(reqs, creator)[5 * i + 1] == text_arg(reqs[i].api@)
        &&& role_api_args(reqs, creator)[5 * i + 2] == match reqs[i].method {
            Some(m) => text_arg(m@),
            None => null_arg(),
        }
        &&& role_api_args(reqs, creator)[5 * i + 3] == uuid_arg(creator)
        &&& role_api_args(reqs, creator)[5 * i + 4] == text_arg(reqs[i].auth_type@)
    } by {
        let k = i as nat;
        assert(row(k)[0] == text_arg(reqs[i].role_id@));
        assert(row(k)[1] == text_arg(reqs[i].api@));
        assert(row(k)[2] == opt_text_arg(reqs[i].method));
        assert(row(k)[3] == uuid_arg(creator));
        assert(row(k)[4] == text_arg(reqs[i].auth_type@));
    }
}

fn user_role_row_text(i: usize) -> (r: String)
    requires
        i < row_bound(),
    ensures
        r@ == user_role_row(i as nat),
{
    let mut t = "($".to_owned();
    let a = decimal_string((3 * i + 1) as u64);
    t.append(a.as_str());
    t.append(",$");
    let b = decimal_string((3 * i + 2) as u64);
    t.append(b.as_str());
    t.append(",");
    let c = decimal_string((3 * i + 3) as u64);
    t.append(c.as_str());
    t.append(")");
    assert(t@ =~= user_role_row(i as nat));
    t
}

fn role_api_row_text(i: usize) -> (r: String)
    requires
        i < row_bound(),
    ensures
        r@ == role_api_row(i as nat),
{
    let mut t = "(".to_owned();
    let a = decimal_string((i * 6 + 1) as u64);
    t.append(a.as_str());
    t.append(", ");
    let b = decimal_string((i * 6 + 2) as u64);
    t.append(b.as_str());
    t.append(", ");
    let c = decimal_string((i * 6 + 3) as u64);
    t.append(c.as_str());
    t.append(", ");
    let d = decimal_string((i * 6 + 4) as u64);
    t.append(d.as_str());
    t.append(", ");
    let e = decimal_string((i * 6 + 5) as u64);
    t.append(e.as_str());
    t.append(")");
    assert(t@ =~= role_api_row(i as nat));
    t
}

fn user_role_insert_text(n: usize) -> (r: String)
    requires
        n <= row_bound(),
    ensures
        r@ == user_role_insert_sql(n as nat),
{
    let mut sql = "INSERT INTO sys_user_role (user_id, role_id, created_bys) VALUES ".to_owned();
    let ghost head = sql@;
    let ghost item = |i: nat| user_role_row(i);
    let mut i: usize = 0;
    while i < n
        invariant
            i <= n <= row_bound(),
            head == "INSERT INTO sys_user_role (user_id, role_id, created_bys) VALUES "@,
            item == (|i: nat| user_role_row(i)),
            sql@ == head + joined(i as nat, item, ", "@),
        decreases n - i,
    {
        let ghost before = sql@;
        if i > 0 {
            sql.append(", ");
        }
        let row_text = user_role_row_text(i);
        sql.append(row_text.as_str());
        proof {
            let row = user_role_row(i as nat);
            assert(item(i as nat) == row);
            if i == 0 {
                assert(joined(1, item, ", "@) == item(0));
                assert(sql@ =~= head + joined((i + 1) as nat, item, ", "@));
            } else {
                assert(joined((i + 1) as nat, item, ", "@) == joined(i as nat, item, ", "@)
                    + ", "@ + item(i as nat));
                assert(sql@ =~= head + joined((i + 1) as nat, item, ", "@));
            }
        }
        i = i + 1;
    }
    sql.append(" ON CONFLICT ON CONSTRAINT sys_role_user_pkey DO NOTHING");
    assert(sql@ =~= user_role_insert_sql(n as nat));
    sql
}

/// The statement that grants `role_ids` to the user `user_id`, created by
/// `created_by`: fails when `created_by` is not a UUID, and otherwise gives
/// the insert with one row per role and, per row, the user, the role and the
/// creator bound in that order.
pub fn edit_user_role(user_id: u128, role_ids: &Vec<u128>, created_by: &str) -> (r: Result<
    BoundStatement,
    InvalidUuid,
>)
    requires
        role_ids@.len() <= row_bound(),
    ensures
        match uuid_parse(created_by@) {
            None => r is Err,
            Some(creator) => r matches Ok(st) && st.sql@ == user_role_insert_sql(role_ids@.len())
                && pg_bound(st.args) == edit_user_role_args(user_id, role_ids@, creator),
        },
{
    let create_by = parse_uuid(created_by)?;
    let n = role_ids.len();
    let sql = user_role_insert_text(n);
    let mut args = pg_args_new();
    let ghost row = |i: nat| seq![uuid_arg(user_id), uuid_arg(role_ids@[i as int]), uuid_arg(create_by)];
    let mut i: usize = 0;
    while i < n
        invariant
            n == role_ids@.len(),
            i <= n,
            row == (|i: nat| seq![uuid_arg(user_id), uuid_arg(role_ids@[i as int]), uuid_arg(create_by)]),
            pg_bound(args) == rows_args(i as nat, row),
        decreases n - i,
    {
        pg_add_uuid(&mut args, user_id);
        pg_add_uuid(&mut args, role_ids[i]);
        pg_add_uuid(&mut args, create_by);
        assert(pg_bound(args) =~= rows_args((i + 1) as nat, row));
        i = i + 1;
    }
    Ok(BoundStatement { sql, args })
}

/// The statement that grants the role `role_id` to every user of `user_ids`,
/// created by `created_by`: fails when either id is not a UUID (the role id
/// is read first), and otherwise gives the insert with one row per user and,
/// per row, the user's id as text, the role and the creator bound.
pub fn add_role_by_lot_user_ids(user_ids: &Vec<String>, role_id: &str, created_by: &str) -> (r: Result<
    BoundStatement,
    InvalidUuid,
>)
    requires
        user_ids@.len() <= row_bound(),
    ensures
        match (uuid_parse(role_id@), uuid_parse(created_by@)) {
            (Some(role), Some(creator)) => r matches Ok(st) && st.sql@ == user_role_insert_sql(
                user_ids@.len(),
            ) && pg_bound(st.args) == lot_user_role_args(texts(user_ids@), role, creator),
            _ => r is Err,
        },
{
    let role = parse_uuid(role_id)?;
    let create_by = parse_uuid(created_by)?;
    let n = user_ids.len();
    let sql = user_role_insert_text(n);
    let mut args = pg_args_new();
    let ghost users = texts(user_ids@);
    let ghost row = |i: nat| seq![text_arg(users[i as int]), uuid_arg(role), uuid_arg(create_by)];
    let mut i: usize = 0;
    while i < n
        invariant
            n == user_ids@.len(),
            i <= n,
            users == texts(user_ids@),
            row == (|i: nat| seq![text_arg(users[i as int]), uuid_arg(role), uuid_arg(create_by)]),
            pg_bound(args) == rows_args(i as nat, row),
        decreases n - i,
    {
        pg_add_text(&mut args, user_ids[i].as_str());
        pg_add_uuid(&mut args, role);
        pg_add_uuid(&mut args, create_by);
        assert(users[i as int] == user_ids@[i as int]@);
        assert(pg_bound(args) =~= rows_args((i + 1) as nat, row));
        i = i + 1;
    }
    Ok(BoundStatement { sql, args })
}

/// The statement that revokes roles from every user of `user_ids`: all their
/// roles, or only `role_id` when one is given (bound after the user ids).
pub fn delete_user_role_by_user_ids(user_ids: &Vec<String>, role_id: Option<String>) -> (r: BoundStatement)
    requires
        user_ids@.len() <= row_bound(),
    ensures
        r.sql@ == user_role_delete_sql(user_ids@.len(), role_id is Some),
        pg_bound(r.args) == user_role_delete_args(texts(user_ids@), role_id),
{
    let n = user_ids.len();
    let mut sql = "DELETE FROM sys_user_role WHERE user_id IN (".to_owned();
    let mut args = pg_args_new();
    let ghost head = sql@;
    let ghost item = |i: nat| dollar_placeholder(i);
    let ghost users = texts(user_ids@);
    let ghost row = |i: nat| seq![text_arg(users[i as int])];
    let mut i: usize = 0;
    while i < n
        invariant
            n == user_ids@.len(),
            i <= n <= row_bound(),
            head == "DELETE FROM sys_user_role WHERE user_id IN ("@,
            item == (|i: nat| dollar_placeholder(i)),
            sql@ == head + joined(i as nat, item, ", "@),
            users == texts(user_ids@),
            row == (|i: nat| seq![text_arg(users[i as int])]),
            pg_bound(args) == rows_args(i as nat, row),
        decreases n - i,
    {
        if i > 0 {
            sql.append(", ");
        }
        sql.append("$");
        let k = decimal_string((i + 1) as u64);
        sql.append(k.as_str());
        pg_add_text(&mut args, user_ids[i].as_str());
        proof {
            assert(item(i as nat) == dollar_placeholder(i as nat));
            if i == 0 {
                assert(joined(1, item, ", "@) == item(0));
            } else {
                assert(joined((i + 1) as nat, item, ", "@) == joined(i as nat, item, ", "@)
                    + ", "@ + item(i as nat));
            }
            assert(sql@ =~= head + joined((i + 1) as nat, item, ", "@));
            assert(users[i as int] == user_ids@[i as int]@);
            assert(pg_bound(args) =~= rows_args((i + 1) as nat, row));
        }
        i = i + 1;
    }
    let ghost user_args = pg_bound(args);
    let ghost has_role = role_id is Some;
    match role_id {
        Some(role) => {
            sql.append(") AND role_id = $");
            let k = decimal_string((n + 1) as u64);
            sql.append(k.as_str());
            pg_add_text(&mut args, role.as_str());
        },
        None => {
            sql.append(")");
        },
    }
    assert(sql@ =~= user_role_delete_sql(n as nat, has_role));
    assert(pg_bound(args) =~= user_role_delete_args(users, role_id));
    BoundStatement { sql, args }
}

/// The statement that stores the permissions `role_apis`, created by
/// `created_by`: none when there is no permission to store, and otherwise
/// the insert with one numbered row per permission and, per permission, its
/// role, endpoint, method (`NULL` when it has none), the creator and its kind
/// bound in that order.
pub fn add_role_api(role_apis: &Vec<AddReq>, created_by: u128) -> (r: Option<BoundStatement>)
    requires
        role_apis@.len() <= row_bound(),
    ensures
        role_apis@.len() == 0 ==> r is None,
        role_apis@.len() > 0 ==> (r matches Some(st) && st.sql@ == role_api_insert_sql(
            role_apis@.len(),
        ) && pg_bound(st.args) == role_api_args(role_apis@, created_by)),
{
    let n = role_apis.len();
    if n == 0 {
        return None;
    }
    let mut sql = "
        INSERT INTO \"sys_role_api\" ( role_id, api, method, created_by, auth_type)
        VALUES ".to_owned();
    let mut args = pg_args_new();
    let ghost head = sql@;
    let ghost item = |i: nat| role_api_row(i);
    let ghost row = |i: nat| role_api_row_args(role_apis@[i as int], created_by);
    let mut i: usize = 0;
    while i < n
        invariant
            n == role_apis@.len(),
            i <= n <= row_bound(),
            head == role_api_insert_head(),
            item == (|i: nat| role_api_row(i)),
            sql@ == head + joined(i as nat, item, ","@),
            row == (|i: nat| role_api_row_args(role_apis@[i as int], created_by)),
            pg_bound(args) == rows_args(i as nat, row),
        decreases n - i,
    {
        if i > 0 {
            sql.append(",");
        }
        let row_text = role_api_row_text(i);
        sql.append(row_text.as_str());
        let x = &role_apis[i];
        pg_add_text(&mut args, x.role_id.as_str());
        pg_add_text(&mut args, x.api.as_str());
        pg_add_opt_text(&mut args, &x.method);
        pg_add_uuid(&mut args, created_by);
        pg_add_text(&mut args, x.auth_type.as_str());
        proof {
            assert(item(i as nat) == role_api_row(i as nat));
            if i == 0 {
                assert(joined(1, item, ","@) == item(0));
            } else {
                assert(joined((i + 1) as nat, item, ","@) == joined(i as nat, item, ","@) + ","@
                    + item(i as nat));
            }
            assert(sql@ =~= head + joined((i + 1) as nat, item, ","@));
            assert(pg_bound(args) =~= rows_args((i + 1) as nat, row));
        }
        i = i + 1;
    }
    Some(BoundStatement { sql, args })
}

/// The statement that moves the permissions of one endpoint and method,
/// `old_api`, to another, `new_api`, with the new endpoint and method bound
/// first and the old ones after.
pub fn update_api(old_api: (&str, &str), new_api: (&str, &str)) -> (r: BoundStatement)
    ensures
        r.sql@ == update_api_sql(),
        pg_bound(r.args) == seq![text_arg(new_api.0@), text_arg(new_api.1@), text_arg(old_api.0@), text_arg(old_api.1@)],
{
    let sql = "UPDATE sys_role_api SET api = $1, method = $2 WHERE api = $3 AND method = $4 where api =$5 and method = $6".to_owned();
    let mut args = pg_args_new();
    pg_add_text(&mut args, new_api.0);
    pg_add_text(&mut args, new_api.1);
    pg_add_text(&mut args, old_api.0);
    pg_add_text(&mut args, old_api.1);
    assert(pg_bound(args) =~= seq![text_arg(new_api.0@), text_arg(new_api.1@), text_arg(old_api.0@), text_arg(old_api.1@)]);
    BoundStatement { sql, args }
}

/// The statement of `update_api`, as it is written.
pub open spec fn update_api_sql() -> Seq<char> {
    "UPDATE sys_role_api SET api = $1, method = $2 WHERE api = $3 AND method = $4 where api =$5 and method = $6"@
}

/// The statement that removes every permission of the roles `role_ids`.
pub fn delete_role_api(role_ids: &Vec<String>) -> (r: String)
    ensures
        r@ == role_api_delete_sql(texts(role_ids@)),
{
    let n = role_ids.len();
    let ghost ids = texts(role_ids@);
    let mut sql = "DELETE FROM sys_role_api WHERE role_id IN (".to_owned();
    let ghost head = sql@;
    let mut i: usize = 0;
    while i < n
        invariant
            n == role_ids@.len(),
            ids == texts(role_ids@),
            ids.len() == n,
            i <= n,
            head == "DELETE FROM sys_role_api WHERE role_id IN ("@,
            sql@ == head + role_id_list(ids, i as nat),
        decreases n - i,
    {
        sql.append(role_ids[i].as_str());
        sql.append(", ");
        if i != n - 1 {
            sql.append(",");
        }
        proof {
            assert(ids[i as int] == role_ids@[i as int]@);
            assert(sql@ =~= head + role_id_list(ids, (i + 1) as nat));
        }
        i = i + 1;
    }
    sql.append(")");
    assert(sql@ =~= role_api_delete_sql(ids));
    sql
}

} // verus!
