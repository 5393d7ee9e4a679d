use playoh::pg_args::BoundStatement;
use playoh::sql::{
    add_role_api, add_role_by_lot_user_ids, delete_role_api, delete_user_role_by_user_ids,
    edit_user_role, update_api, AddReq,
};
use sqlx::Arguments;

/// How many values a statement binds: the argument list writes the number of
/// the last one as its placeholder.
fn bound_count(st: &BoundStatement) -> String {
    let mut s = String::new();
    st.args.format_placeholder(&mut s).unwrap();
    s
}

const CREATOR: &str = "67e55044-10b1-426f-9247-bb680e5fe0c8";
const ROLE: &str = "00000000-0000-0000-0000-000000000001";

#[test]
fn user_role_insert_for_two_roles() {
    let ins = edit_user_role(9, &vec![1, 2], CREATOR).unwrap();
    assert_eq!(
        ins.sql,
        "INSERT INTO sys_user_role (user_id, role_id, created_bys) VALUES ($1,$2,3), ($4,$5,6) ON CONFLICT ON CONSTRAINT sys_role_user_pkey DO NOTHING"
    );
    assert_eq!(bound_count(&ins), "$6");
}

#[test]
fn user_role_insert_needs_a_creator_uuid() {
    assert!(edit_user_role(9, &vec![1], "nobody").is_err());
}

#[test]
fn user_role_insert_with_no_rows() {
    let ins = edit_user_role(9, &Vec::new(), CREATOR).unwrap();
    assert_eq!(bound_count(&ins), "$0");
    assert_eq!(
        ins.sql,
        "INSERT INTO sys_user_role (user_id, role_id, created_bys) VALUES  ON CONFLICT ON CONSTRAINT sys_role_user_pkey DO NOTHING"
    );
}

#[test]
fn lot_insert_reads_role_then_creator() {
    let users = vec!["u1".to_string(), "u2".to_string(), "u3".to_string()];
    let ins = add_role_by_lot_user_ids(&users, ROLE, CREATOR).unwrap();
    assert_eq!(bound_count(&ins), "$9");
    assert_eq!(
        ins.sql,
        "INSERT INTO sys_user_role (user_id, role_id, created_bys) VALUES ($1,$2,3), ($4,$5,6), ($7,$8,9) ON CONFLICT ON CONSTRAINT sys_role_user_pkey DO NOTHING"
    );
    assert!(add_role_by_lot_user_ids(&users, "bad", CREATOR).is_err());
    assert!(add_role_by_lot_user_ids(&users, ROLE, "bad").is_err());
}

#[test]
fn user_role_delete() {
    let users: Vec<String> = (0..11).map(|i| format!("u{}", i)).collect();
    let two = delete_user_role_by_user_ids(&users[..2].to_vec(), None);
    assert_eq!(two.sql, "DELETE FROM sys_user_role WHERE user_id IN ($1, $2)");
    assert_eq!(bound_count(&two), "$2");
    let with_role = delete_user_role_by_user_ids(&users[..2].to_vec(), Some("r".to_string()));
    assert_eq!(with_role.sql, "DELETE FROM sys_user_role WHERE user_id IN ($1, $2) AND role_id = $3");
    assert_eq!(bound_count(&with_role), "$3");
    let all = delete_user_role_by_user_ids(&users, Some("r".to_string()));
    assert!(all.sql.ends_with("$10, $11) AND role_id = $12"));
    assert_eq!(bound_count(&all), "$12");
}

fn perm(role: &str) -> AddReq {
    AddReq {
        role_id: role.to_string(),
        api: "/system/user".to_string(),
        method: Some("GET".to_string()),
        auth_type: "1".to_string(),
    }
}

#[test]
fn role_api_insert() {
    assert!(add_role_api(&Vec::new(), 5).is_none());
    let st = add_role_api(&vec![perm("a"), perm("b")], 5).unwrap();
    assert_eq!(bound_count(&st), "$10");
    assert_eq!(
        st.sql,
        "\n        INSERT INTO \"sys_role_api\" ( role_id, api, method, created_by, auth_type)\n        VALUES (1, 2, 3, 4, 5),(7, 8, 9, 10, 11)"
    );
}

#[test]
fn role_api_delete() {
    let ids = vec!["a".to_string(), "b".to_string()];
    assert_eq!(delete_role_api(&ids), "DELETE FROM sys_role_api WHERE role_id IN (a, ,b, )");
    assert_eq!(delete_role_api(&Vec::new()), "DELETE FROM sys_role_api WHERE role_id IN ()");
}

#[test]
fn api_update_binds_new_then_old() {
    let st = update_api(("/a", "GET"), ("/b", "POST"));
    assert_eq!(
        st.sql,
        "UPDATE sys_role_api SET api = $1, method = $2 WHERE api = $3 AND method = $4 where api =$5 and method = $6"
    );
    assert_eq!(bound_count(&st), "$4");
}
