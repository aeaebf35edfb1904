use jcowork::admin::{check_deletable, check_restore, check_trash, days_left_at, days_left_in_trash, ensure_admin, User};

fn user(id: &str, admin: bool, deleted: Option<&str>) -> User {
    User {
        id: id.to_string(),
        username: format!("name-{}", id),
        password_hash: "h".to_string(),
        is_public: false,
        is_admin: admin,
        created_at: "2026-01-01 00:00:00".to_string(),
        deleted_at: deleted.map(|d| d.to_string()),
    }
}

fn refusal(r: Result<(), jcowork::admin::AdminError>) -> (u16, String) {
    let e = r.unwrap_err();
    (e.status, e.message)
}

#[test]
fn only_admins_manage_users() {
    assert!(ensure_admin(true).is_ok());
    assert_eq!(refusal(ensure_admin(false)), (403, "Admin access required".to_string()));
}

#[test]
fn deletion_rules() {
    assert_eq!(refusal(check_deletable(None, "me")), (404, "User not found".to_string()));
    assert_eq!(refusal(check_deletable(Some(&user("a", true, None)), "me")), (400, "Cannot delete admin account".to_string()));
    assert_eq!(refusal(check_deletable(Some(&user("me", false, None)), "me")), (400, "Cannot delete your own account".to_string()));
    assert!(check_deletable(Some(&user("u", false, None)), "me").is_ok());
    assert_eq!(
        refusal(check_trash(Some(&user("u", false, Some("2026-01-01 00:00:00"))), "me")),
        (409, "User is already in the trash".to_string())
    );
    assert!(check_trash(Some(&user("u", false, None)), "me").is_ok());
    assert!(check_restore(Some(&user("u", false, Some("2026-01-01 00:00:00")))).is_ok());
    assert_eq!(refusal(check_restore(Some(&user("u", false, None)))), (409, "User is not in the trash".to_string()));
    assert_eq!(refusal(check_restore(None)), (404, "User not found".to_string()));
}

#[test]
fn days_left_counts_down_from_seven() {
    // 2026-01-01 00:00:00 UTC
    let deleted = 1_767_225_600;
    assert_eq!(days_left_in_trash("2026-01-01 00:00:00", deleted), 7);
    assert_eq!(days_left_in_trash("2026-01-01 00:00:00", deleted + 86_399), 7);
    assert_eq!(days_left_in_trash("2026-01-01 00:00:00", deleted + 86_400), 6);
    assert_eq!(days_left_in_trash("2026-01-01 00:00:00", deleted + 30 * 86_400), 0);
    assert_eq!(days_left_in_trash("not a time", deleted), 0);
    assert_eq!(days_left_at(Some(deleted), deleted - 86_400 * 2 - 5), 9);
    assert_eq!(days_left_at(None, deleted), 0);
}
