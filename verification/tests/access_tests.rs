use geotool::users::{
    account_change_permission, account_updates, can_api_full, can_api_read, can_web_full,
    can_web_read, companies_scope, company_deletable, company_visible, is_home_company,
    new_password_hash, new_user_category_allowed, new_user_password_hash, only_admin,
    password_edit_permission, staff_admin, tera_can_delete_user, tera_user_category_activator,
    well_item_visible, well_visible, ApiAccess, Company, CompanyScope, NewUserError,
    PasswordChangeError, PermissionError, User, UserCategory, WebAccess,
};

fn user(id: &str, category: UserCategory, company: &str) -> User {
    User {
        id: id.to_string(),
        uuid: 1,
        category,
        company: company.to_string(),
        first_name: "Ann".to_string(),
        last_name: "Lee".to_string(),
        email: "ann@example.com".to_string(),
        last_active: 0,
        web_access: WebAccess::Full,
        api_access: ApiAccess::Readonly,
    }
}

#[test]
fn guards_follow_levels() {
    let mut u = user("ann", UserCategory::Staff, "acme");
    assert!(!only_admin(&u));
    assert!(staff_admin(&u));
    assert!(can_web_read(&u) && can_web_full(&u));
    assert!(can_api_read(&u) && !can_api_full(&u));
    u.web_access = WebAccess::Blocked;
    u.api_access = ApiAccess::Full;
    assert!(!can_web_read(&u) && !can_web_full(&u));
    assert!(can_api_read(&u) && can_api_full(&u));
    u.category = UserCategory::User;
    assert!(!staff_admin(&u));
    u.category = UserCategory::Admin;
    assert!(only_admin(&u) && staff_admin(&u));
}

#[test]
fn plain_users_see_their_company_only() {
    let u = user("ann", UserCategory::User, "acme");
    let acme = "acme".to_string();
    let other = "other".to_string();
    assert!(company_visible(&u, &acme));
    assert!(!company_visible(&u, &other));
    assert!(well_visible(&u, &acme, &acme));
    assert!(!well_visible(&u, &acme, &other));
    assert!(well_item_visible(&u, &acme, &acme, 4, 4));
    assert!(!well_item_visible(&u, &acme, &acme, 4, 5));
    let s = user("sam", UserCategory::Staff, "geomec");
    assert!(company_visible(&s, &other));
    assert!(well_item_visible(&s, &acme, &other, 4, 5));
}

#[test]
fn company_list_scope() {
    let u = user("ann", UserCategory::User, "acme");
    match companies_scope(&u) {
        CompanyScope::Only(id) => assert_eq!(id, "acme"),
        CompanyScope::All => panic!("a plain user sees one company"),
    }
    let a = user("adm", UserCategory::Admin, "geomec");
    assert!(matches!(companies_scope(&a), CompanyScope::All));
}

#[test]
fn password_permissions() {
    let admin = user("adm", UserCategory::Admin, "geomec");
    let admin2 = user("adm2", UserCategory::Admin, "geomec");
    let staff = user("sam", UserCategory::Staff, "geomec");
    let plain = user("ann", UserCategory::User, "acme");
    assert_eq!(password_edit_permission(&admin, &admin2), Err(PermissionError::OtherAdmin));
    assert_eq!(password_edit_permission(&admin, &admin), Ok(()));
    assert_eq!(password_edit_permission(&admin, &plain), Ok(()));
    assert_eq!(password_edit_permission(&staff, &plain), Err(PermissionError::OtherUser));
    assert_eq!(password_edit_permission(&plain, &plain), Ok(()));
    assert_eq!(password_edit_permission(&plain, &admin), Err(PermissionError::OtherUser));
}

#[test]
fn password_change_hashes_only_when_allowed() {
    let admin = user("adm", UserCategory::Admin, "geomec");
    let admin2 = user("adm2", UserCategory::Admin, "geomec");
    assert_eq!(
        new_password_hash(&admin, &admin2, "a-long-enough-password"),
        Err(PasswordChangeError::Refused(PermissionError::OtherAdmin))
    );
    let h = new_password_hash(&admin, &admin, "a-long-enough-password").unwrap();
    assert!(h.starts_with("$argon2id$v=19$"));
}

#[test]
fn other_admins_cannot_be_changed() {
    let admin = user("adm", UserCategory::Admin, "geomec");
    let admin2 = user("adm2", UserCategory::Admin, "geomec");
    let plain = user("ann", UserCategory::User, "acme");
    assert!(!account_change_permission(&admin, &admin2));
    assert!(account_change_permission(&admin, &admin));
    assert!(account_change_permission(&admin, &plain));
}

#[test]
fn new_accounts_of_other_companies_are_plain_users() {
    assert!(new_user_category_allowed(UserCategory::User, "acme"));
    assert!(!new_user_category_allowed(UserCategory::Staff, "acme"));
    assert!(new_user_category_allowed(UserCategory::Admin, "geomec"));
    assert_eq!(
        new_user_password_hash(UserCategory::Admin, "acme", "a-long-enough-password"),
        Err(NewUserError::CategoryNotAllowed)
    );
    let h = new_user_password_hash(UserCategory::User, "acme", "a-long-enough-password").unwrap();
    assert!(h.starts_with("$argon2"));
}

#[test]
fn operating_company_is_not_deleted() {
    assert!(is_home_company("geomec"));
    assert!(!is_home_company("geomec2"));
    assert!(!company_deletable("geomec"));
    assert!(company_deletable("acme"));
    let c = Company { id: "acme".to_string(), name: "Acme".to_string() };
    assert!(company_deletable(&c.id));
}

#[test]
fn delete_button_rules() {
    assert!(!tera_can_delete_user("Admin", "adm2", "adm", "geomec"));
    assert!(tera_can_delete_user("Admin", "adm", "adm", "geomec"));
    assert!(tera_can_delete_user("Staff", "sam", "adm", "geomec"));
    assert!(tera_can_delete_user("Admin", "x", "adm", "acme"));
}

#[test]
fn category_radio_buttons() {
    assert_eq!(tera_user_category_activator("geomec", true, "User", "User"), "");
    assert_eq!(tera_user_category_activator("geomec", false, "Staff", "Staff"), " checked");
    assert_eq!(tera_user_category_activator("geomec", false, "Staff", "Admin"), "");
    assert_eq!(tera_user_category_activator("acme", true, "User", "x"), " checked ");
    assert_eq!(tera_user_category_activator("acme", true, "Admin", "Admin"), "");
    assert_eq!(tera_user_category_activator("acme", false, "User", "User"), " checked");
}

#[test]
fn account_edit_runs_changed_updates() {
    let u = user("ann", UserCategory::User, "acme");
    let r = account_updates(&u, "ann@example.com", "Ann", "Lee");
    assert!(!r.email && !r.names);
    let r = account_updates(&u, "new@example.com", "Ann", "Smith");
    assert!(r.email && r.names);
}

#[test]
fn visibility_narrows_from_company_to_cycle() {
    let u = user("ann", UserCategory::User, "acme");
    let ids = ["acme".to_string(), "other".to_string()];
    for c in &ids {
        for wc in &ids {
            for (wu, iw) in [(1i16, 1i16), (1, 2)] {
                if well_item_visible(&u, c, wc, wu, iw) {
                    assert!(well_visible(&u, c, wc));
                }
                if well_visible(&u, c, wc) {
                    assert!(company_visible(&u, c) && company_visible(&u, wc));
                }
            }
        }
    }
}
