use jc_os::auth::{AuthError, AuthManager, Role};

#[test]
fn fresh_store_has_primary_admin() {
    let mut a = AuthManager::new();
    assert_eq!(a.get_current_username(), "Guest");
    assert_eq!(a.get_current_uid(), 1000);
    assert!(a.login("andre", "admin123"));
    assert_eq!(a.get_current_username(), "andre");
    assert_eq!(a.get_current_uid(), 0);
}

#[test]
fn login_with_wrong_credentials_fails() {
    let mut a = AuthManager::new();
    assert!(!a.login("andre", "wrong"));
    assert!(!a.login("nobody", "admin123"));
    assert_eq!(a.get_current_username(), "Guest");
}

#[test]
fn add_user_assigns_increasing_ids() {
    let mut a = AuthManager::new();
    assert_eq!(a.add_user("alice", "pw1"), Ok(1000));
    assert_eq!(a.add_user("bob", "pw2"), Ok(1001));
    assert_eq!(a.add_user("alice", "other"), Err(AuthError::UserExists));
    assert!(a.login("bob", "pw2"));
    assert_eq!(a.get_current_uid(), 1001);
    assert_eq!(a.users[2].role, Role::Standard);
}

#[test]
fn logout_ends_session() {
    let mut a = AuthManager::new();
    assert!(a.login("andre", "admin123"));
    a.logout();
    assert_eq!(a.get_current_username(), "Guest");
    assert_eq!(a.get_current_uid(), 1000);
}

#[test]
fn delete_user_guards() {
    let mut a = AuthManager::new();
    assert_eq!(a.delete_user("andre"), Err(AuthError::ProtectedUser));
    assert_eq!(a.add_user("carol", "pw"), Ok(1000));
    assert!(a.login("carol", "pw"));
    assert_eq!(a.delete_user("carol"), Err(AuthError::ActiveUser));
    a.logout();
    assert_eq!(a.delete_user("carol"), Ok(()));
    assert_eq!(a.delete_user("carol"), Err(AuthError::NotFound));
    assert!(!a.login("carol", "pw"));
}
