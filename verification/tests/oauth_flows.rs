use ropds::oauth::{existing_identity_action, keycloak_role_update, ExistingIdentityAction, RoleUpdate};
use ropds::oauth::{
    auto_approve, is_unique_violation, new_identity_step, new_user_base, role_flag,
    NewIdentityAction, NewIdentityEvent, NewIdentityState, ProviderKind, MAX_USERNAME_ATTEMPTS,
};
use ropds::web::oauth_requests::{
    approve_step, requested_username, ApproveAction, ApproveEvent, ApproveForm, ApproveState,
};

#[test]
fn unique_violations_by_code_or_message() {
    assert!(is_unique_violation(Some("23505"), "whatever"));
    assert!(is_unique_violation(Some("2067"), ""));
    assert!(is_unique_violation(None, "UNIQUE constraint failed: users.username"));
    assert!(is_unique_violation(None, "Duplicate entry 'x' for key"));
    assert!(!is_unique_violation(Some("42P01"), "no such table"));
}

#[test]
fn new_user_base_slugifies_or_defaults() {
    assert_eq!(new_user_base(None), "user");
    assert_eq!(new_user_base(Some("John Smith")), "john_smith");
}

#[test]
fn identity_creation_retries_taken_usernames() {
    let (s, a) = new_identity_step(
        "john",
        Some("John"),
        false,
        NewIdentityState::CreatingUser { attempt: 0 },
        NewIdentityEvent::Begin,
    );
    assert_eq!(s, NewIdentityState::CreatingUser { attempt: 1 });
    match a {
        NewIdentityAction::CreateUser { username, display } => {
            assert_eq!(username, "john");
            assert_eq!(display, "John");
        }
        _ => panic!("a user must be created first"),
    }
    let (s, a) = new_identity_step("john", None, false, s, NewIdentityEvent::UsernameTaken);
    assert_eq!(s, NewIdentityState::CreatingUser { attempt: 2 });
    match a {
        NewIdentityAction::CreateUser { username, display } => {
            assert_eq!(username, "john_2");
            assert_eq!(display, "john_2");
        }
        _ => panic!("the next candidate must be tried"),
    }
    let (s, a) = new_identity_step(
        "john",
        None,
        false,
        NewIdentityState::CreatingUser { attempt: MAX_USERNAME_ATTEMPTS },
        NewIdentityEvent::UsernameTaken,
    );
    assert_eq!(s, NewIdentityState::Finished);
    assert!(matches!(a, NewIdentityAction::Fail { message: "Failed to assign username" }));
}

#[test]
fn identity_creation_finishes_by_approval() {
    let (s, a) = new_identity_step(
        "john",
        None,
        true,
        NewIdentityState::CreatingUser { attempt: 1 },
        NewIdentityEvent::UserCreated { user_id: 7 },
    );
    assert_eq!(s, NewIdentityState::CreatingIdentity { user_id: 7 });
    assert!(matches!(a, NewIdentityAction::CreateIdentity { user_id: 7 }));
    let (s, a) = new_identity_step("john", None, true, s, NewIdentityEvent::IdentityCreated);
    assert_eq!(s, NewIdentityState::Finished);
    assert!(matches!(a, NewIdentityAction::ActivateAndSignIn { user_id: 7 }));
    let (_, a) = new_identity_step(
        "john",
        None,
        false,
        NewIdentityState::CreatingIdentity { user_id: 7 },
        NewIdentityEvent::IdentityCreated,
    );
    assert!(matches!(a, NewIdentityAction::AwaitApproval));
    let (_, a) = new_identity_step(
        "john",
        None,
        false,
        NewIdentityState::CreatingIdentity { user_id: 7 },
        NewIdentityEvent::IdentityFailed,
    );
    assert!(matches!(a, NewIdentityAction::RemoveUserAndFail { user_id: 7, .. }));
}

#[test]
fn only_keycloak_approves_automatically() {
    assert!(auto_approve(ProviderKind::Keycloak, true));
    assert!(!auto_approve(ProviderKind::Keycloak, false));
    assert!(!auto_approve(ProviderKind::Google, true));
}

#[test]
fn role_flags() {
    let roles = vec!["admin".to_string(), "reader".to_string()];
    assert_eq!(role_flag(&roles, ""), None);
    assert_eq!(role_flag(&roles, "admin"), Some(1));
    assert_eq!(role_flag(&roles, "upload"), Some(0));
}

fn redirect_of(a: &ApproveAction) -> &'static str {
    match a {
        ApproveAction::Redirect { to } => to,
        _ => panic!("a redirect was expected"),
    }
}

#[test]
fn approval_refuses_a_bad_csrf_token() {
    let (s, a) = approve_step(None, "bob", true, ApproveState::Start, ApproveEvent::Begin { csrf_ok: false });
    assert_eq!(s, ApproveState::Done);
    assert!(matches!(a, ApproveAction::Forbidden));
}

#[test]
fn approval_with_a_new_username_renames_and_activates() {
    let (s, a) = approve_step(None, "bob", true, ApproveState::Start, ApproveEvent::Begin { csrf_ok: true });
    assert!(matches!(a, ApproveAction::LoadIdentity));
    let (s, a) = approve_step(None, "bob", true, s, ApproveEvent::Identity { user_id: Some(5) });
    assert!(matches!(a, ApproveAction::LoadUser { user_id: 5 }));
    let (s, a) = approve_step(
        None,
        "bob",
        true,
        s,
        ApproveEvent::SourceUser { username: Some("alice".to_string()) },
    );
    match &a {
        ApproveAction::FindUsername { username } => assert_eq!(username, "bob"),
        _ => panic!("the requested name must be looked up"),
    }
    let (s, a) = approve_step(None, "bob", true, s, ApproveEvent::NameOwner { owner: Ok(None) });
    assert!(matches!(a, ApproveAction::Rename { user_id: 5, .. }));
    let (s, a) = approve_step(None, "bob", true, s, ApproveEvent::Renamed { result: Ok(()) });
    assert!(matches!(a, ApproveAction::Activate));
    let (s, a) = approve_step(None, "bob", true, s, ApproveEvent::Activated { ok: true });
    assert_eq!(s, ApproveState::Done);
    assert_eq!(redirect_of(&a), "/web/admin?msg=approved");
}

#[test]
fn approval_reports_a_taken_username() {
    let (_, a) = approve_step(
        None,
        "bob",
        true,
        ApproveState::CheckingName { identity_user: 5 },
        ApproveEvent::NameOwner { owner: Ok(Some(9)) },
    );
    assert_eq!(redirect_of(&a), "/web/admin?error=username_exists");
    let (_, a) = approve_step(
        None,
        "bob",
        true,
        ApproveState::Renaming,
        ApproveEvent::Renamed { result: Err("UNIQUE constraint failed".to_string()) },
    );
    assert_eq!(redirect_of(&a), "/web/admin?error=username_exists");
    let (_, a) = approve_step(
        None,
        "bob",
        true,
        ApproveState::Renaming,
        ApproveEvent::Renamed { result: Err("disk full".to_string()) },
    );
    assert_eq!(redirect_of(&a), "/web/admin?error=db_error");
}

#[test]
fn approval_checks_the_requested_username() {
    let (_, a) = approve_step(
        None,
        "",
        true,
        ApproveState::LoadingIdentity,
        ApproveEvent::Identity { user_id: Some(5) },
    );
    assert_eq!(redirect_of(&a), "/web/admin?error=username_empty");
    let (_, a) = approve_step(
        None,
        "b o b",
        false,
        ApproveState::LoadingIdentity,
        ApproveEvent::Identity { user_id: Some(5) },
    );
    assert_eq!(redirect_of(&a), "/web/admin?error=username_invalid");
}

#[test]
fn approval_linking_to_another_account_moves_the_identity() {
    let (s, a) = approve_step(
        Some(9),
        "",
        false,
        ApproveState::LoadingIdentity,
        ApproveEvent::Identity { user_id: Some(5) },
    );
    assert!(matches!(a, ApproveAction::CheckUser { user_id: 9 }));
    let (s, a) = approve_step(Some(9), "", false, s, ApproveEvent::TargetExists { ok: true });
    assert!(matches!(a, ApproveAction::Reassign { target: 9 }));
    let (s, a) = approve_step(Some(9), "", false, s, ApproveEvent::Reassigned { ok: true });
    assert!(matches!(a, ApproveAction::CountIdentities { user_id: 5 }));
    let (s, a) = approve_step(Some(9), "", false, s, ApproveEvent::Counted { count: Some(0) });
    assert!(matches!(a, ApproveAction::RemoveUser { user_id: 5 }));
    let (_, a) = approve_step(Some(9), "", false, s, ApproveEvent::Removed);
    assert!(matches!(a, ApproveAction::Activate));
}

#[test]
fn requested_username_is_trimmed() {
    let form = ApproveForm {
        csrf_token: "t".to_string(),
        link_user_id: None,
        new_username: "  bob \n".to_string(),
    };
    assert_eq!(requested_username(&form), "bob");
}

#[test]
fn returning_identities() {
    assert_eq!(
        existing_identity_action("active", 1, 9, ProviderKind::Keycloak, 24, 0),
        ExistingIdentityAction::SignIn { user_id: 9, sync_roles: true }
    );
    assert_eq!(
        existing_identity_action("active", 1, 9, ProviderKind::Google, 24, 0),
        ExistingIdentityAction::SignIn { user_id: 9, sync_roles: false }
    );
    assert_eq!(existing_identity_action("pending", 1, 9, ProviderKind::Google, 24, 0), ExistingIdentityAction::ShowPending);
    assert_eq!(
        existing_identity_action("rejected", 1, 9, ProviderKind::Google, 24, 24 * 3600),
        ExistingIdentityAction::Reapply { identity_id: 1 }
    );
    assert_eq!(
        existing_identity_action("rejected", 1, 9, ProviderKind::Google, 24, 3600),
        ExistingIdentityAction::ShowRejected
    );
    assert_eq!(existing_identity_action("banned", 1, 9, ProviderKind::Yandex, 24, 0), ExistingIdentityAction::ShowBanned);
    assert_eq!(existing_identity_action("odd", 1, 9, ProviderKind::Yandex, 24, 0), ExistingIdentityAction::LoginError);
}

#[test]
fn keycloak_roles_become_account_flags() {
    let roles = vec!["readers".to_string(), "admins".to_string()];
    assert_eq!(keycloak_role_update(&roles, "", ""), None);
    assert_eq!(
        keycloak_role_update(&roles, "uploaders", "admins"),
        Some(RoleUpdate::Both { allow_upload: 0, is_superuser: 1 })
    );
    assert_eq!(keycloak_role_update(&roles, "readers", ""), Some(RoleUpdate::Upload { allow_upload: 1 }));
    assert_eq!(keycloak_role_update(&roles, "", "x"), Some(RoleUpdate::Admin { is_superuser: 0 }));
}
