//! Approving a pending OAuth identity: the decisions between the database steps.
use vstd::prelude::*;
use crate::text::{str_eq, trim, trim_str, from_chars};

verus! {

/// The approval form: CSRF token, an existing account to link the identity
/// to (when positive), or else a username for the identity's own account.
pub struct ApproveForm {
    pub csrf_token: String,
    pub link_user_id: Option<i64>,
    pub new_username: String,
}

/// Where an approval stands.
#[derive(Debug, Clone, Copy, PartialEq, Eq, Structural)]
pub enum ApproveState {
    Start,
    LoadingIdentity,
    /// Checking that the account to link to exists.
    CheckingTarget { identity_user: i64, target: i64 },
    /// Moving the identity to the target account.
    Reassigning { identity_user: i64 },
    /// Counting the identities left on the identity's former account.
    Counting { identity_user: i64 },
    /// Removing the former account, which has no identity left.
    Removing,
    /// Loading the identity's own account.
    LoadingSource { identity_user: i64 },
    /// Looking up the owner of the requested username.
    CheckingName { identity_user: i64 },
    /// Renaming the identity's own account.
    Renaming,
    /// Marking the identity active.
    Activating,
    Done,
}

/// The outcome of the last step. `None` stands for "not found or failed".
#[derive(Debug)]
pub enum ApproveEvent {
    Begin { csrf_ok: bool },
    Identity { user_id: Option<i64> },
    TargetExists { ok: bool },
    Reassigned { ok: bool },
    /// Identities left on the former account; `None` when counting failed.
    Counted { count: Option<i64> },
    Removed,
    /// Username of the identity's own account.
    SourceUser { username: Option<String> },
    /// Owner of the requested username: `Ok(None)` when free, `Err` when the
    /// lookup failed.
    NameOwner { owner: Result<Option<i64>, ()> },
    /// Renaming: `Err` holds the database message.
    Renamed { result: Result<(), String> },
    Activated { ok: bool },
}

/// What to do next.
#[derive(Debug)]
pub enum ApproveAction {
    LoadIdentity,
    CheckUser { user_id: i64 },
    Reassign { target: i64 },
    CountIdentities { user_id: i64 },
    RemoveUser { user_id: i64 },
    LoadUser { user_id: i64 },
    FindUsername { username: String },
    Rename { user_id: i64, username: String },
    Activate,
    /// Refuse with 403: the CSRF token did not match.
    Forbidden,
    /// Answer with a redirect to this address.
    Redirect { to: &'static str },
}

pub enum ApproveActionView {
    LoadIdentity,
    CheckUser { user_id: i64 },
    Reassign { target: i64 },
    CountIdentities { user_id: i64 },
    RemoveUser { user_id: i64 },
    LoadUser { user_id: i64 },
    FindUsername { username: Seq<char> },
    Rename { user_id: i64, username: Seq<char> },
    Activate,
    Forbidden,
    Redirect { to: Seq<char> },
}

impl View for ApproveAction {
    type V = ApproveActionView;

    open spec fn view(&self) -> ApproveActionView {
        match *self {
            ApproveAction::LoadIdentity => ApproveActionView::LoadIdentity,
            ApproveAction::CheckUser { user_id } => ApproveActionView::CheckUser { user_id },
            ApproveAction::Reassign { target } => ApproveActionView::Reassign { target },
            ApproveAction::CountIdentities { user_id } => ApproveActionView::CountIdentities { user_id },
            ApproveAction::RemoveUser { user_id } => ApproveActionView::RemoveUser { user_id },
            ApproveAction::LoadUser { user_id } => ApproveActionView::LoadUser { user_id },
            ApproveAction::FindUsername { username } => ApproveActionView::FindUsername {
                username: username@,
            },
            ApproveAction::Rename { user_id, username } => ApproveActionView::Rename {
                user_id,
                username: username@,
            },
            ApproveAction::Activate => ApproveActionView::Activate,
            ApproveAction::Forbidden => ApproveActionView::Forbidden,
            ApproveAction::Redirect { to } => ApproveActionView::Redirect { to: to@ },
        }
    }
}

pub open spec fn redirect(to: Seq<char>) -> ApproveActionView {
    ApproveActionView::Redirect { to }
}

pub open spec fn db_error() -> Seq<char> {
    "/web/admin?error=db_error"@
}

/// The positive account id to link to, if any.
pub open spec fn link_target(link_user_id: Option<i64>) -> Option<i64> {
    match link_user_id {
        Some(t) => if t > 0 {
            Some(t)
        } else {
            None
        },
        None => None,
    }
}

/// One step of approving an identity. `username` is the requested username
/// trimmed, and `username_valid` whether it is an acceptable username.
///
/// The CSRF token must match; the identity must exist. With a positive
/// account to link to, that account must exist; when it is not the
/// identity's own, the identity moves to it and the former account is
/// removed once it has no identity left. Otherwise the requested username
/// must be neither empty nor invalid; when it differs from the account's,
/// it must not belong to another account, and the account is renamed (a
/// duplicate reported by the database also means "taken"). Finally the
/// identity is marked active. Any failed step answers with a database error.
pub open spec fn approve_step_spec(
    link_user_id: Option<i64>,
    username: Seq<char>,
    username_valid: bool,
    state: ApproveState,
    event: ApproveEvent,
) -> (ApproveState, ApproveActionView) {
    let fail = (ApproveState::Done, redirect(db_error()));
    match (state, event) {
        (ApproveState::Start, ApproveEvent::Begin { csrf_ok }) => if csrf_ok {
            (ApproveState::LoadingIdentity, ApproveActionView::LoadIdentity)
        } else {
            (ApproveState::Done, ApproveActionView::Forbidden)
        },
        (ApproveState::LoadingIdentity, ApproveEvent::Identity { user_id }) => match user_id {
            None => fail,
            Some(uid) => match link_target(link_user_id) {
                Some(t) => (
                    ApproveState::CheckingTarget { identity_user: uid, target: t },
                    ApproveActionView::CheckUser { user_id: t },
                ),
                None => if username.len() == 0 {
                    (ApproveState::Done, redirect("/web/admin?error=username_empty"@))
                } else if !username_valid {
                    (ApproveState::Done, redirect("/web/admin?error=username_invalid"@))
                } else {
                    (
                        ApproveState::LoadingSource { identity_user: uid },
                        ApproveActionView::LoadUser { user_id: uid },
                    )
                },
            },
        },
        (ApproveState::CheckingTarget { identity_user, target }, ApproveEvent::TargetExists { ok }) =>
            if !ok {
            fail
        } else if target != identity_user {
            (ApproveState::Reassigning { identity_user }, ApproveActionView::Reassign { target })
        } else {
            (ApproveState::Activating, ApproveActionView::Activate)
        },
        (ApproveState::Reassigning { identity_user }, ApproveEvent::Reassigned { ok }) => if ok {
            (
                ApproveState::Counting { identity_user },
                ApproveActionView::CountIdentities { user_id: identity_user },
            )
        } else {
            fail
        },
        (ApproveState::Counting { identity_user }, ApproveEvent::Counted { count }) => if count
            == Some(0i64) {
            (ApproveState::Removing, ApproveActionView::RemoveUser { user_id: identity_user })
        } else {
            (ApproveState::Activating, ApproveActionView::Activate)
        },
        (ApproveState::Removing, ApproveEvent::Removed) => (
            ApproveState::Activating,
            ApproveActionView::Activate,
        ),
        (ApproveState::LoadingSource { identity_user }, ApproveEvent::SourceUser { username: u }) =>
            match u {
            None => fail,
            Some(current) => if current@ != username {
                (
                    ApproveState::CheckingName { identity_user },
                    ApproveActionView::FindUsername { username },
                )
            } else {
                (ApproveState::Activating, ApproveActionView::Activate)
            },
        },
        (ApproveState::CheckingName { identity_user }, ApproveEvent::NameOwner { owner }) =>
            match owner {
            Err(_) => fail,
            Ok(Some(other)) => if other != identity_user {
                (ApproveState::Done, redirect("/web/admin?error=username_exists"@))
            } else {
                (ApproveState::Renaming, ApproveActionView::Rename { user_id: identity_user, username })
            },
            Ok(None) => (
                ApproveState::Renaming,
                ApproveActionView::Rename { user_id: identity_user, username },
            ),
        },
        (ApproveState::Renaming, ApproveEvent::Renamed { result }) => match result {
            Ok(()) => (ApproveState::Activating, ApproveActionView::Activate),
            Err(msg) => if crate::oauth::is_unique_violation_spec(None, msg@) {
                (ApproveState::Done, redirect("/web/admin?error=username_exists"@))
            } else {
                fail
            },
        },
        (ApproveState::Activating, ApproveEvent::Activated { ok }) => if ok {
            (ApproveState::Done, redirect("/web/admin?msg=approved"@))
        } else {
            fail
        },
        _ => fail,
    }
}

/// One step of approving an identity.
pub fn approve_step(
    link_user_id: Option<i64>,
    username: &str,
    username_valid: bool,
    state: ApproveState,
    event: ApproveEvent,
) -> (r: (ApproveState, ApproveAction))
    ensures
        (r.0, r.1@) == approve_step_spec(link_user_id, username@, username_valid, state, event),
{
    let fail = (ApproveState::Done, ApproveAction::Redirect { to: "/web/admin?error=db_error" });
    match (state, event) {
        (ApproveState::Start, ApproveEvent::Begin { csrf_ok }) => if csrf_ok {
            (ApproveState::LoadingIdentity, ApproveAction::LoadIdentity)
        } else {
            (ApproveState::Done, ApproveAction::Forbidden)
        },
        (ApproveState::LoadingIdentity, ApproveEvent::Identity { user_id }) => match user_id {
            None => fail,
            Some(uid) => {
                let target = match link_user_id {
                    Some(t) => if t > 0 {
                        Some(t)
                    } else {
                        None
                    },
                    None => None,
                };
                match target {
                    Some(t) => (
                        ApproveState::CheckingTarget { identity_user: uid, target: t },
                        ApproveAction::CheckUser { user_id: t },
                    ),
                    None => if username.is_empty() {
                        (ApproveState::Done, ApproveAction::Redirect { to: "/web/admin?error=username_empty" })
                    } else if !username_valid {
                        (
                            ApproveState::Done,
                            ApproveAction::Redirect { to: "/web/admin?error=username_invalid" },
                        )
                    } else {
                        (
                            ApproveState::LoadingSource { identity_user: uid },
                            ApproveAction::LoadUser { user_id: uid },
                        )
                    },
                }
            },
        },
        (ApproveState::CheckingTarget { identity_user, target }, ApproveEvent::TargetExists { ok }) =>
            if !ok {
            fail
        } else if target != identity_user {
            (ApproveState::Reassigning { identity_user }, ApproveAction::Reassign { target })
        } else {
            (ApproveState::Activating, ApproveAction::Activate)
        },
        (ApproveState::Reassigning { identity_user }, ApproveEvent::Reassigned { ok }) => if ok {
            (
                ApproveState::Counting { identity_user },
                ApproveAction::CountIdentities { user_id: identity_user },
            )
        } else {
            fail
        },
        (ApproveState::Counting { identity_user }, ApproveEvent::Counted { count }) => {
            let none_left = match count {
                Some(c) => c == 0,
                None => false,
            };
            if none_left {
                (ApproveState::Removing, ApproveAction::RemoveUser { user_id: identity_user })
            } else {
                (ApproveState::Activating, ApproveAction::Activate)
            }
        },
        (ApproveState::Removing, ApproveEvent::Removed) => (
            ApproveState::Activating,
            ApproveAction::Activate,
        ),
        (ApproveState::LoadingSource { identity_user }, ApproveEvent::SourceUser { username: u }) =>
            match u {
            None => fail,
            Some(current) => if !str_eq(current.as_str(), username) {
                (
                    ApproveState::CheckingName { identity_user },
                    ApproveAction::FindUsername { username: username.to_owned() },
                )
            } else {
                (ApproveState::Activating, ApproveAction::Activate)
            },
        },
        (ApproveState::CheckingName { identity_user }, ApproveEvent::NameOwner { owner }) =>
            match owner {
            Err(_) => fail,
            Ok(Some(other)) => if other != identity_user {
                (ApproveState::Done, ApproveAction::Redirect { to: "/web/admin?error=username_exists" })
            } else {
                (
                    ApproveState::Renaming,
                    ApproveAction::Rename { user_id: identity_user, username: username.to_owned() },
                )
            },
            Ok(None) => (
                ApproveState::Renaming,
                ApproveAction::Rename { user_id: identity_user, username: username.to_owned() },
            ),
        },
        (ApproveState::Renaming, ApproveEvent::Renamed { result }) => match result {
            Ok(()) => (ApproveState::Activating, ApproveAction::Activate),
            Err(msg) => if crate::oauth::is_unique_violation(None, msg.as_str()) {
                (ApproveState::Done, ApproveAction::Redirect { to: "/web/admin?error=username_exists" })
            } else {
                fail
            },
        },
        (ApproveState::Activating, ApproveEvent::Activated { ok }) => if ok {
            (ApproveState::Done, ApproveAction::Redirect { to: "/web/admin?msg=approved" })
        } else {
            fail
        },
        _ => fail,
    }
}

/// The requested username, trimmed.
pub fn requested_username(form: &ApproveForm) -> (r: String)
    ensures
        r@ == trim(form.new_username@),
{
    let t = trim_str(form.new_username.as_str());
    from_chars(t.as_slice())
}

} // verus!
