//! OAuth providers and the identity they report.
use vstd::prelude::*;
use crate::decimal::{decimal, push_decimal};
use crate::text::{extend_str, from_chars, str_eq, to_chars, to_lowercase, unicode_lowercase};
use crate::util::{slugify_spec, slugify_username};
use crate::parsers::epub::{contains_sub, str_contains};

verus! {

/// Which OAuth provider was used.
#[derive(Debug, Clone, Copy, PartialEq, Eq, Structural)]
pub enum ProviderKind {
    Google,
    Yandex,
    Keycloak,
}

pub open spec fn provider_name(p: ProviderKind) -> Seq<char> {
    match p {
        ProviderKind::Google => seq!['g', 'o', 'o', 'g', 'l', 'e'],
        ProviderKind::Yandex => seq!['y', 'a', 'n', 'd', 'e', 'x'],
        ProviderKind::Keycloak => seq!['k', 'e', 'y', 'c', 'l', 'o', 'a', 'k'],
    }
}

impl ProviderKind {
    pub fn as_str(self) -> (r: &'static str)
        ensures
            r@ == provider_name(self),
    {
        match self {
            ProviderKind::Google => {
                let s = "google";
                proof {
                    reveal_strlit("google");
                }
                s
            },
            ProviderKind::Yandex => {
                let s = "yandex";
                proof {
                    reveal_strlit("yandex");
                }
                s
            },
            ProviderKind::Keycloak => {
                let s = "keycloak";
                proof {
                    reveal_strlit("keycloak");
                }
                s
            },
        }
    }

    /// The provider whose name is `s`, if any (the inverse of `as_str`).
    pub fn parse(s: &str) -> (r: Option<ProviderKind>)
        ensures
            r matches Some(p) ==> provider_name(p) == s@,
            r is None ==> forall|p: ProviderKind| provider_name(p) != s@,
    {
        if str_eq(s, ProviderKind::Google.as_str()) {
            Some(ProviderKind::Google)
        } else if str_eq(s, ProviderKind::Yandex.as_str()) {
            Some(ProviderKind::Yandex)
        } else if str_eq(s, ProviderKind::Keycloak.as_str()) {
            Some(ProviderKind::Keycloak)
        } else {
            proof {
                assert forall|p: ProviderKind| provider_name(p) != s@ by {
                    match p {
                        ProviderKind::Google => {},
                        ProviderKind::Yandex => {},
                        ProviderKind::Keycloak => {},
                    }
                }
            }
            None
        }
    }
}

impl std::str::FromStr for ProviderKind {
    type Err = ();

    fn from_str(s: &str) -> (r: Result<Self, ()>)
        ensures
            match r {
                Ok(p) => provider_name(p) == s@,
                Err(_) => forall|p: ProviderKind| provider_name(p) != s@,
            },
    {
        match ProviderKind::parse(s) {
            Some(p) => Ok(p),
            None => Err(()),
        }
    }
}

/// A provider's name identifies it, so parsing `as_str` gives the provider back.
pub proof fn lemma_provider_name_injective(a: ProviderKind, b: ProviderKind)
    requires
        provider_name(a) == provider_name(b),
    ensures
        a == b,
{
    if a != b {
        match (a, b) {
            (ProviderKind::Google, ProviderKind::Yandex) => {
                assert(provider_name(a)[0] != provider_name(b)[0]);
            },
            (ProviderKind::Yandex, ProviderKind::Google) => {
                assert(provider_name(a)[0] != provider_name(b)[0]);
            },
            (ProviderKind::Google, ProviderKind::Keycloak) => {
                assert(provider_name(a).len() != provider_name(b).len());
            },
            (ProviderKind::Keycloak, ProviderKind::Google) => {
                assert(provider_name(a).len() != provider_name(b).len());
            },
            (ProviderKind::Yandex, ProviderKind::Keycloak) => {
                assert(provider_name(a).len() != provider_name(b).len());
            },
            (ProviderKind::Keycloak, ProviderKind::Yandex) => {
                assert(provider_name(a).len() != provider_name(b).len());
            },
            _ => {},
        }
    }
}

/// Normalized identity returned from any provider's userinfo endpoint.
pub struct UserInfo {
    pub provider: ProviderKind,
    pub provider_uid: String,
    pub email: Option<String>,
    pub display_name: Option<String>,
    /// Populated only for Keycloak (from realm_access.roles via client mapper).
    pub roles: Vec<String>,
}

/// The string-valued members of a userinfo JSON object that the providers use
/// (`None` where the member is absent or not a string).
pub struct UserInfoFields {
    pub sub: Option<String>,
    pub id: Option<String>,
    pub email: Option<String>,
    pub name: Option<String>,
    pub default_email: Option<String>,
    pub login: Option<String>,
    pub real_name: Option<String>,
    pub display_name: Option<String>,
    pub preferred_username: Option<String>,
    /// The string entries of `realm_access.roles`, in order.
    pub realm_roles: Vec<String>,
}

pub open spec fn opt_view(o: Option<String>) -> Option<Seq<char>> {
    match o {
        Some(s) => Some(s@),
        None => None,
    }
}

pub open spec fn or_else(a: Option<Seq<char>>, b: Option<Seq<char>>) -> Option<Seq<char>> {
    match a {
        Some(x) => Some(x),
        None => b,
    }
}

/// Errors of `parse_userinfo`: the member carrying the user id is missing.
#[derive(Debug, Clone, Copy, PartialEq, Eq, Structural)]
pub enum UserInfoError {
    /// Google userinfo missing 'sub'.
    GoogleMissingSub,
    /// Yandex userinfo missing 'id'.
    YandexMissingId,
    /// Keycloak userinfo missing 'sub'.
    KeycloakMissingSub,
}

fn clone_opt(o: &Option<String>) -> (r: Option<String>)
    ensures
        opt_view(r) == opt_view(*o),
{
    match o {
        Some(s) => Some(from_chars(to_chars(s.as_str()).as_slice())),
        None => None,
    }
}

fn first_some(a: &Option<String>, b: &Option<String>) -> (r: Option<String>)
    ensures
        opt_view(r) == or_else(opt_view(*a), opt_view(*b)),
{
    match a {
        Some(_) => clone_opt(a),
        None => clone_opt(b),
    }
}

pub open spec fn roles_view(v: Seq<String>) -> Seq<Seq<char>> {
    v.map_values(|x: String| x@)
}

fn clone_strings(v: &Vec<String>) -> (r: Vec<String>)
    ensures
        roles_view(r@) == roles_view(v@),
{
    let mut r: Vec<String> = Vec::new();
    let mut i: usize = 0;
    while i < v.len()
        invariant
            i <= v.len(),
            roles_view(r@) == roles_view(v@).take(i as int),
        decreases v.len() - i,
    {
        let s = from_chars(to_chars(v[i].as_str()).as_slice());
        let ghost before = r@;
        r.push(s);
        proof {
            assert(roles_view(r@) =~= roles_view(before).push(s@));
            assert(roles_view(v@).take(i + 1) =~= roles_view(v@).take(i as int).push(v@[i as int]@));
        }
        i += 1;
    }
    proof {
        assert(roles_view(v@).take(v.len() as int) =~= roles_view(v@));
    }
    r
}

/// The identity a provider's userinfo describes.
pub open spec fn userinfo_spec(provider: ProviderKind, f: UserInfoFields, info: UserInfo) -> bool {
    &&& info.provider == provider
    &&& match provider {
        ProviderKind::Google => {
            &&& opt_view(f.sub) == Some(info.provider_uid@)
            &&& opt_view(info.email) == opt_view(f.email)
            &&& opt_view(info.display_name) == opt_view(f.name)
            &&& info.roles@.len() == 0
        },
        ProviderKind::Yandex => {
            &&& opt_view(f.id) == Some(info.provider_uid@)
            &&& opt_view(info.email) == or_else(opt_view(f.default_email), opt_view(f.login))
            &&& opt_view(info.display_name) == or_else(
                opt_view(f.real_name),
                or_else(opt_view(f.display_name), opt_view(f.login)),
            )
            &&& info.roles@.len() == 0
        },
        ProviderKind::Keycloak => {
            &&& opt_view(f.sub) == Some(info.provider_uid@)
            &&& opt_view(info.email) == opt_view(f.email)
            &&& opt_view(info.display_name) == or_else(
                opt_view(f.name),
                opt_view(f.preferred_username),
            )
            &&& roles_view(info.roles@) == roles_view(f.realm_roles@)
        },
    }
}

/// Parse a provider's userinfo members into a [`UserInfo`].
pub fn parse_userinfo(provider: ProviderKind, fields: &UserInfoFields) -> (r: Result<
    UserInfo,
    UserInfoError,
>)
    ensures
        match r {
            Ok(info) => userinfo_spec(provider, *fields, info),
            Err(e) => match provider {
                ProviderKind::Google => fields.sub is None && e == UserInfoError::GoogleMissingSub,
                ProviderKind::Yandex => fields.id is None && e == UserInfoError::YandexMissingId,
                ProviderKind::Keycloak => fields.sub is None && e
                    == UserInfoError::KeycloakMissingSub,
            },
        },
{
    match provider {
        ProviderKind::Google => {
            let uid = match clone_opt(&fields.sub) {
                Some(u) => u,
                None => return Err(UserInfoError::GoogleMissingSub),
            };
            Ok(
                UserInfo {
                    provider: ProviderKind::Google,
                    provider_uid: uid,
                    email: clone_opt(&fields.email),
                    display_name: clone_opt(&fields.name),
                    roles: Vec::new(),
                },
            )
        },
        ProviderKind::Yandex => {
            let uid = match clone_opt(&fields.id) {
                Some(u) => u,
                None => return Err(UserInfoError::YandexMissingId),
            };
            let name_tail = first_some(&fields.display_name, &fields.login);
            Ok(
                UserInfo {
                    provider: ProviderKind::Yandex,
                    provider_uid: uid,
                    email: first_some(&fields.default_email, &fields.login),
                    display_name: first_some(&fields.real_name, &name_tail),
                    roles: Vec::new(),
                },
            )
        },
        ProviderKind::Keycloak => {
            let uid = match clone_opt(&fields.sub) {
                Some(u) => u,
                None => return Err(UserInfoError::KeycloakMissingSub),
            };
            Ok(
                UserInfo {
                    provider: ProviderKind::Keycloak,
                    provider_uid: uid,
                    email: clone_opt(&fields.email),
                    display_name: first_some(&fields.name, &fields.preferred_username),
                    roles: clone_strings(&fields.realm_roles),
                },
            )
        },
    }
}

/// Candidate username for the `attempt`-th try: the base name first, then
/// `{base}_{attempt}`.
pub open spec fn username_candidate_spec(base: Seq<char>, attempt: u32) -> Seq<char> {
    if attempt <= 1 {
        base
    } else {
        base + seq!['_'] + decimal(attempt as nat)
    }
}

pub fn username_candidate(base: &str, attempt: u32) -> (r: String)
    ensures
        r@ == username_candidate_spec(base@, attempt),
{
    let mut v = to_chars(base);
    if attempt > 1 {
        v.push('_');
        push_decimal(&mut v, attempt as u64);
    }
    proof {
        assert(v@ =~= username_candidate_spec(base@, attempt));
    }
    from_chars(v.as_slice())
}


// ---------------------------------------------------------------------------
// Creating the local account of a new identity
// ---------------------------------------------------------------------------

/// Usernames tried before giving up.
pub const MAX_USERNAME_ATTEMPTS: u32 = 1000;

/// Whether a database error reports a duplicate key: by its SQLSTATE or
/// SQLite code, or by `unique` or `duplicate` in its message in any case.
pub open spec fn is_unique_violation_spec(code: Option<Seq<char>>, message: Seq<char>) -> bool {
    (match code {
        Some(c) => c == "23505"@ || c == "2067"@ || c == "1555"@ || c == "23000"@,
        None => false,
    }) || contains_sub(unicode_lowercase(message), "unique"@) || contains_sub(
        unicode_lowercase(message),
        "duplicate"@,
    )
}

pub fn is_unique_violation(code: Option<&str>, message: &str) -> (r: bool)
    ensures
        r == is_unique_violation_spec(crate::opds::xml::opt_str_view(code), message@),
{
    let by_code = match code {
        Some(c) => str_eq(c, "23505") || str_eq(c, "2067") || str_eq(c, "1555") || str_eq(
            c,
            "23000",
        ),
        None => false,
    };
    if by_code {
        return true;
    }
    let lower = to_lowercase(message);
    str_contains(lower.as_str(), "unique") || str_contains(lower.as_str(), "duplicate")
}

/// The base of the username of a new identity: its display name slugified,
/// or `user`.
pub fn new_user_base(display_name: Option<&str>) -> (r: String)
    ensures
        r@ == (match crate::opds::xml::opt_str_view(display_name) {
            Some(d) => slugify_spec(d),
            None => "user"@,
        }),
{
    match display_name {
        Some(d) => slugify_username(d),
        None => "user".to_owned(),
    }
}

/// Where the creation of the account of a new identity stands.
#[derive(Debug, Clone, Copy, PartialEq, Eq, Structural)]
pub enum NewIdentityState {
    /// Creating the user under the candidate name of this attempt.
    CreatingUser { attempt: u32 },
    /// The user exists; its identity is being recorded.
    CreatingIdentity { user_id: i64 },
    /// Nothing is left to do.
    Finished,
}

/// The outcome of the last action.
#[derive(Debug, Clone, Copy, PartialEq, Eq, Structural)]
pub enum NewIdentityEvent {
    Begin,
    UserCreated { user_id: i64 },
    UsernameTaken,
    UserFailed,
    IdentityCreated,
    IdentityFailed,
}

/// What to do next.
pub enum NewIdentityAction {
    /// Create the user under this username and display name.
    CreateUser { username: String, display: String },
    /// Record the identity for this user.
    CreateIdentity { user_id: i64 },
    /// Remove the user again and answer with a server error.
    RemoveUserAndFail { user_id: i64, message: &'static str },
    /// Answer with a server error.
    Fail { message: &'static str },
    /// Activate the identity, apply the provider's roles and sign the user in.
    ActivateAndSignIn { user_id: i64 },
    /// Tell the administrators and show the pending page.
    AwaitApproval,
}

/// The account creation of a new identity: usernames `base`, `base_2`, … are
/// tried until one is free (at most `MAX_USERNAME_ATTEMPTS`), the display name
/// being the identity's or else the username; then the identity is recorded
/// (the user is removed again when that fails); then the identity is activated
/// when the provider approves automatically, else it awaits approval.
pub open spec fn new_identity_step_spec(
    base: Seq<char>,
    display_name: Option<Seq<char>>,
    auto_approve: bool,
    state: NewIdentityState,
    event: NewIdentityEvent,
) -> (NewIdentityState, NewIdentityActionView) {
    let try_user = |attempt: u32|
        (
            NewIdentityState::CreatingUser { attempt },
            NewIdentityActionView::CreateUser {
                username: username_candidate_spec(base, attempt),
                display: match display_name {
                    Some(d) => d,
                    None => username_candidate_spec(base, attempt),
                },
            },
        );
    match (state, event) {
        (NewIdentityState::CreatingUser { .. }, NewIdentityEvent::Begin) => try_user(1),
        (NewIdentityState::CreatingUser { .. }, NewIdentityEvent::UserCreated { user_id }) => (
            NewIdentityState::CreatingIdentity { user_id },
            NewIdentityActionView::CreateIdentity { user_id },
        ),
        (NewIdentityState::CreatingUser { attempt }, NewIdentityEvent::UsernameTaken) => if attempt
            < MAX_USERNAME_ATTEMPTS {
            try_user((attempt + 1) as u32)
        } else {
            (
                NewIdentityState::Finished,
                NewIdentityActionView::Fail { message: "Failed to assign username"@ },
            )
        },
        (NewIdentityState::CreatingUser { .. }, NewIdentityEvent::UserFailed) => (
            NewIdentityState::Finished,
            NewIdentityActionView::Fail { message: "Failed to create user"@ },
        ),
        (NewIdentityState::CreatingIdentity { user_id }, NewIdentityEvent::IdentityCreated) => (
            NewIdentityState::Finished,
            if auto_approve {
                NewIdentityActionView::ActivateAndSignIn { user_id }
            } else {
                NewIdentityActionView::AwaitApproval
            },
        ),
        (NewIdentityState::CreatingIdentity { user_id }, NewIdentityEvent::IdentityFailed) => (
            NewIdentityState::Finished,
            NewIdentityActionView::RemoveUserAndFail {
                user_id,
                message: "Failed to create identity"@,
            },
        ),
        _ => (NewIdentityState::Finished, NewIdentityActionView::Fail { message: "Unexpected step"@ }),
    }
}

pub enum NewIdentityActionView {
    CreateUser { username: Seq<char>, display: Seq<char> },
    CreateIdentity { user_id: i64 },
    RemoveUserAndFail { user_id: i64, message: Seq<char> },
    Fail { message: Seq<char> },
    ActivateAndSignIn { user_id: i64 },
    AwaitApproval,
}

impl View for NewIdentityAction {
    type V = NewIdentityActionView;

    open spec fn view(&self) -> NewIdentityActionView {
        match *self {
            NewIdentityAction::CreateUser { username, display } => NewIdentityActionView::CreateUser {
                username: username@,
                display: display@,
            },
            NewIdentityAction::CreateIdentity { user_id } => NewIdentityActionView::CreateIdentity {
                user_id,
            },
            NewIdentityAction::RemoveUserAndFail { user_id, message } =>
                NewIdentityActionView::RemoveUserAndFail { user_id, message: message@ },
            NewIdentityAction::Fail { message } => NewIdentityActionView::Fail { message: message@ },
            NewIdentityAction::ActivateAndSignIn { user_id } =>
                NewIdentityActionView::ActivateAndSignIn { user_id },
            NewIdentityAction::AwaitApproval => NewIdentityActionView::AwaitApproval,
        }
    }
}

fn try_user(base: &str, display_name: Option<&str>, attempt: u32) -> (r: (
    NewIdentityState,
    NewIdentityAction,
))
    ensures
        r.0 == (NewIdentityState::CreatingUser { attempt }),
        r.1@ == (NewIdentityActionView::CreateUser {
            username: username_candidate_spec(base@, attempt),
            display: match crate::opds::xml::opt_str_view(display_name) {
                Some(d) => d,
                None => username_candidate_spec(base@, attempt),
            },
        }),
{
    let username = username_candidate(base, attempt);
    let display = match display_name {
        Some(d) => d.to_owned(),
        None => username.clone(),
    };
    (NewIdentityState::CreatingUser { attempt }, NewIdentityAction::CreateUser { username, display })
}

/// One step of creating the account of a new identity.
pub fn new_identity_step(
    base: &str,
    display_name: Option<&str>,
    auto_approve: bool,
    state: NewIdentityState,
    event: NewIdentityEvent,
) -> (r: (NewIdentityState, NewIdentityAction))
    ensures
        (r.0, r.1@) == new_identity_step_spec(
            base@,
            crate::opds::xml::opt_str_view(display_name),
            auto_approve,
            state,
            event,
        ),
{
    match (state, event) {
        (NewIdentityState::CreatingUser { .. }, NewIdentityEvent::Begin) => try_user(
            base,
            display_name,
            1,
        ),
        (NewIdentityState::CreatingUser { .. }, NewIdentityEvent::UserCreated { user_id }) => (
            NewIdentityState::CreatingIdentity { user_id },
            NewIdentityAction::CreateIdentity { user_id },
        ),
        (NewIdentityState::CreatingUser { attempt }, NewIdentityEvent::UsernameTaken) => {
            if attempt < MAX_USERNAME_ATTEMPTS {
                try_user(base, display_name, attempt + 1)
            } else {
                (
                    NewIdentityState::Finished,
                    NewIdentityAction::Fail { message: "Failed to assign username" },
                )
            }
        },
        (NewIdentityState::CreatingUser { .. }, NewIdentityEvent::UserFailed) => (
            NewIdentityState::Finished,
            NewIdentityAction::Fail { message: "Failed to create user" },
        ),
        (NewIdentityState::CreatingIdentity { user_id }, NewIdentityEvent::IdentityCreated) => (
            NewIdentityState::Finished,
            if auto_approve {
                NewIdentityAction::ActivateAndSignIn { user_id }
            } else {
                NewIdentityAction::AwaitApproval
            },
        ),
        (NewIdentityState::CreatingIdentity { user_id }, NewIdentityEvent::IdentityFailed) => (
            NewIdentityState::Finished,
            NewIdentityAction::RemoveUserAndFail { user_id, message: "Failed to create identity" },
        ),
        _ => (NewIdentityState::Finished, NewIdentityAction::Fail { message: "Unexpected step" }),
    }
}

/// Whether an identity is approved on creation: Keycloak identities when the
/// configuration says so.
pub fn auto_approve(provider: ProviderKind, keycloak_auto_approve: bool) -> (r: bool)
    ensures
        r == (provider == ProviderKind::Keycloak && keycloak_auto_approve),
{
    match provider {
        ProviderKind::Keycloak => keycloak_auto_approve,
        _ => false,
    }
}

/// A flag granted by a configured role: `None` when no role is configured,
/// else 1 when the user holds the role and 0 otherwise.
pub open spec fn role_flag_spec(roles: Seq<Seq<char>>, role: Seq<char>) -> Option<i32> {
    if role.len() == 0 {
        None
    } else if roles.contains(role) {
        Some(1i32)
    } else {
        Some(0i32)
    }
}

pub fn role_flag(roles: &Vec<String>, role: &str) -> (r: Option<i32>)
    ensures
        r == role_flag_spec(crate::parsers::string_views(roles@), role@),
{
    if role.is_empty() {
        return None;
    }
    let mut i: usize = 0;
    while i < roles.len()
        invariant
            i <= roles.len(),
            role@.len() > 0,
            forall|j: int| 0 <= j < i ==> roles@[j]@ != role@,
        decreases roles.len() - i,
    {
        if str_eq(roles[i].as_str(), role) {
            proof {
                assert(crate::parsers::string_views(roles@)[i as int] == role@);
            }
            return Some(1);
        }
        i += 1;
    }
    proof {
        if crate::parsers::string_views(roles@).contains(role@) {
            let j = choose|j: int|
                0 <= j < roles@.len() && crate::parsers::string_views(roles@)[j] == role@;
            assert(roles@[j]@ == role@);
        }
    }
    Some(0)
}

/// The account flags to set from the roles a Keycloak user holds.
#[derive(Debug, Clone, Copy, PartialEq, Eq, Structural)]
pub enum RoleUpdate {
    Both { allow_upload: i32, is_superuser: i32 },
    Upload { allow_upload: i32 },
    Admin { is_superuser: i32 },
}

/// The flags granted by the configured upload and administrator roles; none
/// when neither role is configured.
pub open spec fn role_update_spec(roles: Seq<Seq<char>>, upload_role: Seq<char>, admin_role: Seq<char>) -> Option<
    RoleUpdate,
> {
    match (role_flag_spec(roles, upload_role), role_flag_spec(roles, admin_role)) {
        (Some(u), Some(a)) => Some(RoleUpdate::Both { allow_upload: u, is_superuser: a }),
        (Some(u), None) => Some(RoleUpdate::Upload { allow_upload: u }),
        (None, Some(a)) => Some(RoleUpdate::Admin { is_superuser: a }),
        (None, None) => None,
    }
}

pub fn keycloak_role_update(roles: &Vec<String>, upload_role: &str, admin_role: &str) -> (r: Option<RoleUpdate>)
    ensures
        r == role_update_spec(crate::parsers::string_views(roles@), upload_role@, admin_role@),
{
    match (role_flag(roles, upload_role), role_flag(roles, admin_role)) {
        (Some(u), Some(a)) => Some(RoleUpdate::Both { allow_upload: u, is_superuser: a }),
        (Some(u), None) => Some(RoleUpdate::Upload { allow_upload: u }),
        (None, Some(a)) => Some(RoleUpdate::Admin { is_superuser: a }),
        (None, None) => None,
    }
}

/// What is done when a known identity signs in again.
#[derive(Debug, Clone, Copy, PartialEq, Eq, Structural)]
pub enum ExistingIdentityAction {
    /// Sign the user in, first applying the provider's roles when `sync_roles`.
    SignIn { user_id: i64, sync_roles: bool },
    /// Show that approval is pending.
    ShowPending,
    /// The rejection has cooled down: mark the identity pending again, tell
    /// the administrators, and show that approval is pending.
    Reapply { identity_id: i64 },
    /// Show that the identity was rejected, with the time of the next try.
    ShowRejected,
    ShowBanned,
    /// Back to the login page with an error.
    LoginError,
}

/// By the identity's status: an active one signs in (Keycloak roles synced),
/// a pending one waits, a rejected one may apply again once
/// `cooldown_hours` have passed since the rejection (`elapsed_secs`, 0 when
/// the rejection time is unknown), a banned one is refused, and any other
/// status goes back to the login page.
pub open spec fn existing_identity_spec(
    status: Seq<char>,
    identity_id: i64,
    user_id: i64,
    provider: ProviderKind,
    cooldown_hours: u32,
    elapsed_secs: i64,
) -> ExistingIdentityAction {
    if status == "active"@ {
        ExistingIdentityAction::SignIn { user_id, sync_roles: provider == ProviderKind::Keycloak }
    } else if status == "pending"@ {
        ExistingIdentityAction::ShowPending
    } else if status == "rejected"@ {
        if elapsed_secs >= cooldown_hours * 3600 {
            ExistingIdentityAction::Reapply { identity_id }
        } else {
            ExistingIdentityAction::ShowRejected
        }
    } else if status == "banned"@ {
        ExistingIdentityAction::ShowBanned
    } else {
        ExistingIdentityAction::LoginError
    }
}

pub fn existing_identity_action(
    status: &str,
    identity_id: i64,
    user_id: i64,
    provider: ProviderKind,
    cooldown_hours: u32,
    elapsed_secs: i64,
) -> (r: ExistingIdentityAction)
    ensures
        r == existing_identity_spec(status@, identity_id, user_id, provider, cooldown_hours, elapsed_secs),
{
    if str_eq(status, "active") {
        ExistingIdentityAction::SignIn { user_id, sync_roles: provider == ProviderKind::Keycloak }
    } else if str_eq(status, "pending") {
        ExistingIdentityAction::ShowPending
    } else if str_eq(status, "rejected") {
        let cooldown_secs: i64 = cooldown_hours as i64 * 3600;
        if elapsed_secs >= cooldown_secs {
            ExistingIdentityAction::Reapply { identity_id }
        } else {
            ExistingIdentityAction::ShowRejected
        }
    } else if str_eq(status, "banned") {
        ExistingIdentityAction::ShowBanned
    } else {
        ExistingIdentityAction::LoginError
    }
}

} // verus!
