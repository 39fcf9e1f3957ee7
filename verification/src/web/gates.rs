//! Who may pass: Basic credentials of OPDS requests, the session check of
//! the web pages, and where sign-in and password changes lead.
use vstd::prelude::*;
use vstd::utf8::{decode_utf8, encode_utf8, valid_utf8};
use base64::Engine;
use crate::opds::feeds::{percent_encode, url_encode};
use crate::text::{
    extend_str, find_char, first_index, from_chars, slice_chars, split_once_chars, split_once_spec,
    starts_with_str, str_eq, to_chars,
};

verus! {

/// What `base64::engine::general_purpose::STANDARD.decode` gives for the
/// text: the bytes, or `None` for text that is not padded standard base64.
pub uninterp spec fn base64_standard(text: Seq<char>) -> Option<Seq<u8>>;

/// `STANDARD.decode`.
#[verifier::external_body]
fn base64_decode(text: &str) -> (r: Option<Vec<u8>>)
    ensures
        match base64_standard(text@) {
            Some(b) => r matches Some(v) && v@ == b,
            None => r is None,
        },
{
    base64::engine::general_purpose::STANDARD.decode(text).ok()
}

/// `String::from_utf8`: the text of valid UTF-8 bytes.
#[verifier::external_body]
fn text_of_utf8(bytes: Vec<u8>) -> (r: Option<String>)
    ensures
        match r {
            Some(s) => valid_utf8(bytes@) && s@ == decode_utf8(bytes@),
            None => !valid_utf8(bytes@),
        },
{
    String::from_utf8(bytes).ok()
}

/// The user name and password of an `Authorization: Basic …` header: the
/// base64 after `Basic `, decoded, read as UTF-8 and split at its first `:`.
pub open spec fn basic_credentials_spec(header: Option<Seq<char>>) -> Option<(Seq<char>, Seq<char>)> {
    match header {
        None => None,
        Some(h) => if h.len() >= 6 && h.take(6) == "Basic "@ {
            match base64_standard(h.skip(6)) {
                None => None,
                Some(bytes) => if valid_utf8(bytes) {
                    split_once_spec(decode_utf8(bytes), ':')
                } else {
                    None
                },
            }
        } else {
            None
        },
    }
}

pub fn basic_credentials(header: Option<&str>) -> (r: Option<(String, String)>)
    ensures
        match basic_credentials_spec(crate::opds::xml::opt_str_view(header)) {
            Some((u, p)) => r matches Some((a, b)) && a@ == u && b@ == p,
            None => r is None,
        },
{
    let h = match header {
        Some(h) => h,
        None => return None,
    };
    proof {
        reveal_strlit("Basic ");
    }
    if !starts_with_str(h, "Basic ") {
        return None;
    }
    let chars = to_chars(h);
    let rest = slice_chars(chars.as_slice(), 6, chars.len());
    let encoded = from_chars(rest.as_slice());
    proof {
        assert(rest@ =~= h@.skip(6));
    }
    let bytes = match base64_decode(encoded.as_str()) {
        Some(b) => b,
        None => return None,
    };
    let text = match text_of_utf8(bytes) {
        Some(t) => t,
        None => return None,
    };
    let tc = to_chars(text.as_str());
    match split_once_chars(tc.as_slice(), ':') {
        Some((u, p)) => Some((from_chars(u.as_slice()), from_chars(p.as_slice()))),
        None => None,
    }
}

// ---------------------------------------------------------------------------
// The web pages
// ---------------------------------------------------------------------------

/// What the session check of the web pages decides.
pub enum SessionGate {
    Pass,
    /// Redirect to this address.
    Redirect { to: String },
    /// The user must be asked whether a password change is required.
    CheckPasswordChange { user_id: i64 },
}

pub enum SessionGateView {
    Pass,
    Redirect { to: Seq<char> },
    CheckPasswordChange { user_id: i64 },
}

impl View for SessionGate {
    type V = SessionGateView;

    open spec fn view(&self) -> SessionGateView {
        match *self {
            SessionGate::Pass => SessionGateView::Pass,
            SessionGate::Redirect { to } => SessionGateView::Redirect { to: to@ },
            SessionGate::CheckPasswordChange { user_id } => SessionGateView::CheckPasswordChange { user_id },
        }
    }
}

/// `prefix` followed by the percent-encoded `/web{path}`.
pub open spec fn with_next(prefix: Seq<char>, path: Seq<char>) -> Seq<char> {
    prefix + percent_encode(encode_utf8("/web"@ + path))
}

/// Pages open without a session: the login page and language switching.
pub open spec fn is_public_page(path: Seq<char>) -> bool {
    path == "/login"@ || (path.len() >= 13 && path.take(13) == "/set-language"@)
}

/// Pages open while a password change is pending.
pub open spec fn is_password_page(path: Seq<char>) -> bool {
    path == "/change-password"@ || path == "/profile/password"@ || path == "/logout"@
}

/// With authentication required, a page other than the public ones needs a
/// valid session (else: to the login page, remembering the page); the
/// password pages then pass, and other pages depend on whether a password
/// change is required.
pub open spec fn session_gate_spec(auth_required: bool, path: Seq<char>, user: Option<i64>) -> SessionGateView {
    if !auth_required || is_public_page(path) {
        SessionGateView::Pass
    } else {
        match user {
            None => SessionGateView::Redirect { to: with_next("/web/login?next="@, path) },
            Some(uid) => if is_password_page(path) {
                SessionGateView::Pass
            } else {
                SessionGateView::CheckPasswordChange { user_id: uid }
            },
        }
    }
}

fn web_next(prefix: &str, path: &str) -> (r: String)
    ensures
        r@ == with_next(prefix@, path@),
{
    let mut p = to_chars("/web");
    extend_str(&mut p, path);
    let full = from_chars(p.as_slice());
    let enc = url_encode(full.as_str());
    let mut v = to_chars(prefix);
    extend_str(&mut v, enc.as_str());
    from_chars(v.as_slice())
}

/// The session check of a web page: `path` is relative to `/web`, `user` the
/// user of a valid session cookie.
pub fn session_gate(auth_required: bool, path: &str, user: Option<i64>) -> (r: SessionGate)
    ensures
        r@ == session_gate_spec(auth_required, path@, user),
{
    proof {
        reveal_strlit("/set-language");
    }
    let public = str_eq(path, "/login") || starts_with_str(path, "/set-language");
    if !auth_required || public {
        return SessionGate::Pass;
    }
    match user {
        None => SessionGate::Redirect { to: web_next("/web/login?next=", path) },
        Some(uid) => if str_eq(path, "/change-password") || str_eq(path, "/profile/password") || str_eq(
            path,
            "/logout",
        ) {
            SessionGate::Pass
        } else {
            SessionGate::CheckPasswordChange { user_id: uid }
        },
    }
}

/// After asking whether a password change is required (`None` when the
/// database could not tell, which counts as required): pass, or go change
/// the password first, remembering the page.
pub open spec fn password_gate_spec(path: Seq<char>, must_change: Option<bool>) -> SessionGateView {
    if must_change == Some(false) {
        SessionGateView::Pass
    } else {
        SessionGateView::Redirect { to: with_next("/web/change-password?next="@, path) }
    }
}

pub fn password_gate(path: &str, must_change: Option<bool>) -> (r: SessionGate)
    ensures
        r@ == password_gate_spec(path@, must_change),
{
    match must_change {
        Some(false) => SessionGate::Pass,
        _ => SessionGate::Redirect { to: web_next("/web/change-password?next=", path) },
    }
}

/// Only a local page (starting with `/`) is followed after sign-in; any other
/// target, or none, leads to the book shelf.
pub open spec fn login_target_spec(next: Option<Seq<char>>) -> Seq<char> {
    match next {
        Some(n) => if n.len() > 0 && n[0] == '/' {
            n
        } else {
            "/web/bookshelf"@
        },
        None => "/web/bookshelf"@,
    }
}

pub fn login_target(next: Option<&str>) -> (r: String)
    ensures
        r@ == login_target_spec(crate::opds::xml::opt_str_view(next)),
{
    match next {
        Some(n) => if !n.is_empty() && starts_with_str(n, "/") {
            proof {
                reveal_strlit("/");
                assert(n@.take(1)[0] == n@[0]);
                assert(n@[0] == '/');
            }
            n.to_owned()
        } else {
            proof {
                reveal_strlit("/");
                if n@.len() > 0 && n@[0] == '/' {
                    assert(n@.take(1) =~= "/"@);
                }
            }
            "/web/bookshelf".to_owned()
        },
        None => "/web/bookshelf".to_owned(),
    }
}

/// Where a failed sign-in leads: the login page with an error, keeping the
/// requested page.
pub open spec fn login_failed_spec(next: Option<Seq<char>>) -> Seq<char> {
    "/web/login?error=1&next="@ + percent_encode(
        encode_utf8(
            match next {
                Some(n) => n,
                None => Seq::empty(),
            },
        ),
    )
}

pub fn login_failed_url(next: Option<&str>) -> (r: String)
    ensures
        r@ == login_failed_spec(crate::opds::xml::opt_str_view(next)),
{
    let n = match next {
        Some(n) => n,
        None => "",
    };
    proof {
        reveal_strlit("");
    }
    let enc = url_encode(n);
    let mut v = to_chars("/web/login?error=1&next=");
    extend_str(&mut v, enc.as_str());
    from_chars(v.as_slice())
}

} // verus!
