//! Signed session cookies, OAuth state cookies and CSRF tokens.
//!
//! A signed value has the form `{payload}:{hex HMAC-SHA256 of payload}`; the
//! session payload is `{user_id}:{expiry}` and the OAuth state payload is
//! `{state}:{expiry}`, expiries being UNIX timestamps in seconds.
use vstd::prelude::*;
use vstd::utf8::encode_utf8;
use crate::crypto::{
    hex_decode, hex_decode_spec, hex_encode, hex_lower, hmac_sha256, hmac_sha256_spec,
    hmac_sha256_verify, lemma_hex_roundtrip,
};
use crate::decimal::{
    lemma_parse_signed_decimal, parse_i64, parse_i64_spec, parse_int, push_signed_decimal,
    signed_decimal,
};
use crate::text::{
    chars_eq, chars_eq_str, extend_chars, extend_str, from_chars, lemma_split_once_concat,
    split3_chars, split3_spec, split_once_spec, to_chars,
};

verus! {

/// Seconds since the UNIX epoch, read from the system clock (`SystemTime::now`
/// and `duration_since`): 0 for a clock before the epoch, saturated at the
/// largest `i64`.
#[verifier::external_body]
pub(crate) fn unix_now() -> (r: i64)
    ensures
        r >= 0,
{
    match std::time::SystemTime::now().duration_since(std::time::UNIX_EPOCH) {
        Ok(d) => i64::try_from(d.as_secs()).unwrap_or(i64::MAX),
        Err(_) => 0,
    }
}

/// `{user_id}:{expiry}`.
pub open spec fn session_payload(user_id: int, expiry: int) -> Seq<char> {
    signed_decimal(user_id) + seq![':'] + signed_decimal(expiry)
}

/// `{payload}:{hex HMAC-SHA256(secret, UTF-8 payload)}`.
pub open spec fn signed_value(payload: Seq<char>, secret: Seq<u8>) -> Seq<char> {
    payload + seq![':'] + hex_lower(hmac_sha256_spec(secret, encode_utf8(payload)))
}

/// Appends `:` and the hex signature of `payload` to `payload`.
fn sign_payload(payload: Vec<char>, secret: &[u8]) -> (r: String)
    ensures
        r@ == signed_value(payload@, secret@),
{
    let payload_str = from_chars(payload.as_slice());
    let tag = hmac_sha256(secret, payload_str.as_str().as_bytes());
    let sig = hex_encode(tag.as_slice());
    let mut out = payload;
    out.push(':');
    extend_str(&mut out, sig.as_str());
    proof {
        assert(out@ =~= signed_value(payload@, secret@));
    }
    from_chars(out.as_slice())
}

/// Create a signed session cookie value `{user_id}:{expiry}:{hex_signature}`
/// expiring `ttl_hours` after `now`.
pub fn sign_session_at(user_id: i64, secret: &[u8], ttl_hours: u64, now: i64) -> (r: String)
    requires
        ttl_hours * 3600 <= i64::MAX,
        now + ttl_hours * 3600 <= i64::MAX,
    ensures
        r@ == signed_value(session_payload(user_id as int, now + ttl_hours * 3600), secret@),
{
    let expiry: i64 = now + (ttl_hours * 3600) as i64;
    let mut payload: Vec<char> = Vec::new();
    push_signed_decimal(&mut payload, user_id);
    payload.push(':');
    push_signed_decimal(&mut payload, expiry);
    proof {
        assert(payload@ =~= session_payload(user_id as int, expiry as int));
    }
    sign_payload(payload, secret)
}

/// Create a signed session cookie value valid for `ttl_hours` from the current time.
/// (An expiry past the largest timestamp is clamped to it.)
pub fn sign_session(user_id: i64, secret: &[u8], ttl_hours: u64) -> (r: String)
    requires
        ttl_hours * 3600 <= i64::MAX,
    ensures
        exists|now: int|
            0 <= now <= i64::MAX - ttl_hours * 3600 && r@ == #[trigger] signed_value(
                session_payload(user_id as int, now + ttl_hours * 3600),
                secret@,
            ),
{
    let now = unix_now();
    let delta = (ttl_hours * 3600) as i64;
    let now = if now > i64::MAX - delta {
        i64::MAX - delta
    } else {
        now
    };
    let r = sign_session_at(user_id, secret, ttl_hours, now);
    proof {
        assert(r@ == signed_value(
            session_payload(user_id as int, now + ttl_hours * 3600),
            secret@,
        ));
    }
    r
}

/// The user id a session cookie value carries, when it is well formed, not
/// expired at `now`, and its signature is the HMAC of `{user_id}:{expiry}`.
pub open spec fn verify_session_spec(cookie: Seq<char>, secret: Seq<u8>, now: int) -> Option<i64> {
    match split3_spec(cookie, ':') {
        Some((uid_s, exp_s, sig_s)) => match (parse_i64_spec(uid_s), parse_i64_spec(exp_s)) {
            (Some(uid), Some(expiry)) => if now > expiry {
                None
            } else {
                match hex_decode_spec(sig_s) {
                    Some(tag) => if tag == hmac_sha256_spec(
                        secret,
                        encode_utf8(uid_s + seq![':'] + exp_s),
                    ) {
                        Some(uid)
                    } else {
                        None
                    },
                    None => None,
                }
            },
            _ => None,
        },
        None => None,
    }
}

/// Checks the signature of `{a}:{b}` against the hex signature `sig`.
fn check_signature(a: &[char], b: &[char], sig: &[char], secret: &[u8]) -> (ok: bool)
    ensures
        ok == match hex_decode_spec(sig@) {
            Some(tag) => tag == hmac_sha256_spec(secret@, encode_utf8(a@ + seq![':'] + b@)),
            None => false,
        },
{
    let mut payload = copy_vec(a);
    payload.push(':');
    extend_chars(&mut payload, b);
    proof {
        assert(payload@ =~= a@ + seq![':'] + b@);
    }
    let payload_str = from_chars(payload.as_slice());
    let sig_str = from_chars(sig);
    match hex_decode(sig_str.as_str()) {
        Some(tag) => hmac_sha256_verify(secret, payload_str.as_str().as_bytes(), tag.as_slice()),
        None => false,
    }
}

fn copy_vec(a: &[char]) -> (r: Vec<char>)
    ensures
        r@ == a@,
{
    crate::text::copy_chars(a)
}

/// Verify a signed session cookie value at time `now`.
pub fn verify_session_at(cookie_value: &str, secret: &[u8], now: i64) -> (r: Option<i64>)
    ensures
        r == verify_session_spec(cookie_value@, secret@, now as int),
{
    let chars = to_chars(cookie_value);
    let (uid_s, exp_s, sig_s) = match split3_chars(chars.as_slice(), ':') {
        Some(parts) => parts,
        None => return None,
    };
    let user_id = match parse_i64(uid_s.as_slice()) {
        Some(v) => v,
        None => return None,
    };
    let expiry = match parse_i64(exp_s.as_slice()) {
        Some(v) => v,
        None => return None,
    };
    if now > expiry {
        return None;
    }
    if check_signature(uid_s.as_slice(), exp_s.as_slice(), sig_s.as_slice(), secret) {
        Some(user_id)
    } else {
        None
    }
}

/// Verify a signed session cookie value. Returns user_id if valid and not
/// expired at the time the system clock gives; a cookie that never expires is
/// accepted whatever the clock says.
pub fn verify_session(cookie_value: &str, secret: &[u8]) -> (r: Option<i64>)
    ensures
        exists|now: i64| r == #[trigger] verify_session_spec(cookie_value@, secret@, now as int),
        verify_session_spec(cookie_value@, secret@, i64::MAX as int) is Some ==> r
            == verify_session_spec(cookie_value@, secret@, i64::MAX as int),
{
    let now = unix_now();
    let r = verify_session_at(cookie_value, secret, now);
    proof {
        assert(r == verify_session_spec(cookie_value@, secret@, now as int));
    }
    r
}

/// A session signed at `now` is accepted, with its user id, by the same
/// secret at any time up to its expiry.
pub proof fn lemma_session_roundtrip(user_id: i64, secret: Seq<u8>, expiry: i64, later: int)
    requires
        later <= expiry,
    ensures
        verify_session_spec(
            signed_value(session_payload(user_id as int, expiry as int), secret),
            secret,
            later,
        ) == Some(user_id),
{
    let u = signed_decimal(user_id as int);
    let e = signed_decimal(expiry as int);
    let payload = session_payload(user_id as int, expiry as int);
    let tag = hmac_sha256_spec(secret, encode_utf8(payload));
    let h = hex_lower(tag);
    let cookie = signed_value(payload, secret);
    lemma_parse_signed_decimal(user_id as int);
    lemma_parse_signed_decimal(expiry as int);
    lemma_hex_roundtrip(tag);
    assert(cookie =~= u + seq![':'] + (e + seq![':'] + h));
    lemma_split_once_concat(u, ':', e + seq![':'] + h);
    lemma_split_once_concat(e, ':', h);
    assert(split3_spec(cookie, ':') == Some((u, e, h)));
}

/// A session signed with one secret is refused under another secret, unless
/// the two secrets give the same HMAC of the session's payload.
pub proof fn lemma_session_other_secret(
    user_id: i64,
    secret: Seq<u8>,
    other: Seq<u8>,
    expiry: i64,
    later: int,
)
    requires
        hmac_sha256_spec(other, encode_utf8(session_payload(user_id as int, expiry as int)))
            != hmac_sha256_spec(secret, encode_utf8(session_payload(user_id as int, expiry as int))),
    ensures
        verify_session_spec(
            signed_value(session_payload(user_id as int, expiry as int), secret),
            other,
            later,
        ) is None,
{
    let u = signed_decimal(user_id as int);
    let e = signed_decimal(expiry as int);
    let payload = session_payload(user_id as int, expiry as int);
    let tag = hmac_sha256_spec(secret, encode_utf8(payload));
    let h = hex_lower(tag);
    let cookie = signed_value(payload, secret);
    lemma_parse_signed_decimal(user_id as int);
    lemma_parse_signed_decimal(expiry as int);
    lemma_hex_roundtrip(tag);
    assert(cookie =~= u + seq![':'] + (e + seq![':'] + h));
    lemma_split_once_concat(u, ':', e + seq![':'] + h);
    lemma_split_once_concat(e, ':', h);
    assert(split3_spec(cookie, ':') == Some((u, e, h)));
    assert(u + seq![':'] + e == payload);
}

/// A session whose user id was changed keeps a signature that no longer
/// matches, and is refused, unless the secret gives the same HMAC for both
/// payloads.
pub proof fn lemma_session_changed_user(
    user_id: i64,
    other_id: i64,
    secret: Seq<u8>,
    expiry: i64,
    later: int,
)
    requires
        hmac_sha256_spec(secret, encode_utf8(session_payload(other_id as int, expiry as int)))
            != hmac_sha256_spec(secret, encode_utf8(session_payload(user_id as int, expiry as int))),
    ensures
        verify_session_spec(
            session_payload(other_id as int, expiry as int) + seq![':'] + hex_lower(
                hmac_sha256_spec(secret, encode_utf8(session_payload(user_id as int, expiry as int))),
            ),
            secret,
            later,
        ) is None,
{
    let u = signed_decimal(other_id as int);
    let e = signed_decimal(expiry as int);
    let tag = hmac_sha256_spec(secret, encode_utf8(session_payload(user_id as int, expiry as int)));
    let h = hex_lower(tag);
    let cookie = session_payload(other_id as int, expiry as int) + seq![':'] + h;
    lemma_parse_signed_decimal(other_id as int);
    lemma_parse_signed_decimal(expiry as int);
    lemma_hex_roundtrip(tag);
    assert(cookie =~= u + seq![':'] + (e + seq![':'] + h));
    lemma_split_once_concat(u, ':', e + seq![':'] + h);
    lemma_split_once_concat(e, ':', h);
    assert(split3_spec(cookie, ':') == Some((u, e, h)));
    assert(u + seq![':'] + e == session_payload(other_id as int, expiry as int));
}

/// A session is refused once its expiry has passed.
pub proof fn lemma_session_expired(user_id: i64, secret: Seq<u8>, expiry: i64, later: int)
    requires
        later > expiry,
    ensures
        verify_session_spec(
            signed_value(session_payload(user_id as int, expiry as int), secret),
            secret,
            later,
        ) is None,
{
    let u = signed_decimal(user_id as int);
    let e = signed_decimal(expiry as int);
    let payload = session_payload(user_id as int, expiry as int);
    let tag = hmac_sha256_spec(secret, encode_utf8(payload));
    let h = hex_lower(tag);
    let cookie = signed_value(payload, secret);
    lemma_parse_signed_decimal(user_id as int);
    lemma_parse_signed_decimal(expiry as int);
    lemma_hex_roundtrip(tag);
    assert(cookie =~= u + seq![':'] + (e + seq![':'] + h));
    lemma_split_once_concat(u, ':', e + seq![':'] + h);
    lemma_split_once_concat(e, ':', h);
}


/// Lifetime of an OAuth state cookie in seconds.
pub const STATE_TTL_SECS: i64 = 600;

/// `{state}:{expiry}`.
pub open spec fn state_payload(state: Seq<char>, expiry: int) -> Seq<char> {
    state + seq![':'] + signed_decimal(expiry)
}

/// Create a signed OAuth state cookie value `{state}:{expiry}:{sig}` expiring
/// ten minutes after `now`.
pub fn sign_oauth_state_at(state_value: &str, secret: &[u8], now: i64) -> (r: String)
    requires
        now + STATE_TTL_SECS <= i64::MAX,
    ensures
        r@ == signed_value(state_payload(state_value@, now + STATE_TTL_SECS), secret@),
{
    let expiry: i64 = now + STATE_TTL_SECS;
    let mut payload = to_chars(state_value);
    payload.push(':');
    push_signed_decimal(&mut payload, expiry);
    proof {
        assert(payload@ =~= state_payload(state_value@, expiry as int));
    }
    sign_payload(payload, secret)
}

/// Create a signed OAuth state cookie value valid for ten minutes from now.
pub fn sign_oauth_state(state_value: &str, secret: &[u8]) -> (r: String)
    ensures
        exists|now: int|
            0 <= now <= i64::MAX - STATE_TTL_SECS && r@ == #[trigger] signed_value(
                state_payload(state_value@, now + STATE_TTL_SECS),
                secret@,
            ),
{
    let now = unix_now();
    let now = if now > i64::MAX - STATE_TTL_SECS {
        i64::MAX - STATE_TTL_SECS
    } else {
        now
    };
    let r = sign_oauth_state_at(state_value, secret, now);
    proof {
        assert(r@ == signed_value(state_payload(state_value@, now + STATE_TTL_SECS), secret@));
    }
    r
}

/// A state cookie is accepted when it is well formed, carries `expected`,
/// has not expired at `now`, and is signed with `secret`.
pub open spec fn verify_state_spec(
    cookie: Seq<char>,
    expected: Seq<char>,
    secret: Seq<u8>,
    now: int,
) -> bool {
    match split3_spec(cookie, ':') {
        Some((stored, exp_s, sig_s)) => match parse_i64_spec(exp_s) {
            Some(expiry) => {
                &&& stored == expected
                &&& now <= expiry
                &&& match hex_decode_spec(sig_s) {
                    Some(tag) => tag == hmac_sha256_spec(
                        secret,
                        encode_utf8(stored + seq![':'] + exp_s),
                    ),
                    None => false,
                }
            },
            None => false,
        },
        None => false,
    }
}

/// Verify a state cookie at time `now`.
pub fn verify_oauth_state_at(
    cookie_value: &str,
    expected_state: &str,
    secret: &[u8],
    now: i64,
) -> (ok: bool)
    ensures
        ok == verify_state_spec(cookie_value@, expected_state@, secret@, now as int),
{
    let chars = to_chars(cookie_value);
    let (stored, exp_s, sig_s) = match split3_chars(chars.as_slice(), ':') {
        Some(parts) => parts,
        None => return false,
    };
    let expiry = match parse_i64(exp_s.as_slice()) {
        Some(v) => v,
        None => return false,
    };
    if !chars_eq_str(stored.as_slice(), expected_state) {
        return false;
    }
    if now > expiry {
        return false;
    }
    check_signature(stored.as_slice(), exp_s.as_slice(), sig_s.as_slice(), secret)
}

/// Verify a state cookie and return whether the state matches and is not
/// expired at the time the system clock gives; a cookie that never expires is
/// accepted whatever the clock says.
pub fn verify_oauth_state(cookie_value: &str, expected_state: &str, secret: &[u8]) -> (ok: bool)
    ensures
        exists|now: i64|
            ok == #[trigger] verify_state_spec(cookie_value@, expected_state@, secret@, now as int),
        verify_state_spec(cookie_value@, expected_state@, secret@, i64::MAX as int) ==> ok,
{
    let now = unix_now();
    let ok = verify_oauth_state_at(cookie_value, expected_state, secret, now);
    proof {
        assert(ok == verify_state_spec(cookie_value@, expected_state@, secret@, now as int));
    }
    ok
}

/// A state signed with a secret is accepted for the same state and secret
/// until it expires, provided the state has no `:`.
pub proof fn lemma_state_roundtrip(state: Seq<char>, secret: Seq<u8>, expiry: i64, later: int)
    requires
        later <= expiry,
        forall|i: int| 0 <= i < state.len() ==> #[trigger] state[i] != ':',
    ensures
        verify_state_spec(signed_value(state_payload(state, expiry as int), secret), state, secret, later),
{
    let e = signed_decimal(expiry as int);
    let payload = state_payload(state, expiry as int);
    let tag = hmac_sha256_spec(secret, encode_utf8(payload));
    let h = hex_lower(tag);
    let cookie = signed_value(payload, secret);
    lemma_parse_signed_decimal(expiry as int);
    lemma_hex_roundtrip(tag);
    assert(cookie =~= state + seq![':'] + (e + seq![':'] + h));
    lemma_split_once_concat(state, ':', e + seq![':'] + h);
    lemma_split_once_concat(e, ':', h);
    assert(split3_spec(cookie, ':') == Some((state, e, h)));
}

/// A state cookie is refused for any other expected state.
pub proof fn lemma_state_mismatch(
    state: Seq<char>,
    other: Seq<char>,
    secret: Seq<u8>,
    expiry: i64,
    now: int,
)
    requires
        state != other,
        forall|i: int| 0 <= i < state.len() ==> #[trigger] state[i] != ':',
    ensures
        !verify_state_spec(signed_value(state_payload(state, expiry as int), secret), other, secret, now),
{
    let e = signed_decimal(expiry as int);
    let payload = state_payload(state, expiry as int);
    let tag = hmac_sha256_spec(secret, encode_utf8(payload));
    let h = hex_lower(tag);
    let cookie = signed_value(payload, secret);
    lemma_parse_signed_decimal(expiry as int);
    lemma_hex_roundtrip(tag);
    assert(cookie =~= state + seq![':'] + (e + seq![':'] + h));
    lemma_split_once_concat(state, ':', e + seq![':'] + h);
    lemma_split_once_concat(e, ':', h);
}

/// `hex(HMAC-SHA256(secret, "csrf:" ++ UTF-8 session value))`.
pub open spec fn csrf_token_spec(session_value: Seq<char>, secret: Seq<u8>) -> Seq<char> {
    hex_lower(
        hmac_sha256_spec(secret, encode_utf8(seq!['c', 's', 'r', 'f', ':'] + session_value)),
    )
}

/// Generate a CSRF token tied to the session value.
pub fn generate_csrf_token(session_value: &str, secret: &[u8]) -> (r: String)
    ensures
        r@ == csrf_token_spec(session_value@, secret@),
{
    let mut msg: Vec<char> = vec!['c', 's', 'r', 'f', ':'];
    let ghost prefix = msg@;
    extend_str(&mut msg, session_value);
    proof {
        assert(prefix =~= seq!['c', 's', 'r', 'f', ':']);
    }
    let msg_str = from_chars(msg.as_slice());
    let tag = hmac_sha256(secret, msg_str.as_str().as_bytes());
    hex_encode(tag.as_slice())
}

/// Validate a submitted CSRF token against the session cookie value (if any).
pub fn validate_csrf(session_value: Option<&str>, secret: &[u8], submitted: &str) -> (ok: bool)
    ensures
        ok == match session_value {
            Some(v) => csrf_token_spec(v@, secret@) == submitted@,
            None => false,
        },
{
    match session_value {
        Some(v) => {
            let token = generate_csrf_token(v, secret);
            crate::text::str_eq(token.as_str(), submitted)
        },
        None => false,
    }
}

} // verus!
