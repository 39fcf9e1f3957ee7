//! Validation and formatting helpers of the administration pages.
use vstd::prelude::*;
use crate::decimal::{decimal, push_decimal};
use crate::text::{
    char_is_control, extend_str, from_chars, is_control, to_chars, trim, trim_str,
};

verus! {

/// Password length (in characters) is between 8 and 32 inclusive.
pub fn is_valid_password(password: &str) -> (ok: bool)
    ensures
        ok == (8 <= password@.len() <= 32),
{
    let len = password.unicode_len();
    8 <= len && len <= 32
}

/// The outcome of validating a title: the trimmed title, unless it is empty,
/// longer than 256 characters or holds a control character, refused with
/// "title_empty", "title_too_long" or "title_invalid".
pub open spec fn validate_title_spec(title: Seq<char>) -> Result<Seq<char>, Seq<char>> {
    let t = trim(title);
    if t.len() == 0 {
        Err("title_empty"@)
    } else if t.len() > 256 {
        Err("title_too_long"@)
    } else if exists|i: int| 0 <= i < t.len() && is_control(#[trigger] t[i]) {
        Err("title_invalid"@)
    } else {
        Ok(t)
    }
}

/// Validate book title: non-empty, max 256 chars, no control characters.
/// Returns the trimmed title on success, or the message key of the refusal.
pub fn validate_book_title(title: &str) -> (r: Result<String, &'static str>)
    ensures
        match r {
            Ok(t) => validate_title_spec(title@) == Ok::<Seq<char>, Seq<char>>(t@),
            Err(e) => validate_title_spec(title@) == Err::<Seq<char>, Seq<char>>(e@),
        },
{
    let t = trim_str(title);
    if t.len() == 0 {
        return Err("title_empty");
    }
    if t.len() > 256 {
        return Err("title_too_long");
    }
    let mut i: usize = 0;
    while i < t.len()
        invariant
            i <= t.len(),
            t@ == trim(title@),
            0 < t@.len() <= 256,
            forall|j: int| 0 <= j < i ==> !is_control(#[trigger] t@[j]),
        decreases t.len() - i,
    {
        if char_is_control(t[i]) {
            proof {
                assert(is_control(trim(title@)[i as int]));
            }
            return Err("title_invalid");
        }
        i += 1;
    }
    Ok(from_chars(t.as_slice()))
}

/// `{n} {label}`.
pub open spec fn count_label(n: nat, label: Seq<char>) -> Seq<char> {
    decimal(n) + seq![' '] + label
}

/// Uptime as "D days H hours M minutes", leaving out zero days and zero hours
/// (minutes are always shown), with the given unit labels.
pub open spec fn uptime_spec(total_secs: u64, d: Seq<char>, h: Seq<char>, m: Seq<char>) -> Seq<char> {
    let days = (total_secs / 86400) as nat;
    let hours = ((total_secs % 86400) / 3600) as nat;
    let minutes = ((total_secs % 3600) / 60) as nat;
    let day_part = if days > 0 {
        count_label(days, d) + seq![' ']
    } else {
        Seq::empty()
    };
    let hour_part = if hours > 0 {
        count_label(hours, h) + seq![' ']
    } else {
        Seq::empty()
    };
    day_part + hour_part + count_label(minutes, m)
}

/// Format elapsed seconds as human-readable uptime with the given unit labels
/// (the page supplies its translations, or "d", "h", "min").
pub fn format_uptime(total_secs: u64, days_label: &str, hours_label: &str, minutes_label: &str) -> (r: String)
    ensures
        r@ == uptime_spec(total_secs, days_label@, hours_label@, minutes_label@),
{
    let days = total_secs / 86400;
    let hours = (total_secs % 86400) / 3600;
    let minutes = (total_secs % 3600) / 60;
    let mut out: Vec<char> = Vec::new();
    if days > 0 {
        push_decimal(&mut out, days);
        out.push(' ');
        extend_str(&mut out, days_label);
        out.push(' ');
    }
    let ghost after_days = out@;
    if hours > 0 {
        push_decimal(&mut out, hours);
        out.push(' ');
        extend_str(&mut out, hours_label);
        out.push(' ');
    }
    let ghost after_hours = out@;
    push_decimal(&mut out, minutes);
    out.push(' ');
    extend_str(&mut out, minutes_label);
    proof {
        assert(out@ =~= uptime_spec(total_secs, days_label@, hours_label@, minutes_label@));
    }
    from_chars(out.as_slice())
}

/// `/web/admin/duplicates?page={page}&{msg}` (page 0 when absent).
pub open spec fn redirect_url_spec(page: Option<i32>, msg: Seq<char>) -> Seq<char> {
    let p: int = match page {
        Some(v) => v as int,
        None => 0,
    };
    "/web/admin/duplicates?page="@ + crate::decimal::signed_decimal(p) + seq!['&'] + msg
}

/// Where to go back after deleting a duplicate book.
pub fn redirect_url(page: Option<i32>, msg: &str) -> (r: String)
    ensures
        r@ == redirect_url_spec(page, msg@),
{
    let base = "/web/admin/duplicates?page=";
    let mut out = to_chars(base);
    let p: i32 = match page {
        Some(v) => v,
        None => 0,
    };
    crate::decimal::push_signed_decimal(&mut out, p as i64);
    out.push('&');
    extend_str(&mut out, msg);
    proof {
        assert(out@ =~= redirect_url_spec(page, msg@));
    }
    from_chars(out.as_slice())
}

} // verus!
