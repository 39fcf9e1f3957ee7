//! Decimal rendering and parsing of integers (the behaviour of `Display`
//! and `FromStr` for Rust's integer types).
use vstd::prelude::*;
use crate::text::{char_is_ascii_digit, is_ascii_digit};

verus! {

pub open spec fn digit_char(d: nat) -> char {
    (('0' as u32) + d) as char
}

pub open spec fn digit_value(c: char) -> nat {
    ((c as u32) - ('0' as u32)) as nat
}

/// Decimal digits of a natural number, most significant first, no leading zeros.
pub open spec fn decimal(n: nat) -> Seq<char>
    decreases n,
{
    if n < 10 {
        seq![digit_char(n)]
    } else {
        decimal(n / 10).push(digit_char(n % 10))
    }
}

/// Decimal rendering of an integer (a leading `-` for negative values).
pub open spec fn signed_decimal(n: int) -> Seq<char> {
    if n < 0 {
        seq!['-'] + decimal((-n) as nat)
    } else {
        decimal(n as nat)
    }
}

pub open spec fn all_digits(s: Seq<char>) -> bool {
    forall|i: int| 0 <= i < s.len() ==> is_ascii_digit(#[trigger] s[i])
}

/// The value of a string of decimal digits.
pub open spec fn digits_value(s: Seq<char>) -> nat
    decreases s.len(),
{
    if s.len() == 0 {
        0
    } else {
        digits_value(s.drop_last()) * 10 + digit_value(s.last())
    }
}

/// What `str::parse` yields for a signed integer of unbounded width: an optional
/// `+` or `-` followed by at least one ASCII digit, nothing else.
pub open spec fn parse_int(s: Seq<char>) -> Option<int> {
    if s.len() > 0 && (s[0] == '-' || s[0] == '+') {
        let rest = s.drop_first();
        if rest.len() > 0 && all_digits(rest) {
            if s[0] == '-' {
                Some(-(digits_value(rest) as int))
            } else {
                Some(digits_value(rest) as int)
            }
        } else {
            None
        }
    } else if s.len() > 0 && all_digits(s) {
        Some(digits_value(s) as int)
    } else {
        None
    }
}

/// `str::parse::<i64>`: the value when it is well formed and in range.
pub open spec fn parse_i64_spec(s: Seq<char>) -> Option<i64> {
    match parse_int(s) {
        Some(v) => if i64::MIN <= v <= i64::MAX {
            Some(v as i64)
        } else {
            None
        },
        None => None,
    }
}

/// `str::parse::<i32>`: the value when it is well formed and in range.
pub open spec fn parse_i32_spec(s: Seq<char>) -> Option<i32> {
    match parse_int(s) {
        Some(v) => if i32::MIN <= v <= i32::MAX {
            Some(v as i32)
        } else {
            None
        },
        None => None,
    }
}

pub proof fn lemma_decimal_props(n: nat)
    ensures
        decimal(n).len() > 0,
        all_digits(decimal(n)),
        digits_value(decimal(n)) == n,
        decimal(n)[0] != '-' && decimal(n)[0] != '+',
    decreases n,
{
    if n >= 10 {
        lemma_decimal_props(n / 10);
        let d = decimal(n);
        assert(d.drop_last() =~= decimal(n / 10));
        assert(d[0] == decimal(n / 10)[0]);
        assert(digit_value(digit_char(n % 10)) == n % 10);
        assert(d.last() == digit_char(n % 10));
        assert((n / 10) * 10 + n % 10 == n);
        assert(digits_value(d) == digits_value(d.drop_last()) * 10 + digit_value(d.last()));
        assert(digits_value(d) == n);
    } else {
        let d = decimal(n);
        assert(d.drop_last() =~= Seq::<char>::empty());
        assert(digit_value(digit_char(n)) == n);
        assert(digits_value(d) == digits_value(d.drop_last()) * 10 + digit_value(d.last()));
        assert(digits_value(d) == n);
    }
}

/// Rendering then parsing gives the number back.
pub proof fn lemma_parse_signed_decimal(n: int)
    ensures
        parse_int(signed_decimal(n)) == Some(n),
        forall|i: int| 0 <= i < signed_decimal(n).len() ==> #[trigger] signed_decimal(n)[i] != ':',
{
    if n < 0 {
        lemma_decimal_props((-n) as nat);
        let s = signed_decimal(n);
        assert(s.drop_first() =~= decimal((-n) as nat));
        assert forall|i: int| 0 <= i < s.len() implies #[trigger] s[i] != ':' by {
            if i > 0 {
                assert(s[i] == decimal((-n) as nat)[i - 1]);
            }
        }
    } else {
        lemma_decimal_props(n as nat);
        let s = signed_decimal(n);
        assert forall|i: int| 0 <= i < s.len() implies #[trigger] s[i] != ':' by {
            assert(is_ascii_digit(s[i]));
        }
    }
}

/// Appends the decimal digits of `n`.
pub fn push_decimal(out: &mut Vec<char>, n: u64)
    ensures
        final(out)@ == old(out)@ + decimal(n as nat),
    decreases n,
{
    if n >= 10 {
        push_decimal(out, n / 10);
    }
    let d = (n % 10) as u32;
    let c = (('0' as u32) + d) as u8 as char;
    proof {
        assert(c == digit_char((n % 10) as nat));
    }
    let ghost before = out@;
    out.push(c);
    proof {
        if n >= 10 {
            assert(out@ =~= old(out)@ + decimal(n as nat));
        } else {
            assert(out@ =~= old(out)@ + decimal(n as nat));
        }
    }
}

/// Appends the decimal rendering of a signed number.
pub fn push_signed_decimal(out: &mut Vec<char>, n: i64)
    ensures
        final(out)@ == old(out)@ + signed_decimal(n as int),
{
    if n < 0 {
        out.push('-');
        let m: u64 = if n == i64::MIN {
            9223372036854775808u64
        } else {
            (-n) as u64
        };
        push_decimal(out, m);
        proof {
            assert(out@ =~= old(out)@ + signed_decimal(n as int));
        }
    } else {
        push_decimal(out, n as u64);
    }
}

/// Decimal rendering of a signed number (`i64::to_string`).
pub fn i64_to_chars(n: i64) -> (r: Vec<char>)
    ensures
        r@ == signed_decimal(n as int),
{
    let mut r: Vec<char> = Vec::new();
    push_signed_decimal(&mut r, n);
    proof {
        assert(r@ =~= signed_decimal(n as int));
    }
    r
}

/// Decimal rendering of an unsigned number (`u64::to_string`).
pub fn u64_to_chars(n: u64) -> (r: Vec<char>)
    ensures
        r@ == decimal(n as nat),
{
    let mut r: Vec<char> = Vec::new();
    push_decimal(&mut r, n);
    proof {
        assert(r@ =~= decimal(n as nat));
    }
    r
}

pub open spec fn cap_value(v: nat) -> nat {
    if v > 9223372036854775808 {
        9223372036854775809
    } else {
        v
    }
}

proof fn lemma_cap_step(v: nat, d: nat)
    requires
        d < 10,
    ensures
        cap_value(v * 10 + d) == cap_value(cap_value(v) * 10 + d),
{
    if v > 9223372036854775808 {
        assert(v * 10 + d > 9223372036854775808) by (nonlinear_arith)
            requires
                v > 9223372036854775808,
        ;
        assert(9223372036854775809 * 10 + d > 9223372036854775808);
    }
}

/// Value of a run of digits, saturated just above 2^63.
fn digits_value_capped(s: &[char], start: usize) -> (r: u64)
    requires
        start <= s.len(),
        all_digits(s@.skip(start as int)),
    ensures
        r == cap_value(digits_value(s@.skip(start as int))),
{
    let mut acc: u64 = 0;
    let mut i: usize = start;
    proof {
        assert(s@.subrange(start as int, start as int) =~= Seq::<char>::empty());
    }
    while i < s.len()
        invariant
            start <= i <= s.len(),
            all_digits(s@.skip(start as int)),
            acc == cap_value(digits_value(s@.subrange(start as int, i as int))),
        decreases s.len() - i,
    {
        let c = s[i];
        proof {
            assert(s@.skip(start as int)[i - start] == c);
            assert(is_ascii_digit(c));
        }
        let d: u64 = ((c as u32) - ('0' as u32)) as u64;
        proof {
            let t = s@.subrange(start as int, i + 1);
            assert(t.drop_last() =~= s@.subrange(start as int, i as int));
            assert(t.last() == c);
            lemma_cap_step(digits_value(s@.subrange(start as int, i as int)), d as nat);
        }
        if acc > 922337203685477580u64 {
            acc = 9223372036854775809u64;
            proof {
                assert(acc * 10 + d > 9223372036854775808);
            }
        } else {
            acc = acc * 10 + d;
            if acc > 9223372036854775808u64 {
                acc = 9223372036854775809u64;
            }
        }
        i += 1;
    }
    proof {
        assert(s@.subrange(start as int, s.len() as int) =~= s@.skip(start as int));
    }
    acc
}

fn check_all_digits(s: &[char], start: usize) -> (r: bool)
    requires
        start <= s.len(),
    ensures
        r == all_digits(s@.skip(start as int)),
{
    let mut i = start;
    while i < s.len()
        invariant
            start <= i <= s.len(),
            forall|j: int| start <= j < i ==> is_ascii_digit(#[trigger] s@[j]),
        decreases s.len() - i,
    {
        if !char_is_ascii_digit(s[i]) {
            proof {
                assert(s@.skip(start as int)[i - start] == s@[i as int]);
            }
            return false;
        }
        i += 1;
    }
    proof {
        assert forall|k: int| 0 <= k < s@.skip(start as int).len() implies is_ascii_digit(
            #[trigger] s@.skip(start as int)[k],
        ) by {
            assert(s@.skip(start as int)[k] == s@[start + k]);
        }
    }
    true
}

/// Parses a signed integer, returning the magnitude (capped) and the sign.
fn parse_signed_parts(s: &[char]) -> (r: Option<(bool, u64)>)
    ensures
        r is Some <==> parse_int(s@) is Some,
        r matches Some((neg, mag)) ==> {
            &&& parse_int(s@)->0 == (if neg {
                -(digits_value(s@.skip(1)) as int)
            } else {
                digits_value(s@.skip((if s@[0] == '+' {
                    1int
                } else {
                    0int
                }))) as int
            })
            &&& neg ==> mag == cap_value(digits_value(s@.skip(1)))
            &&& !neg ==> mag == cap_value(
                digits_value(
                    s@.skip(
                        (if s@[0] == '+' {
                            1int
                        } else {
                            0int
                        }),
                    ),
                ),
            )
            &&& s@.len() > 0
        },
{
    if s.len() == 0 {
        return None;
    }
    let first = s[0];
    if first == '-' || first == '+' {
        proof {
            assert(s@.drop_first() =~= s@.skip(1));
        }
        if s.len() == 1 || !check_all_digits(s, 1) {
            return None;
        }
        let mag = digits_value_capped(s, 1);
        Some((first == '-', mag))
    } else {
        proof {
            assert(s@.skip(0) =~= s@);
        }
        if !check_all_digits(s, 0) {
            return None;
        }
        let mag = digits_value_capped(s, 0);
        Some((false, mag))
    }
}

/// `str::parse::<i64>` on characters.
pub fn parse_i64(s: &[char]) -> (r: Option<i64>)
    ensures
        r == parse_i64_spec(s@),
{
    match parse_signed_parts(s) {
        None => None,
        Some((neg, mag)) => {
            if neg {
                if mag > 9223372036854775808u64 {
                    None
                } else if mag == 9223372036854775808u64 {
                    Some(i64::MIN)
                } else {
                    Some(-(mag as i64))
                }
            } else {
                if mag > 9223372036854775807u64 {
                    None
                } else {
                    Some(mag as i64)
                }
            }
        },
    }
}

/// `str::parse::<i32>` on characters.
pub fn parse_i32(s: &[char]) -> (r: Option<i32>)
    ensures
        r == parse_i32_spec(s@),
{
    match parse_signed_parts(s) {
        None => None,
        Some((neg, mag)) => {
            if neg {
                if mag > 2147483648u64 {
                    None
                } else {
                    Some((-(mag as i64)) as i32)
                }
            } else {
                if mag > 2147483647u64 {
                    None
                } else {
                    Some(mag as i32)
                }
            }
        },
    }
}

} // verus!
