//! Context-window token counts written as `200k`, `1m` or a bare number.
use vstd::prelude::*;

use crate::text::{all_digits, decimal, digits_value, is_digit};

verus! {

/// The multiplier that a trailing `k`/`K` or `m`/`M` stands for.
pub open spec fn suffix_multiplier(c: char) -> nat {
    if c == 'k' || c == 'K' {
        1000
    } else if c == 'm' || c == 'M' {
        1_000_000
    } else {
        1
    }
}

/// The digits of a token count: everything but a trailing multiplier letter.
pub open spec fn count_digits(s: Seq<char>) -> Seq<char> {
    if s.len() > 0 && suffix_multiplier(s.last()) != 1 {
        s.drop_last()
    } else {
        s
    }
}

/// The multiplier that a count's suffix letter stands for.
pub open spec fn count_multiplier(s: Seq<char>) -> nat {
    if s.len() > 0 {
        suffix_multiplier(s.last())
    } else {
        1
    }
}

/// The token count a context option names: digits, optionally followed by `k` (thousands) or
/// `m` (millions); `None` for anything else or a count beyond `u64`.
pub open spec fn token_count(s: Seq<char>) -> Option<u64> {
    let digits = count_digits(s);
    let value = digits_value(digits) * count_multiplier(s);
    if digits.len() > 0 && all_digits(digits) && value <= u64::MAX {
        Some(value as u64)
    } else {
        None
    }
}

/// The display label of a token count: whole millions as `NM`, whole thousands as `NK`,
/// otherwise the bare number.
pub open spec fn token_label(tokens: nat) -> Seq<char> {
    if tokens > 0 && tokens % 1_000_000 == 0 {
        decimal(tokens / 1_000_000).push('M')
    } else if tokens > 0 && tokens % 1000 == 0 {
        decimal(tokens / 1000).push('K')
    } else {
        decimal(tokens)
    }
}

/// Reads a token count such as `200k`, `1m` or `272000`.
pub fn parse_token_count(value: &str) -> (r: Option<u64>)
    ensures
        r == token_count(value@),
{
    let v = crate::text::chars_of(value);
    let n = v.len();
    let mut mult: u64 = 1;
    let mut end: usize = n;
    if n > 0 {
        let last = v[n - 1];
        if last == 'k' || last == 'K' {
            mult = 1000;
            end = n - 1;
        } else if last == 'm' || last == 'M' {
            mult = 1_000_000;
            end = n - 1;
        }
    }
    assert(v@.subrange(0, end as int) == count_digits(value@));
    assert(mult as nat == count_multiplier(value@));
    if end == 0 {
        return None;
    }
    let mut i: usize = 0;
    while i < end
        invariant
            i <= end <= v.len(),
            v@ == value@,
            v@.subrange(0, end as int) == count_digits(value@),
            forall|k: int| 0 <= k < i ==> is_digit(#[trigger] v@[k]),
        decreases end - i,
    {
        if !('0' <= v[i] && v[i] <= '9') {
            let ghost d = v@.subrange(0, end as int);
            assert(!is_digit(d[i as int]));
            assert(d == count_digits(value@));
            assert(!all_digits(count_digits(value@)));
            return None;
        }
        i = i + 1;
    }
    assert(all_digits(v@.subrange(0, end as int))) by {
        assert forall|k: int| 0 <= k < end implies is_digit(#[trigger] v@.subrange(0, end as int)[k]) by {
            assert(v@.subrange(0, end as int)[k] == v@[k]);
        }
    }
    match crate::text::parse_digits(&v, 0, end) {
        Some(d) => match d.checked_mul(mult) {
            Some(total) => Some(total),
            None => None,
        },
        None => {
            assert(digits_value(count_digits(value@)) * count_multiplier(value@) >= digits_value(
                count_digits(value@),
            )) by (nonlinear_arith)
                requires
                    count_multiplier(value@) >= 1,
            ;
            None
        },
    }
}

/// The display label of a token count (`200K`, `1M`, or the bare number).
pub fn format_token_count(tokens: u64) -> (r: String)
    ensures
        r@ == token_label(tokens as nat),
{
    let mut v: Vec<char> = Vec::new();
    if tokens > 0 && tokens % 1_000_000 == 0 {
        crate::text::push_decimal(&mut v, tokens / 1_000_000);
        v.push('M');
    } else if tokens > 0 && tokens % 1000 == 0 {
        crate::text::push_decimal(&mut v, tokens / 1000);
        v.push('K');
    } else {
        crate::text::push_decimal(&mut v, tokens);
    }
    assert(Seq::<char>::empty() + decimal((tokens / 1000) as nat) == decimal((tokens / 1000) as nat));
    assert(Seq::<char>::empty() + decimal((tokens / 1_000_000) as nat) == decimal(
        (tokens / 1_000_000) as nat,
    ));
    assert(Seq::<char>::empty() + decimal(tokens as nat) == decimal(tokens as nat));
    crate::text::string_of(&v)
}

/// The display label of a context option: the token label when it names a count, otherwise the
/// option as written.
pub open spec fn option_label(value: Seq<char>) -> Seq<char> {
    match token_count(value) {
        Some(tokens) => token_label(tokens as nat),
        None => value,
    }
}

/// The label of a context option (see [`option_label`]).
pub fn display_token_count(value: &str) -> (r: String)
    ensures
        r@ == option_label(value@),
{
    match parse_token_count(value) {
        Some(tokens) => format_token_count(tokens),
        None => crate::text::copy(value),
    }
}

} // verus!
