//! The public account sequence: a 4-digit identifier drawn at random from a
//! fixed range and kept unique across accounts.

use vstd::prelude::*;
use vstd::string::StringExecFns;

use rand::Rng;

use crate::exceptions::QuantumixException;
use crate::model::AccountView;
use crate::store::{sequence_taken, AccountStore};

verus! {

/// Smallest value the allocator may hand out.
pub const SEQUENCE_MIN: i32 = 1000;

/// Largest value the allocator may hand out.
pub const SEQUENCE_MAX: i32 = 9998;

/// An ASCII decimal digit.
pub open spec fn is_decimal_digit(c: char) -> bool {
    48 <= c as u32 <= 57
}

/// The numeric value of an ASCII decimal digit.
pub open spec fn decimal_digit_value(c: char) -> int {
    c as u32 - 48
}

/// Whether `s` is the 4-digit decimal form of `n`. Every allocated sequence
/// lies in 1000..=9998, so its decimal form has exactly four digits.
pub open spec fn is_sequence_repr(s: Seq<char>, n: int) -> bool {
    &&& s.len() == 4
    &&& forall|j: int| 0 <= j < 4 ==> is_decimal_digit(#[trigger] s[j])
    &&& n == 1000 * decimal_digit_value(s[0]) + 100 * decimal_digit_value(s[1])
        + 10 * decimal_digit_value(s[2]) + decimal_digit_value(s[3])
}

/// Whether the text `identity` spells exactly the sequence `sequence`.
pub fn matches_sequence(identity: &str, sequence: i32) -> (r: bool)
    ensures
        r == is_sequence_repr(identity@, sequence as int),
{
    let len = identity.unicode_len();
    if len != 4 {
        return false;
    }
    let mut value: i32 = 0;
    let mut k: usize = 0;
    while k < 4
        invariant
            identity@.len() == 4,
            0 <= k <= 4,
            forall|j: int| 0 <= j < k ==> is_decimal_digit(#[trigger] identity@[j]),
            0 <= value < 10000,
            k == 0 ==> value == 0,
            k == 1 ==> value == decimal_digit_value(identity@[0]),
            k == 2 ==> value == 10 * decimal_digit_value(identity@[0])
                + decimal_digit_value(identity@[1]),
            k == 3 ==> value == 100 * decimal_digit_value(identity@[0])
                + 10 * decimal_digit_value(identity@[1]) + decimal_digit_value(identity@[2]),
            k == 4 ==> value == 1000 * decimal_digit_value(identity@[0])
                + 100 * decimal_digit_value(identity@[1]) + 10 * decimal_digit_value(identity@[2])
                + decimal_digit_value(identity@[3]),
        decreases 4 - k,
    {
        let c = identity.get_char(k);
        let code = c as u32;
        if code < 48 || code > 57 {
            return false;
        }
        let digit = (code - 48) as i32;
        value = value * 10 + digit;
        k = k + 1;
    }
    value == sequence
}

/// The digit character of a value below ten.
pub open spec fn digit_char(d: int) -> char {
    if d == 0 {
        '0'
    } else if d == 1 {
        '1'
    } else if d == 2 {
        '2'
    } else if d == 3 {
        '3'
    } else if d == 4 {
        '4'
    } else if d == 5 {
        '5'
    } else if d == 6 {
        '6'
    } else if d == 7 {
        '7'
    } else if d == 8 {
        '8'
    } else {
        '9'
    }
}

/// The decimal form of `n`, most significant digit first, no leading
/// zeroes but for `n == 0` itself.
pub open spec fn decimal_repr(n: nat) -> Seq<char>
    decreases n,
{
    if n < 10 {
        seq![digit_char(n as int)]
    } else {
        decimal_repr(n / 10) + seq![digit_char((n % 10) as int)]
    }
}

/// The one-character text of a digit.
fn digit_str(d: u64) -> (r: &'static str)
    requires
        d < 10,
    ensures
        r@ =~= seq![digit_char(d as int)],
{
    if d == 0 {
        proof {
            reveal_strlit("0");
        }
        "0"
    } else if d == 1 {
        proof {
            reveal_strlit("1");
        }
        "1"
    } else if d == 2 {
        proof {
            reveal_strlit("2");
        }
        "2"
    } else if d == 3 {
        proof {
            reveal_strlit("3");
        }
        "3"
    } else if d == 4 {
        proof {
            reveal_strlit("4");
        }
        "4"
    } else if d == 5 {
        proof {
            reveal_strlit("5");
        }
        "5"
    } else if d == 6 {
        proof {
            reveal_strlit("6");
        }
        "6"
    } else if d == 7 {
        proof {
            reveal_strlit("7");
        }
        "7"
    } else if d == 8 {
        proof {
            reveal_strlit("8");
        }
        "8"
    } else {
        proof {
            reveal_strlit("9");
        }
        "9"
    }
}

/// Renders `n` in decimal.
pub fn decimal_string(n: u64) -> (r: String)
    ensures
        r@ == decimal_repr(n as nat),
    decreases n,
{
    if n < 10 {
        let mut s = String::new();
        s.append(digit_str(n));
        proof {
            assert(s@ =~= decimal_repr(n as nat));
        }
        s
    } else {
        let mut s = decimal_string(n / 10);
        s.append(digit_str(n % 10));
        proof {
            assert(s@ =~= decimal_repr(n as nat));
        }
        s
    }
}

/// The decimal form of a signed value: the digits of its magnitude, after
/// a minus sign when it is negative.
pub open spec fn decimal_repr_i64(n: int) -> Seq<char> {
    if n >= 0 {
        decimal_repr(n as nat)
    } else {
        seq!['-'] + decimal_repr((-n) as nat)
    }
}

/// Renders a signed value in decimal.
pub fn decimal_string_i64(n: i64) -> (r: String)
    ensures
        r@ == decimal_repr_i64(n as int),
{
    if n >= 0 {
        decimal_string(n as u64)
    } else {
        let magnitude: u64 = ((-(n + 1)) as u64) + 1;
        proof {
            assert(magnitude as int == -(n as int));
        }
        let mut s = String::new();
        proof {
            reveal_strlit("-");
        }
        s.append("-");
        let digits = decimal_string(magnitude);
        s.append(digits.as_str());
        proof {
            assert(s@ =~= decimal_repr_i64(n as int));
        }
        s
    }
}

/// How many random draws are tried before falling back to a sweep of the
/// whole range.
pub const RANDOM_DRAW_ATTEMPTS: u32 = 16;

/// Relies on rand's `OsRng` with `Rng::gen_range`: the draw lies within the
/// given bounds. Nothing more can be said of a random value.
#[verifier::external_body]
fn draw_sequence_candidate() -> (r: i32)
    ensures
        SEQUENCE_MIN <= r <= SEQUENCE_MAX,
{
    rand::rngs::OsRng.gen_range(1000..9999)
}

/// Allocates a sequence no existing account uses: random draws first, and
/// when those all collide, a sweep of the range, so the call fails exactly
/// when every value of the range is taken.
pub fn generate_sequence(accounts: &AccountStore) -> (r: Result<i32, QuantumixException>)
    ensures
        r matches Ok(n) ==> SEQUENCE_MIN <= n <= SEQUENCE_MAX && !sequence_taken(
            accounts@,
            n as int,
        ),
        r is Err <==> (forall|m: int|
            SEQUENCE_MIN <= m <= SEQUENCE_MAX ==> sequence_taken(accounts@, m)),
        r matches Err(e) ==> e is AllocationExhausted,
{
    let mut attempt: u32 = 0;
    while attempt < RANDOM_DRAW_ATTEMPTS
        invariant
            0 <= attempt <= RANDOM_DRAW_ATTEMPTS,
        decreases RANDOM_DRAW_ATTEMPTS - attempt,
    {
        let candidate = draw_sequence_candidate();
        if !accounts.exists_sequence(candidate) {
            return Ok(candidate);
        }
        attempt = attempt + 1;
    }
    let mut n: i32 = SEQUENCE_MIN;
    while n <= SEQUENCE_MAX
        invariant
            SEQUENCE_MIN <= n <= SEQUENCE_MAX + 1,
            forall|m: int| SEQUENCE_MIN <= m < n ==> sequence_taken(accounts@, m),
        decreases SEQUENCE_MAX + 1 - n,
    {
        if !accounts.exists_sequence(n) {
            return Ok(n);
        }
        n = n + 1;
    }
    Err(QuantumixException::AllocationExhausted)
}

/// Law: the allocator never hands out a value that is already taken, so
/// when exactly one value of the range is free, any value it can return is
/// that one. `free` is the one free value and `n` any value the
/// allocator's contract admits.
pub proof fn lemma_allocate_single_free(accounts: Seq<AccountView>, free: int, n: int)
    requires
        SEQUENCE_MIN <= free <= SEQUENCE_MAX,
        !sequence_taken(accounts, free),
        forall|m: int|
            SEQUENCE_MIN <= m <= SEQUENCE_MAX && m != free ==> sequence_taken(accounts, m),
        SEQUENCE_MIN <= n <= SEQUENCE_MAX,
        !sequence_taken(accounts, n),
    ensures
        n == free,
{
}

} // verus!
