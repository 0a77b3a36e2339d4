//! Simple unique tokens derived from the clock.

use vstd::prelude::*;
use crate::clock::{read_clock, ClockReading};
use crate::input::push_char;

verus! {

/// The character of a decimal digit.
pub open spec fn digit_char(d: nat) -> char
    recommends
        d < 10,
{
    if d == 0 {
        '0'
    } else if d == 1 {
        '1'
    } else if d == 2 {
        '2'
    } else if d == 3 {
        '3'
    } else if d == 4 {
        '4'
    } else if d == 5 {
        '5'
    } else if d == 6 {
        '6'
    } else if d == 7 {
        '7'
    } else if d == 8 {
        '8'
    } else {
        '9'
    }
}

/// A number in decimal, without leading zeros.
pub open spec fn decimal(n: nat) -> Seq<char>
    decreases n,
{
    if n < 10 {
        seq![digit_char(n)]
    } else {
        decimal(n / 10).push(digit_char(n % 10))
    }
}

/// The nanoseconds since the Unix epoch that a clock reading stands for:
/// readings before the epoch count as the epoch itself.
pub open spec fn nanos_of(reading: ClockReading) -> nat {
    if reading.seconds < 0 {
        0
    } else {
        (reading.seconds * 1_000_000_000 + reading.subsec_nanos) as nat
    }
}

/// The token for a number: the prefix `token_` and the number in decimal.
pub open spec fn token_text(nanos: nat) -> Seq<char> {
    "token_"@ + decimal(nanos)
}

/// The character of the decimal digit `d`.
fn digit(d: u128) -> (c: char)
    requires
        d < 10,
    ensures
        c == digit_char(d as nat),
{
    if d == 0 {
        '0'
    } else if d == 1 {
        '1'
    } else if d == 2 {
        '2'
    } else if d == 3 {
        '3'
    } else if d == 4 {
        '4'
    } else if d == 5 {
        '5'
    } else if d == 6 {
        '6'
    } else if d == 7 {
        '7'
    } else if d == 8 {
        '8'
    } else {
        '9'
    }
}

/// The token for a clock reading.
pub fn secure_token_from(reading: ClockReading) -> (token: String)
    ensures
        token@ == token_text(nanos_of(reading)),
{
    let nanos: u128 = if reading.seconds < 0 {
        0
    } else {
        reading.seconds as u128 * 1_000_000_000 + reading.subsec_nanos as u128
    };
    let mut reversed: Vec<char> = Vec::new();
    let mut rest: u128 = nanos;
    while rest >= 10
        invariant
            decimal(nanos as nat) == decimal(rest as nat) + reversed@.reverse(),
        decreases rest,
    {
        let c = digit(rest % 10);
        proof {
            let tail = reversed@.reverse();
            assert(reversed@.push(c).reverse() =~= seq![c] + tail);
            assert(decimal(rest as nat) == decimal((rest / 10) as nat).push(c));
            assert(decimal((rest / 10) as nat).push(c) + tail =~= decimal((rest / 10) as nat) + (
            seq![c] + tail));
        }
        reversed.push(c);
        rest = rest / 10;
    }
    let lead = digit(rest);
    proof {
        assert(reversed@.push(lead).reverse() =~= seq![lead] + reversed@.reverse());
    }
    reversed.push(lead);
    assert(decimal(nanos as nat) == reversed@.reverse());
    let mut token = "token_".to_owned();
    let n = reversed.len();
    let mut i: usize = n;
    while i > 0
        invariant
            i <= n,
            n == reversed@.len(),
            token@ == "token_"@ + reversed@.reverse().take(n - i),
        decreases i,
    {
        i -= 1;
        proof {
            let digits = reversed@.reverse();
            assert(digits.take(n - i) =~= digits.take(n - i - 1).push(reversed@[i as int]));
            assert("token_"@ + digits.take(n - i - 1).push(reversed@[i as int]) =~= ("token_"@
                + digits.take(n - i - 1)).push(reversed@[i as int]));
        }
        push_char(&mut token, reversed[i]);
    }
    proof {
        assert(reversed@.reverse().take(n as int) =~= reversed@.reverse());
    }
    token
}

/// A token that is new each time the clock has moved on: the prefix
/// `token_` and the current time in nanoseconds.
pub fn generate_secure_token() -> (token: String)
    ensures
        exists|reading: ClockReading| token@ == token_text(#[trigger] nanos_of(reading)),
{
    let reading = read_clock();
    let token = secure_token_from(reading);
    assert(token@ == token_text(nanos_of(reading)));
    token
}

} // verus!
