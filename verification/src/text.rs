//! Text helpers: decimal rendering of byte counts for diagnostic
//! messages, and the one trusted conversion from recovered payload bytes
//! back to a `String`.

use vstd::prelude::*;
use vstd::string::StringExecFns;
use vstd::utf8::decode_utf8;
use vstd::utf8::valid_utf8;

verus! {

/// The decimal digit character for `d` (0 to 9).
pub open spec fn digit_char(d: nat) -> char {
    if d == 0 {
        '0'
    } else if d == 1 {
        '1'
    } else if d == 2 {
        '2'
    } else if d == 3 {
        '3'
    } else if d == 4 {
        '4'
    } else if d == 5 {
        '5'
    } else if d == 6 {
        '6'
    } else if d == 7 {
        '7'
    } else if d == 8 {
        '8'
    } else {
        '9'
    }
}

/// The decimal representation of `n`, most significant digit first,
/// without leading zeroes (`0` itself is the single digit `0`).
pub open spec fn decimal_rep(n: nat) -> Seq<char>
    decreases n,
{
    if n < 10 {
        seq![digit_char(n)]
    } else {
        decimal_rep(n / 10).push(digit_char(n % 10))
    }
}

/// The capacity diagnostic: `prefix`, the carrier's byte count, and the
/// byte count the framed message requires.
pub open spec fn spec_capacity_message(prefix: Seq<char>, carrier_len: nat, required_len: nat) -> Seq<
    char,
> {
    prefix + decimal_rep(carrier_len) + " bytes. Message requires "@ + decimal_rep(required_len)
        + " bytes."@
}

/// Relies on `String::from_utf8`: it returns the decoded string exactly
/// when the bytes are valid UTF-8, and rejects anything else.
#[verifier::external_body]
pub fn string_from_utf8(bytes: Vec<u8>) -> (result: Option<String>)
    ensures
        result is Some <==> valid_utf8(bytes@),
        result is Some ==> result->0@ == decode_utf8(bytes@),
{
    String::from_utf8(bytes).ok()
}

/// Appends the decimal representation of `n` to `out`.
fn push_decimal(n: u128, out: &mut String)
    ensures
        final(out)@ == old(out)@ + decimal_rep(n as nat),
    decreases n,
{
    if n >= 10 {
        push_decimal(n / 10, out);
    }
    let digit: &str = if n % 10 == 0 {
        "0"
    } else if n % 10 == 1 {
        "1"
    } else if n % 10 == 2 {
        "2"
    } else if n % 10 == 3 {
        "3"
    } else if n % 10 == 4 {
        "4"
    } else if n % 10 == 5 {
        "5"
    } else if n % 10 == 6 {
        "6"
    } else if n % 10 == 7 {
        "7"
    } else if n % 10 == 8 {
        "8"
    } else {
        "9"
    };
    proof {
        reveal_strlit("0");
        reveal_strlit("1");
        reveal_strlit("2");
        reveal_strlit("3");
        reveal_strlit("4");
        reveal_strlit("5");
        reveal_strlit("6");
        reveal_strlit("7");
        reveal_strlit("8");
        reveal_strlit("9");
        assert(digit@ =~= seq![digit_char((n % 10) as nat)]);
    }
    out.append(digit);
    proof {
        assert(out@ =~= old(out)@ + decimal_rep(n as nat));
    }
}

/// Renders `n` in decimal.
pub fn u128_to_decimal(n: u128) -> (s: String)
    ensures
        s@ == decimal_rep(n as nat),
{
    let mut s = String::new();
    push_decimal(n, &mut s);
    proof {
        assert(s@ =~= decimal_rep(n as nat));
    }
    s
}

/// Builds the capacity diagnostic named by [`spec_capacity_message`].
pub fn capacity_message(prefix: &str, carrier_len: u128, required_len: u128) -> (s: String)
    ensures
        s@ == spec_capacity_message(prefix@, carrier_len as nat, required_len as nat),
{
    let mut s = String::from_str(prefix);
    let c = u128_to_decimal(carrier_len);
    s.append(c.as_str());
    s.append(" bytes. Message requires ");
    let r = u128_to_decimal(required_len);
    s.append(r.as_str());
    s.append(" bytes.");
    proof {
        assert(s@ =~= spec_capacity_message(prefix@, carrier_len as nat, required_len as nat));
    }
    s
}

} // verus!
