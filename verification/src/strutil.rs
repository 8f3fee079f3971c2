//! String helpers: equality on views, decimal rendering of integers
//! (used to build error messages), and option cloning.

use vstd::prelude::*;
use vstd::string::*;

verus! {

/// String equality at the view level.
pub fn str_eq(a: &str, b: &str) -> (r: bool)
    ensures
        r == (a@ == b@),
{
    let sa: String = String::from_str(a);
    let sb: String = String::from_str(b);
    sa == sb
}

/// Equality of optional ids.
pub fn opt_i64_eq(a: Option<i64>, b: Option<i64>) -> (r: bool)
    ensures
        r == (a == b),
{
    match (a, b) {
        (None, None) => true,
        (Some(x), Some(y)) => x == y,
        _ => false,
    }
}

/// Clone an optional string, keeping its view.
pub fn clone_opt_str(o: &Option<String>) -> (r: Option<String>)
    ensures
        crate::models::str_opt_view(r) == crate::models::str_opt_view(*o),
{
    match o {
        Some(s) => Some(s.clone()),
        None => None,
    }
}

/// The decimal digit character for `d` (0 through 9).
pub open spec fn dec_digit(d: int) -> char {
    if d == 0 {
        '0'
    } else if d == 1 {
        '1'
    } else if d == 2 {
        '2'
    } else if d == 3 {
        '3'
    } else if d == 4 {
        '4'
    } else if d == 5 {
        '5'
    } else if d == 6 {
        '6'
    } else if d == 7 {
        '7'
    } else if d == 8 {
        '8'
    } else {
        '9'
    }
}

/// The decimal rendering of a nonnegative integer.
pub open spec fn u64_dec(n: nat) -> Seq<char>
    decreases n,
{
    if n < 10 {
        seq![dec_digit(n as int)]
    } else {
        u64_dec(n / 10).push(dec_digit((n % 10) as int))
    }
}

/// The decimal rendering of a signed integer: a minus sign before the
/// magnitude for negative values.
pub open spec fn i64_dec(n: int) -> Seq<char> {
    if n < 0 {
        seq!['-'] + u64_dec((-n) as nat)
    } else {
        u64_dec(n as nat)
    }
}

/// Append the decimal rendering of `n` to `s`.
pub fn append_u64_dec(s: &mut String, n: u64)
    ensures
        final(s)@ == old(s)@ + u64_dec(n as nat),
    decreases n,
{
    if n >= 10 {
        append_u64_dec(s, n / 10);
    }
    let r = n % 10;
    let digit: &'static str = if r == 0 {
        "0"
    } else if r == 1 {
        "1"
    } else if r == 2 {
        "2"
    } else if r == 3 {
        "3"
    } else if r == 4 {
        "4"
    } else if r == 5 {
        "5"
    } else if r == 6 {
        "6"
    } else if r == 7 {
        "7"
    } else if r == 8 {
        "8"
    } else {
        "9"
    };
    proof {
        reveal_strlit("0");
        reveal_strlit("1");
        reveal_strlit("2");
        reveal_strlit("3");
        reveal_strlit("4");
        reveal_strlit("5");
        reveal_strlit("6");
        reveal_strlit("7");
        reveal_strlit("8");
        reveal_strlit("9");
        assert(digit@ =~= seq![dec_digit((n % 10) as int)]);
    }
    s.append(digit);
    proof {
        if n < 10 {
            assert(old(s)@ + digit@ =~= old(s)@ + u64_dec(n as nat));
        } else {
            let ghost lhs = (old(s)@ + u64_dec((n / 10) as nat)) + digit@;
            let ghost rhs = old(s)@ + u64_dec((n / 10) as nat).push(dec_digit((n % 10) as int));
            assert(lhs =~= rhs);
        }
    }
}

/// Append the decimal rendering of a signed integer to `s`.
pub fn append_i64_dec(s: &mut String, n: i64)
    ensures
        final(s)@ == old(s)@ + i64_dec(n as int),
{
    if n < 0 {
        proof {
            reveal_strlit("-");
        }
        s.append("-");
        let mag: u64 = if n == i64::MIN {
            9223372036854775808u64
        } else {
            (-n) as u64
        };
        append_u64_dec(s, mag);
        proof {
            assert("-"@ =~= seq!['-']);
            assert((old(s)@ + seq!['-']) + u64_dec(mag as nat) =~= old(s)@ + (seq![
                '-',
            ] + u64_dec(mag as nat)));
        }
    } else {
        append_u64_dec(s, n as u64);
    }
}

/// The decimal rendering of `n` as an owned string.
pub fn i64_to_dec_string(n: i64) -> (r: String)
    ensures
        r@ == i64_dec(n as int),
{
    let mut s = String::new();
    append_i64_dec(&mut s, n);
    proof {
        assert(Seq::<char>::empty() + i64_dec(n as int) =~= i64_dec(n as int));
    }
    s
}


/// The decimal rendering of an unsigned integer as an owned string.
pub fn u64_to_dec_string(n: u64) -> (r: String)
    ensures
        r@ == u64_dec(n as nat),
{
    let mut s = String::new();
    append_u64_dec(&mut s, n);
    proof {
        assert(Seq::<char>::empty() + u64_dec(n as nat) =~= u64_dec(n as nat));
    }
    s
}

} // verus!
