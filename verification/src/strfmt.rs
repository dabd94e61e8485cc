//! Verified decimal formatting, used to build connector-derived output
//! names such as "HDMI-A-1".

use vstd::prelude::*;

verus! {

/// Relies on alloc's String::push: appends exactly the given character
/// to the end of the string.
pub assume_specification[ String::push ](s: &mut String, ch: char)
    ensures
        final(s)@ == old(s)@.push(ch),
;

/// The character for one decimal digit.
pub open spec fn digit_char(d: nat) -> char {
    if d == 0 {
        '0'
    } else if d == 1 {
        '1'
    } else if d == 2 {
        '2'
    } else if d == 3 {
        '3'
    } else if d == 4 {
        '4'
    } else if d == 5 {
        '5'
    } else if d == 6 {
        '6'
    } else if d == 7 {
        '7'
    } else if d == 8 {
        '8'
    } else {
        '9'
    }
}

/// The decimal representation of `n`, most significant digit first,
/// without leading zeros (except for 0 itself).
pub open spec fn decimal_seq(n: nat) -> Seq<char>
    decreases n,
{
    if n < 10 {
        seq![digit_char(n)]
    } else {
        decimal_seq(n / 10).push(digit_char(n % 10))
    }
}

fn digit_char_exec(d: u32) -> (c: char)
    requires
        d < 10,
    ensures
        c == digit_char(d as nat),
{
    if d == 0 {
        '0'
    } else if d == 1 {
        '1'
    } else if d == 2 {
        '2'
    } else if d == 3 {
        '3'
    } else if d == 4 {
        '4'
    } else if d == 5 {
        '5'
    } else if d == 6 {
        '6'
    } else if d == 7 {
        '7'
    } else if d == 8 {
        '8'
    } else {
        '9'
    }
}

/// Append the decimal representation of `n` to `s`.
pub fn push_decimal(s: &mut String, n: u32)
    ensures
        final(s)@ == old(s)@ + decimal_seq(n as nat),
{
    let mut digits: Vec<char> = Vec::new();
    let mut m: u32 = n;

    digits.push(digit_char_exec(m % 10));
    m = m / 10;
    while m > 0
        invariant
            decimal_seq(n as nat) == (if m == 0 {
                digits@.reverse()
            } else {
                decimal_seq(m as nat) + digits@.reverse()
            }),
        decreases m,
    {
        let d = m % 10;
        proof {
            assert((digits@.push(digit_char(d as nat))).reverse() =~= seq![
                digit_char(d as nat),
            ] + digits@.reverse());
            if m >= 10 {
                assert(decimal_seq(m as nat) == decimal_seq((m / 10) as nat).push(
                    digit_char((m % 10) as nat),
                ));
                assert(decimal_seq((m / 10) as nat).push(digit_char(d as nat))
                    + digits@.reverse() =~= decimal_seq((m / 10) as nat) + (seq![
                    digit_char(d as nat),
                ] + digits@.reverse()));
            } else {
                assert(decimal_seq(m as nat) == seq![digit_char(m as nat)]);
                assert(seq![digit_char(m as nat)] + digits@.reverse() =~= (digits@.push(
                    digit_char(d as nat),
                )).reverse());
            }
        }
        digits.push(digit_char_exec(d));
        m = m / 10;
    }

    proof {
        assert(decimal_seq(n as nat) == digits@.reverse());
    }
    while digits.len() > 0
        invariant
            old(s)@ + decimal_seq(n as nat) == s@ + digits@.reverse(),
        decreases digits.len(),
    {
        proof {
            let full = digits@;
            assert(full.reverse() =~= seq![full.last()] + full.drop_last().reverse());
        }
        let c = match digits.pop() {
            Some(c) => c,
            None => {
                proof {
                    assert(false);
                }
                '0'
            }
        };
        s.push(c);
        proof {
            assert(old(s)@ + decimal_seq(n as nat) =~= s@ + digits@.reverse());
        }
    }
    proof {
        assert(digits@.reverse() =~= Seq::<char>::empty());
        assert(old(s)@ + decimal_seq(n as nat) =~= s@);
    }
}

/// Build the name "`interface`-`id`" a connector-derived output carries.
pub fn connector_name(interface: &str, id: u32) -> (r: String)
    ensures
        r@ == interface@ + seq!['-'] + decimal_seq(id as nat),
{
    let mut s = interface.to_owned();
    s.push('-');
    proof {
        assert(s@ == interface@.push('-'));
        assert(interface@.push('-') =~= interface@ + seq!['-']);
    }
    push_decimal(&mut s, id);
    s
}

} // verus!
