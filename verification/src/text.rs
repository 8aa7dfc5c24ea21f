//! Small text-building helpers shared by the encoders: appending a single
//! character to a `String`, and rendering unsigned integers in decimal.

use vstd::prelude::*;

verus! {

/// Relies on `String::push`: appends the given character to the end of the
/// string, nothing else.
#[verifier::external_body]
pub(crate) fn push_char(s: &mut String, c: char)
    ensures
        final(s)@ == old(s)@.push(c),
{
    s.push(c)
}

/// The decimal digit character for a value below ten.
pub open spec fn digit_char(d: int) -> char {
    if d == 0 { '0' }
    else if d == 1 { '1' }
    else if d == 2 { '2' }
    else if d == 3 { '3' }
    else if d == 4 { '4' }
    else if d == 5 { '5' }
    else if d == 6 { '6' }
    else if d == 7 { '7' }
    else if d == 8 { '8' }
    else { '9' }
}

/// The decimal rendering of a natural number, most significant digit first.
pub open spec fn spec_decimal(n: int) -> Seq<char>
    decreases n,
{
    if n <= 0 {
        seq![]
    } else {
        spec_decimal(n / 10).push(digit_char(n % 10))
    }
}

/// The decimal text of `n`: `"0"` for zero, no leading zeroes otherwise.
pub open spec fn spec_decimal_text(n: int) -> Seq<char> {
    if n == 0 {
        seq!['0']
    } else {
        spec_decimal(n)
    }
}

/// Render an unsigned integer in decimal.
pub fn u64_decimal(n: u64) -> (r: String)
    ensures
        r@ == spec_decimal_text(n as int),
{
    if n == 0 {
        let mut s = String::new();
        push_char(&mut s, '0');
        proof {
            assert(s@ =~= spec_decimal_text(0));
        }
        return s;
    }
    let mut rev: Vec<char> = Vec::new();
    let mut m: u64 = n;
    while m > 0
        invariant
            spec_decimal(n as int) =~= spec_decimal(m as int) + rev@.reverse(),
        decreases m,
    {
        let d: u64 = m % 10;
        let c: char = if d == 0 { '0' }
            else if d == 1 { '1' }
            else if d == 2 { '2' }
            else if d == 3 { '3' }
            else if d == 4 { '4' }
            else if d == 5 { '5' }
            else if d == 6 { '6' }
            else if d == 7 { '7' }
            else if d == 8 { '8' }
            else { '9' };
        let ghost old_rev = rev@;
        let ghost old_m = m as int;
        rev.push(c);
        m = m / 10;
        proof {
            assert(c == digit_char(old_m % 10));
            assert(spec_decimal(old_m) == spec_decimal(old_m / 10).push(digit_char(old_m % 10)));
            assert(rev@.reverse() =~= seq![c] + old_rev.reverse());
            assert(spec_decimal(m as int) + rev@.reverse()
                =~= (spec_decimal(old_m / 10).push(digit_char(old_m % 10))) + old_rev.reverse());
        }
    }
    let mut s = String::new();
    let mut i: usize = rev.len();
    proof {
        assert(spec_decimal(n as int) =~= rev@.reverse());
    }
    while i > 0
        invariant
            i <= rev.len(),
            s@ =~= rev@.subrange(i as int, rev@.len() as int).reverse(),
        decreases i,
    {
        let ghost old_s = s@;
        let ghost old_i = i as int;
        i = i - 1;
        push_char(&mut s, rev[i]);
        proof {
            assert(rev@.subrange(i as int, rev@.len() as int).reverse()
                =~= old_s.push(rev@[i as int]));
        }
    }
    proof {
        assert(rev@.subrange(0, rev@.len() as int) =~= rev@);
        assert(s@ =~= spec_decimal_text(n as int));
    }
    s
}

} // verus!
