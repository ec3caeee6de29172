use vstd::prelude::*;

verus! {

/// Appends one character to a string.
///
/// Trusted: calls `String::push`, which std documents as appending the
/// given `char` to the end of the string.
#[verifier::external_body]
pub(crate) fn push_char(s: &mut String, c: char)
    ensures
        final(s)@ == old(s)@.push(c),
{
    s.push(c);
}

/// The decimal digit for `d` (0 to 9).
pub open spec fn digit_char(d: nat) -> char {
    if d == 0 {
        '0'
    } else if d == 1 {
        '1'
    } else if d == 2 {
        '2'
    } else if d == 3 {
        '3'
    } else if d == 4 {
        '4'
    } else if d == 5 {
        '5'
    } else if d == 6 {
        '6'
    } else if d == 7 {
        '7'
    } else if d == 8 {
        '8'
    } else {
        '9'
    }
}

/// The decimal representation of `n`, without leading zeros.
pub open spec fn decimal_text(n: nat) -> Seq<char>
    decreases n,
{
    if n < 10 {
        seq![digit_char(n)]
    } else {
        decimal_text(n / 10).push(digit_char(n % 10))
    }
}

fn digit(d: u64) -> (c: char)
    requires
        d < 10,
    ensures
        c == digit_char(d as nat),
{
    if d == 0 {
        '0'
    } else if d == 1 {
        '1'
    } else if d == 2 {
        '2'
    } else if d == 3 {
        '3'
    } else if d == 4 {
        '4'
    } else if d == 5 {
        '5'
    } else if d == 6 {
        '6'
    } else if d == 7 {
        '7'
    } else if d == 8 {
        '8'
    } else {
        '9'
    }
}

/// The decimal representation of `n`.
pub fn decimal_string(n: u64) -> (r: String)
    ensures
        r@ == decimal_text(n as nat),
{
    // Collect the digits from the least significant one.
    let mut digits: Vec<char> = Vec::new();
    let mut rest: u64 = n;
    assert(decimal_text(n as nat) =~= decimal_text(rest as nat) + digits@.reverse());
    while rest >= 10
        invariant
            decimal_text(n as nat) == decimal_text(rest as nat) + digits@.reverse(),
        decreases rest,
    {
        let d = digit(rest % 10);
        let ghost old_digits = digits@;
        digits.push(d);
        assert(digits@.reverse() =~= seq![d] + old_digits.reverse());
        assert(decimal_text(rest as nat) == decimal_text((rest / 10) as nat).push(d));
        assert(decimal_text((rest / 10) as nat).push(d) + old_digits.reverse() =~= decimal_text(
            (rest / 10) as nat,
        ) + (seq![d] + old_digits.reverse()));
        rest = rest / 10;
    }
    let ghost old_digits = digits@;
    digits.push(digit(rest));
    assert(digits@.reverse() =~= seq![digit_char(rest as nat)] + old_digits.reverse());
    let mut out = String::new();
    let mut i: usize = digits.len();
    assert(decimal_text(n as nat) =~= digits@.reverse());
    while i > 0
        invariant
            i <= digits@.len(),
            out@ == digits@.reverse().take(digits@.len() - i),
            decimal_text(n as nat) == digits@.reverse(),
        decreases i,
    {
        i = i - 1;
        push_char(&mut out, digits[i]);
        assert(out@ =~= digits@.reverse().take(digits@.len() - i));
    }
    assert(out@ =~= digits@.reverse());
    out
}

} // verus!
