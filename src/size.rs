//! Decimal rendering of integers and the human-readable byte size.

use vstd::prelude::*;

verus! {

/// The decimal digit character of `d`.
pub open spec fn digit_char(d: nat) -> char {
    if d == 0 {
        '0'
    } else if d == 1 {
        '1'
    } else if d == 2 {
        '2'
    } else if d == 3 {
        '3'
    } else if d == 4 {
        '4'
    } else if d == 5 {
        '5'
    } else if d == 6 {
        '6'
    } else if d == 7 {
        '7'
    } else if d == 8 {
        '8'
    } else {
        '9'
    }
}

/// The decimal notation of `n`, without sign or leading zeros.
pub open spec fn decimal(n: nat) -> Seq<char>
    decreases n,
{
    if n < 10 {
        seq![digit_char(n)]
    } else {
        decimal(n / 10).push(digit_char(n % 10))
    }
}

/// `1024` raised to the power `k`.
pub open spec fn pow1024(k: nat) -> nat
    decreases k,
{
    if k == 0 {
        1
    } else {
        1024 * pow1024((k - 1) as nat)
    }
}

/// The number of the largest unit in which `n` bytes still amount to one or more,
/// going from unit `k` up to unit 6 (exabytes) at most.
pub open spec fn unit_from(n: nat, k: nat) -> nat
    decreases 6 - k,
{
    if k < 6 && n >= pow1024(k + 1) {
        unit_from(n, k + 1)
    } else {
        k
    }
}

/// The unit in which a size of `n` bytes is shown: 0 for bytes, 1 for kilobytes, ...
pub open spec fn unit_of(n: nat) -> nat {
    unit_from(n, 0)
}

/// The suffix of unit `k`.
pub open spec fn unit_name(k: nat) -> Seq<char> {
    if k == 0 {
        "B"@
    } else if k == 1 {
        "KB"@
    } else if k == 2 {
        "MB"@
    } else if k == 3 {
        "GB"@
    } else if k == 4 {
        "TB"@
    } else if k == 5 {
        "PB"@
    } else {
        "EB"@
    }
}

/// `n / scale` in hundredths, rounded to the nearest, ties to the even neighbour.
pub open spec fn rounded_hundredths(n: nat, scale: nat) -> nat {
    let q = (n * 100) / scale;
    let r = (n * 100) % scale;
    if 2 * r > scale || (2 * r == scale && q % 2 == 1) {
        q + 1
    } else {
        q
    }
}

/// A size of `n` bytes in its unit with two decimals and the unit's suffix,
/// such as `2.00 KB`.
pub open spec fn size_text(n: nat) -> Seq<char> {
    let k = unit_of(n);
    let h = rounded_hundredths(n, pow1024(k));
    decimal(h / 100) + seq!['.', digit_char((h % 100) / 10), digit_char(h % 10), ' '] + unit_name(k)
}

fn digit_text(d: u128) -> (r: &'static str)
    requires
        d < 10,
    ensures
        r@ == seq![digit_char(d as nat)],
{
    if d == 0 {
        proof { reveal_strlit("0"); }
        "0"
    } else if d == 1 {
        proof { reveal_strlit("1"); }
        "1"
    } else if d == 2 {
        proof { reveal_strlit("2"); }
        "2"
    } else if d == 3 {
        proof { reveal_strlit("3"); }
        "3"
    } else if d == 4 {
        proof { reveal_strlit("4"); }
        "4"
    } else if d == 5 {
        proof { reveal_strlit("5"); }
        "5"
    } else if d == 6 {
        proof { reveal_strlit("6"); }
        "6"
    } else if d == 7 {
        proof { reveal_strlit("7"); }
        "7"
    } else if d == 8 {
        proof { reveal_strlit("8"); }
        "8"
    } else {
        proof { reveal_strlit("9"); }
        "9"
    }
}

/// The decimal notation of `n`.
pub fn decimal_string(n: u128) -> (r: String)
    ensures
        r@ == decimal(n as nat),
    decreases n,
{
    if n < 10 {
        String::from_str(digit_text(n))
    } else {
        let mut s = decimal_string(n / 10);
        s.append(digit_text(n % 10));
        s
    }
}

fn unit_text(k: usize) -> (r: &'static str)
    requires
        k <= 6,
    ensures
        r@ == unit_name(k as nat),
{
    if k == 0 {
        "B"
    } else if k == 1 {
        "KB"
    } else if k == 2 {
        "MB"
    } else if k == 3 {
        "GB"
    } else if k == 4 {
        "TB"
    } else if k == 5 {
        "PB"
    } else {
        "EB"
    }
}

proof fn lemma_pow1024_values()
    ensures
        pow1024(0) == 1,
        pow1024(1) == 1024,
        pow1024(2) == 1048576,
        pow1024(3) == 1073741824,
        pow1024(4) == 1099511627776,
        pow1024(5) == 1125899906842624,
        pow1024(6) == 1152921504606846976,
{
    reveal_with_fuel(pow1024, 7);
}

proof fn lemma_unit_from_bound(n: nat, k: nat)
    requires
        k <= 6,
    ensures
        k <= unit_from(n, k) <= 6,
    decreases 6 - k,
{
    if k < 6 && n >= pow1024(k + 1) {
        lemma_unit_from_bound(n, k + 1);
    }
}

/// Renders a byte count for people: divided by 1024 while it is at least 1024 and
/// a larger unit remains, with two decimals and the unit (`B` up to `EB`).
pub fn human_readable_size(size: usize) -> (r: String)
    ensures
        r@ == size_text(size as nat),
{
    let n: u128 = size as u128;
    let mut scale: u128 = 1;
    let mut unit: usize = 0;
    proof {
        lemma_pow1024_values();
    }
    while unit < 6 && n >= scale * 1024
        invariant
            unit <= 6,
            scale == pow1024(unit as nat),
            unit_from(n as nat, unit as nat) == unit_of(n as nat),
            n <= usize::MAX,
            pow1024(0) == 1,
            pow1024(1) == 1024,
            pow1024(2) == 1048576,
            pow1024(3) == 1073741824,
            pow1024(4) == 1099511627776,
            pow1024(5) == 1125899906842624,
            pow1024(6) == 1152921504606846976,
        decreases 6 - unit,
    {
        scale = scale * 1024;
        unit = unit + 1;
    }
    assert(unit_of(n as nat) == unit as nat);
    assert(scale >= 1);
    let total: u128 = n * 100;
    let q: u128 = total / scale;
    let rem: u128 = total % scale;
    let h: u128 = if rem * 2 > scale || (rem * 2 == scale && q % 2 == 1) {
        q + 1
    } else {
        q
    };
    assert(h == rounded_hundredths(n as nat, scale as nat));
    let mut r = decimal_string(h / 100);
    r.append(".");
    r.append(digit_text((h % 100) / 10));
    r.append(digit_text(h % 10));
    r.append(" ");
    r.append(unit_text(unit));
    proof {
        reveal_strlit(".");
        reveal_strlit(" ");
        assert(r@ =~= size_text(n as nat));
    }
    r
}

} // verus!
