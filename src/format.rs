use vstd::prelude::*;
use vstd::string::*;

verus! {

pub const KB: u64 = 1024;

pub const MB: u64 = 1048576;

pub const GB: u64 = 1073741824;

pub const TB: u64 = 1099511627776;

/// The character of one decimal digit.
pub open spec fn digit_char(d: nat) -> char {
    if d == 0 {
        '0'
    } else if d == 1 {
        '1'
    } else if d == 2 {
        '2'
    } else if d == 3 {
        '3'
    } else if d == 4 {
        '4'
    } else if d == 5 {
        '5'
    } else if d == 6 {
        '6'
    } else if d == 7 {
        '7'
    } else if d == 8 {
        '8'
    } else {
        '9'
    }
}

/// Decimal notation of `n`, without leading zeros.
pub open spec fn decimal(n: nat) -> Seq<char>
    decreases n,
{
    if n < 10 {
        seq![digit_char(n)]
    } else {
        decimal(n / 10) + seq![digit_char(n % 10)]
    }
}

/// `b / unit` in hundredths, rounded to the nearest, ties to the even neighbour.
pub open spec fn hundredths(b: nat, unit: nat) -> nat
    recommends
        unit > 0,
{
    let q = (b * 100) / unit;
    let r = (b * 100) % unit;
    if 2 * r > unit || (2 * r == unit && q % 2 == 1) {
        q + 1
    } else {
        q
    }
}

/// `b / unit` written with two decimals.
pub open spec fn two_decimals(b: nat, unit: nat) -> Seq<char> {
    let h = hundredths(b, unit);
    decimal(h / 100) + seq!['.', digit_char((h % 100) / 10), digit_char(h % 10)]
}

/// Human-readable size of `b` bytes: the largest binary unit up to terabytes
/// that `b` reaches, with two decimals, or the plain count below a kilobyte.
pub open spec fn byte_text(b: nat) -> Seq<char> {
    if b >= TB {
        two_decimals(b, TB as nat) + seq![' ', 'T', 'B']
    } else if b >= GB {
        two_decimals(b, GB as nat) + seq![' ', 'G', 'B']
    } else if b >= MB {
        two_decimals(b, MB as nat) + seq![' ', 'M', 'B']
    } else if b >= KB {
        two_decimals(b, KB as nat) + seq![' ', 'K', 'B']
    } else {
        decimal(b) + seq![' ', 'B']
    }
}

fn push_digit(s: &mut String, d: u64)
    requires
        d < 10,
    ensures
        final(s)@ == old(s)@ + seq![digit_char(d as nat)],
{
    proof {
        reveal_strlit("0");
        reveal_strlit("1");
        reveal_strlit("2");
        reveal_strlit("3");
        reveal_strlit("4");
        reveal_strlit("5");
        reveal_strlit("6");
        reveal_strlit("7");
        reveal_strlit("8");
        reveal_strlit("9");
    }
    let t = if d == 0 {
        "0"
    } else if d == 1 {
        "1"
    } else if d == 2 {
        "2"
    } else if d == 3 {
        "3"
    } else if d == 4 {
        "4"
    } else if d == 5 {
        "5"
    } else if d == 6 {
        "6"
    } else if d == 7 {
        "7"
    } else if d == 8 {
        "8"
    } else {
        "9"
    };
    s.append(t);
}

fn push_decimal(s: &mut String, n: u64)
    ensures
        final(s)@ == old(s)@ + decimal(n as nat),
    decreases n,
{
    if n >= 10 {
        push_decimal(s, n / 10);
        push_digit(s, n % 10);
        assert(final(s)@ =~= old(s)@ + decimal(n as nat));
    } else {
        push_digit(s, n);
    }
}

fn push_two_decimals(s: &mut String, b: u64, unit: u64)
    requires
        unit >= KB,
    ensures
        final(s)@ == old(s)@ + two_decimals(b as nat, unit as nat),
{
    let n: u128 = (b as u128) * 100;
    let u: u128 = unit as u128;
    let q: u128 = n / u;
    let r: u128 = n % u;
    let h: u128 = if 2 * r > u || (2 * r == u && q % 2 == 1) {
        q + 1
    } else {
        q
    };
    assert(h == hundredths(b as nat, unit as nat));
    assert(h <= b as u128 + 1) by (nonlinear_arith)
        requires
            q == n / u,
            n == b as u128 * 100,
            u >= 1024,
            h <= q + 1,
    {
    }
    push_decimal(s, (h / 100) as u64);
    proof {
        reveal_strlit(".");
    }
    s.append(".");
    push_digit(s, ((h % 100) / 10) as u64);
    push_digit(s, (h % 10) as u64);
    assert(final(s)@ =~= old(s)@ + two_decimals(b as nat, unit as nat));
}

/// Renders a byte count in the largest binary unit (KB, MB, GB, TB) that it
/// reaches, with two decimals rounded to nearest; below 1024 it is the
/// plain count followed by " B".
pub fn format_bytes(bytes: u64) -> (r: String)
    ensures
        r@ == byte_text(bytes as nat),
{
    let mut s = String::new();
    if bytes >= TB {
        push_two_decimals(&mut s, bytes, TB);
        proof {
            reveal_strlit(" TB");
        }
        s.append(" TB");
    } else if bytes >= GB {
        push_two_decimals(&mut s, bytes, GB);
        proof {
            reveal_strlit(" GB");
        }
        s.append(" GB");
    } else if bytes >= MB {
        push_two_decimals(&mut s, bytes, MB);
        proof {
            reveal_strlit(" MB");
        }
        s.append(" MB");
    } else if bytes >= KB {
        push_two_decimals(&mut s, bytes, KB);
        proof {
            reveal_strlit(" KB");
        }
        s.append(" KB");
    } else {
        push_decimal(&mut s, bytes);
        proof {
            reveal_strlit(" B");
        }
        s.append(" B");
    }
    assert(s@ =~= byte_text(bytes as nat));
    s
}

} // verus!
