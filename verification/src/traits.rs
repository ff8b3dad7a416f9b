use vstd::prelude::*;
use vstd::string::StringExecFns;

verus! {

/// One binary kilobyte.
pub const KB: u64 = 1024;

/// One binary megabyte.
pub const MB: u64 = KB * 1024;

/// One binary gigabyte.
pub const GB: u64 = MB * 1024;

/// One binary terabyte.
pub const TB: u64 = GB * 1024;

/// The character for a single decimal digit.
pub open spec fn digit_char(d: nat) -> char {
    if d == 0 {
        '0'
    } else if d == 1 {
        '1'
    } else if d == 2 {
        '2'
    } else if d == 3 {
        '3'
    } else if d == 4 {
        '4'
    } else if d == 5 {
        '5'
    } else if d == 6 {
        '6'
    } else if d == 7 {
        '7'
    } else if d == 8 {
        '8'
    } else {
        '9'
    }
}

/// The decimal digits of `n`, most significant first, with no leading zeros
/// (a single zero for `n == 0`).
pub open spec fn spec_decimal_digits(n: nat) -> Seq<char>
    decreases n,
{
    if n < 10 {
        seq![digit_char(n)]
    } else {
        spec_decimal_digits(n / 10).push(digit_char(n % 10))
    }
}

/// `num / den` rounded to the nearest integer, ties going to the even
/// neighbour.
pub open spec fn round_half_even(num: nat, den: nat) -> nat
    recommends
        den > 0,
{
    let q = num / den;
    let r = num % den;
    if 2 * r < den {
        q
    } else if 2 * r > den {
        q + 1
    } else if q % 2 == 0 {
        q
    } else {
        q + 1
    }
}

/// `n / den` in hundredths, rounded to nearest with ties to even.
pub open spec fn spec_scaled_hundredths(n: nat, den: nat) -> nat
    recommends
        den > 0,
{
    round_half_even(n * 100, den)
}

/// `n / den` written with exactly two decimal places.
pub open spec fn spec_scaled_decimal(n: nat, den: nat) -> Seq<char>
    recommends
        den > 0,
{
    let h = spec_scaled_hundredths(n, den);
    spec_decimal_digits(h / 100) + seq!['.', digit_char((h / 10) % 10), digit_char(h % 10)]
}

/// The human-readable rendering of a byte count: plain bytes below one
/// kilobyte, otherwise two decimal places of the largest unit reached, up to
/// terabytes.
pub open spec fn spec_format_size(n: u64) -> Seq<char> {
    if n >= TB {
        spec_scaled_decimal(n as nat, TB as nat) + seq![' ', 'T', 'B']
    } else if n >= GB {
        spec_scaled_decimal(n as nat, GB as nat) + seq![' ', 'G', 'B']
    } else if n >= MB {
        spec_scaled_decimal(n as nat, MB as nat) + seq![' ', 'M', 'B']
    } else if n >= KB {
        spec_scaled_decimal(n as nat, KB as nat) + seq![' ', 'K', 'B']
    } else {
        spec_decimal_digits(n as nat) + seq![' ', 'b', 'y', 't', 'e', 's']
    }
}

/// Formats numeric byte counts as human-readable strings with binary units.
pub trait ByteSize {
    /// What `format_size` returns for this value.
    spec fn spec_format(&self) -> Seq<char>;

    /// Renders the value as a human-readable size string.
    fn format_size(&self) -> (s: String)
        ensures
            s@ == self.spec_format(),
    ;
}

/// The single-character string for a decimal digit.
fn digit_to_str(d: u64) -> (s: &'static str)
    requires
        d < 10,
    ensures
        s@ == seq![digit_char(d as nat)],
{
    if d == 0 {
        proof {
            reveal_strlit("0");
            assert("0"@ =~= seq![digit_char(0)]);
        }
        "0"
    } else if d == 1 {
        proof {
            reveal_strlit("1");
            assert("1"@ =~= seq![digit_char(1)]);
        }
        "1"
    } else if d == 2 {
        proof {
            reveal_strlit("2");
            assert("2"@ =~= seq![digit_char(2)]);
        }
        "2"
    } else if d == 3 {
        proof {
            reveal_strlit("3");
            assert("3"@ =~= seq![digit_char(3)]);
        }
        "3"
    } else if d == 4 {
        proof {
            reveal_strlit("4");
            assert("4"@ =~= seq![digit_char(4)]);
        }
        "4"
    } else if d == 5 {
        proof {
            reveal_strlit("5");
            assert("5"@ =~= seq![digit_char(5)]);
        }
        "5"
    } else if d == 6 {
        proof {
            reveal_strlit("6");
            assert("6"@ =~= seq![digit_char(6)]);
        }
        "6"
    } else if d == 7 {
        proof {
            reveal_strlit("7");
            assert("7"@ =~= seq![digit_char(7)]);
        }
        "7"
    } else if d == 8 {
        proof {
            reveal_strlit("8");
            assert("8"@ =~= seq![digit_char(8)]);
        }
        "8"
    } else {
        proof {
            reveal_strlit("9");
            assert("9"@ =~= seq![digit_char(9)]);
        }
        "9"
    }
}

/// Appends the decimal digits of `n` to `out`.
fn push_decimal_digits(n: u64, out: &mut String)
    ensures
        final(out)@ == old(out)@ + spec_decimal_digits(n as nat),
    decreases n,
{
    if n < 10 {
        out.append(digit_to_str(n));
        assert(out@ =~= old(out)@ + spec_decimal_digits(n as nat));
    } else {
        push_decimal_digits(n / 10, out);
        out.append(digit_to_str(n % 10));
        assert(out@ =~= old(out)@ + spec_decimal_digits(n as nat));
    }
}

/// `n / den` in hundredths, rounded to nearest with ties to even, computed
/// without loss in 128-bit arithmetic.
fn scaled_hundredths(n: u64, den: u64) -> (r: u64)
    requires
        1024 <= den,
    ensures
        r as nat == spec_scaled_hundredths(n as nat, den as nat),
{
    let num: u128 = (n as u128) * 100;
    let d: u128 = den as u128;
    let q: u128 = num / d;
    let rem: u128 = num % d;
    proof {
        vstd::arithmetic::div_mod::lemma_div_is_ordered_by_denominator(num as int, 1024, d as int);
        vstd::arithmetic::div_mod::lemma_div_is_ordered(
            num as int,
            0xffffffffffffffff as int * 100,
            1024,
        );
    }
    let res: u128 = if 2 * rem < d {
        q
    } else if 2 * rem > d {
        q + 1
    } else if q % 2 == 0 {
        q
    } else {
        q + 1
    };
    res as u64
}

/// Renders `n / den` with exactly two decimal places.
fn scaled_decimal(n: u64, den: u64) -> (s: String)
    requires
        1024 <= den,
    ensures
        s@ == spec_scaled_decimal(n as nat, den as nat),
{
    let h = scaled_hundredths(n, den);
    let mut s = String::new();
    push_decimal_digits(h / 100, &mut s);
    proof {
        reveal_strlit(".");
        assert("."@ =~= seq!['.']);
    }
    s.append(".");
    s.append(digit_to_str((h / 10) % 10));
    s.append(digit_to_str(h % 10));
    assert(s@ =~= spec_scaled_decimal(n as nat, den as nat));
    s
}

impl ByteSize for u64 {
    open spec fn spec_format(&self) -> Seq<char> {
        spec_format_size(*self)
    }

    /// Renders a byte count with binary units: `1536u64` becomes "1.50 KB",
    /// values below one kilobyte stay in plain bytes.
    fn format_size(&self) -> (s: String)
        ensures
            s@ == spec_format_size(*self),
    {
        let n: u64 = *self;
        if n >= TB {
            let mut s = scaled_decimal(n, TB);
            proof {
                reveal_strlit(" TB");
                assert(" TB"@ =~= seq![' ', 'T', 'B']);
            }
            s.append(" TB");
            assert(s@ =~= spec_format_size(n));
            s
        } else if n >= GB {
            let mut s = scaled_decimal(n, GB);
            proof {
                reveal_strlit(" GB");
                assert(" GB"@ =~= seq![' ', 'G', 'B']);
            }
            s.append(" GB");
            assert(s@ =~= spec_format_size(n));
            s
        } else if n >= MB {
            let mut s = scaled_decimal(n, MB);
            proof {
                reveal_strlit(" MB");
                assert(" MB"@ =~= seq![' ', 'M', 'B']);
            }
            s.append(" MB");
            assert(s@ =~= spec_format_size(n));
            s
        } else if n >= KB {
            let mut s = scaled_decimal(n, KB);
            proof {
                reveal_strlit(" KB");
                assert(" KB"@ =~= seq![' ', 'K', 'B']);
            }
            s.append(" KB");
            assert(s@ =~= spec_format_size(n));
            s
        } else {
            let mut s = String::new();
            push_decimal_digits(n, &mut s);
            proof {
                reveal_strlit(" bytes");
                assert(" bytes"@ =~= seq![' ', 'b', 'y', 't', 'e', 's']);
            }
            s.append(" bytes");
            assert(s@ =~= spec_format_size(n));
            s
        }
    }
}

} // verus!
