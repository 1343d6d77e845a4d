//! Rendering the remaining time as `HH:MM:SS.cc`, zero-padded, clamped to
//! zero, with floored hour and minute components.

use vstd::prelude::*;
use vstd::string::*;

verus! {

/// Ticks in one hour.
pub const TICKS_PER_HOUR: u64 = 216_000;

/// Ticks in one minute.
pub const TICKS_PER_MIN: u64 = 3_600;

/// The decimal digit character for `d` in `0 ..= 9`.
pub open spec fn digit_char(d: int) -> char {
    if d == 0 {
        '0'
    } else if d == 1 {
        '1'
    } else if d == 2 {
        '2'
    } else if d == 3 {
        '3'
    } else if d == 4 {
        '4'
    } else if d == 5 {
        '5'
    } else if d == 6 {
        '6'
    } else if d == 7 {
        '7'
    } else if d == 8 {
        '8'
    } else {
        '9'
    }
}

/// The usual decimal rendering of `n`, without leading zeros.
pub open spec fn spec_decimal(n: nat) -> Seq<char>
    decreases n,
{
    if n < 10 {
        seq![digit_char(n as int)]
    } else {
        spec_decimal(n / 10) + seq![digit_char((n % 10) as int)]
    }
}

/// Decimal rendering padded with zeros to at least two digits.
pub open spec fn spec_padded2(n: nat) -> Seq<char> {
    if n < 10 {
        seq!['0'] + spec_decimal(n)
    } else {
        spec_decimal(n)
    }
}

/// The display value of a remaining-tick count: never negative.
pub open spec fn spec_clamped(t: int) -> nat {
    if t > 0 {
        t as nat
    } else {
        0
    }
}

/// The full formatted remaining time for `t` ticks: hours, minutes, seconds
/// and centiseconds of the clamped value, each floored and zero-padded.
pub open spec fn spec_format(t: int) -> Seq<char> {
    let c = spec_clamped(t);
    spec_padded2(c / (TICKS_PER_HOUR as nat)) + seq![':'] + spec_padded2(
        (c / (TICKS_PER_MIN as nat)) % 60,
    ) + seq![':'] + spec_padded2((c / 60) % 60) + seq!['.'] + spec_padded2((c % 60) * 100 / 60)
}

/// The single-character string for the decimal digit `d`.
fn digit_str(d: u64) -> (r: &'static str)
    requires
        d < 10,
    ensures
        r@ == seq![digit_char(d as int)],
{
    if d == 0 {
        proof {
            reveal_strlit("0");
            assert("0"@ =~= seq![digit_char(0)]);
        }
        "0"
    } else if d == 1 {
        proof {
            reveal_strlit("1");
            assert("1"@ =~= seq![digit_char(1)]);
        }
        "1"
    } else if d == 2 {
        proof {
            reveal_strlit("2");
            assert("2"@ =~= seq![digit_char(2)]);
        }
        "2"
    } else if d == 3 {
        proof {
            reveal_strlit("3");
            assert("3"@ =~= seq![digit_char(3)]);
        }
        "3"
    } else if d == 4 {
        proof {
            reveal_strlit("4");
            assert("4"@ =~= seq![digit_char(4)]);
        }
        "4"
    } else if d == 5 {
        proof {
            reveal_strlit("5");
            assert("5"@ =~= seq![digit_char(5)]);
        }
        "5"
    } else if d == 6 {
        proof {
            reveal_strlit("6");
            assert("6"@ =~= seq![digit_char(6)]);
        }
        "6"
    } else if d == 7 {
        proof {
            reveal_strlit("7");
            assert("7"@ =~= seq![digit_char(7)]);
        }
        "7"
    } else if d == 8 {
        proof {
            reveal_strlit("8");
            assert("8"@ =~= seq![digit_char(8)]);
        }
        "8"
    } else {
        proof {
            reveal_strlit("9");
            assert("9"@ =~= seq![digit_char(9)]);
        }
        "9"
    }
}

/// Append the decimal rendering of `n` to `out`.
fn push_decimal(out: &mut String, n: u64)
    ensures
        final(out)@ == old(out)@ + spec_decimal(n as nat),
    decreases n,
{
    if n < 10 {
        out.append(digit_str(n));
    } else {
        push_decimal(out, n / 10);
        out.append(digit_str(n % 10));
        proof {
            assert(out@ =~= old(out)@ + spec_decimal(n as nat));
        }
    }
}

/// Append the two-digit-padded decimal rendering of `n` to `out`.
fn push_padded2(out: &mut String, n: u64)
    ensures
        final(out)@ == old(out)@ + spec_padded2(n as nat),
{
    if n < 10 {
        proof {
            reveal_strlit("0");
        }
        out.append("0");
    }
    push_decimal(out, n);
    proof {
        assert(out@ =~= old(out)@ + spec_padded2(n as nat));
    }
}

/// Format `ticks` of remaining time as `HH:MM:SS.cc`, clamping negative
/// values to zero.
pub fn format_remaining(ticks: i64) -> (r: String)
    ensures
        r@ == spec_format(ticks as int),
{
    let c: u64 = if ticks > 0 {
        ticks as u64
    } else {
        0
    };
    let hours = c / TICKS_PER_HOUR;
    let minutes = (c / TICKS_PER_MIN) % 60;
    let seconds = (c / 60) % 60;
    let centis = (c % 60) * 100 / 60;
    proof {
        reveal_strlit(":");
        reveal_strlit(".");
    }
    let mut out = String::new();
    push_padded2(&mut out, hours);
    out.append(":");
    push_padded2(&mut out, minutes);
    out.append(":");
    push_padded2(&mut out, seconds);
    out.append(".");
    push_padded2(&mut out, centis);
    proof {
        assert(":"@ =~= seq![':']);
        assert("."@ =~= seq!['.']);
        assert(out@ =~= spec_format(ticks as int));
    }
    out
}

/// Clamping law: every non-positive remainder formats exactly as zero does.
pub proof fn lemma_format_clamped(t: int)
    requires
        t <= 0,
    ensures
        spec_format(t) == spec_format(0),
{
}

/// The number of centiseconds the formatted string displays: the whole
/// seconds of the clamped remainder, with the floored centisecond fraction.
pub open spec fn spec_display_centis(t: int) -> int {
    let c = spec_clamped(t) as int;
    100 * (c / 60) + (c % 60) * 100 / 60
}

/// The hour, minute, second and centisecond fields of the format are exactly
/// the mixed-radix digits of the displayed centisecond count, so the string
/// shows `spec_display_centis` and nothing else.
pub proof fn lemma_format_fields(t: int)
    ensures
        spec_display_centis(t) == ((spec_clamped(t) as int / (TICKS_PER_HOUR as int)) * 3600 + ((
        spec_clamped(t) as int / (TICKS_PER_MIN as int)) % 60) * 60 + (spec_clamped(t) as int / 60)
            % 60) * 100 + (spec_clamped(t) as int % 60) * 100 / 60,
{
    let c = spec_clamped(t) as int;
    let w = c / 60;
    vstd::arithmetic::div_mod::lemma_div_denominator(c, 60, 3600);
    vstd::arithmetic::div_mod::lemma_div_denominator(c, 60, 60);
    vstd::arithmetic::div_mod::lemma_div_pos_is_pos(c, 60);
    vstd::arithmetic::div_mod::lemma_fundamental_div_mod(w, 3600);
    vstd::arithmetic::div_mod::lemma_mod_breakdown(w, 60, 60);
}

/// Monotonicity of the display: more remaining time never shows as a
/// smaller time.
pub proof fn lemma_display_monotonic(t1: int, t2: int)
    requires
        t1 <= t2,
    ensures
        spec_display_centis(t1) <= spec_display_centis(t2),
{
    let c1 = spec_clamped(t1) as int;
    let c2 = spec_clamped(t2) as int;
    vstd::arithmetic::div_mod::lemma_div_is_ordered(c1, c2, 60);
    vstd::arithmetic::div_mod::lemma_mod_bound(c1, 60);
    vstd::arithmetic::div_mod::lemma_mod_bound(c2, 60);
    if c1 / 60 == c2 / 60 {
        vstd::arithmetic::div_mod::lemma_fundamental_div_mod(c1, 60);
        vstd::arithmetic::div_mod::lemma_fundamental_div_mod(c2, 60);
        vstd::arithmetic::div_mod::lemma_div_is_ordered((c1 % 60) * 100, (c2 % 60) * 100, 60);
    } else {
        vstd::arithmetic::div_mod::lemma_div_is_ordered((c1 % 60) * 100, 5900, 60);
        vstd::arithmetic::div_mod::lemma_div_is_ordered(0, (c2 % 60) * 100, 60);
    }
}

} // verus!
