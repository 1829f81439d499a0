use vstd::prelude::*;

use crate::stopwatch::{all_closed, spec_elapsed, Stopwatch};

verus! {

/// The decimal digit character for a value below ten.
pub open spec fn spec_digit_char(d: nat) -> char {
    if d == 0 {
        '0'
    } else if d == 1 {
        '1'
    } else if d == 2 {
        '2'
    } else if d == 3 {
        '3'
    } else if d == 4 {
        '4'
    } else if d == 5 {
        '5'
    } else if d == 6 {
        '6'
    } else if d == 7 {
        '7'
    } else if d == 8 {
        '8'
    } else {
        '9'
    }
}

/// The ordinary decimal rendering of `n`: most significant digit first,
/// no leading zeros (except for zero itself, rendered "0").
pub open spec fn spec_dec_digits(n: nat) -> Seq<char>
    decreases n,
{
    if n < 10 {
        seq![spec_digit_char(n)]
    } else {
        spec_dec_digits(n / 10) + seq![spec_digit_char(n % 10)]
    }
}

/// The decimal rendering of `n` padded with leading zeros to exactly
/// `width` digits (keeping only the lowest `width` digits of `n`).
pub open spec fn spec_padded_digits(n: nat, width: nat) -> Seq<char>
    decreases width,
{
    if width == 0 {
        Seq::<char>::empty()
    } else {
        spec_padded_digits(n / 10, (width - 1) as nat) + seq![spec_digit_char(n % 10)]
    }
}

/// A fractional part of `width` digits with its trailing zeros removed:
/// zeros are stripped from the low end of `n`, and what is left is
/// rendered zero-padded to the remaining width.
pub open spec fn spec_trimmed_frac(n: nat, width: nat) -> Seq<char>
    decreases width,
{
    if width == 0 {
        Seq::<char>::empty()
    } else if n % 10 == 0 {
        spec_trimmed_frac(n / 10, (width - 1) as nat)
    } else {
        spec_padded_digits(n, width)
    }
}

/// The human-readable rendering of a total of `ns` nanoseconds: whole
/// seconds in decimal, a fractional part with trailing zeros removed
/// when there is one, and the unit marker `s` — "1.234s", "0.05s", "2s".
pub open spec fn spec_render(ns: nat) -> Seq<char> {
    let secs = ns / 1_000_000_000;
    let frac = ns % 1_000_000_000;
    spec_dec_digits(secs) + (if frac == 0 {
        Seq::<char>::empty()
    } else {
        seq!['.'] + spec_trimmed_frac(frac, 9)
    }) + seq!['s']
}

/// The single-character string for a decimal digit.
fn digit_str(d: u64) -> (s: &'static str)
    requires
        d < 10,
    ensures
        s@ == seq![spec_digit_char(d as nat)],
{
    proof {
        reveal_strlit("0");
        reveal_strlit("1");
        reveal_strlit("2");
        reveal_strlit("3");
        reveal_strlit("4");
        reveal_strlit("5");
        reveal_strlit("6");
        reveal_strlit("7");
        reveal_strlit("8");
        reveal_strlit("9");
    }
    let s: &'static str = if d == 0 {
        "0"
    } else if d == 1 {
        "1"
    } else if d == 2 {
        "2"
    } else if d == 3 {
        "3"
    } else if d == 4 {
        "4"
    } else if d == 5 {
        "5"
    } else if d == 6 {
        "6"
    } else if d == 7 {
        "7"
    } else if d == 8 {
        "8"
    } else {
        "9"
    };
    proof {
        assert(s@ =~= seq![spec_digit_char(d as nat)]);
    }
    s
}

/// Appends the decimal rendering of `n` to `out`.
fn push_dec_digits(out: &mut String, n: u128)
    ensures
        final(out)@ == old(out)@ + spec_dec_digits(n as nat),
    decreases n,
{
    if n >= 10 {
        push_dec_digits(out, n / 10);
        out.append(digit_str((n % 10) as u64));
        proof {
            assert(out@ =~= old(out)@ + spec_dec_digits(n as nat));
        }
    } else {
        out.append(digit_str(n as u64));
        proof {
            assert(out@ =~= old(out)@ + spec_dec_digits(n as nat));
        }
    }
}

/// Appends the `width`-digit zero-padded rendering of `n` to `out`.
fn push_padded_digits(out: &mut String, n: u64, width: u64)
    ensures
        final(out)@ == old(out)@ + spec_padded_digits(n as nat, width as nat),
    decreases width,
{
    if width > 0 {
        push_padded_digits(out, n / 10, width - 1);
        out.append(digit_str(n % 10));
        proof {
            assert(out@ =~= old(out)@ + spec_padded_digits(n as nat, width as nat));
        }
    } else {
        proof {
            assert(out@ =~= old(out)@ + spec_padded_digits(n as nat, width as nat));
        }
    }
}

/// Appends the trimmed `width`-digit fractional rendering of `n` to
/// `out`.
fn push_trimmed_frac(out: &mut String, n: u64, width: u64)
    ensures
        final(out)@ == old(out)@ + spec_trimmed_frac(n as nat, width as nat),
    decreases width,
{
    if width == 0 {
        proof {
            assert(out@ =~= old(out)@ + spec_trimmed_frac(n as nat, width as nat));
        }
    } else if n % 10 == 0 {
        push_trimmed_frac(out, n / 10, width - 1);
    } else {
        push_padded_digits(out, n, width);
    }
}

/// Renders a total of `ns` nanoseconds as "<seconds>.<fraction>s".
pub fn format_elapsed_ns(ns: u128) -> (r: String)
    ensures
        r@ == spec_render(ns as nat),
{
    let secs: u128 = ns / 1_000_000_000;
    let frac: u64 = (ns % 1_000_000_000) as u64;
    let mut out = String::new();
    push_dec_digits(&mut out, secs);
    if frac > 0 {
        proof {
            reveal_strlit(".");
        }
        out.append(".");
        push_trimmed_frac(&mut out, frac, 9);
    }
    proof {
        reveal_strlit("s");
    }
    out.append("s");
    proof {
        assert(out@ =~= spec_render(ns as nat));
    }
    out
}

impl Stopwatch {
    /// Renders the total time this stopwatch has run, as the elapsed
    /// seconds with the unit marker `s` — the rendering of [`Self::elapsed`]
    /// at the instant of the call.
    pub fn render(&self) -> (r: String)
        ensures
            exists|now: u64| r@ == spec_render(#[trigger] spec_elapsed(self.spans@, now)),
            all_closed(self.spans@) ==> r@ == spec_render(spec_elapsed(self.spans@, 0)),
    {
        let e = self.elapsed();
        let r = format_elapsed_ns(e);
        proof {
            let w = choose|now: u64| e == spec_elapsed(self.spans@, now);
            assert(r@ == spec_render(spec_elapsed(self.spans@, w)));
        }
        r
    }
}

} // verus!
