//! Rendering of millisecond durations as `MM:SS.t`.

use vstd::prelude::*;
use crate::utils::text::{decimal, push_char, push_decimal};

verus! {

/// A number rendered with at least two digits, padded with a leading zero (`{:02}`).
pub open spec fn pad2(n: nat) -> Seq<char> {
    if n < 10 {
        seq!['0'] + decimal(n)
    } else {
        decimal(n)
    }
}

/// `MM:SS.t` for a duration of `ms` milliseconds: whole minutes (at least
/// two digits), the seconds within the minute (two digits), and tenths.
pub open spec fn duration_text(ms: nat) -> Seq<char> {
    let total_seconds = ms / 1000;
    pad2(total_seconds / 60) + seq![':'] + pad2(total_seconds % 60) + seq!['.'] + decimal(
        (ms % 1000) / 100,
    )
}

fn push_pad2(s: &mut String, n: u64)
    ensures
        final(s)@ == old(s)@ + pad2(n as nat),
{
    if n < 10 {
        push_char(s, '0');
    }
    push_decimal(s, n);
}

/// Formats `ms` milliseconds as `MM:SS.t`.
pub fn format_duration_ms(ms: u64) -> (res: String)
    ensures
        res@ == duration_text(ms as nat),
{
    let total_seconds = ms / 1000;
    let minutes = total_seconds / 60;
    let seconds = total_seconds % 60;
    let tenths = (ms % 1000) / 100;
    let mut s = String::new();
    push_pad2(&mut s, minutes);
    push_char(&mut s, ':');
    push_pad2(&mut s, seconds);
    push_char(&mut s, '.');
    push_decimal(&mut s, tenths);
    assert(s@ =~= duration_text(ms as nat));
    s
}

} // verus!
