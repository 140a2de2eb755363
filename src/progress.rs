//! Progress reporting for the dispatcher: when to report, and the bar that
//! is shown.

use crate::text::{decimal, pad_left, push_char, push_padded_decimal, push_str};
use vstd::prelude::*;

verus! {

/// Progress is reported after every this many completed probes.
pub const PROGRESS_STEP: usize = 25;

/// Progress is reported on every `PROGRESS_STEP`-th completion, and on the
/// last one.
pub open spec fn reports_progress(count: nat, total: nat) -> bool {
    count % (PROGRESS_STEP as nat) == 0 || count == total
}

/// Whether the completion of the `count`-th of `total` probes is reported.
pub fn should_report_progress(count: usize, total: usize) -> (r: bool)
    ensures
        r == reports_progress(count as nat, total as nat),
{
    count % PROGRESS_STEP == 0 || count == total
}

/// How many of the bar's `width` cells are filled after `current` of
/// `total` probes.
pub open spec fn filled_cells(current: nat, total: nat, width: nat) -> nat {
    (current * width / total) as nat
}

/// The completed share, in whole percent rounded down.
pub open spec fn percentage(current: nat, total: nat) -> nat {
    (current * 100 / total) as nat
}

/// `n` copies of `c`.
pub open spec fn repeated(c: char, n: nat) -> Seq<char> {
    Seq::new(n, |i: int| c)
}

/// The progress bar after `current` of `total` probes.
pub open spec fn progress_bar(current: nat, total: nat, width: nat) -> Seq<char> {
    let filled = filled_cells(current, total, width);
    "│"@ + repeated('█', filled) + repeated('░', (width - filled) as nat) + " │ "@ + pad_left(
        decimal(percentage(current, total)),
        3,
    ) + "% ("@ + pad_left(decimal(current), 4) + "/"@ + pad_left(decimal(total), 4) + ")"@
}

fn push_repeated(s: &mut String, c: char, n: usize)
    ensures
        final(s)@ == old(s)@ + repeated(c, n as nat),
{
    let ghost start = s@;
    for i in 0..n
        invariant
            s@ == start + repeated(c, i as nat),
    {
        push_char(s, c);
        assert(s@ =~= start + repeated(c, (i + 1) as nat));
    }
}

/// The progress bar of `width` cells after `current` of `total` probes,
/// with the percentage and the counts.
pub fn create_progress_bar(current: usize, total: usize, width: usize) -> (r: String)
    requires
        0 < total,
        current <= total,
    ensures
        r@ == progress_bar(current as nat, total as nat, width as nat),
{
    let c = current as u128;
    let t = total as u128;
    proof {
        let ci = current as int;
        let ti = total as int;
        let wi = width as int;
        assert(ci * wi <= ti * wi) by (nonlinear_arith)
            requires
                0 <= ci <= ti,
                0 <= wi,
        ;
        assert(ci * wi / ti <= wi) by (nonlinear_arith)
            requires
                0 <= ci * wi <= ti * wi,
                0 < ti,
        ;
        assert(ci * 100 / ti <= 100) by (nonlinear_arith)
            requires
                0 <= ci <= ti,
                0 < ti,
        ;
        assert(ci * wi <= 0xffff_ffff_ffff_ffff * 0xffff_ffff_ffff_ffff) by (nonlinear_arith)
            requires
                0 <= ci <= 0xffff_ffff_ffff_ffff,
                0 <= wi <= 0xffff_ffff_ffff_ffff,
        ;
        assert(0 <= ci * wi / ti) by (nonlinear_arith)
            requires
                0 <= ci * wi,
                0 < ti,
        ;
    }
    let filled = (c * (width as u128) / t) as usize;
    let pct = (c * 100 / t) as usize;
    let mut s = String::new();
    push_str(&mut s, "│");
    push_repeated(&mut s, '█', filled);
    push_repeated(&mut s, '░', width - filled);
    push_str(&mut s, " │ ");
    push_padded_decimal(&mut s, pct, 3);
    push_str(&mut s, "% (");
    push_padded_decimal(&mut s, current, 4);
    push_str(&mut s, "/");
    push_padded_decimal(&mut s, total, 4);
    push_str(&mut s, ")");
    assert(s@ =~= progress_bar(current as nat, total as nat, width as nat));
    s
}

} // verus!
