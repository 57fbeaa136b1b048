//! Axis labels: window edges as seconds with one decimal digit, and five
//! evenly spaced bitrate labels between zero and the range maximum.

use crate::numeric_formatter::{dec_digits, spec_humanize_bps, NumericFormatter};
use vstd::prelude::*;
use vstd::string::StringExecFns;

verus! {

/// The x-axis label of a time in milliseconds: seconds with one decimal
/// digit, rounded to the nearest tenth of a second (halves up), and an `s`
/// suffix. `tenths` counts tenths of a second, so its last digit is the
/// decimal and the rest is the whole seconds, carry included.
pub open spec fn spec_seconds_label(ms: nat) -> Seq<char> {
    let tenths = (ms + 50) / 100;
    dec_digits(tenths / 10) + "."@ + dec_digits(tenths % 10) + "s"@
}

/// The y-axis label at one of the five even steps between zero and the range
/// maximum: that fraction of the maximum, in bits per second. The step `i` of
/// 4 covers `i/4` of `max_rate` bytes, so `max_rate * 2 * i` bits.
pub open spec fn spec_y_label(max_rate: nat, i: nat) -> Seq<char>
    recommends
        i <= 4,
{
    spec_humanize_bps(max_rate * 2 * i)
}

/// Format a window edge for the x axis.
pub fn seconds_label(ms: u64) -> (s: String)
    ensures
        s@ == spec_seconds_label(ms as nat),
{
    let tenths: u128 = (ms as u128 + 50) / 100;
    let mut out = String::new();
    crate::numeric_formatter::push_dec(&mut out, tenths / 10);
    out.append(".");
    crate::numeric_formatter::push_dec(&mut out, tenths % 10);
    out.append("s");
    proof {
        assert(out@ =~= spec_seconds_label(ms as nat));
    }
    out
}

/// The five y-axis labels, from zero up to the range maximum.
pub fn y_axis_labels(max_rate: u64) -> (labels: Vec<String>)
    ensures
        labels@.len() == 5,
        forall|i: int| 0 <= i < 5 ==> #[trigger] labels@[i]@ == spec_y_label(max_rate as nat, i as nat),
{
    let mut labels: Vec<String> = Vec::new();
    let mut i: u64 = 0;
    while i < 5
        invariant
            i <= 5,
            labels@.len() == i,
            forall|j: int| 0 <= j < i ==> #[trigger] labels@[j]@ == spec_y_label(max_rate as nat, j as nat),
        decreases 5 - i,
    {
        proof {
            assert((max_rate as int) * 2 * (i as int) <= (u64::MAX as int) * 2 * 5)
                by (nonlinear_arith)
                requires
                    i <= 5,
                    max_rate <= u64::MAX,
            ;
        }
        let bits: u128 = (max_rate as u128) * 2 * (i as u128);
        labels.push(bits.humanize_bps());
        i = i + 1;
    }
    labels
}

} // verus!
