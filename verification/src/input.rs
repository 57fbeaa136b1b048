//! Input handling: mapping recognized keys to display-duration changes and
//! shutdown, keeping the display duration strictly positive.

use vstd::prelude::*;

verus! {

/// A key the controller recognizes; anything else is `Other`.
#[derive(Clone, Copy, PartialEq, Eq, Structural, Debug)]
pub enum InputKey {
    Quit,
    IncreaseWindow,
    DecreaseWindow,
    Other,
}

/// The effect of one key on the display state: the new display duration and
/// whether shutdown was requested. Doubling that would not fit is ignored;
/// halving never goes below `min_duration_ms`, so the window can never become
/// degenerate.
pub fn apply_input(duration_ms: u64, min_duration_ms: u64, key: InputKey) -> (r: (u64, bool))
    requires
        min_duration_ms > 0,
        duration_ms >= min_duration_ms,
    ensures
        r.0 >= min_duration_ms,
        r.1 == (key == InputKey::Quit),
        key == InputKey::IncreaseWindow ==> r.0 == if duration_ms <= u64::MAX / 2 {
            2 * duration_ms
        } else {
            duration_ms as int
        },
        key == InputKey::DecreaseWindow ==> r.0 == if duration_ms / 2 >= min_duration_ms {
            duration_ms / 2
        } else {
            min_duration_ms
        },
        key == InputKey::Quit || key == InputKey::Other ==> r.0 == duration_ms,
{
    match key {
        InputKey::Quit => (duration_ms, true),
        InputKey::IncreaseWindow => {
            if duration_ms <= u64::MAX / 2 {
                (duration_ms * 2, false)
            } else {
                (duration_ms, false)
            }
        },
        InputKey::DecreaseWindow => {
            let half: u64 = duration_ms / 2;
            if half >= min_duration_ms {
                (half, false)
            } else {
                (min_duration_ms, false)
            }
        },
        InputKey::Other => (duration_ms, false),
    }
}

} // verus!
