//! Points in time as the journey planner reports them: an instant with the
//! UTC offset it was written in.

use vstd::prelude::*;
use crate::text::{dec2, push_char, push_dec2};

verus! {

/// Largest number of seconds from the epoch a [`Time`] may hold, beyond the
/// range any calendar date the planner returns can reach.
pub const MAX_EPOCH_SECS: i64 = 10_000_000_000_000;

/// An instant, `secs` seconds and `nanos` nanoseconds after the Unix epoch,
/// written with a UTC offset of `offset` seconds.
#[derive(Clone, Copy, Debug, PartialEq, Eq, Structural)]
pub struct Time {
    pub secs: i64,
    pub nanos: u32,
    pub offset: i32,
}

impl Time {
    /// Within the supported range, nanoseconds below one second, and an offset
    /// of less than a day.
    pub open spec fn wf(self) -> bool {
        &&& -MAX_EPOCH_SECS <= self.secs <= MAX_EPOCH_SECS
        &&& self.nanos < 1_000_000_000
        &&& -86400 < self.offset < 86400
    }

    /// Seconds since midnight on the wall clock of the time's own offset.
    pub open spec fn second_of_day(self) -> int {
        (self.secs + self.offset) % 86400
    }
}

/// Whole seconds from `earlier` to `later`, rounded toward zero: the
/// difference normalised to seconds and a non-negative nanosecond part, then
/// counted as whole seconds the way a duration's `num_seconds` counts them.
pub open spec fn spec_seconds_between(later: Time, earlier: Time) -> int {
    let d = later.secs - earlier.secs;
    let n = later.nanos - earlier.nanos;
    let s = if n < 0 { d - 1 } else { d };
    let ns = if n < 0 { n + 1_000_000_000 } else { n };
    if s < 0 && ns > 0 { s + 1 } else { s }
}

/// Integer division rounding toward zero, as `/` does on Rust integers.
pub open spec fn trunc_div(x: int, d: int) -> int {
    if x >= 0 { x / d } else { -((-x) / d) }
}

/// Whole seconds from `earlier` to `later`; negative when `later` is earlier.
pub fn seconds_between(later: &Time, earlier: &Time) -> (r: i64)
    requires
        later.wf(),
        earlier.wf(),
    ensures
        r == spec_seconds_between(*later, *earlier),
{
    let d = later.secs - earlier.secs;
    let n = later.nanos as i64 - earlier.nanos as i64;
    let s = if n < 0 { d - 1 } else { d };
    let ns = if n < 0 { n + 1_000_000_000 } else { n };
    if s < 0 && ns > 0 { s + 1 } else { s }
}

/// `HH:MM` on the wall clock of the time's own offset.
pub open spec fn spec_hhmm(t: Time) -> Seq<char> {
    let sod = t.second_of_day();
    dec2((sod / 3600) as nat) + seq![':'] + dec2(((sod % 3600) / 60) as nat)
}

/// `14:07`: hours and minutes in the time's own offset.
pub fn hhmm(t: &Time) -> (out: String)
    requires
        t.wf(),
    ensures
        out@ == spec_hhmm(*t),
{
    let local: i64 = t.secs + t.offset as i64;
    let mut sod: i64 = local % 86400;
    if sod < 0 {
        sod = sod + 86400;
    }
    assert(sod == t.second_of_day());
    let mut out = String::new();
    push_dec2(&mut out, (sod / 3600) as u64);
    push_char(&mut out, ':');
    push_dec2(&mut out, ((sod % 3600) / 60) as u64);
    out
}

} // verus!
