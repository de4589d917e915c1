use vstd::prelude::*;

verus! {

/// Division that rounds toward zero, as machine division does.
pub open spec fn trunc_div(a: int, d: int) -> int {
    if a >= 0 {
        a / d
    } else {
        -((-a) / d)
    }
}

/// The remainder that goes with `trunc_div`: it takes the sign of `a`.
pub open spec fn trunc_rem(a: int, d: int) -> int {
    a - d * trunc_div(a, d)
}

fn div256(a: i64) -> (r: i64)
    requires
        a > i64::MIN,
    ensures
        r == trunc_div(a as int, 256),
        a >= 0 ==> 0 <= r <= a,
        a < 0 ==> a <= r <= 0,
{
    if a >= 0 {
        a / 256
    } else {
        -((-a) / 256)
    }
}

/// The whole semitones of a fine-tuning value in 1/256 semitone steps.
pub fn semitone_tuning(note: i32) -> (r: i32)
    ensures
        r == trunc_div(note as int, 256),
{
    div256(note as i64) as i32
}

/// The cents left over by `semitone_tuning`.
pub fn cents_tuning(note: i32) -> (r: i32)
    ensures
        r == trunc_div(trunc_rem(note as int, 256) * 100, 256),
{
    let q = div256(note as i64);
    let rem = note as i64 - 256 * q;
    assert(-256 < rem < 256);
    div256(rem * 100) as i32
}

} // verus!
