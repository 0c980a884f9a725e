//! The key-repeat rule the editors and menus share. Times are whole
//! milliseconds read from a clock that the caller keeps, and the library
//! only compares them.
use vstd::prelude::*;

verus! {

/// The milliseconds from `earlier` to `now`; none when `now` comes first.
pub open spec fn elapsed_ms(now: u64, earlier: u64) -> int {
    if now >= earlier {
        now - earlier
    } else {
        0
    }
}

/// The milliseconds from `earlier` to `now` (see `elapsed_ms`).
pub fn elapsed_since(now: u64, earlier: u64) -> (r: u64)
    ensures
        r == elapsed_ms(now, earlier),
{
    if now >= earlier {
        now - earlier
    } else {
        0
    }
}

/// Whether a key is handled at `now` (see `key_repeat`).
pub open spec fn key_repeat_fires(last: Option<u64>, rate: u64, key_held: bool, key_pressed: bool, now: u64) -> bool {
    if !key_held {
        key_pressed
    } else {
        match last {
            Some(t) => elapsed_ms(now, t) >= rate,
            None => false,
        }
    }
}

/// When the key was last handled after `key_repeat` answered `fired`.
pub open spec fn key_repeat_last(last: Option<u64>, key_held: bool, fired: bool, now: u64) -> Option<u64> {
    if fired || (key_held && last is None) {
        Some(now)
    } else {
        last
    }
}

/// Whether a key is handled this frame: a key just pressed (and not held)
/// is handled at once; a key held down is handled again each time `rate`
/// milliseconds have passed since it was last handled, the first frame it
/// is held only starting the clock. `last` records when the key was last
/// handled.
pub fn key_repeat(last: &mut Option<u64>, rate: u64, key_held: bool, key_pressed: bool, now: u64) -> (r: bool)
    ensures
        r == key_repeat_fires(*old(last), rate, key_held, key_pressed, now),
        *final(last) == key_repeat_last(*old(last), key_held, r, now),
{
    if !key_held {
        if key_pressed {
            *last = Some(now);
            return true;
        }
        return false;
    }
    match *last {
        Some(last_time) => {
            if elapsed_since(now, last_time) >= rate {
                *last = Some(now);
                return true;
            }
            false
        },
        None => {
            *last = Some(now);
            false
        },
    }
}

} // verus!
