//! The keypad: sixteen keys, each down or up.

use crate::state::NUM_KEYS;
use vstd::prelude::*;

verus! {

/// Key `k` is down and no key below it is.
pub open spec fn is_first_pressed(keys: Seq<bool>, k: int) -> bool {
    &&& 0 <= k < keys.len()
    &&& keys[k]
    &&& forall|j: int| 0 <= j < k ==> !keys[j]
}

/// The lowest key that is down, if any is.
pub open spec fn first_pressed(keys: Seq<bool>) -> Option<u8> {
    if exists|k: int| is_first_pressed(keys, k) {
        Some((choose|k: int| is_first_pressed(keys, k)) as u8)
    } else {
        None
    }
}

/// The lowest key that is down, if any is.
pub(crate) fn first_pressed_key(keys: &[bool; NUM_KEYS]) -> (r: Option<u8>)
    ensures
        r == first_pressed(keys@),
{
    let mut k: u8 = 0;
    while k < NUM_KEYS as u8
        invariant
            k <= NUM_KEYS,
            forall|j: int| 0 <= j < k ==> !keys@[j],
        decreases NUM_KEYS - k,
    {
        if keys[k as usize] {
            proof {
                assert(is_first_pressed(keys@, k as int));
                let c = choose|c: int| is_first_pressed(keys@, c);
                assert(c == k);
            }
            return Some(k);
        }
        k += 1;
    }
    None
}

} // verus!
