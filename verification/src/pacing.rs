//! How long a worker thread pauses between two items, from a speed setting.
use vstd::prelude::*;

verus! {

/// The pause in milliseconds before the next item at speed `speed` (0 to 100):
/// speed 0 means paused (`None`: poll the setting again later), otherwise the
/// pause falls from 1980 ms at speed 1 to 0 ms at speed 100 in steps of 20 ms.
pub fn delay_millis(speed: usize) -> (r: Option<u64>)
    requires
        speed <= 100,
    ensures
        r is None <==> speed == 0,
        r is Some ==> r->0 == 2000 - 20 * speed,
{
    if speed == 0 {
        None
    } else {
        Some(2000 - (speed as u64) * 20)
    }
}

} // verus!
