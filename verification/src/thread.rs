//! The reload request shared between the settings commands and the audio
//! thread, which restarts its stream when it finds the request set.

use vstd::prelude::*;

verus! {

/// Asks the audio thread to restart with the current settings.
pub fn reload(flag: &mut bool)
    ensures
        *final(flag),
{
    *flag = true;
}

/// The audio thread's check: whether a restart was asked for; the request is
/// then cleared.
pub fn take_reload(flag: &mut bool) -> (r: bool)
    ensures
        r == *old(flag),
        !*final(flag),
{
    let asked = *flag;
    if asked {
        *flag = false;
    }
    asked
}

} // verus!
