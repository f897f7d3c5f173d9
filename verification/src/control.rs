use vstd::prelude::*;

verus! {

/// What a realtime process callback tells the audio server after each
/// period.
#[derive(PartialEq, Eq, Structural, Clone, Copy, Debug)]
pub enum ProcessControl {
    Continue,
    Quit,
}

/// Keep processing while the shared `running` flag is set; quit once it is
/// cleared.
pub fn control_for(running: bool) -> (c: ProcessControl)
    ensures
        c == (if running { ProcessControl::Continue } else { ProcessControl::Quit }),
{
    if running {
        ProcessControl::Continue
    } else {
        ProcessControl::Quit
    }
}

} // verus!
