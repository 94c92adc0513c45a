use vstd::prelude::*;

verus! {

/// What the progress reporter does after reading the running flag: wait one
/// more polling interval and render the elapsed time again, or emit its one
/// closing line break and return.
#[derive(Clone, Copy, Debug, PartialEq, Eq, Structural)]
pub enum ReporterAction {
    Poll,
    Finish,
}

/// One decision of the progress reporter. The reporter polls exactly as long
/// as the search is observed running, so the first read after the flag is
/// lowered tells it to finish: it never hangs past one polling interval, and
/// it performs its final action exactly once.
pub fn reporter_step(search_running: bool) -> (action: ReporterAction)
    ensures
        action == (if search_running {
            ReporterAction::Poll
        } else {
            ReporterAction::Finish
        }),
{
    if search_running {
        ReporterAction::Poll
    } else {
        ReporterAction::Finish
    }
}

} // verus!
