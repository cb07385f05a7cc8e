//! The supervisor's decision logic: from the advisory exit and restart
//! signals to the next action over a generation. The surrounding process
//! polls the signals and performs the action; the decision itself is
//! pure.

use vstd::prelude::*;

verus! {

/// What the supervisor does next with the current generation.
#[derive(Clone, Copy, Debug, PartialEq, Eq, Structural)]
pub enum SupervisorAction {
    /// Tear the generation down and return.
    Exit,
    /// Discard the generation and build a fresh one; no state carries
    /// over.
    Rebuild,
    /// Keep the generation and poll the signals again later.
    Poll,
}

/// Whether the supervisor loop keeps running.
pub fn should_continue(exit: bool) -> (r: bool)
    ensures
        r == !exit,
{
    !exit
}

/// Whether a rebuild is due: the restart signal is set and the exit
/// signal is not (exit takes precedence over restart).
pub fn should_restart(restart: bool, exit: bool) -> (r: bool)
    ensures
        r == (restart && !exit),
{
    restart && !exit
}

/// The supervisor's next action for one poll of the two signals.
pub fn supervisor_action(restart: bool, exit: bool) -> (r: SupervisorAction)
    ensures
        exit ==> r == SupervisorAction::Exit,
        !exit && restart ==> r == SupervisorAction::Rebuild,
        !exit && !restart ==> r == SupervisorAction::Poll,
{
    if exit {
        SupervisorAction::Exit
    } else if restart {
        SupervisorAction::Rebuild
    } else {
        SupervisorAction::Poll
    }
}

} // verus!
