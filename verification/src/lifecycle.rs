//! The life of a thread as a scheduler sees it through the thread's context.
//!
//! A thread is fresh until it is switched into for the first time. From then
//! on it is running while the hart executes it and suspended while its
//! context holds the state to resume. Only a switch moves a thread from one
//! state to another, and a thread never ends at this layer.

use vstd::prelude::*;

verus! {

/// How a thread stands.
#[derive(Clone, Copy, Debug, PartialEq, Eq, Structural)]
pub enum ThreadState {
    /// Its context was constructed and has never been switched into.
    Fresh,
    /// The hart is executing it.
    Running,
    /// It was switched out, and its context holds the state to resume.
    Suspended,
}

/// The part that a thread's context plays in a switch.
#[derive(Clone, Copy, Debug, PartialEq, Eq, Structural)]
pub enum SwitchPart {
    /// The context that the hart's state is saved in.
    Current,
    /// The context that the hart's state is loaded from.
    Target,
}

impl ThreadState {
    /// The state of a thread after a switch in which its context played
    /// `part`, or nothing if a thread in this state cannot play that part:
    /// only a running thread can be left, and only a thread that is not
    /// running can be entered.
    pub open spec fn after(self, part: SwitchPart) -> Option<ThreadState> {
        match (self, part) {
            (ThreadState::Running, SwitchPart::Current) => Some(ThreadState::Suspended),
            (ThreadState::Fresh, SwitchPart::Target) => Some(ThreadState::Running),
            (ThreadState::Suspended, SwitchPart::Target) => Some(ThreadState::Running),
            _ => None,
        }
    }

    /// The state of a thread after a switch in which its context played
    /// `part`, or nothing if a thread in this state cannot play that part.
    pub fn switched(self, part: SwitchPart) -> (next: Option<ThreadState>)
        ensures
            next == self.after(part),
    {
        match (self, part) {
            (ThreadState::Running, SwitchPart::Current) => Some(ThreadState::Suspended),
            (ThreadState::Fresh, SwitchPart::Target) => Some(ThreadState::Running),
            (ThreadState::Suspended, SwitchPart::Target) => Some(ThreadState::Running),
            _ => None,
        }
    }
}

/// In every state a thread can take part in exactly one way, so no state is
/// final; being entered makes a thread running, being left makes it
/// suspended, and nothing makes it fresh again.
pub proof fn lemma_thread_states(state: ThreadState, part: SwitchPart)
    ensures
        state.after(SwitchPart::Current) is Some <==> state == ThreadState::Running,
        state.after(SwitchPart::Target) is Some <==> state != ThreadState::Running,
        state.after(SwitchPart::Current) is Some != state.after(SwitchPart::Target) is Some,
        state.after(part) != Some(ThreadState::Fresh),
        state.after(SwitchPart::Target) is Some ==> state.after(SwitchPart::Target) == Some(
            ThreadState::Running,
        ),
        state.after(SwitchPart::Current) is Some ==> state.after(SwitchPart::Current) == Some(
            ThreadState::Suspended,
        ),
{
}

} // verus!
