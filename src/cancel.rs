//! The cancellation latch run by a command session's listener: it decides,
//! for each action it receives, whether a cancel request goes to the server
//! now. A cancel that arrives before the server has named the command is held
//! until the name arrives, never dropped and never doubled.

use vstd::prelude::*;

verus! {

/// What the listener can be told.
#[derive(Clone, Copy, Debug, PartialEq, Eq, Structural)]
pub enum CancelThreadAction {
    /// Wake up and do nothing.
    Nothing,
    /// The command is over: stop listening.
    Join,
    /// The user asked to cancel the command.
    Cancel,
    /// The server has told the client the command's id.
    CommandIdReceived,
}

/// The listener's state.
#[derive(Clone, Copy, Debug, PartialEq, Eq, Structural)]
pub struct CancelLatch {
    /// Still listening (no `Join` yet).
    pub running: bool,
    /// The command id is known.
    pub command_id_received: bool,
    /// A cancel arrived before the command id and waits for it.
    pub pending: bool,
}

/// The listener's state when a session starts.
pub open spec fn initial_latch() -> CancelLatch {
    CancelLatch { running: true, command_id_received: false, pending: false }
}

/// One action: the next state, and whether a cancel request is sent now.
pub open spec fn latch_step(s: CancelLatch, a: CancelThreadAction) -> (CancelLatch, bool) {
    if !s.running {
        (s, false)
    } else {
        match a {
            CancelThreadAction::Nothing => (s, false),
            CancelThreadAction::Join => (CancelLatch { running: false, ..s }, false),
            CancelThreadAction::CommandIdReceived => (
                CancelLatch { command_id_received: true, pending: false, ..s },
                s.pending,
            ),
            CancelThreadAction::Cancel => if s.command_id_received {
                (s, true)
            } else {
                (CancelLatch { pending: true, ..s }, false)
            },
        }
    }
}

/// The state after a sequence of actions.
pub open spec fn latch_after(s: CancelLatch, actions: Seq<CancelThreadAction>) -> CancelLatch
    decreases actions.len(),
{
    if actions.len() == 0 {
        s
    } else {
        latch_step(latch_after(s, actions.drop_last()), actions.last()).0
    }
}

/// How many cancel requests a sequence of actions sends.
pub open spec fn cancels_sent(s: CancelLatch, actions: Seq<CancelThreadAction>) -> nat
    decreases actions.len(),
{
    if actions.len() == 0 {
        0
    } else {
        cancels_sent(s, actions.drop_last()) + if latch_step(
            latch_after(s, actions.drop_last()),
            actions.last(),
        ).1 {
            1nat
        } else {
            0nat
        }
    }
}

impl CancelLatch {
    pub fn new() -> (r: CancelLatch)
        ensures
            r == initial_latch(),
    {
        CancelLatch { running: true, command_id_received: false, pending: false }
    }

    /// Takes one action; returns true when a cancel request is to be sent now.
    pub fn step(&mut self, action: CancelThreadAction) -> (send: bool)
        ensures
            (*final(self), send) == latch_step(*old(self), action),
    {
        if !self.running {
            return false;
        }
        match action {
            CancelThreadAction::Nothing => false,
            CancelThreadAction::Join => {
                self.running = false;
                false
            },
            CancelThreadAction::CommandIdReceived => {
                let send = self.pending;
                self.command_id_received = true;
                self.pending = false;
                send
            },
            CancelThreadAction::Cancel => {
                if self.command_id_received {
                    true
                } else {
                    self.pending = true;
                    false
                }
            },
        }
    }

    /// Whether the listener has been told to stop.
    pub fn is_running(&self) -> (r: bool)
        ensures
            r == self.running,
    {
        self.running
    }
}

/// Actions that arrive while the command id is still unknown: cancels and
/// wake-ups only.
pub open spec fn before_command_id(actions: Seq<CancelThreadAction>) -> bool {
    forall|i: int|
        0 <= i < actions.len() ==> #[trigger] actions[i] == CancelThreadAction::Cancel || actions[i]
            == CancelThreadAction::Nothing
}

pub open spec fn has_cancel(actions: Seq<CancelThreadAction>) -> bool {
    exists|i: int| 0 <= i < actions.len() && #[trigger] actions[i] == CancelThreadAction::Cancel
}

proof fn lemma_latch_before_id(actions: Seq<CancelThreadAction>)
    requires
        before_command_id(actions),
    ensures
        latch_after(initial_latch(), actions) == (CancelLatch {
            running: true,
            command_id_received: false,
            pending: has_cancel(actions),
        }),
        cancels_sent(initial_latch(), actions) == 0,
    decreases actions.len(),
{
    if actions.len() > 0 {
        let prev = actions.drop_last();
        assert(before_command_id(prev)) by {
            assert forall|i: int| 0 <= i < prev.len() implies #[trigger] prev[i] == CancelThreadAction::Cancel
                || prev[i] == CancelThreadAction::Nothing by {
                assert(prev[i] == actions[i]);
            }
        }
        lemma_latch_before_id(prev);
        assert(actions.last() == actions[actions.len() - 1]);
        if has_cancel(actions) {
            let i = choose|i: int| 0 <= i < actions.len() && #[trigger] actions[i] == CancelThreadAction::Cancel;
            if i < actions.len() - 1 {
                assert(prev[i] == actions[i]);
            }
        }
        if has_cancel(prev) {
            let i = choose|i: int| 0 <= i < prev.len() && #[trigger] prev[i] == CancelThreadAction::Cancel;
            assert(actions[i] == prev[i]);
        }
    }
}

/// Cancels issued before the command id is known, with any wake-ups among
/// them, send nothing at once; the arrival of the id then sends exactly one
/// request, however many cancels came before it; the final `Join` sends
/// nothing more. Without a cancel, nothing is ever sent.
pub proof fn lemma_cancel_waits_for_command_id(actions: Seq<CancelThreadAction>)
    requires
        before_command_id(actions),
    ensures
        cancels_sent(initial_latch(), actions) == 0,
        cancels_sent(initial_latch(), actions.push(CancelThreadAction::CommandIdReceived)) == (if has_cancel(
            actions,
        ) {
            1nat
        } else {
            0nat
        }),
        cancels_sent(
            initial_latch(),
            actions.push(CancelThreadAction::CommandIdReceived).push(CancelThreadAction::Join),
        ) == (if has_cancel(actions) {
            1nat
        } else {
            0nat
        }),
{
    lemma_latch_before_id(actions);
    let with_id = actions.push(CancelThreadAction::CommandIdReceived);
    assert(with_id.drop_last() =~= actions);
    let with_join = with_id.push(CancelThreadAction::Join);
    assert(with_join.drop_last() =~= with_id);
    assert(latch_after(initial_latch(), with_id) == latch_step(
        latch_after(initial_latch(), actions),
        CancelThreadAction::CommandIdReceived,
    ).0);
    assert(latch_after(initial_latch(), with_id).running);
    assert(!latch_step(latch_after(initial_latch(), with_id), CancelThreadAction::Join).1);
    assert(cancels_sent(initial_latch(), with_join) == cancels_sent(initial_latch(), with_id));
}

/// Once the command id is known, each cancel sends a request at once.
pub proof fn lemma_cancel_after_command_id_is_immediate(s: CancelLatch)
    requires
        s.running,
        s.command_id_received,
    ensures
        latch_step(s, CancelThreadAction::Cancel).1,
{
}

/// After `Join` the listener sends nothing, whatever follows.
pub proof fn lemma_nothing_after_join(s: CancelLatch, a: CancelThreadAction)
    requires
        !s.running,
    ensures
        latch_step(s, a) == (s, false),
{
}

} // verus!
