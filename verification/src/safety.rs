//! The confirm-or-revert protocol that guards every apply.
//!
//! A change of mode can leave a display unreadable. So right before settings
//! are applied the resolutions in effect are remembered, a countdown starts,
//! and unless the user confirms in time the remembered resolutions are handed
//! back to be applied again. The controller only decides; the caller applies
//! what it hands back and delivers the ticks, one per second, for as long as
//! `is_awaiting` holds.

use vstd::prelude::*;

use crate::display::monitor::{current_resolutions, Monitor};
use crate::display::Resolution;
use crate::id_map::{as_map, lemma_put_all, overwritten, put, put_all, Id, IdMap};

verus! {

/// The state of the safety net.
#[derive(Debug)]
pub enum SafetyNetController {
    /// Nothing is waiting for confirmation and no tick is expected.
    Idle,
    /// Settings were applied and the user has not answered yet.
    AwaitingConfirmation {
        /// Ticks that may still pass before the revert.
        remaining_ticks: u8,
        /// The resolutions that were in effect right before the apply.
        last_good: IdMap<Resolution>,
    },
}

/// Storing one more value after a list of updates.
proof fn lemma_put_step<T>(entries: Seq<(Id, T)>, updates: Seq<(Id, T)>, i: int)
    requires
        0 <= i < updates.len(),
    ensures
        put_all(entries, updates.take(i + 1)) == put(
            put_all(entries, updates.take(i)),
            updates[i].0,
            updates[i].1,
        ),
{
    assert(updates.take(i + 1).drop_last() =~= updates.take(i));
    assert(updates.take(i + 1).last() == updates[i]);
}

impl SafetyNetController {
    /// The state after one tick: a running countdown loses one tick, a
    /// countdown at zero ends, and an idle controller stays idle.
    pub open spec fn ticked(self) -> SafetyNetController {
        match self {
            SafetyNetController::Idle => SafetyNetController::Idle,
            SafetyNetController::AwaitingConfirmation { remaining_ticks, last_good } => {
                if remaining_ticks > 0 {
                    SafetyNetController::AwaitingConfirmation {
                        remaining_ticks: (remaining_ticks - 1) as u8,
                        last_good,
                    }
                } else {
                    SafetyNetController::Idle
                }
            },
        }
    }

    /// What the next tick hands back to be applied: the last-good snapshot
    /// when the countdown stands at zero, nothing in any other state.
    pub open spec fn due(self) -> Option<IdMap<Resolution>> {
        match self {
            SafetyNetController::Idle => None,
            SafetyNetController::AwaitingConfirmation { remaining_ticks, last_good } => {
                if remaining_ticks > 0 {
                    None
                } else {
                    Some(last_good)
                }
            },
        }
    }

    /// What a request to revert hands back: the snapshot while one is held.
    pub open spec fn held(self) -> Option<IdMap<Resolution>> {
        match self {
            SafetyNetController::Idle => None,
            SafetyNetController::AwaitingConfirmation { remaining_ticks, last_good } => Some(
                last_good,
            ),
        }
    }

    /// The state after `n` ticks.
    pub open spec fn after_ticks(self, n: nat) -> SafetyNetController
        decreases n,
    {
        if n == 0 {
            self
        } else {
            self.after_ticks((n - 1) as nat).ticked()
        }
    }

    pub fn new() -> (controller: Self)
        ensures
            controller == SafetyNetController::Idle,
    {
        SafetyNetController::Idle
    }

    /// The resolution that each monitor of the list shows, by id.
    pub fn snapshot(monitors: &Vec<Monitor>) -> (taken: IdMap<Resolution>)
        ensures
            taken.entries() == put_all(
                Seq::<(Id, Resolution)>::empty(),
                current_resolutions(monitors@),
            ),
            taken@ == overwritten(Map::<Id, Resolution>::empty(), current_resolutions(monitors@)),
    {
        let ghost shown = current_resolutions(monitors@);
        let ghost nothing = Seq::<(Id, Resolution)>::empty();
        let mut taken: IdMap<Resolution> = IdMap::new();
        let mut i: usize = 0;
        proof {
            assert(shown.take(0) =~= nothing);
        }
        while i < monitors.len()
            invariant
                i <= monitors.len(),
                shown == current_resolutions(monitors@),
                nothing == Seq::<(Id, Resolution)>::empty(),
                taken.entries() == put_all(nothing, shown.take(i as int)),
            decreases monitors.len() - i,
        {
            proof {
                lemma_put_step(nothing, shown, i as int);
            }
            taken.insert(monitors[i].id.clone(), monitors[i].current_resolution);
            i += 1;
        }
        proof {
            assert(shown.take(i as int) =~= shown);
            lemma_put_all(nothing, shown);
            assert(as_map(nothing) =~= Map::<Id, Resolution>::empty());
        }
        taken
    }

    /// Arms the safety net for an apply that is about to be made: remembers
    /// what the monitors show now and starts the countdown. An apply is
    /// covered whether or not all of its calls succeed. A countdown that is
    /// still running is replaced by the new one.
    pub fn arm(&mut self, monitors: &Vec<Monitor>, reset_timeout: u8)
        ensures
            *final(self) matches SafetyNetController::AwaitingConfirmation {
                remaining_ticks,
                last_good,
            } && remaining_ticks == reset_timeout && last_good.entries() == put_all(
                Seq::<(Id, Resolution)>::empty(),
                current_resolutions(monitors@),
            ) && last_good@ == overwritten(
                Map::<Id, Resolution>::empty(),
                current_resolutions(monitors@),
            ),
    {
        let last_good = Self::snapshot(monitors);
        *self = SafetyNetController::AwaitingConfirmation {
            remaining_ticks: reset_timeout,
            last_good,
        };
    }

    /// Whether a confirmation is awaited. Ticks are to be delivered exactly
    /// while this holds.
    pub fn is_awaiting(&self) -> (awaiting: bool)
        ensures
            awaiting == (*self is AwaitingConfirmation),
    {
        match self {
            SafetyNetController::Idle => false,
            SafetyNetController::AwaitingConfirmation { .. } => true,
        }
    }

    /// The ticks that may still pass before the revert, while a confirmation
    /// is awaited.
    pub fn remaining(&self) -> (ticks: Option<u8>)
        ensures
            ticks == match *self {
                SafetyNetController::Idle => None::<u8>,
                SafetyNetController::AwaitingConfirmation { remaining_ticks, last_good } => Some(
                    remaining_ticks,
                ),
            },
    {
        match self {
            SafetyNetController::Idle => None,
            SafetyNetController::AwaitingConfirmation { remaining_ticks, .. } => Some(
                *remaining_ticks,
            ),
        }
    }

    /// One second has passed. While ticks remain, one is used up. At zero the
    /// countdown is over: the controller goes idle and hands back the
    /// snapshot that is to be applied again. An idle controller ignores the
    /// tick.
    pub fn tick(&mut self) -> (revert: Option<IdMap<Resolution>>)
        ensures
            *final(self) == old(self).ticked(),
            revert == old(self).due(),
    {
        let mut state = SafetyNetController::Idle;
        std::mem::swap(&mut state, self);
        match state {
            SafetyNetController::Idle => None,
            SafetyNetController::AwaitingConfirmation { remaining_ticks, last_good } => {
                if remaining_ticks > 0 {
                    *self = SafetyNetController::AwaitingConfirmation {
                        remaining_ticks: remaining_ticks - 1,
                        last_good,
                    };
                    None
                } else {
                    Some(last_good)
                }
            },
        }
    }

    /// The user keeps the applied settings: the snapshot is dropped, nothing
    /// is handed back, and the countdown is over.
    pub fn confirm(&mut self)
        ensures
            *final(self) == SafetyNetController::Idle,
    {
        *self = SafetyNetController::Idle;
    }

    /// The user wants the old settings back now: as a countdown that ran
    /// out, without waiting for it.
    pub fn request_revert(&mut self) -> (revert: Option<IdMap<Resolution>>)
        ensures
            *final(self) == SafetyNetController::Idle,
            revert == old(self).held(),
    {
        let mut state = SafetyNetController::Idle;
        std::mem::swap(&mut state, self);
        match state {
            SafetyNetController::Idle => None,
            SafetyNetController::AwaitingConfirmation { remaining_ticks, last_good } => Some(
                last_good,
            ),
        }
    }
}

/// An idle controller stays idle under any number of ticks and never hands
/// anything back. So after a confirmation no tick, however late, causes a
/// revert.
pub proof fn lemma_idle_ignores_ticks(n: nat)
    ensures
        SafetyNetController::Idle.after_ticks(n) == SafetyNetController::Idle,
        SafetyNetController::Idle.after_ticks(n).due() == None::<IdMap<Resolution>>,
    decreases n,
{
    if n > 0 {
        lemma_idle_ignores_ticks((n - 1) as nat);
    }
}

/// A countdown armed with `timeout` ticks keeps its snapshot while it runs,
/// hands nothing back during the first `timeout` ticks, and on the tick
/// after them hands back exactly the snapshot and goes idle.
pub proof fn lemma_countdown(timeout: u8, last_good: IdMap<Resolution>, n: nat)
    requires
        n <= timeout,
    ensures
        (SafetyNetController::AwaitingConfirmation {
            remaining_ticks: timeout,
            last_good,
        }).after_ticks(n) == (SafetyNetController::AwaitingConfirmation {
            remaining_ticks: (timeout - n) as u8,
            last_good,
        }),
        n < timeout ==> (SafetyNetController::AwaitingConfirmation {
            remaining_ticks: timeout,
            last_good,
        }).after_ticks(n).due() == None::<IdMap<Resolution>>,
        n == timeout ==> (SafetyNetController::AwaitingConfirmation {
            remaining_ticks: timeout,
            last_good,
        }).after_ticks(n).due() == Some(last_good),
        n == timeout ==> (SafetyNetController::AwaitingConfirmation {
            remaining_ticks: timeout,
            last_good,
        }).after_ticks(n + 1) == SafetyNetController::Idle,
    decreases n,
{
    let armed = SafetyNetController::AwaitingConfirmation { remaining_ticks: timeout, last_good };
    if n > 0 {
        lemma_countdown(timeout, last_good, (n - 1) as nat);
    }
    if n == timeout {
        assert(armed.after_ticks(n + 1) == armed.after_ticks(n).ticked());
    }
}

} // verus!
