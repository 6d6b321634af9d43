//! What holds of an installation from its start to its end.

use vstd::prelude::*;

use crate::install::{advances, answers, holds_lock, Install, InstallEvent, InstallStep};

verus! {

/// How far an installation has come.
pub open spec fn rank(step: InstallStep) -> nat {
    match step {
        InstallStep::CheckDirectory => 0,
        InstallStep::CreateDirectory => 1,
        InstallStep::SendRequest => 2,
        InstallStep::ReadBody => 3,
        InstallStep::TakeLock => 4,
        InstallStep::CheckBinary => 5,
        InstallStep::CreateBinary => 6,
        InstallStep::WriteBinary => 7,
        InstallStep::SetPermissions => 8,
        InstallStep::ReleaseLock(_) => 9,
        InstallStep::Finished => 10,
        InstallStep::Failed(_) => 10,
    }
}

/// Every outcome of a step brings the installation closer to its end, so that
/// it ends after ten outcomes at the latest.
pub proof fn installations_move_on(from: Install, event: InstallEvent, to: Install)
    requires
        answers(from.step, event),
        advances(from, event, to),
    ensures
        rank(from.step) < rank(to.step) <= 10,
{
}

/// An installation that has ended stays as it is.
pub proof fn ended_installations_stay(from: Install, event: InstallEvent, to: Install)
    requires
        from.step is Finished || from.step is Failed,
        advances(from, event, to),
    ensures
        to == from,
{
}

/// Whether `events[i]` takes the installation from `states[i]` to the next state.
pub open spec fn goes_on(states: Seq<Install>, events: Seq<InstallEvent>, i: int) -> bool {
    advances(states[i], events[i], states[i + 1])
}

/// Whether `states` is an installation from its start on, which `events` drove.
pub open spec fn is_history(states: Seq<Install>, events: Seq<InstallEvent>) -> bool {
    &&& states.len() == events.len() + 1
    &&& states[0].step is CheckDirectory
    &&& forall|i: int| 0 <= i < events.len() ==> #[trigger] goes_on(states, events, i)
}

/// Whether the lock was taken before state `k`.
pub open spec fn locked_before(states: Seq<Install>, events: Seq<InstallEvent>, k: int) -> bool {
    exists|i: int|
        0 <= i < k && states[i].step is TakeLock && #[trigger] events[i] == InstallEvent::Locked(
            Ok(()),
        )
}

/// Whether the lock was taken and then given up before state `k`.
pub open spec fn released_before(states: Seq<Install>, events: Seq<InstallEvent>, k: int) -> bool {
    exists|i: int|
        0 <= i < k && states[i].step is ReleaseLock && locked_before(states, events, i)
            && #[trigger] events[i] == InstallEvent::LockReleased
}

/// Whether the compiler was looked for before state `k`, with the lock taken, and
/// `found` is what was seen.
pub open spec fn checked_before(
    states: Seq<Install>,
    events: Seq<InstallEvent>,
    k: int,
    found: bool,
) -> bool {
    exists|i: int|
        0 <= i < k && states[i].step is CheckBinary && locked_before(states, events, i)
            && #[trigger] events[i] == InstallEvent::Binary(found)
}

/// Whether the compiler was written before state `k`, as it was received.
pub open spec fn written_before(states: Seq<Install>, events: Seq<InstallEvent>, k: int) -> bool {
    exists|i: int|
        0 <= i < k && states[i].step is WriteBinary && received_before(states, events, i)
            && #[trigger] events[i] == InstallEvent::BinaryWritten(Ok(()))
}

/// Whether the compiler was made executable before state `k`, once it was
/// written.
pub open spec fn completed_before(states: Seq<Install>, events: Seq<InstallEvent>, k: int) -> bool {
    exists|i: int|
        0 <= i < k && states[i].step is SetPermissions && written_before(states, events, i)
            && #[trigger] events[i] == InstallEvent::PermissionsSet(Ok(()))
}

/// Whether the request was granted before state `k`.
pub open spec fn granted_before(states: Seq<Install>, events: Seq<InstallEvent>, k: int) -> bool {
    exists|i: int|
        0 <= i < k && states[i].step is SendRequest && (#[trigger] events[i] matches InstallEvent::Response(
            Ok(status),
        ) && status.is_success())
}

/// Whether the content at state `k` was received before.
pub open spec fn received_before(states: Seq<Install>, events: Seq<InstallEvent>, k: int) -> bool {
    exists|i: int|
        0 <= i < k && states[i].step is ReadBody && #[trigger] events[i] == InstallEvent::Body(
            Ok(states[k].content),
        )
}

proof fn lemma_history(states: Seq<Install>, events: Seq<InstallEvent>, k: int)
    requires
        is_history(states, events),
        0 <= k < states.len(),
    ensures
        states[k].plan == states[0].plan,
        !(states[k].step is Failed) && rank(states[k].step) >= 3 ==> granted_before(
            states,
            events,
            k,
        ),
        !(states[k].step is Failed) && rank(states[k].step) >= 4 ==> received_before(
            states,
            events,
            k,
        ),
        !(states[k].step is Failed) && rank(states[k].step) >= 5 ==> locked_before(
            states,
            events,
            k,
        ),
        6 <= rank(states[k].step) <= 8 ==> checked_before(states, events, k, false),
        states[k].step is SetPermissions ==> written_before(states, events, k),
        states[k].step is Finished || states[k].step == InstallStep::ReleaseLock(None)
            ==> checked_before(states, events, k, true) || (checked_before(
            states,
            events,
            k,
            false,
        ) && completed_before(states, events, k)),
        locked_before(states, events, k) ==> holds_lock(states[k].step) || released_before(
            states,
            events,
            k,
        ),
        released_before(states, events, k) ==> states[k].step is Finished
            || states[k].step is Failed,
    decreases k,
{
    if k > 0 {
        let p = k - 1;
        lemma_history(states, events, p);
        assert(goes_on(states, events, p));
        let from = states[p];
        let event = events[p];
        let to = states[k];
        if answers(from.step, event) {
            if from.step is TakeLock && to.step is CheckBinary {
                assert(event->Locked_0->Ok_0 == ());
                assert(events[p] == InstallEvent::Locked(Ok(())));
            }
            if granted_before(states, events, p) {
                let i = choose|i: int|
                    0 <= i < p && states[i].step is SendRequest && (#[trigger] events[i] matches InstallEvent::Response(
                        Ok(status),
                    ) && status.is_success());
                assert(events[i] is Response);
            }
            if received_before(states, events, p) && !(event is Body) {
                let i = choose|i: int|
                    0 <= i < p && states[i].step is ReadBody && #[trigger] events[i]
                        == InstallEvent::Body(Ok(states[p].content));
                assert(events[i] == InstallEvent::Body(Ok(states[k].content)));
            }
            if locked_before(states, events, p) {
                let i = choose|i: int|
                    0 <= i < p && states[i].step is TakeLock && #[trigger] events[i]
                        == InstallEvent::Locked(Ok(()));
                assert(events[i] == InstallEvent::Locked(Ok(())));
            }
            if from.step is WriteBinary && to.step is SetPermissions {
                assert(event->BinaryWritten_0->Ok_0 == ());
                assert(events[p] == InstallEvent::BinaryWritten(Ok(())));
            }
            if from.step is SetPermissions && to.step == InstallStep::ReleaseLock(None) {
                assert(event->PermissionsSet_0->Ok_0 == ());
                assert(events[p] == InstallEvent::PermissionsSet(Ok(())));
            }
        } else {
            assert(to == from);
            if !(to.step is Failed) && rank(to.step) >= 4 {
                let i = choose|i: int|
                    0 <= i < p && states[i].step is ReadBody && #[trigger] events[i]
                        == InstallEvent::Body(Ok(states[p].content));
                assert(events[i] == InstallEvent::Body(Ok(states[k].content)));
            }
        }
    }
}

/// An installation keeps to its plan.
pub proof fn plans_are_kept(states: Seq<Install>, events: Seq<InstallEvent>, k: int)
    requires
        is_history(states, events),
        0 <= k < states.len(),
    ensures
        states[k].plan == states[0].plan,
{
    lemma_history(states, events, k);
}

/// A lock that was taken is given up on every way out: where an installation has
/// ended, whether well or not, the release came before.
pub proof fn locks_are_given_up(states: Seq<Install>, events: Seq<InstallEvent>, k: int)
    requires
        is_history(states, events),
        0 <= k < states.len(),
        states[k].step is Finished || states[k].step is Failed,
        locked_before(states, events, k),
    ensures
        released_before(states, events, k),
{
    lemma_history(states, events, k);
}

/// Until the installation ends, the lock is kept: nothing is done to the compiler
/// or asked about it without the lock.
pub proof fn locks_are_kept(states: Seq<Install>, events: Seq<InstallEvent>, k: int)
    requires
        is_history(states, events),
        0 <= k < states.len(),
        holds_lock(states[k].step),
    ensures
        locked_before(states, events, k),
        !released_before(states, events, k),
{
    lemma_history(states, events, k);
}

/// A compiler is only created, written or made executable after the lock was
/// taken and the compiler was then seen to be missing: one that is there is
/// never touched.
pub proof fn compilers_are_never_overwritten(
    states: Seq<Install>,
    events: Seq<InstallEvent>,
    k: int,
)
    requires
        is_history(states, events),
        0 <= k < states.len(),
        states[k].step is CreateBinary || states[k].step is WriteBinary
            || states[k].step is SetPermissions,
    ensures
        checked_before(states, events, k, false),
{
    lemma_history(states, events, k);
}

/// What is written is what was received.
pub proof fn received_content_is_written(states: Seq<Install>, events: Seq<InstallEvent>, k: int)
    requires
        is_history(states, events),
        0 <= k < states.len(),
        states[k].step is WriteBinary,
    ensures
        received_before(states, events, k),
{
    lemma_history(states, events, k);
}

/// An installation only succeeds after the request was granted, the compiler
/// received and the lock taken and given up, and once the compiler is in place: it
/// was there, or it was missing and then written as received and made executable.
pub proof fn success_takes_every_step(states: Seq<Install>, events: Seq<InstallEvent>, k: int)
    requires
        is_history(states, events),
        0 <= k < states.len(),
        states[k].step is Finished,
    ensures
        granted_before(states, events, k),
        received_before(states, events, k),
        locked_before(states, events, k),
        released_before(states, events, k),
        checked_before(states, events, k, true) || (checked_before(states, events, k, false)
            && completed_before(states, events, k)),
{
    lemma_history(states, events, k);
}

} // verus!
