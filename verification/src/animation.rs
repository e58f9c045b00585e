//! What an animation frame decides: the visibility states of the channels
//! once the animation has run to its end, and what follows the frame.
use vstd::prelude::*;

verus! {

/// The visibility of a channel, with the two states it passes through while
/// it fades in or out.
#[derive(Clone, Copy, Debug, PartialEq, Eq, Structural)]
pub enum Visibility {
    Hidden,
    Hiding,
    Showing,
    Shown,
}

/// A channel that is fading in or out.
pub open spec fn in_transition(v: Visibility) -> bool {
    v == Visibility::Showing || v == Visibility::Hiding
}

/// The state a channel reaches when its fade has finished: one that was being
/// shown is shown, one that was being hidden is hidden, any other keeps its
/// state.
pub open spec fn settled(v: Visibility) -> Visibility {
    match v {
        Visibility::Showing => Visibility::Shown,
        Visibility::Hiding => Visibility::Hidden,
        _ => v,
    }
}

/// The states of all channels once their fades have finished.
pub open spec fn settled_all(states: Seq<Visibility>) -> Seq<Visibility> {
    states.map_values(|v: Visibility| settled(v))
}

/// Finishes the fade of one channel.
pub fn settle(v: Visibility) -> (r: Visibility)
    ensures
        r == settled(v),
        v == Visibility::Showing ==> r == Visibility::Shown,
        v == Visibility::Hiding ==> r == Visibility::Hidden,
        v == Visibility::Shown ==> r == Visibility::Shown,
        v == Visibility::Hidden ==> r == Visibility::Hidden,
{
    match v {
        Visibility::Showing => Visibility::Shown,
        Visibility::Hiding => Visibility::Hidden,
        _ => v,
    }
}

/// Finishes the fade of every channel, as the last frame of an animation does.
pub fn settle_channels(states: &mut Vec<Visibility>)
    ensures
        final(states)@ == settled_all(old(states)@),
        final(states)@.len() == old(states)@.len(),
        forall|i: int|
            0 <= i < old(states)@.len() ==> {
                let before = #[trigger] old(states)@[i];
                let after = final(states)@[i];
                &&& before == Visibility::Showing ==> after == Visibility::Shown
                &&& before == Visibility::Hiding ==> after == Visibility::Hidden
                &&& before == Visibility::Shown ==> after == Visibility::Shown
                &&& before == Visibility::Hidden ==> after == Visibility::Hidden
            },
{
    let n = states.len();
    let mut i: usize = 0;
    while i < n
        invariant
            n == states@.len(),
            n == old(states)@.len(),
            i <= n,
            forall|j: int| 0 <= j < i ==> states@[j] == settled(old(states)@[j]),
            forall|j: int| i <= j < n ==> states@[j] == old(states)@[j],
        decreases n - i,
    {
        let s = settle(states[i]);
        states.set(i, s);
        i = i + 1;
    }
    assert(states@ =~= settled_all(old(states)@));
}

/// What follows a drawn frame.
#[derive(Clone, Copy, Debug, PartialEq, Eq, Structural)]
pub enum FrameEnd {
    /// The animation has not reached its end: more frames follow.
    Continue,
    /// The last frame of a timed animation: the animation ends.
    EndAnimation,
    /// The last frame, drawn without an animation clock: nothing follows.
    Done,
}

/// Decides what follows a frame, from whether the frame reached the end of
/// the animation and whether it was drawn at a given time.
pub fn frame_end(complete: bool, timed: bool) -> (r: FrameEnd)
    ensures
        r == (if !complete {
            FrameEnd::Continue
        } else if timed {
            FrameEnd::EndAnimation
        } else {
            FrameEnd::Done
        }),
{
    if !complete {
        FrameEnd::Continue
    } else if timed {
        FrameEnd::EndAnimation
    } else {
        FrameEnd::Done
    }
}

/// After the last frame no channel is fading in or out, and every channel
/// that was not fading keeps its state.
pub proof fn lemma_settled_channels_are_steady(states: Seq<Visibility>)
    ensures
        settled_all(states).len() == states.len(),
        forall|i: int| 0 <= i < states.len() ==> !in_transition(#[trigger] settled_all(states)[i]),
        forall|i: int|
            0 <= i < states.len() && !in_transition(#[trigger] states[i])
                ==> settled_all(states)[i] == states[i],
{
}

/// Each channel settles by its own state alone, whatever its position:
/// a channel being shown ends shown, one being hidden ends hidden, and a
/// steady one keeps its state.
pub proof fn lemma_each_channel_settles_by_its_own_state(states: Seq<Visibility>)
    ensures
        settled_all(states).len() == states.len(),
        forall|i: int|
            0 <= i < states.len() ==> {
                let before = #[trigger] states[i];
                let after = settled_all(states)[i];
                &&& before == Visibility::Showing ==> after == Visibility::Shown
                &&& before == Visibility::Hiding ==> after == Visibility::Hidden
                &&& before == Visibility::Shown ==> after == Visibility::Shown
                &&& before == Visibility::Hidden ==> after == Visibility::Hidden
            },
{
}

/// Settling the channels a second time changes nothing.
pub proof fn lemma_settle_idempotent(states: Seq<Visibility>)
    ensures
        settled_all(settled_all(states)) == settled_all(states),
{
    assert(settled_all(settled_all(states)) =~= settled_all(states));
}

} // verus!
