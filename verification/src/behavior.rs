use vstd::prelude::*;

verus! {

/// The phases an action of a utility-AI actor goes through (the library's
/// own copy of the action states the scheduler hands to each action).
#[derive(Clone, Copy, Debug, PartialEq, Eq, Structural)]
pub enum ActionPhase {
    Init,
    Requested,
    Executing,
    Cancelled,
    Success,
    Failure,
}

/// What an action asks of the world in one frame.
#[derive(Clone, Copy, Debug, PartialEq, Eq, Structural)]
pub enum ActionEffect {
    /// Nothing is done this frame.
    Nothing,
    /// The action starts: pick its target, turn the actor towards it and
    /// start its animation.
    Start,
    /// Push the actor with the action's impulse.
    Impulse,
}

/// What the actor's animation reported after it was ticked this frame.
#[derive(Clone, Copy, Debug, PartialEq, Eq, Structural)]
pub struct AnimationProgress {
    /// The animation passed the frame on which the action takes effect.
    pub just_acted: bool,
    /// The animation has played to its end.
    pub finished: bool,
}

/// Phase and effect of one frame of an animated (or instant) push, shared by
/// both floating actions once they are executing.
pub open spec fn push_frame(phase: ActionPhase, animation: Option<AnimationProgress>) -> (ActionPhase, ActionEffect) {
    match animation {
        Some(progress) => (
            if progress.finished { ActionPhase::Success } else { phase },
            if progress.just_acted { ActionEffect::Impulse } else { ActionEffect::Nothing },
        ),
        None => (ActionPhase::Success, ActionEffect::Impulse),
    }
}

/// One frame of the wander action: a requested wander starts; an executing
/// or cancelled one keeps pushing with its animation until it finishes.
pub open spec fn wander_frame(phase: ActionPhase, animation: Option<AnimationProgress>) -> (ActionPhase, ActionEffect) {
    match phase {
        ActionPhase::Requested => (ActionPhase::Executing, ActionEffect::Start),
        ActionPhase::Executing | ActionPhase::Cancelled => push_frame(phase, animation),
        _ => (phase, ActionEffect::Nothing),
    }
}

/// One frame of the float action: like the wander action, but a cancelled
/// float fails at once.
pub open spec fn float_frame(phase: ActionPhase, animation: Option<AnimationProgress>) -> (ActionPhase, ActionEffect) {
    match phase {
        ActionPhase::Requested => (ActionPhase::Executing, ActionEffect::Start),
        ActionPhase::Executing => push_frame(phase, animation),
        ActionPhase::Cancelled => (ActionPhase::Failure, ActionEffect::Nothing),
        _ => (phase, ActionEffect::Nothing),
    }
}

/// Whether the wander action advances its animation this frame (before the
/// frame's decision is taken).
pub fn wander_ticks_animation(phase: ActionPhase) -> (ticks: bool)
    ensures
        ticks <==> (phase == ActionPhase::Executing || phase == ActionPhase::Cancelled),
{
    match phase {
        ActionPhase::Executing | ActionPhase::Cancelled => true,
        _ => false,
    }
}

/// Whether the float action advances its animation this frame.
pub fn float_ticks_animation(phase: ActionPhase) -> (ticks: bool)
    ensures
        ticks <==> phase == ActionPhase::Executing,
{
    match phase {
        ActionPhase::Executing => true,
        _ => false,
    }
}

fn push_step(phase: ActionPhase, animation: Option<AnimationProgress>) -> (out: (ActionPhase, ActionEffect))
    ensures
        out == push_frame(phase, animation),
{
    match animation {
        Some(progress) => {
            let effect = if progress.just_acted {
                ActionEffect::Impulse
            } else {
                ActionEffect::Nothing
            };
            let next = if progress.finished {
                ActionPhase::Success
            } else {
                phase
            };
            (next, effect)
        },
        None => (ActionPhase::Success, ActionEffect::Impulse),
    }
}

/// The decision of one frame of the wander action: its next phase and what
/// the world must do. `animation` is what the actor's animation reported
/// after this frame's tick, or `None` when the actor has no animation.
pub fn float_wander_step(phase: ActionPhase, animation: Option<AnimationProgress>) -> (out: (ActionPhase, ActionEffect))
    ensures
        out == wander_frame(phase, animation),
        (out.1 == ActionEffect::Start) == (phase == ActionPhase::Requested),
        phase == ActionPhase::Requested ==> out.0 == ActionPhase::Executing,
        (phase == ActionPhase::Executing || phase == ActionPhase::Cancelled) ==> match animation {
            Some(progress) => {
                &&& (out.1 == ActionEffect::Impulse) == progress.just_acted
                &&& out.1 != ActionEffect::Start
                &&& out.0 == (if progress.finished { ActionPhase::Success } else { phase })
            },
            None => out == (ActionPhase::Success, ActionEffect::Impulse),
        },
        (phase == ActionPhase::Init || phase == ActionPhase::Success || phase == ActionPhase::Failure) ==> out == (
        phase, ActionEffect::Nothing),
{
    match phase {
        ActionPhase::Requested => (ActionPhase::Executing, ActionEffect::Start),
        ActionPhase::Executing | ActionPhase::Cancelled => push_step(phase, animation),
        _ => (phase, ActionEffect::Nothing),
    }
}

/// The decision of one frame of the float action.
pub fn float_step(phase: ActionPhase, animation: Option<AnimationProgress>) -> (out: (ActionPhase, ActionEffect))
    ensures
        out == float_frame(phase, animation),
        (out.1 == ActionEffect::Start) == (phase == ActionPhase::Requested),
        phase == ActionPhase::Requested ==> out.0 == ActionPhase::Executing,
        phase == ActionPhase::Executing ==> match animation {
            Some(progress) => {
                &&& (out.1 == ActionEffect::Impulse) == progress.just_acted
                &&& out.1 != ActionEffect::Start
                &&& out.0 == (if progress.finished { ActionPhase::Success } else { phase })
            },
            None => out == (ActionPhase::Success, ActionEffect::Impulse),
        },
        phase == ActionPhase::Cancelled ==> out == (ActionPhase::Failure, ActionEffect::Nothing),
        (phase == ActionPhase::Init || phase == ActionPhase::Success || phase == ActionPhase::Failure) ==> out == (
        phase, ActionEffect::Nothing),
{
    match phase {
        ActionPhase::Requested => (ActionPhase::Executing, ActionEffect::Start),
        ActionPhase::Executing => push_step(phase, animation),
        ActionPhase::Cancelled => (ActionPhase::Failure, ActionEffect::Nothing),
        _ => (phase, ActionEffect::Nothing),
    }
}

/// A finished action (succeeded or failed) and one that was never requested
/// are left alone by both actions, and nothing is asked of the world.
pub proof fn lemma_settled_phases_stay(phase: ActionPhase, animation: Option<AnimationProgress>)
    requires
        phase == ActionPhase::Init || phase == ActionPhase::Success || phase == ActionPhase::Failure,
    ensures
        wander_frame(phase, animation) == (phase, ActionEffect::Nothing),
        float_frame(phase, animation) == (phase, ActionEffect::Nothing),
{
}

/// A requested action always moves on to executing and starts, whatever its
/// animation reports.
pub proof fn lemma_requested_starts(animation: Option<AnimationProgress>)
    ensures
        wander_frame(ActionPhase::Requested, animation) == (ActionPhase::Executing, ActionEffect::Start),
        float_frame(ActionPhase::Requested, animation) == (ActionPhase::Executing, ActionEffect::Start),
{
}

/// An action only succeeds out of the executing phase (or, for the wander
/// action, out of the cancelled phase), and a float action only fails when
/// it was cancelled.
pub proof fn lemma_outcomes_come_from_execution(phase: ActionPhase, animation: Option<AnimationProgress>)
    requires
        phase != ActionPhase::Success,
        phase != ActionPhase::Failure,
    ensures
        wander_frame(phase, animation).0 == ActionPhase::Success ==> (phase == ActionPhase::Executing
            || phase == ActionPhase::Cancelled),
        wander_frame(phase, animation).0 != ActionPhase::Failure,
        float_frame(phase, animation).0 == ActionPhase::Success ==> phase == ActionPhase::Executing,
        float_frame(phase, animation).0 == ActionPhase::Failure <==> phase == ActionPhase::Cancelled,
{
}

/// An actor without an animation completes a requested action in two frames:
/// it starts, then is pushed once and succeeds.
pub proof fn lemma_unanimated_action_completes(first: Option<AnimationProgress>)
    ensures
        ({
            let (p1, e1) = wander_frame(ActionPhase::Requested, first);
            let (p2, e2) = wander_frame(p1, None);
            e1 == ActionEffect::Start && p2 == ActionPhase::Success && e2 == ActionEffect::Impulse
        }),
        ({
            let (p1, e1) = float_frame(ActionPhase::Requested, first);
            let (p2, e2) = float_frame(p1, None);
            e1 == ActionEffect::Start && p2 == ActionPhase::Success && e2 == ActionEffect::Impulse
        }),
{
}

/// While its animation plays, an executing action stays executing, and it
/// pushes exactly on the frames on which the animation acts.
pub proof fn lemma_animated_push(phase: ActionPhase, progress: AnimationProgress)
    requires
        phase == ActionPhase::Executing,
    ensures
        wander_frame(phase, Some(progress)).0 == (if progress.finished { ActionPhase::Success } else { phase }),
        float_frame(phase, Some(progress)).0 == (if progress.finished { ActionPhase::Success } else { phase }),
        (wander_frame(phase, Some(progress)).1 == ActionEffect::Impulse) == progress.just_acted,
        (float_frame(phase, Some(progress)).1 == ActionEffect::Impulse) == progress.just_acted,
        (float_frame(phase, Some(progress)).1 == ActionEffect::Nothing) == !progress.just_acted,
        (wander_frame(phase, Some(progress)).1 == ActionEffect::Nothing) == !progress.just_acted,
{
}

/// Only a requested action starts: on every other frame neither action asks
/// for its start again (no new target, look-to or animation set-up).
pub proof fn lemma_start_only_when_requested(phase: ActionPhase, animation: Option<AnimationProgress>)
    ensures
        (wander_frame(phase, animation).1 == ActionEffect::Start) == (phase == ActionPhase::Requested),
        (float_frame(phase, animation).1 == ActionEffect::Start) == (phase == ActionPhase::Requested),
{
}

/// A running wander (executing, or cancelled and playing out) with an
/// animation pushes exactly on the frames on which the animation acts, and
/// succeeds exactly when the animation finishes; until then it keeps its phase.
pub proof fn lemma_running_wander_follows_animation(phase: ActionPhase, progress: AnimationProgress)
    requires
        phase == ActionPhase::Executing || phase == ActionPhase::Cancelled,
    ensures
        (wander_frame(phase, Some(progress)).1 == ActionEffect::Impulse) == progress.just_acted,
        (wander_frame(phase, Some(progress)).1 == ActionEffect::Nothing) == !progress.just_acted,
        (wander_frame(phase, Some(progress)).0 == ActionPhase::Success) == progress.finished,
        !progress.finished ==> wander_frame(phase, Some(progress)).0 == phase,
{
}

/// A running action without an animation pushes once and succeeds at once.
pub proof fn lemma_running_without_animation(phase: ActionPhase)
    ensures
        (phase == ActionPhase::Executing || phase == ActionPhase::Cancelled) ==> wander_frame(phase, None) == (
        ActionPhase::Success, ActionEffect::Impulse),
        phase == ActionPhase::Executing ==> float_frame(phase, None) == (ActionPhase::Success, ActionEffect::Impulse),
{
}

} // verus!
