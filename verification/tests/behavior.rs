use voxel_world::behavior::{
    float_step, float_ticks_animation, float_wander_step, wander_ticks_animation, ActionEffect, ActionPhase,
    AnimationProgress,
};

fn progress(just_acted: bool, finished: bool) -> Option<AnimationProgress> {
    Some(AnimationProgress { just_acted, finished })
}

#[test]
fn requested_wander_starts_executing() {
    assert_eq!(float_wander_step(ActionPhase::Requested, None), (ActionPhase::Executing, ActionEffect::Start));
    assert_eq!(
        float_wander_step(ActionPhase::Requested, progress(true, true)),
        (ActionPhase::Executing, ActionEffect::Start)
    );
}

#[test]
fn wander_without_animation_pushes_and_succeeds() {
    assert_eq!(float_wander_step(ActionPhase::Executing, None), (ActionPhase::Success, ActionEffect::Impulse));
    assert_eq!(float_wander_step(ActionPhase::Cancelled, None), (ActionPhase::Success, ActionEffect::Impulse));
}

#[test]
fn wander_follows_its_animation() {
    assert_eq!(
        float_wander_step(ActionPhase::Executing, progress(false, false)),
        (ActionPhase::Executing, ActionEffect::Nothing)
    );
    assert_eq!(
        float_wander_step(ActionPhase::Executing, progress(true, false)),
        (ActionPhase::Executing, ActionEffect::Impulse)
    );
    assert_eq!(
        float_wander_step(ActionPhase::Executing, progress(false, true)),
        (ActionPhase::Success, ActionEffect::Nothing)
    );
    assert_eq!(
        float_wander_step(ActionPhase::Executing, progress(true, true)),
        (ActionPhase::Success, ActionEffect::Impulse)
    );
    // a cancelled wander keeps playing out like an executing one
    assert_eq!(
        float_wander_step(ActionPhase::Cancelled, progress(true, false)),
        (ActionPhase::Cancelled, ActionEffect::Impulse)
    );
}

#[test]
fn settled_phases_are_left_alone() {
    for phase in [ActionPhase::Init, ActionPhase::Success, ActionPhase::Failure] {
        assert_eq!(float_wander_step(phase, None), (phase, ActionEffect::Nothing));
        assert_eq!(float_step(phase, progress(true, true)), (phase, ActionEffect::Nothing));
    }
}

#[test]
fn cancelled_float_fails() {
    assert_eq!(float_step(ActionPhase::Cancelled, None), (ActionPhase::Failure, ActionEffect::Nothing));
    assert_eq!(float_step(ActionPhase::Cancelled, progress(true, true)), (ActionPhase::Failure, ActionEffect::Nothing));
}

#[test]
fn float_runs_like_a_push() {
    assert_eq!(float_step(ActionPhase::Requested, None), (ActionPhase::Executing, ActionEffect::Start));
    assert_eq!(float_step(ActionPhase::Executing, None), (ActionPhase::Success, ActionEffect::Impulse));
    assert_eq!(float_step(ActionPhase::Executing, progress(true, false)), (ActionPhase::Executing, ActionEffect::Impulse));
    assert_eq!(float_step(ActionPhase::Executing, progress(false, true)), (ActionPhase::Success, ActionEffect::Nothing));
}

#[test]
fn unanimated_action_completes_in_two_frames() {
    let (p1, e1) = float_wander_step(ActionPhase::Requested, None);
    let (p2, e2) = float_wander_step(p1, None);
    assert_eq!((e1, p2, e2), (ActionEffect::Start, ActionPhase::Success, ActionEffect::Impulse));
    let (p1, e1) = float_step(ActionPhase::Requested, None);
    let (p2, e2) = float_step(p1, None);
    assert_eq!((e1, p2, e2), (ActionEffect::Start, ActionPhase::Success, ActionEffect::Impulse));
}

#[test]
fn animation_ticks_only_while_running() {
    assert!(wander_ticks_animation(ActionPhase::Executing));
    assert!(wander_ticks_animation(ActionPhase::Cancelled));
    assert!(!wander_ticks_animation(ActionPhase::Requested));
    assert!(float_ticks_animation(ActionPhase::Executing));
    assert!(!float_ticks_animation(ActionPhase::Cancelled));
    assert!(!float_ticks_animation(ActionPhase::Success));
}
