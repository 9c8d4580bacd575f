use kowinwm::scheduler::{
    reschedule_after_render, reschedule_delay_micros, SchedState, SurfaceSched, SwapError,
    VblankDecision,
};

#[test]
fn reschedule_only_without_damage_or_after_permission_race() {
    assert!(reschedule_after_render(&Ok(false)));
    assert!(!reschedule_after_render(&Ok(true)));
    assert!(!reschedule_after_render(&Err(SwapError::AlreadySwapped)));
    assert!(!reschedule_after_render(&Err(SwapError::DeviceInactive)));
    assert!(reschedule_after_render(&Err(SwapError::AccessDenied)));
    assert!(!reschedule_after_render(&Err(SwapError::TemporaryOther)));
    assert!(!reschedule_after_render(&Err(SwapError::ContextLost)));
}

#[test]
fn reschedule_delay_is_one_refresh_interval() {
    assert_eq!(reschedule_delay_micros(60), 16666);
    assert_eq!(reschedule_delay_micros(144), 6944);
    assert_eq!(reschedule_delay_micros(1), 1_000_000);
}

#[test]
fn submitted_after_damage_throttled_without() {
    let mut s = SurfaceSched::new();
    assert_eq!(s.state, SchedState::Idle);

    let armed = s.after_render(&Ok(true));
    assert!(!armed);
    assert_eq!(s.state, SchedState::Submitted);

    let armed = s.after_render(&Ok(false));
    assert!(armed);
    assert_eq!(s.state, SchedState::Throttled);

    assert!(s.on_timer());
    assert_eq!(s.state, SchedState::Idle);
}

#[test]
fn fatal_errors_return_to_idle_without_timer() {
    let mut s = SurfaceSched::new();
    assert!(!s.after_render(&Err(SwapError::ContextLost)));
    assert_eq!(s.state, SchedState::Idle);
    assert!(!s.after_render(&Err(SwapError::DeviceInactive)));
    assert_eq!(s.state, SchedState::Idle);
}

#[test]
fn first_vblank_always_presents() {
    let mut s = SurfaceSched::new();
    let d = s.frame_finish(5000, 16666);
    assert_eq!(d, VblankDecision::Present);
    assert_eq!(s.last_presentation_micros, Some(5000));
}

#[test]
fn early_vblank_defers_feedback_by_the_remaining_time() {
    let mut s = SurfaceSched::new();
    s.frame_finish(0, 16666);
    // The next vblank comes only 1000 us later: 15666 us of the interval
    // remain, more than half of it, so feedback is deferred that long.
    let d = s.frame_finish(1000, 16666);
    assert_eq!(d, VblankDecision::Defer { delay_micros: 15666 });
    // Nothing was presented.
    assert_eq!(s.last_presentation_micros, Some(0));
}

#[test]
fn timely_vblank_presents() {
    let mut s = SurfaceSched::new();
    s.frame_finish(0, 16666);
    // 10000 us later: 6666 us remain, less than half the interval.
    let d = s.frame_finish(10000, 16666);
    assert_eq!(d, VblankDecision::Present);
    assert_eq!(s.last_presentation_micros, Some(10000));
    assert_eq!(s.state, SchedState::Idle);
}

#[test]
fn late_vblank_presents() {
    let mut s = SurfaceSched::new();
    s.frame_finish(0, 16666);
    let d = s.frame_finish(50_000, 16666);
    assert_eq!(d, VblankDecision::Present);
    assert_eq!(s.last_presentation_micros, Some(50_000));
}
