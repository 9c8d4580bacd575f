//! Frame scheduling for one render surface.
//!
//! A surface cycles through `Idle -> Submitted -> (vblank) -> Idle`; a
//! render pass that found no damage arms a timer for about one refresh
//! interval instead of submitting, `Idle -> Throttled -> (timer) -> Idle`.
//! A vblank that arrives faster than half a refresh interval after the
//! previous one has its client feedback deferred by the remaining time, so
//! throttled or virtual displays do not starve client frame pacing.

use vstd::prelude::*;

verus! {

/// Why a render pass or a frame submission failed.
#[derive(Clone, Copy, PartialEq, Eq, Structural, Debug)]
pub enum SwapError {
    /// The frame was already swapped: nothing to do.
    AlreadySwapped,
    /// The device is paused (session switched away): wait for resume.
    DeviceInactive,
    /// A permission race while switching sessions: retry after a frame.
    AccessDenied,
    /// Another passing failure: the next damage or vblank retries.
    TemporaryOther,
    /// The GPU context is gone: the device must be torn down and re-added.
    ContextLost,
}

/// The scheduling state of one render surface.
#[derive(Clone, Copy, PartialEq, Eq, Structural, Debug)]
pub enum SchedState {
    /// Nothing in flight; the next damage or vblank may render.
    Idle,
    /// A frame is queued to the hardware until the next vblank.
    Submitted,
    /// No damage was found; a timer re-tests after a refresh interval.
    Throttled,
}

/// Whether a repaint must be rescheduled by timer after a render pass:
/// only when nothing was damaged, or after the one failure that a timer
/// can cure (a permission race).  A paused device waits for resume, and a
/// lost context is handled by re-adding the device, so neither reschedules.
pub open spec fn spec_reschedule_after_render(result: Result<bool, SwapError>) -> bool {
    match result {
        Ok(rendered) => !rendered,
        Err(e) => match e {
            SwapError::AlreadySwapped => false,
            SwapError::DeviceInactive => false,
            SwapError::AccessDenied => true,
            SwapError::TemporaryOther => false,
            SwapError::ContextLost => false,
        },
    }
}

pub fn reschedule_after_render(result: &Result<bool, SwapError>) -> (r: bool)
    ensures
        r == spec_reschedule_after_render(*result),
{
    match result {
        Ok(rendered) => !*rendered,
        Err(e) => match e {
            SwapError::AccessDenied => true,
            _ => false,
        },
    }
}

/// About one refresh interval, in microseconds.
pub fn reschedule_delay_micros(refresh_hz: u32) -> (r: u64)
    requires
        refresh_hz > 0,
    ensures
        r == 1_000_000 as u64 / refresh_hz as u64,
{
    1_000_000u64 / refresh_hz as u64
}

/// What a vblank leads to: deferred client feedback, or presentation
/// followed by the next repaint.
#[derive(Clone, Copy, PartialEq, Eq, Structural, Debug)]
pub enum VblankDecision {
    /// The vblank came too fast: hold the client feedback this long.
    Defer { delay_micros: u64 },
    /// Present the feedback now and trigger the next repaint.
    Present,
}

/// Scheduling state of one surface: where it stands in the frame cycle and
/// when it last presented.
#[derive(Clone, Copy, PartialEq, Eq, Structural, Debug)]
pub struct SurfaceSched {
    pub state: SchedState,
    pub last_presentation_micros: Option<u64>,
}

impl SurfaceSched {
    pub open spec fn wf(self) -> bool {
        true
    }

    pub fn new() -> (r: SurfaceSched)
        ensures
            r.state is Idle,
            r.last_presentation_micros is None,
    {
        SurfaceSched { state: SchedState::Idle, last_presentation_micros: None }
    }

    /// Step the surface after a render pass: a submitted frame waits for
    /// its vblank; a pass without damage, or with the one curable failure,
    /// throttles and answers `true` so the caller arms the retry timer;
    /// everything else returns to idle and waits for the next signal.
    pub fn after_render(&mut self, result: &Result<bool, SwapError>) -> (arm_timer: bool)
        ensures
            arm_timer == spec_reschedule_after_render(*result),
            final(self).state == (if *result == Ok::<bool, SwapError>(true) {
                SchedState::Submitted
            } else if spec_reschedule_after_render(*result) {
                SchedState::Throttled
            } else {
                SchedState::Idle
            }),
            final(self).last_presentation_micros == old(self).last_presentation_micros,
    {
        let submitted = match result {
            Ok(rendered) => *rendered,
            Err(_) => false,
        };
        let arm = reschedule_after_render(result);
        if submitted {
            self.state = SchedState::Submitted;
        } else if arm {
            self.state = SchedState::Throttled;
        } else {
            self.state = SchedState::Idle;
        }
        arm
    }

    /// The throttle timer fired: the surface is idle again and a repaint
    /// must be tried.
    pub fn on_timer(&mut self) -> (repaint: bool)
        ensures
            final(self).state is Idle,
            final(self).last_presentation_micros == old(self).last_presentation_micros,
            repaint,
    {
        self.state = SchedState::Idle;
        true
    }

    /// A vblank completed.  When it follows the previous presentation by
    /// less than half a refresh interval, the client feedback is deferred
    /// by the remaining time and nothing else changes; otherwise the frame
    /// presents now and the surface is idle again, ready for the repaint
    /// this decision triggers.
    pub fn frame_finish(&mut self, now_micros: u64, frame_duration_micros: u64) -> (d:
        VblankDecision)
        requires
            match old(self).last_presentation_micros {
                Some(last) => last <= now_micros,
                None => true,
            },
        ensures
            ({
                match old(self).last_presentation_micros {
                    Some(last) => {
                        let elapsed = now_micros - last;
                        let remaining = if elapsed >= frame_duration_micros {
                            0int
                        } else {
                            frame_duration_micros - elapsed
                        };
                        if remaining > frame_duration_micros as int / 2 {
                            &&& d == (VblankDecision::Defer { delay_micros: remaining as u64 })
                            &&& *final(self) == *old(self)
                        } else {
                            &&& d == VblankDecision::Present
                            &&& final(self).last_presentation_micros == Some(now_micros)
                            &&& final(self).state is Idle
                        }
                    },
                    None => {
                        &&& d == VblankDecision::Present
                        &&& final(self).last_presentation_micros == Some(now_micros)
                        &&& final(self).state is Idle
                    },
                }
            }),
    {
        match self.last_presentation_micros {
            Some(last) => {
                let elapsed = now_micros - last;
                let remaining = if elapsed >= frame_duration_micros {
                    0
                } else {
                    frame_duration_micros - elapsed
                };
                if remaining > frame_duration_micros / 2 {
                    return VblankDecision::Defer { delay_micros: remaining };
                }
            },
            None => {},
        }
        self.last_presentation_micros = Some(now_micros);
        self.state = SchedState::Idle;
        VblankDecision::Present
    }
}

} // verus!
