//! Decisions of the capture loop.
//!
//! The loop that owns the camera reports what it observed on one frame; the
//! step below says what the new decision is and which actions to take, in
//! order. Performing them (locking, archiving, sleeping) is the caller's part.
use crate::monitor::RecognitionResponse;
use vstd::prelude::*;

verus! {

/// Wait after an empty frame before capturing again, in milliseconds.
pub const IDLE_WAIT_MILLIS: u64 = 100;

/// Wait between two frames that went through the pipeline, in milliseconds.
pub const CAPTURE_INTERVAL_MILLIS: u64 = 10000;

/// What the capture loop observed on one frame.
pub enum FrameObservation {
    /// The camera gave an empty frame.
    EmptyFrame,
    /// The frame holds no face.
    NoFaces,
    /// The frame holds faces, and recognition gave this outcome.
    Faces(RecognitionResponse),
}

/// One action for the capture loop to perform.
pub enum SessionAction {
    /// Persist a timestamped photo of the frame (for audit).
    SaveSnapshot,
    /// Unlock the workstation session.
    Unlock,
    /// Lock the workstation session.
    Lock,
    /// Archive the frame as a customer photo under this name.
    ArchivePhoto(String),
    /// Sleep this many milliseconds before the next frame.
    Wait(u64),
}

/// The new decision after a frame, and the actions to perform in order.
pub struct SessionStep {
    pub decision: RecognitionResponse,
    pub actions: Vec<SessionAction>,
}

/// The decision and actions that a frame observation calls for.
pub open spec fn step_spec(last: RecognitionResponse, obs: FrameObservation) -> (
    RecognitionResponse,
    Seq<SessionAction>,
) {
    match obs {
        FrameObservation::EmptyFrame => (last, seq![SessionAction::Wait(IDLE_WAIT_MILLIS)]),
        FrameObservation::NoFaces => (last, seq![SessionAction::Wait(CAPTURE_INTERVAL_MILLIS)]),
        FrameObservation::Faces(outcome) => if outcome.recognized && outcome.name is Some {
            (
                RecognitionResponse { name: outcome.name, recognized: true },
                seq![
                    SessionAction::SaveSnapshot,
                    SessionAction::Unlock,
                    SessionAction::ArchivePhoto(outcome.name->0),
                    SessionAction::Wait(CAPTURE_INTERVAL_MILLIS),
                ],
            )
        } else {
            (
                RecognitionResponse { name: None, recognized: false },
                seq![
                    SessionAction::SaveSnapshot,
                    SessionAction::Lock,
                    SessionAction::Wait(CAPTURE_INTERVAL_MILLIS),
                ],
            )
        },
    }
}

/// One step of the capture loop: an empty frame or a frame without faces keeps
/// the last decision; a frame with faces is photographed, then unlocks on a
/// named match or locks otherwise, and sets the decision accordingly.
pub fn session_step(last: RecognitionResponse, observation: FrameObservation) -> (r: SessionStep)
    requires
        last.wf(),
    ensures
        r.decision.wf(),
        (r.decision, r.actions@) == step_spec(last, observation),
{
    match observation {
        FrameObservation::EmptyFrame => SessionStep {
            decision: last,
            actions: vec![SessionAction::Wait(IDLE_WAIT_MILLIS)],
        },
        FrameObservation::NoFaces => SessionStep {
            decision: last,
            actions: vec![SessionAction::Wait(CAPTURE_INTERVAL_MILLIS)],
        },
        FrameObservation::Faces(outcome) => {
            match outcome.name {
                Some(name) if outcome.recognized => {
                    let archived = name.clone();
                    SessionStep {
                        decision: RecognitionResponse { name: Some(name), recognized: true },
                        actions: vec![
                            SessionAction::SaveSnapshot,
                            SessionAction::Unlock,
                            SessionAction::ArchivePhoto(archived),
                            SessionAction::Wait(CAPTURE_INTERVAL_MILLIS),
                        ],
                    }
                },
                _ => SessionStep {
                    decision: RecognitionResponse { name: None, recognized: false },
                    actions: vec![
                        SessionAction::SaveSnapshot,
                        SessionAction::Lock,
                        SessionAction::Wait(CAPTURE_INTERVAL_MILLIS),
                    ],
                },
            }
        },
    }
}

} // verus!
