//! The decisions of the face-tracking loop: calibration of the neutral head
//! pose, frame numbering, what to do after each capture attempt, and which
//! part of a webcam frame is fed to the landmark model.
use std::path::PathBuf;
use vstd::prelude::*;

use crate::topology::FaceLandmarkTopology;

verus! {

/// `std::path::PathBuf`, carried through as an opaque value.
#[verifier::external_type_specification]
#[verifier::external_body]
pub struct ExPathBuf(PathBuf);

/// What the tracker needs to start: which webcam, which landmark model, and
/// which landmark indices that model uses.
pub struct TrackerConfig {
    pub camera_index: u32,
    pub face_model_path: PathBuf,
    pub topology: FaceLandmarkTopology,
}

/// What one pass of the capture loop observed.
#[derive(Debug, Clone, Copy)]
pub enum TrackerEvent<R> {
    /// The user asked to re-center: the next pose becomes the new neutral.
    Recalibrate,
    /// Reading a frame from the camera failed.
    CameraFailed,
    /// The landmark model failed on the frame.
    InferenceFailed,
    /// The landmarks gave no usable head pose.
    NoPose,
    /// A head rotation was estimated for the frame.
    Pose(R),
}

/// What the capture loop does next.
#[derive(Debug, Clone, Copy)]
pub enum TrackerAction<R> {
    /// Go on with the next pass.
    Continue,
    /// Report the camera failure and pause briefly before retrying.
    PauseAfterCameraFailure,
    /// Report the inference failure and go on with the next frame.
    ReportInferenceFailure,
    /// Publish an update: the head rotation `pose` relative to `neutral`,
    /// numbered `frame_index`.
    Publish { neutral: R, pose: R, frame_index: u64 },
}

/// The capture loop's state: the calibrated neutral rotation, once known,
/// and how many updates have been published.
#[derive(Debug, Clone, Copy)]
pub struct TrackerState<R> {
    pub calibration: Option<R>,
    pub frame_index: u64,
}

/// The state and action that follow an event.
pub open spec fn next_step<R>(s: TrackerState<R>, e: TrackerEvent<R>) -> (TrackerState<R>, TrackerAction<R>) {
    match e {
        TrackerEvent::Recalibrate => (TrackerState { calibration: None, frame_index: s.frame_index }, TrackerAction::Continue),
        TrackerEvent::CameraFailed => (s, TrackerAction::PauseAfterCameraFailure),
        TrackerEvent::InferenceFailed => (s, TrackerAction::ReportInferenceFailure),
        TrackerEvent::NoPose => (s, TrackerAction::Continue),
        TrackerEvent::Pose(r) => {
            let neutral = match s.calibration {
                Some(n) => n,
                None => r,
            };
            let index = (s.frame_index + 1) as u64;
            (
                TrackerState { calibration: Some(neutral), frame_index: index },
                TrackerAction::Publish { neutral, pose: r, frame_index: index },
            )
        },
    }
}

/// An event can be taken when it does not overflow the frame counter.
pub open spec fn can_take<R>(s: TrackerState<R>, e: TrackerEvent<R>) -> bool {
    e is Pose ==> s.frame_index < u64::MAX
}

impl<R: Copy> TrackerState<R> {
    /// The state before the first frame: uncalibrated, nothing published.
    pub fn new() -> (s: Self)
        ensures
            s.calibration is None,
            s.frame_index == 0,
    {
        TrackerState { calibration: None, frame_index: 0 }
    }

    /// Takes one event of the capture loop. A pose is measured against the
    /// neutral pose, which is the first pose seen since start-up or since the
    /// last recalibration; each published update gets the next frame number.
    pub fn step(&mut self, event: TrackerEvent<R>) -> (action: TrackerAction<R>)
        requires
            can_take(*old(self), event),
        ensures
            (*final(self), action) == next_step(*old(self), event),
    {
        match event {
            TrackerEvent::Recalibrate => {
                self.calibration = None;
                TrackerAction::Continue
            },
            TrackerEvent::CameraFailed => TrackerAction::PauseAfterCameraFailure,
            TrackerEvent::InferenceFailed => TrackerAction::ReportInferenceFailure,
            TrackerEvent::NoPose => TrackerAction::Continue,
            TrackerEvent::Pose(r) => {
                let neutral = match self.calibration {
                    Some(n) => n,
                    None => r,
                };
                self.calibration = Some(neutral);
                self.frame_index = self.frame_index + 1;
                TrackerAction::Publish { neutral, pose: r, frame_index: self.frame_index }
            },
        }
    }
}

/// At start-up the first pose is published as its own neutral (so tracking
/// starts at "no rotation"), and later poses are measured against it.
pub proof fn lemma_first_pose_is_neutral<R>(r: R, later: R)
    ensures
        ({
            let s0 = TrackerState::<R> { calibration: None, frame_index: 0 };
            let (s1, a1) = next_step(s0, TrackerEvent::Pose(r));
            let (_, a2) = next_step(s1, TrackerEvent::Pose(later));
            &&& a1 == TrackerAction::Publish { neutral: r, pose: r, frame_index: 1 }
            &&& a2 == TrackerAction::Publish { neutral: r, pose: later, frame_index: 2 }
        }),
{
}

/// After a recalibration, the next pose is published as its own neutral (so
/// it reads as "no rotation"), and every later pose is measured against it
/// until the next recalibration.
pub proof fn lemma_recalibrate_then_pose<R>(s: TrackerState<R>, r: R, later: R)
    requires
        s.frame_index < u64::MAX - 1,
    ensures
        ({
            let (s1, _) = next_step(s, TrackerEvent::Recalibrate);
            let (s2, a2) = next_step(s1, TrackerEvent::Pose(r));
            let (_, a3) = next_step(s2, TrackerEvent::Pose(later));
            &&& a2 == TrackerAction::Publish { neutral: r, pose: r, frame_index: (s.frame_index + 1) as u64 }
            &&& a3 == TrackerAction::Publish { neutral: r, pose: later, frame_index: (s.frame_index + 2) as u64 }
        }),
{
}

/// Once calibrated, only a recalibration changes the neutral pose; and every
/// published update carries a frame number one past the previous one.
pub proof fn lemma_step_keeps_calibration<R>(s: TrackerState<R>, e: TrackerEvent<R>)
    requires
        can_take(s, e),
        s.calibration is Some,
    ensures
        ({
            let (s1, a) = next_step(s, e);
            &&& !(e is Recalibrate) ==> s1.calibration == s.calibration
            &&& s1.frame_index == s.frame_index || s1.frame_index == s.frame_index + 1
            &&& a is Publish <==> s1.frame_index == s.frame_index + 1
            &&& a is Publish ==> a->frame_index == s1.frame_index
        }),
{
}

/// The state of the loop after the first `k` events, starting from `s`.
pub open spec fn state_after<R>(s: TrackerState<R>, events: Seq<TrackerEvent<R>>, k: int) -> TrackerState<R>
    decreases k,
{
    if k <= 0 {
        s
    } else {
        next_step(state_after(s, events, k - 1), events[k - 1]).0
    }
}

/// What the loop does on event `k`, starting from `s`.
pub open spec fn action_at<R>(s: TrackerState<R>, events: Seq<TrackerEvent<R>>, k: int) -> TrackerAction<R> {
    next_step(state_after(s, events, k), events[k]).1
}

/// How many of the first `k` events are poses.
pub open spec fn pose_count<R>(events: Seq<TrackerEvent<R>>, k: int) -> nat
    decreases k,
{
    if k <= 0 {
        0
    } else {
        pose_count(events, k - 1) + if events[k - 1] is Pose {
            1nat
        } else {
            0nat
        }
    }
}

/// The position of the last recalibration among the first `k` events, or
/// -1 if there is none.
pub open spec fn last_recalibration<R>(events: Seq<TrackerEvent<R>>, k: int) -> int
    decreases k,
{
    if k <= 0 {
        -1
    } else if events[k - 1] is Recalibrate {
        k - 1
    } else {
        last_recalibration(events, k - 1)
    }
}

/// The position of the first pose among events `a` up to (not including)
/// `k`, or `k` if there is none.
pub open spec fn first_pose_from<R>(events: Seq<TrackerEvent<R>>, a: int, k: int) -> int
    decreases k - a,
{
    if a >= k {
        k
    } else if events[a] is Pose {
        a
    } else {
        first_pose_from(events, a + 1, k)
    }
}

/// The neutral pose that a pose at event `k` is measured against: the pose
/// the loop was calibrated with at the start, if it was and no
/// recalibration came since; otherwise the first pose since the last
/// recalibration (or since the start), which is event `k` itself when no
/// pose came before it.
pub open spec fn neutral_for<R>(s: TrackerState<R>, events: Seq<TrackerEvent<R>>, k: int) -> R {
    let a = last_recalibration(events, k) + 1;
    if a == 0 && s.calibration is Some {
        s.calibration->0
    } else {
        events[first_pose_from(events, a, k)]->0
    }
}

/// The calibration in force after the first `k` events.
spec fn calibration_after<R>(s: TrackerState<R>, events: Seq<TrackerEvent<R>>, k: int) -> Option<R> {
    let a = last_recalibration(events, k) + 1;
    let f = first_pose_from(events, a, k);
    if a == 0 && s.calibration is Some {
        s.calibration
    } else if f < k {
        Some(events[f]->0)
    } else {
        None
    }
}

proof fn lemma_last_recalibration_range<R>(events: Seq<TrackerEvent<R>>, k: int)
    requires
        0 <= k,
    ensures
        -1 <= last_recalibration(events, k) < k,
    decreases k,
{
    if k > 0 {
        lemma_last_recalibration_range(events, k - 1);
    }
}

/// Looking one event further for the first pose.
proof fn lemma_first_pose_extend<R>(events: Seq<TrackerEvent<R>>, a: int, k: int)
    requires
        0 <= a <= k,
    ensures
        a <= first_pose_from(events, a, k) <= k,
        first_pose_from(events, a, k) < k ==> first_pose_from(events, a, k + 1) == first_pose_from(events, a, k),
        first_pose_from(events, a, k) == k ==> first_pose_from(events, a, k + 1) == if events[k] is Pose {
            k
        } else {
            k + 1
        },
    decreases k - a,
{
    if a < k && !(events[a] is Pose) {
        lemma_first_pose_extend(events, a + 1, k);
    } else if a == k {
        assert(first_pose_from(events, k + 1, k + 1) == k + 1);
    }
}

/// The state after `k` events: the frame counter has advanced once per
/// pose, and the calibration is [`calibration_after`].
proof fn lemma_state_after<R>(s: TrackerState<R>, events: Seq<TrackerEvent<R>>, k: int)
    requires
        0 <= k <= events.len(),
        s.frame_index + pose_count(events, k) <= u64::MAX,
    ensures
        state_after(s, events, k).frame_index == s.frame_index + pose_count(events, k),
        state_after(s, events, k).calibration == calibration_after(s, events, k),
    decreases k,
{
    if k > 0 {
        let j = k - 1;
        lemma_state_after(s, events, j);
        lemma_last_recalibration_range(events, j);
        let a = last_recalibration(events, j) + 1;
        lemma_first_pose_extend(events, a, j);
        if events[j] is Recalibrate {
            assert(first_pose_from(events, k, k) == k);
        }
    }
}

/// Over any run of the capture loop from state `s`, event `k` does this:
/// a pose publishes an update numbered one past the updates published
/// before it, measured against [`neutral_for`] (the first pose since the
/// last recalibration, or since the start); any other event publishes
/// nothing. Every event of the run can be taken. From start-up
/// ([`TrackerState::new`]) the updates are thus numbered 1, 2, 3, ... in
/// the order the poses arrive, and the first one after start-up or after a
/// recalibration is measured against itself.
pub proof fn lemma_run_publishes<R>(s: TrackerState<R>, events: Seq<TrackerEvent<R>>, k: int)
    requires
        s.frame_index + pose_count(events, events.len() as int) <= u64::MAX,
        0 <= k < events.len(),
    ensures
        can_take(state_after(s, events, k), events[k]),
        (events[k] is Pose) ==> action_at(s, events, k) == (TrackerAction::Publish {
            neutral: neutral_for(s, events, k),
            pose: events[k]->0,
            frame_index: (s.frame_index + pose_count(events, k) + 1) as u64,
        }),
        (events[k] !is Pose) ==> (action_at(s, events, k) !is Publish),
{
    lemma_pose_count_monotone(events, k + 1, events.len() as int);
    lemma_state_after(s, events, k);
    lemma_last_recalibration_range(events, k);
    lemma_first_pose_extend(events, last_recalibration(events, k) + 1, k);
}

proof fn lemma_pose_count_monotone<R>(events: Seq<TrackerEvent<R>>, j: int, k: int)
    requires
        0 <= j <= k,
    ensures
        pose_count(events, j) <= pose_count(events, k),
    decreases k - j,
{
    if j < k {
        lemma_pose_count_monotone(events, j, k - 1);
    }
}

/// The largest centered square of a `width` x `height` frame, as
/// `(x, y, side)`: `side` is the smaller dimension and the square sits
/// midway along the longer one (rounding toward the top-left).
pub open spec fn centered_square(width: u32, height: u32) -> (u32, u32, u32) {
    let side = if width <= height {
        width
    } else {
        height
    };
    (((width - side) / 2) as u32, ((height - side) / 2) as u32, side)
}

/// The crop is the largest square inside the frame (its side is the smaller
/// of the frame's dimensions), centered: the margins before and after it,
/// along each axis, are equal, or the one after is one pixel wider.
pub proof fn lemma_centered_square(width: u32, height: u32)
    ensures
        ({
            let (x, y, side) = centered_square(width, height);
            &&& side <= width && side <= height
            &&& side == width || side == height
            &&& x <= width - (x + side) <= x + 1
            &&& y <= height - (y + side) <= y + 1
        }),
{
}

/// Where to crop a frame for the landmark model: the largest centered square.
/// This assumes the subject's face is roughly centered in the webcam frame.
pub fn center_square(width: u32, height: u32) -> (r: (u32, u32, u32))
    ensures
        r == centered_square(width, height),
        r.0 + r.2 <= width,
        r.1 + r.2 <= height,
{
    let side = if width <= height {
        width
    } else {
        height
    };
    let x = (width - side) / 2;
    let y = (height - side) / 2;
    (x, y, side)
}

} // verus!
