use ezvtb::{
    center_square, infer_layout, input_index, input_shape, values_per_point, FaceLandmarkTopology, Layout,
    TrackerAction, TrackerEvent, TrackerState,
};

#[test]
fn reads_layout_from_shape() {
    assert_eq!(infer_layout(&[1, 3, 224, 256]), (256, 224, Layout::Nchw));
    assert_eq!(infer_layout(&[1, 192, 160, 3]), (160, 192, Layout::Nhwc));
    assert_eq!(infer_layout(&[1, 3, -1, -1]), (192, 192, Layout::Nchw));
    assert_eq!(infer_layout(&[1, -1, -1, 3]), (192, 192, Layout::Nhwc));
    assert_eq!(infer_layout(&[1, 1404]), (192, 192, Layout::Nhwc));
    assert_eq!(infer_layout(&[]), (192, 192, Layout::Nhwc));
}

#[test]
fn places_pixels_in_the_input_tensor() {
    // 4 x 2 image, pixel (1, 1), green channel
    assert_eq!(input_index(Layout::Nchw, 4, 2, 1, 1, 1), 8 + 4 + 1);
    assert_eq!(input_index(Layout::Nhwc, 4, 2, 1, 1, 1), (4 + 1) * 3 + 1);
    let mut seen = vec![false; 4 * 2 * 3];
    for layout in [Layout::Nchw, Layout::Nhwc] {
        seen.iter_mut().for_each(|s| *s = false);
        for y in 0..2 {
            for x in 0..4 {
                for c in 0..3 {
                    let i = input_index(layout, 4, 2, x, y, c);
                    assert!(!seen[i]);
                    seen[i] = true;
                }
            }
        }
        assert!(seen.iter().all(|s| *s));
    }
    assert_eq!(input_shape(Layout::Nchw, 256, 224), vec![1, 3, 224, 256]);
    assert_eq!(input_shape(Layout::Nhwc, 256, 224), vec![1, 224, 256, 3]);
}

#[test]
fn reads_point_stride() {
    assert_eq!(values_per_point(1404), 3);
    assert_eq!(values_per_point(936), 3);
    assert_eq!(values_per_point(10), 2);
    assert_eq!(values_per_point(0), 2);
}

#[test]
fn crops_centered_square() {
    assert_eq!(center_square(640, 480), (80, 0, 480));
    assert_eq!(center_square(480, 640), (0, 80, 480));
    assert_eq!(center_square(101, 100), (0, 0, 100));
    assert_eq!(center_square(0, 5), (0, 2, 0));
}

#[test]
fn mediapipe_topology() {
    let t = FaceLandmarkTopology::default();
    assert_eq!(t.left_eye_outer, 33);
    assert_eq!(t.mouth_bottom, 14);
    assert_eq!(t.max_index(), 386);
    assert!(t.fits(468));
    assert!(t.fits(387));
    assert!(!t.fits(386));
    let custom = FaceLandmarkTopology { chin: 500, ..FaceLandmarkTopology::mediapipe_face_mesh_468() };
    assert_eq!(custom.max_index(), 500);
}

#[test]
fn tracker_calibrates_on_first_pose() {
    let mut state: TrackerState<i32> = TrackerState::new();
    assert!(matches!(state.step(TrackerEvent::CameraFailed), TrackerAction::PauseAfterCameraFailure));
    assert!(matches!(state.step(TrackerEvent::InferenceFailed), TrackerAction::ReportInferenceFailure));
    assert!(matches!(state.step(TrackerEvent::NoPose), TrackerAction::Continue));
    assert!(matches!(
        state.step(TrackerEvent::Pose(7)),
        TrackerAction::Publish { neutral: 7, pose: 7, frame_index: 1 }
    ));
    assert!(matches!(
        state.step(TrackerEvent::Pose(9)),
        TrackerAction::Publish { neutral: 7, pose: 9, frame_index: 2 }
    ));
    assert!(matches!(state.step(TrackerEvent::Recalibrate), TrackerAction::Continue));
    assert!(matches!(state.step(TrackerEvent::NoPose), TrackerAction::Continue));
    assert!(matches!(
        state.step(TrackerEvent::Pose(11)),
        TrackerAction::Publish { neutral: 11, pose: 11, frame_index: 3 }
    ));
    assert_eq!(state.frame_index, 3);
    assert_eq!(state.calibration, Some(11));
}

#[test]
fn tracker_numbers_updates_over_a_long_run() {
    let mut state: TrackerState<i32> = TrackerState::new();
    let mut published: u64 = 0;
    let mut neutral_expected = None;
    for i in 0..60i32 {
        let event = match i % 6 {
            0 | 2 | 3 => TrackerEvent::Pose(i),
            1 => TrackerEvent::NoPose,
            4 => TrackerEvent::CameraFailed,
            _ => {
                if i % 12 == 5 {
                    TrackerEvent::Recalibrate
                } else {
                    TrackerEvent::InferenceFailed
                }
            }
        };
        match (event, state.step(event)) {
            (TrackerEvent::Pose(r), TrackerAction::Publish { neutral, pose, frame_index }) => {
                published += 1;
                let n = *neutral_expected.get_or_insert(r);
                assert_eq!((neutral, pose, frame_index), (n, r, published));
            }
            (TrackerEvent::Recalibrate, TrackerAction::Continue) => neutral_expected = None,
            (TrackerEvent::Pose(_), other) => panic!("a pose was not published: {:?}", other),
            (_, TrackerAction::Publish { .. }) => panic!("only poses publish"),
            _ => {}
        }
    }
    assert_eq!(state.frame_index, published);
    assert_eq!(published, 30);
}
