use figurine_studio::services::frame_interpolation::{plan_interpolation, FrameSource, InterpolationMethod};

#[test]
fn test_crossfade_midpoint() {
    // Key frames at 0 and 2 of 3: the middle frame blends them half and half.
    let plan = plan_interpolation(&[0, 2], 3, InterpolationMethod::Crossfade).unwrap();
    assert_eq!(plan.len(), 3);
    assert_eq!(plan[1], FrameSource::Blend { prev: 0, next: 1 });
}

#[test]
fn test_nearest_picks_closest() {
    let plan = plan_interpolation(&[0, 4], 5, InterpolationMethod::Nearest).unwrap();
    assert_eq!(plan.len(), 5);
    assert_eq!(plan[1], FrameSource::Keyframe(0));
    assert_eq!(plan[3], FrameSource::Keyframe(1));
}

#[test]
fn test_all_keyframes_no_interpolation() {
    let plan = plan_interpolation(&[0, 1, 2], 3, InterpolationMethod::Crossfade).unwrap();
    assert_eq!(plan.len(), 3);
    assert_eq!(plan, vec![FrameSource::Keyframe(0), FrameSource::Keyframe(1), FrameSource::Keyframe(2)]);
}

#[test]
fn test_empty_keyframes_error() {
    assert!(plan_interpolation(&[], 5, InterpolationMethod::Crossfade).is_err());
}

#[test]
fn test_zero_total_frames() {
    assert!(plan_interpolation(&[0], 0, InterpolationMethod::Crossfade).unwrap().is_empty());
}
