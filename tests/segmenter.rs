use screenpipe_audio::segmenter::SpeechBoundary::{Continuing, End, Silence, Start, Unknown};
use screenpipe_audio::segmenter::{
    has_enough_speech, plan_frames, FrameAction, SegmenterState, SpeechBoundary, SpeechRatio,
};

fn state(active: bool, total: usize, speech: usize) -> SegmenterState {
    SegmenterState { is_speech_active: active, total_frames: total, speech_frames: speech }
}

#[test]
fn new_state_is_idle() {
    assert_eq!(SegmenterState::new(), state(false, 0, 0));
}

#[test]
fn start_emits_and_activates() {
    for active in [false, true] {
        let mut s = state(active, 4, 1);
        assert_eq!(s.step(SpeechBoundary::Start), FrameAction::Emit);
        assert_eq!(s, state(true, 5, 2));
    }
}

#[test]
fn continuing_emits_only_while_active() {
    let mut s = state(true, 2, 1);
    assert_eq!(s.step(SpeechBoundary::Continuing), FrameAction::Emit);
    assert_eq!(s, state(true, 3, 2));

    let mut s = state(false, 2, 1);
    assert_eq!(s.step(SpeechBoundary::Continuing), FrameAction::Skip);
    assert_eq!(s, state(false, 3, 1));
}

#[test]
fn end_skips_and_deactivates() {
    for active in [false, true] {
        let mut s = state(active, 7, 3);
        assert_eq!(s.step(SpeechBoundary::End), FrameAction::Skip);
        assert_eq!(s, state(false, 8, 3));
    }
}

#[test]
fn silence_estimates_noise_and_keeps_activity() {
    for active in [false, true] {
        let mut s = state(active, 0, 0);
        assert_eq!(s.step(SpeechBoundary::Silence), FrameAction::EstimateNoise);
        assert_eq!(s, state(active, 1, 0));
    }
}

#[test]
fn unknown_label_changes_nothing_but_the_count() {
    for active in [false, true] {
        let mut s = state(active, 3, 2);
        assert_eq!(s.step(SpeechBoundary::Unknown), FrameAction::Skip);
        assert_eq!(s, state(active, 4, 2));
    }
}

#[test]
fn plan_follows_speech_boundaries() {
    let labels = vec![Silence, Continuing, Start, Continuing, Silence, Continuing, End, Continuing, Unknown];
    let (actions, end) = plan_frames(&labels);
    assert_eq!(
        actions,
        vec![
            FrameAction::EstimateNoise,
            FrameAction::Skip,
            FrameAction::Emit,
            FrameAction::Emit,
            FrameAction::EstimateNoise,
            FrameAction::Emit,
            FrameAction::Skip,
            FrameAction::Skip,
            FrameAction::Skip,
        ]
    );
    assert_eq!(end, state(false, 9, 3));
}

#[test]
fn all_silence_buffer_is_dropped() {
    let labels = vec![SpeechBoundary::Silence; 12];
    let (actions, end) = plan_frames(&labels);
    assert!(actions.iter().all(|a| *a == FrameAction::EstimateNoise));
    assert_eq!(end, state(false, 12, 0));
    let zero = SpeechRatio::from_parts_per_million(0).unwrap();
    assert!(!has_enough_speech(&end, zero));
}

#[test]
fn empty_buffer_is_dropped() {
    let (actions, end) = plan_frames(&Vec::new());
    assert!(actions.is_empty());
    assert_eq!(end, state(false, 0, 0));
    let zero = SpeechRatio::from_parts_per_million(0).unwrap();
    assert!(!has_enough_speech(&end, zero));
}

#[test]
fn ratio_threshold_is_inclusive() {
    let min = SpeechRatio::from_parts_per_million(300_000).unwrap();
    assert!(has_enough_speech(&state(false, 10, 3), min));
    assert!(!has_enough_speech(&state(false, 10, 2), min));
}

#[test]
fn ratio_threshold_through_plan() {
    let min = SpeechRatio::from_parts_per_million(300_000).unwrap();
    let three = vec![Start, Continuing, Continuing, End, Silence, Silence, Silence, Silence, Silence, Silence];
    let (_, end) = plan_frames(&three);
    assert_eq!(end, state(false, 10, 3));
    assert!(has_enough_speech(&end, min));
    let two = vec![Start, Continuing, End, Continuing, Silence, Silence, Silence, Silence, Silence, Silence];
    let (_, end) = plan_frames(&two);
    assert_eq!(end, state(false, 10, 2));
    assert!(!has_enough_speech(&end, min));
}

#[test]
fn full_ratio_requires_every_frame() {
    let all = SpeechRatio::from_parts_per_million(1_000_000).unwrap();
    assert!(has_enough_speech(&state(true, 5, 5), all));
    assert!(!has_enough_speech(&state(true, 5, 4), all));
}

#[test]
fn ratio_above_one_is_refused() {
    assert!(SpeechRatio::from_parts_per_million(1_000_001).is_none());
    assert_eq!(SpeechRatio::from_parts_per_million(250_000).unwrap().parts_per_million(), 250_000);
}

#[test]
fn counts_near_the_largest_size_do_not_overflow() {
    let min = SpeechRatio::from_parts_per_million(500_000).unwrap();
    assert!(has_enough_speech(&state(true, usize::MAX, usize::MAX / 2 + 1), min));
    assert!(!has_enough_speech(&state(true, usize::MAX, usize::MAX / 2), min));
}
