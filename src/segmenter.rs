//! The speech segmenter: a state machine over per-frame speech labels.
//!
//! The classifier labels each frame; the segmenter decides from that label and
//! from whether speech is under way what happens to the frame, and keeps the
//! counts that decide at the end whether the buffer holds enough speech.
use vstd::prelude::*;

verus! {

/// What the classifier says of one frame.
#[derive(Clone, Copy, Debug, PartialEq, Eq, Structural)]
pub enum SpeechBoundary {
    Start,
    Continuing,
    End,
    Silence,
    Unknown,
}

/// What is done with one frame.
#[derive(Clone, Copy, Debug, PartialEq, Eq, Structural)]
pub enum FrameAction {
    /// Denoise the frame with the current noise estimate and append it to the output.
    Emit,
    /// Take the frame's power as the new noise estimate.
    EstimateNoise,
    /// Leave the frame out.
    Skip,
}

/// The action for a frame with `label` when speech was under way (`active`) or not.
pub open spec fn action_of(label: SpeechBoundary, active: bool) -> FrameAction {
    match label {
        SpeechBoundary::Start => FrameAction::Emit,
        SpeechBoundary::Continuing => if active {
            FrameAction::Emit
        } else {
            FrameAction::Skip
        },
        SpeechBoundary::Silence => FrameAction::EstimateNoise,
        _ => FrameAction::Skip,
    }
}

/// Whether speech is under way after a frame with `label`.
pub open spec fn next_active(label: SpeechBoundary, active: bool) -> bool {
    match label {
        SpeechBoundary::Start => true,
        SpeechBoundary::End => false,
        _ => active,
    }
}

/// The segmenter's state while it walks one buffer.
#[derive(Clone, Copy, Debug, PartialEq, Eq, Structural)]
pub struct SegmenterState {
    pub is_speech_active: bool,
    /// Frames seen so far.
    pub total_frames: usize,
    /// Frames emitted as speech so far.
    pub speech_frames: usize,
}

/// The state before the first frame.
pub open spec fn initial_state() -> SegmenterState {
    SegmenterState { is_speech_active: false, total_frames: 0, speech_frames: 0 }
}

impl SegmenterState {
    /// The state after one more frame with `label`.
    pub open spec fn after(self, label: SpeechBoundary) -> SegmenterState {
        SegmenterState {
            is_speech_active: next_active(label, self.is_speech_active),
            total_frames: (self.total_frames + 1) as usize,
            speech_frames: if action_of(label, self.is_speech_active) == FrameAction::Emit {
                (self.speech_frames + 1) as usize
            } else {
                self.speech_frames
            },
        }
    }

    /// Counts are consistent: no more speech frames than frames.
    pub open spec fn wf(self) -> bool {
        self.speech_frames <= self.total_frames
    }

    pub fn new() -> (r: SegmenterState)
        ensures
            r == initial_state(),
    {
        SegmenterState { is_speech_active: false, total_frames: 0, speech_frames: 0 }
    }

    /// Takes one frame's label: returns what to do with the frame and moves on.
    pub fn step(&mut self, label: SpeechBoundary) -> (a: FrameAction)
        requires
            old(self).wf(),
            old(self).total_frames < usize::MAX,
        ensures
            a == action_of(label, old(self).is_speech_active),
            *final(self) == old(self).after(label),
            final(self).wf(),
    {
        let a = match label {
            SpeechBoundary::Start => FrameAction::Emit,
            SpeechBoundary::Continuing => if self.is_speech_active {
                FrameAction::Emit
            } else {
                FrameAction::Skip
            },
            SpeechBoundary::Silence => FrameAction::EstimateNoise,
            _ => FrameAction::Skip,
        };
        match label {
            SpeechBoundary::Start => {
                self.is_speech_active = true;
            },
            SpeechBoundary::End => {
                self.is_speech_active = false;
            },
            _ => {},
        }
        self.total_frames = self.total_frames + 1;
        match a {
            FrameAction::Emit => {
                self.speech_frames = self.speech_frames + 1;
            },
            _ => {},
        }
        a
    }
}

/// The state after the frames labelled `labels`, in order.
pub open spec fn run(labels: Seq<SpeechBoundary>) -> SegmenterState
    decreases labels.len(),
{
    if labels.len() == 0 {
        initial_state()
    } else {
        run(labels.drop_last()).after(labels.last())
    }
}

/// The action taken on frame `i` of `labels`.
pub open spec fn action_at(labels: Seq<SpeechBoundary>, i: int) -> FrameAction {
    action_of(labels[i], run(labels.take(i)).is_speech_active)
}

/// Walks a whole buffer's labels in order: the action for each frame, and the
/// state at the end.
pub fn plan_frames(labels: &Vec<SpeechBoundary>) -> (r: (Vec<FrameAction>, SegmenterState))
    requires
        labels@.len() < usize::MAX,
    ensures
        r.0@.len() == labels@.len(),
        forall|i: int| 0 <= i < labels@.len() ==> r.0@[i] == action_at(labels@, i),
        r.1 == run(labels@),
{
    let mut state = SegmenterState::new();
    let mut actions: Vec<FrameAction> = Vec::new();
    let mut i: usize = 0;
    while i < labels.len()
        invariant
            i <= labels@.len(),
            labels@.len() < usize::MAX,
            state == run(labels@.take(i as int)),
            state.wf(),
            state.total_frames == i,
            actions@.len() == i,
            forall|j: int| 0 <= j < i ==> actions@[j] == action_at(labels@, j),
        decreases labels@.len() - i,
    {
        let label = labels[i];
        let a = state.step(label);
        actions.push(a);
        proof {
            let next = labels@.take(i + 1);
            assert(next.drop_last() =~= labels@.take(i as int));
            assert(next.last() == label);
        }
        i = i + 1;
    }
    assert(labels@.take(i as int) =~= labels@);
    (actions, state)
}

/// The smallest share of speech frames for which a buffer is kept, in millionths.
#[derive(Clone, Copy, Debug, PartialEq, Eq, Structural)]
pub struct SpeechRatio {
    parts_per_million: u32,
}

/// One million: a whole share.
pub const ONE_MILLION: u32 = 1_000_000;

impl SpeechRatio {
    /// The share in millionths.
    pub closed spec fn ppm(self) -> nat {
        self.parts_per_million as nat
    }

    /// A share never exceeds one.
    pub open spec fn wf(self) -> bool {
        self.ppm() <= ONE_MILLION
    }

    /// The share `ppm / 1_000_000`, or `None` where that exceeds one.
    pub fn from_parts_per_million(ppm: u32) -> (r: Option<SpeechRatio>)
        ensures
            r.is_some() <==> ppm <= ONE_MILLION,
            r matches Some(s) ==> s.ppm() == ppm && s.wf(),
    {
        if ppm <= ONE_MILLION {
            Some(SpeechRatio { parts_per_million: ppm })
        } else {
            None
        }
    }

    pub fn parts_per_million(&self) -> (r: u32)
        ensures
            r == self.ppm(),
    {
        self.parts_per_million
    }
}

/// `speech / total >= ppm / 1_000_000`, for `total > 0`.
pub open spec fn meets_ratio(speech: nat, total: nat, ppm: nat) -> bool {
    speech * (ONE_MILLION as nat) >= ppm * total
}

/// Whether a buffer whose walk ended in `state` is kept: some frame was
/// emitted and the share of emitted frames reaches `min`.
pub open spec fn keeps(state: SegmenterState, min: SpeechRatio) -> bool {
    state.speech_frames > 0 && meets_ratio(
        state.speech_frames as nat,
        state.total_frames as nat,
        min.ppm(),
    )
}

/// Whether a buffer whose walk ended in `state` holds enough speech to be kept.
pub fn has_enough_speech(state: &SegmenterState, min: SpeechRatio) -> (r: bool)
    ensures
        r == keeps(*state, min),
{
    if state.speech_frames == 0 {
        return false;
    }
    let speech = state.speech_frames as u128;
    let total = state.total_frames as u128;
    let ppm = min.parts_per_million() as u128;
    assert(speech * (ONE_MILLION as u128) <= u64::MAX as u128 * 1_000_000u128) by (nonlinear_arith)
        requires
            speech <= u64::MAX,
    ;
    assert(ppm * total <= u32::MAX as u128 * u64::MAX as u128) by (nonlinear_arith)
        requires
            ppm <= u32::MAX,
            total <= u64::MAX,
    ;
    speech * (ONE_MILLION as u128) >= ppm * total
}

/// Walking any sequence of labels counts each frame once and never counts
/// more speech frames than frames.
pub proof fn lemma_run_counts(labels: Seq<SpeechBoundary>)
    requires
        labels.len() < usize::MAX,
    ensures
        run(labels).total_frames == labels.len(),
        run(labels).wf(),
    decreases labels.len(),
{
    if labels.len() > 0 {
        lemma_run_counts(labels.drop_last());
    }
}

/// A buffer whose every frame is labelled silence emits no frame, counts no
/// speech frame and is not kept, whatever the minimum share.
pub proof fn lemma_silence_is_dropped(labels: Seq<SpeechBoundary>, min: SpeechRatio)
    requires
        labels.len() < usize::MAX,
        forall|i: int| 0 <= i < labels.len() ==> labels[i] == SpeechBoundary::Silence,
    ensures
        forall|i: int| 0 <= i < labels.len() ==> action_at(labels, i) == FrameAction::EstimateNoise,
        run(labels).speech_frames == 0,
        !run(labels).is_speech_active,
        !keeps(run(labels), min),
    decreases labels.len(),
{
    if labels.len() > 0 {
        let rest = labels.drop_last();
        lemma_silence_is_dropped(rest, min);
        lemma_run_counts(rest);
    }
}

} // verus!
