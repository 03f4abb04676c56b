use vstd::prelude::*;

verus! {

/// Stages of one dictation: record, post-process audio, transcribe,
/// optionally enhance, then paste.
#[derive(Debug, Clone, Copy, PartialEq, Eq, Structural)]
pub enum PipelineState {
    Idle,
    Recording,
    Processing,
    Transcribing,
    Enhancing,
    Pasting,
}

/// Events that drive the pipeline.
#[derive(Debug, Clone, Copy, PartialEq, Eq, Structural)]
pub enum Action {
    StartRecording,
    StopRecording,
    Cancel,
    ProcessingComplete,
    TranscriptionComplete,
    PasteComplete,
}

/// The transition relation: the forward cycle
/// Idle → Recording → Processing → Transcribing → Pasting → Idle,
/// `Cancel` returns to Idle from anywhere, anything else leaves the state as is.
pub open spec fn next_state(state: PipelineState, action: Action) -> PipelineState {
    match (state, action) {
        (PipelineState::Idle, Action::StartRecording) => PipelineState::Recording,
        (PipelineState::Recording, Action::StopRecording) => PipelineState::Processing,
        (PipelineState::Processing, Action::ProcessingComplete) => PipelineState::Transcribing,
        (PipelineState::Transcribing, Action::TranscriptionComplete) => PipelineState::Pasting,
        (PipelineState::Pasting, Action::PasteComplete) => PipelineState::Idle,
        (_, Action::Cancel) => PipelineState::Idle,
        _ => state,
    }
}

pub fn transition(state: PipelineState, action: Action) -> (next: PipelineState)
    ensures
        next == next_state(state, action),
{
    match (state, action) {
        (PipelineState::Idle, Action::StartRecording) => PipelineState::Recording,
        (PipelineState::Recording, Action::StopRecording) => PipelineState::Processing,
        (PipelineState::Processing, Action::ProcessingComplete) => PipelineState::Transcribing,
        (PipelineState::Recording, Action::Cancel) => PipelineState::Idle,
        (PipelineState::Transcribing, Action::TranscriptionComplete) => PipelineState::Pasting,
        (PipelineState::Pasting, Action::PasteComplete) => PipelineState::Idle,
        (_, Action::Cancel) => PipelineState::Idle,
        _ => state,
    }
}

/// The lower-case name under which a state is reported to the front end.
pub open spec fn state_name_spec(state: PipelineState) -> Seq<char> {
    match state {
        PipelineState::Idle => "idle"@,
        PipelineState::Recording => "recording"@,
        PipelineState::Processing => "processing"@,
        PipelineState::Transcribing => "transcribing"@,
        PipelineState::Enhancing => "enhancing"@,
        PipelineState::Pasting => "pasting"@,
    }
}

/// The name under which a state is reported to the front end.
pub fn state_name(state: PipelineState) -> (r: &'static str)
    ensures
        r@ == state_name_spec(state),
{
    match state {
        PipelineState::Idle => "idle",
        PipelineState::Recording => "recording",
        PipelineState::Processing => "processing",
        PipelineState::Transcribing => "transcribing",
        PipelineState::Enhancing => "enhancing",
        PipelineState::Pasting => "pasting",
    }
}

/// The action that moves a state one step forward along the cycle, if any.
pub open spec fn forward_action(state: PipelineState) -> Option<Action> {
    match state {
        PipelineState::Idle => Some(Action::StartRecording),
        PipelineState::Recording => Some(Action::StopRecording),
        PipelineState::Processing => Some(Action::ProcessingComplete),
        PipelineState::Transcribing => Some(Action::TranscriptionComplete),
        PipelineState::Enhancing => None,
        PipelineState::Pasting => Some(Action::PasteComplete),
    }
}

/// Cancel returns to Idle from every state.
pub proof fn law_cancel_returns_to_idle(state: PipelineState)
    ensures
        next_state(state, Action::Cancel) == PipelineState::Idle,
{
}

/// An action other than Cancel and the state's forward action leaves the
/// state unchanged.
pub proof fn law_unexpected_action_ignored(state: PipelineState, action: Action)
    requires
        action != Action::Cancel,
        forward_action(state) != Some(action),
    ensures
        next_state(state, action) == state,
{
}

/// Every transition either stays put, steps forward along the cycle, or
/// returns to Idle; a state is left only by its forward action or Cancel.
pub proof fn law_transition_shape(state: PipelineState, action: Action)
    ensures
        next_state(state, action) == state
            || next_state(state, action) == PipelineState::Idle
            || forward_action(state) == Some(action),
        next_state(state, action) != state ==> (action == Action::Cancel || forward_action(state) == Some(action)),
{
}

} // verus!
