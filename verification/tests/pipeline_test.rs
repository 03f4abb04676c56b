use yumo_core::error::{AppError, AppResult};
use yumo_core::pipeline::{self, Action, PipelineState};
use yumo_core::text_processor;

#[test]
fn crate_independence_test_test_pipeline_state_transitions() {
    // Full pipeline cycle: Idle -> Recording -> Processing -> Transcribing -> Pasting -> Idle
    let s = PipelineState::Idle;
    let s = pipeline::transition(s, Action::StartRecording);
    assert_eq!(s, PipelineState::Recording);

    let s = pipeline::transition(s, Action::StopRecording);
    assert_eq!(s, PipelineState::Processing);

    let s = pipeline::transition(s, Action::ProcessingComplete);
    assert_eq!(s, PipelineState::Transcribing);

    let s = pipeline::transition(s, Action::TranscriptionComplete);
    assert_eq!(s, PipelineState::Pasting);

    let s = pipeline::transition(s, Action::PasteComplete);
    assert_eq!(s, PipelineState::Idle);
}

#[test]
fn test_pipeline_cancel_from_any_state() {
    for state in [
        PipelineState::Recording,
        PipelineState::Processing,
        PipelineState::Transcribing,
        PipelineState::Enhancing,
        PipelineState::Pasting,
    ] {
        let next = pipeline::transition(state, Action::Cancel);
        assert_eq!(next, PipelineState::Idle, "Cancel from {:?} should go to Idle", state);
    }
}

#[test]
fn test_app_result_type() {
    fn returns_ok() -> AppResult<i32> {
        Ok(42)
    }
    fn returns_err() -> AppResult<i32> {
        Err(AppError::InvalidInput("bad".into()))
    }

    assert_eq!(returns_ok().unwrap(), 42);
    assert!(returns_err().is_err());
}

#[test]
fn test_error_variants() {
    let variants: Vec<AppError> = vec![
        AppError::Database("db err".into()),
        AppError::Recording("rec err".into()),
        AppError::Transcription("tx err".into()),
        AppError::Network("net err".into()),
        AppError::Io("io err".into()),
        AppError::Permission("perm err".into()),
        AppError::NotFound("not found".into()),
        AppError::InvalidInput("invalid".into()),
    ];
    for err in &variants {
        // All variants should produce non-empty Display output
        assert!(!err.to_string().is_empty());
    }
}

#[test]
fn test_text_processor_capitalize_sentences() {
    assert_eq!(
        text_processor::capitalize_sentences("hello. world. test"),
        "Hello. World. Test"
    );
    assert_eq!(text_processor::capitalize_sentences(""), "");
    assert_eq!(
        text_processor::capitalize_sentences("already Capital"),
        "Already Capital"
    );
}

#[test]
fn platform_integration_test_test_pipeline_state_transitions() {
    let state = PipelineState::Idle;
    let state = pipeline::transition(state, Action::StartRecording);
    assert!(matches!(state, PipelineState::Recording));
}

#[test]
fn pipeline_unexpected_actions_keep_state() {
    assert_eq!(pipeline::transition(PipelineState::Idle, Action::StopRecording), PipelineState::Idle);
    assert_eq!(pipeline::transition(PipelineState::Recording, Action::PasteComplete), PipelineState::Recording);
    assert_eq!(pipeline::transition(PipelineState::Enhancing, Action::TranscriptionComplete), PipelineState::Enhancing);
    assert_eq!(pipeline::transition(PipelineState::Idle, Action::Cancel), PipelineState::Idle);
}

#[test]
fn pipeline_state_names() {
    assert_eq!(pipeline::state_name(PipelineState::Idle), "idle");
    assert_eq!(pipeline::state_name(PipelineState::Recording), "recording");
    assert_eq!(pipeline::state_name(PipelineState::Processing), "processing");
    assert_eq!(pipeline::state_name(PipelineState::Transcribing), "transcribing");
    assert_eq!(pipeline::state_name(PipelineState::Enhancing), "enhancing");
    assert_eq!(pipeline::state_name(PipelineState::Pasting), "pasting");
}

#[test]
fn error_messages_carry_label_and_detail() {
    assert_eq!(AppError::InvalidInput("test".into()).to_string(), "Invalid input: test");
    assert_eq!(AppError::Io("disk".into()).to_string(), "IO error: disk");
    assert_eq!(AppError::Recording("x".into()).detail(), "x");
}
