use omnidisc::voice_state::{VoiceEvent, VoiceState, VoiceStateMachine, MAX_RETRIES};

#[test]
fn happy_path() {
    let mut m = VoiceStateMachine::default();
    assert_eq!(m.apply(&VoiceEvent::Join), VoiceState::Connecting);
    assert_eq!(m.apply(&VoiceEvent::Connected), VoiceState::Connected);
    assert_eq!(m.apply(&VoiceEvent::Leave), VoiceState::Idle);
}

#[test]
fn gives_up_after_max_retries() {
    let mut m = VoiceStateMachine::default();
    m.apply(&VoiceEvent::Join);
    m.apply(&VoiceEvent::Connected);
    for _ in 0..MAX_RETRIES {
        assert_eq!(
            m.apply(&VoiceEvent::Disconnected { recoverable: true }),
            VoiceState::Reconnecting
        );
    }
    assert_eq!(
        m.apply(&VoiceEvent::Disconnected { recoverable: true }),
        VoiceState::Failed
    );
    assert_eq!(m.apply(&VoiceEvent::Join), VoiceState::Connecting);
}

#[test]
fn leave_always_returns_to_idle() {
    let mut m = VoiceStateMachine::default();
    m.apply(&VoiceEvent::Join);
    m.apply(&VoiceEvent::Disconnected { recoverable: true });
    assert_eq!(m.apply(&VoiceEvent::Leave), VoiceState::Idle);
}

#[test]
fn failed_stays_failed_until_join_or_leave() {
    let mut m = VoiceStateMachine::default();
    m.apply(&VoiceEvent::Join);
    assert_eq!(
        m.apply(&VoiceEvent::Disconnected { recoverable: false }),
        VoiceState::Failed
    );
    assert_eq!(m.apply(&VoiceEvent::Connected), VoiceState::Failed);
    assert_eq!(m.state(), VoiceState::Failed);
    assert_eq!(m.apply(&VoiceEvent::Leave), VoiceState::Idle);
}
