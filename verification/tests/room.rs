use omnidisc::engine::room::{on_room_event, RoomAction, RoomEvent, TrackKind, TrackSource};
use omnidisc::engine::Quality;
use omnidisc::voice_state::VoiceEvent;

fn s(x: &str) -> String {
    x.to_string()
}

fn speaking(id: &str, on: bool) -> RoomAction<String> {
    RoomAction::Speaking { user_id: s(id), speaking: on }
}

#[test]
fn speaker_changes_are_reported_once_and_never_for_ourselves() {
    let mut speakers: Vec<String> = Vec::new();
    let ev = RoomEvent::ActiveSpeakersChanged { speakers: vec![s("me"), s("a"), s("b"), s("a")] };
    let out = on_room_event(&mut speakers, &ev, "me");
    assert_eq!(out, vec![speaking("a", true), speaking("b", true)]);
    assert_eq!(speakers, vec![s("a"), s("b")]);

    let ev = RoomEvent::ActiveSpeakersChanged { speakers: vec![s("b"), s("c")] };
    let out = on_room_event(&mut speakers, &ev, "me");
    assert_eq!(out, vec![speaking("a", false), speaking("c", true)]);
    assert_eq!(speakers, vec![s("b"), s("c")]);

    let out = on_room_event(&mut speakers, &RoomEvent::ParticipantDisconnected { user_id: s("c") }, "me");
    assert_eq!(out, vec![speaking("c", false), RoomAction::Left { user_id: s("c") }]);
    assert_eq!(speakers, vec![s("b")]);

    let out = on_room_event(&mut speakers, &RoomEvent::ParticipantDisconnected { user_id: s("z") }, "me");
    assert_eq!(out, vec![RoomAction::Left { user_id: s("z") }]);
    assert_eq!(speakers, vec![s("b")]);
}

#[test]
fn screen_shares_and_tracks() {
    let mut speakers = Vec::new();
    let published = RoomEvent::TrackPublished {
        kind: TrackKind::Video,
        source: TrackSource::Screenshare,
        user_id: s("u"),
    };
    assert_eq!(
        on_room_event(&mut speakers, &published, "me"),
        vec![
            RoomAction::KeepPublication { user_id: s("u") },
            RoomAction::Stream { user_id: s("u"), active: true },
        ]
    );
    let camera = RoomEvent::TrackPublished { kind: TrackKind::Video, source: TrackSource::Camera, user_id: s("u") };
    assert!(on_room_event(&mut speakers, &camera, "me").is_empty());
    let mic = RoomEvent::TrackPublished { kind: TrackKind::Audio, source: TrackSource::Microphone, user_id: s("u") };
    assert_eq!(on_room_event(&mut speakers, &mic, "me"), vec![RoomAction::SubscribeAudio]);
    let screen_audio = RoomEvent::TrackSubscribed {
        kind: TrackKind::Audio,
        source: TrackSource::ScreenshareAudio,
        sid: s("TR_1"),
        user_id: s("u"),
    };
    assert_eq!(
        on_room_event(&mut speakers, &screen_audio, "me"),
        vec![RoomAction::StartRemoteAudio { sid: s("TR_1"), user_id: s("u"), gain_key: s("u#screen") }]
    );
    let unpublished = RoomEvent::TrackUnpublished {
        kind: TrackKind::Video,
        source: TrackSource::Screenshare,
        user_id: s("u"),
    };
    assert_eq!(
        on_room_event(&mut speakers, &unpublished, "me"),
        vec![
            RoomAction::DropPublication { user_id: s("u") },
            RoomAction::DropRemoteVideo { user_id: s("u") },
            RoomAction::Stream { user_id: s("u"), active: false },
        ]
    );
    let gone = RoomEvent::TrackUnsubscribed { kind: TrackKind::Audio, sid: s("TR_1"), user_id: s("u") };
    assert_eq!(on_room_event(&mut speakers, &gone, "me"), vec![RoomAction::StopRemoteAudio { sid: s("TR_1") }]);
}

#[test]
fn connection_events() {
    let mut speakers = vec![s("a")];
    assert_eq!(
        on_room_event(&mut speakers, &RoomEvent::Reconnecting, "me"),
        vec![RoomAction::Transport(VoiceEvent::Disconnected { recoverable: true })]
    );
    assert_eq!(
        on_room_event(&mut speakers, &RoomEvent::Disconnected { reason: Some(s("ServerShutdown")) }, "me"),
        vec![
            RoomAction::Error { code: s("ERR_VOICE_DISCONNECTED"), message: s("ServerShutdown") },
            RoomAction::Transport(VoiceEvent::Disconnected { recoverable: false }),
            RoomAction::Stop,
        ]
    );
    assert_eq!(
        on_room_event(&mut speakers, &RoomEvent::Disconnected { reason: None }, "me"),
        vec![RoomAction::Stop]
    );
    assert_eq!(
        on_room_event(&mut speakers, &RoomEvent::ConnectionQualityChanged { user_id: s("a"), quality: Quality::Poor }, "me"),
        vec![RoomAction::Quality { user_id: s("a"), quality: Quality::Poor }]
    );
    assert_eq!(speakers, vec![s("a")]);
}
