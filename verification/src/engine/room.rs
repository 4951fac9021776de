//! What the voice engine does with each event of the media room: which
//! notifications it sends, which remote tracks it starts and stops, what it
//! tells the connection state machine, and who is speaking.

use vstd::prelude::*;
use crate::engine::Quality;
use crate::voice_state::VoiceEvent;
use crate::livechat::{str_eq, strings_view};
use crate::text::copy_string;

verus! {

/// Whether `x` is among `v`.
pub fn contains_str(v: &[String], x: &str) -> (r: bool)
    ensures
        r == strings_view(v@).contains(x@),
{
    let mut i: usize = 0;
    while i < v.len()
        invariant
            0 <= i <= v@.len(),
            forall|k: int| 0 <= k < i ==> strings_view(v@)[k] != x@,
        decreases v@.len() - i,
    {
        if str_eq(v[i].as_str(), x) {
            assert(strings_view(v@)[i as int] == x@);
            return true;
        }
        i = i + 1;
    }
    proof {
        if strings_view(v@).contains(x@) {
            let k = choose|k: int| 0 <= k < strings_view(v@).len() && strings_view(v@)[k] == x@;
            assert(strings_view(v@)[k] != x@);
        }
    }
    false
}

/// The ids of `now` that are not `local`, each once, in the order they
/// first come.
pub open spec fn distinct_others(now: Seq<Seq<char>>, local: Seq<char>) -> Seq<Seq<char>>
    decreases now.len(),
{
    if now.len() == 0 {
        Seq::empty()
    } else {
        let r = distinct_others(now.drop_last(), local);
        let x = now.last();
        if x == local || r.contains(x) {
            r
        } else {
            r.push(x)
        }
    }
}

/// The ids of `a` that are not among `b`, in order.
pub open spec fn minus(a: Seq<Seq<char>>, b: Seq<Seq<char>>) -> Seq<Seq<char>>
    decreases a.len(),
{
    if a.len() == 0 {
        Seq::empty()
    } else {
        let r = minus(a.drop_last(), b);
        if b.contains(a.last()) {
            r
        } else {
            r.push(a.last())
        }
    }
}

/// The ids of `now` that are not `local`, each once.
pub fn others_speaking(now: &[String], local: &str) -> (r: Vec<String>)
    ensures
        strings_view(r@) == distinct_others(strings_view(now@), local@),
{
    let ghost n = strings_view(now@);
    let mut out: Vec<String> = Vec::new();
    let mut i: usize = 0;
    assert(n.take(0) =~= Seq::<Seq<char>>::empty());
    while i < now.len()
        invariant
            0 <= i <= now@.len(),
            n == strings_view(now@),
            strings_view(out@) == distinct_others(n.take(i as int), local@),
        decreases now@.len() - i,
    {
        assert(n.take(i + 1).drop_last() =~= n.take(i as int));
        assert(n.take(i + 1).last() == now@[i as int]@);
        let id = now[i].as_str();
        if !str_eq(id, local) && !contains_str(out.as_slice(), id) {
            let ghost before = strings_view(out@);
            out.push(copy_string(now[i].as_str()));
            assert(strings_view(out@) =~= before.push(now@[i as int]@));
        }
        i = i + 1;
    }
    assert(n.take(now@.len() as int) =~= n);
    out
}

/// The ids of `a` that are not among `b`.
pub fn ids_minus(a: &[String], b: &[String]) -> (r: Vec<String>)
    ensures
        strings_view(r@) == minus(strings_view(a@), strings_view(b@)),
{
    let ghost av = strings_view(a@);
    let mut out: Vec<String> = Vec::new();
    let mut i: usize = 0;
    assert(av.take(0) =~= Seq::<Seq<char>>::empty());
    while i < a.len()
        invariant
            0 <= i <= a@.len(),
            av == strings_view(a@),
            strings_view(out@) == minus(av.take(i as int), strings_view(b@)),
        decreases a@.len() - i,
    {
        assert(av.take(i + 1).drop_last() =~= av.take(i as int));
        assert(av.take(i + 1).last() == a@[i as int]@);
        if !contains_str(b, a[i].as_str()) {
            let ghost before = strings_view(out@);
            out.push(copy_string(a[i].as_str()));
            assert(strings_view(out@) =~= before.push(a@[i as int]@));
        }
        i = i + 1;
    }
    assert(av.take(a@.len() as int) =~= av);
    out
}

/// What a track carries.
#[derive(Clone, Copy, PartialEq, Eq, Structural, Debug)]
pub enum TrackKind {
    Audio,
    Video,
}

/// Where a track comes from.
#[derive(Clone, Copy, PartialEq, Eq, Structural, Debug)]
pub enum TrackSource {
    Unknown,
    Camera,
    Microphone,
    Screenshare,
    ScreenshareAudio,
}

/// An event of the media room, by the ids of what it concerns.
#[derive(Debug)]
pub enum RoomEvent {
    ParticipantConnected { user_id: String },
    ParticipantDisconnected { user_id: String },
    TrackPublished { kind: TrackKind, source: TrackSource, user_id: String },
    TrackUnpublished { kind: TrackKind, source: TrackSource, user_id: String },
    TrackSubscribed { kind: TrackKind, source: TrackSource, sid: String, user_id: String },
    TrackUnsubscribed { kind: TrackKind, sid: String, user_id: String },
    ActiveSpeakersChanged { speakers: Vec<String> },
    ConnectionQualityChanged { user_id: String, quality: Quality },
    Reconnecting,
    Reconnected,
    /// The room closed: `reason` names why, `None` where this client left.
    Disconnected { reason: Option<String> },
    Other,
}

/// What the engine does for a room event: a notification (speaking,
/// joined, left, quality, stream, error), a step of the connection state
/// machine, or work on the remote tracks; `S` is the text of an id.
#[derive(Clone, Debug, PartialEq, Eq)]
pub enum RoomAction<S> {
    Speaking { user_id: S, speaking: bool },
    Joined { user_id: S },
    Left { user_id: S },
    Quality { user_id: S, quality: Quality },
    Stream { user_id: S, active: bool },
    Error { code: S, message: S },
    Transport(VoiceEvent),
    SubscribeAudio,
    KeepPublication { user_id: S },
    DropPublication { user_id: S },
    KeepRemoteVideo { user_id: S, sid: S },
    DropRemoteVideo { user_id: S },
    StartRemoteAudio { sid: S, user_id: S, gain_key: S },
    StopRemoteAudio { sid: S },
    Stop,
}

impl View for RoomAction<String> {
    type V = RoomAction<Seq<char>>;

    open spec fn view(&self) -> RoomAction<Seq<char>> {
        match *self {
            RoomAction::Speaking { user_id, speaking } => RoomAction::Speaking {
                user_id: user_id@,
                speaking,
            },
            RoomAction::Joined { user_id } => RoomAction::Joined { user_id: user_id@ },
            RoomAction::Left { user_id } => RoomAction::Left { user_id: user_id@ },
            RoomAction::Quality { user_id, quality } => RoomAction::Quality {
                user_id: user_id@,
                quality,
            },
            RoomAction::Stream { user_id, active } => RoomAction::Stream {
                user_id: user_id@,
                active,
            },
            RoomAction::Error { code, message } => RoomAction::Error {
                code: code@,
                message: message@,
            },
            RoomAction::Transport(e) => RoomAction::Transport(e),
            RoomAction::SubscribeAudio => RoomAction::SubscribeAudio,
            RoomAction::KeepPublication { user_id } => RoomAction::KeepPublication {
                user_id: user_id@,
            },
            RoomAction::DropPublication { user_id } => RoomAction::DropPublication {
                user_id: user_id@,
            },
            RoomAction::KeepRemoteVideo { user_id, sid } => RoomAction::KeepRemoteVideo {
                user_id: user_id@,
                sid: sid@,
            },
            RoomAction::DropRemoteVideo { user_id } => RoomAction::DropRemoteVideo {
                user_id: user_id@,
            },
            RoomAction::StartRemoteAudio { sid, user_id, gain_key } => RoomAction::StartRemoteAudio {
                sid: sid@,
                user_id: user_id@,
                gain_key: gain_key@,
            },
            RoomAction::StopRemoteAudio { sid } => RoomAction::StopRemoteAudio { sid: sid@ },
            RoomAction::Stop => RoomAction::Stop,
        }
    }
}

pub open spec fn actions_view(v: Seq<RoomAction<String>>) -> Seq<RoomAction<Seq<char>>> {
    Seq::new(v.len(), |i: int| v[i]@)
}

/// The suffix that tells a user's screen-share audio from their voice in
/// the per-user gains.
pub const SCREEN_AUDIO_SUFFIX: &'static str = "#screen";

/// A speaking notification for each of `ids`.
pub open spec fn speaking_all(ids: Seq<Seq<char>>, speaking: bool) -> Seq<RoomAction<Seq<char>>> {
    Seq::new(ids.len(), |i: int| RoomAction::Speaking { user_id: ids[i], speaking })
}

/// The speakers after a room event and what the engine does for it, given
/// the speakers before and the local participant's id.
pub open spec fn room_step(speakers: Seq<Seq<char>>, ev: RoomEvent, local: Seq<char>) -> (
    Seq<Seq<char>>,
    Seq<RoomAction<Seq<char>>>,
) {
    match ev {
        RoomEvent::ParticipantConnected { user_id } => (
            speakers,
            seq![RoomAction::Joined { user_id: user_id@ }],
        ),
        RoomEvent::ParticipantDisconnected { user_id } => if speakers.contains(user_id@) {
            (
                minus(speakers, seq![user_id@]),
                seq![
                    RoomAction::Speaking { user_id: user_id@, speaking: false },
                    RoomAction::Left { user_id: user_id@ },
                ],
            )
        } else {
            (speakers, seq![RoomAction::Left { user_id: user_id@ }])
        },
        RoomEvent::TrackPublished { kind, source, user_id } => if kind == TrackKind::Video {
            if source == TrackSource::Screenshare {
                (
                    speakers,
                    seq![
                        RoomAction::KeepPublication { user_id: user_id@ },
                        RoomAction::Stream { user_id: user_id@, active: true },
                    ],
                )
            } else {
                (speakers, Seq::empty())
            }
        } else {
            (speakers, seq![RoomAction::SubscribeAudio])
        },
        RoomEvent::TrackUnpublished { kind, source, user_id } => if kind == TrackKind::Video
            && source == TrackSource::Screenshare {
            (
                speakers,
                seq![
                    RoomAction::DropPublication { user_id: user_id@ },
                    RoomAction::DropRemoteVideo { user_id: user_id@ },
                    RoomAction::Stream { user_id: user_id@, active: false },
                ],
            )
        } else {
            (speakers, Seq::empty())
        },
        RoomEvent::TrackSubscribed { kind, source, sid, user_id } => if kind == TrackKind::Audio {
            let gain_key = if source == TrackSource::ScreenshareAudio {
                user_id@ + SCREEN_AUDIO_SUFFIX@
            } else {
                user_id@
            };
            (
                speakers,
                seq![RoomAction::StartRemoteAudio { sid: sid@, user_id: user_id@, gain_key }],
            )
        } else {
            (speakers, seq![RoomAction::KeepRemoteVideo { user_id: user_id@, sid: sid@ }])
        },
        RoomEvent::TrackUnsubscribed { kind, sid, user_id } => if kind == TrackKind::Audio {
            (speakers, seq![RoomAction::StopRemoteAudio { sid: sid@ }])
        } else {
            (speakers, seq![RoomAction::DropRemoteVideo { user_id: user_id@ }])
        },
        RoomEvent::ActiveSpeakersChanged { speakers: now } => {
            let next = distinct_others(strings_view(now@), local);
            (
                next,
                speaking_all(minus(speakers, next), false) + speaking_all(minus(next, speakers), true),
            )
        },
        RoomEvent::ConnectionQualityChanged { user_id, quality } => (
            speakers,
            seq![RoomAction::Quality { user_id: user_id@, quality }],
        ),
        RoomEvent::Reconnecting => (
            speakers,
            seq![RoomAction::Transport(VoiceEvent::Disconnected { recoverable: true })],
        ),
        RoomEvent::Reconnected => (speakers, seq![RoomAction::Transport(VoiceEvent::Reconnected)]),
        RoomEvent::Disconnected { reason } => match reason {
            Some(why) => (
                speakers,
                seq![
                    RoomAction::Error { code: "ERR_VOICE_DISCONNECTED"@, message: why@ },
                    RoomAction::Transport(VoiceEvent::Disconnected { recoverable: false }),
                    RoomAction::Stop,
                ],
            ),
            None => (speakers, seq![RoomAction::Stop]),
        },
        RoomEvent::Other => (speakers, Seq::empty()),
    }
}

fn push_speaking(out: &mut Vec<RoomAction<String>>, ids: &[String], speaking: bool)
    ensures
        actions_view(final(out)@) == actions_view(old(out)@) + speaking_all(
            strings_view(ids@),
            speaking,
        ),
{
    let ghost start = actions_view(out@);
    let mut i: usize = 0;
    while i < ids.len()
        invariant
            0 <= i <= ids@.len(),
            actions_view(out@) == start + speaking_all(strings_view(ids@).take(i as int), speaking),
        decreases ids@.len() - i,
    {
        let ghost before = actions_view(out@);
        out.push(RoomAction::Speaking { user_id: copy_string(ids[i].as_str()), speaking });
        assert(speaking_all(strings_view(ids@).take(i + 1), speaking) =~= speaking_all(
            strings_view(ids@).take(i as int),
            speaking,
        ).push(RoomAction::Speaking { user_id: ids@[i as int]@, speaking }));
        assert(actions_view(out@) =~= before.push(RoomAction::Speaking { user_id: ids@[i as int]@, speaking }));
        i = i + 1;
    }
    assert(strings_view(ids@).take(ids@.len() as int) =~= strings_view(ids@));
}

/// Handles one room event: updates who is speaking and gives what the
/// engine does for the event, in order.
#[verifier::rlimit(40)]
pub fn on_room_event(speakers: &mut Vec<String>, ev: &RoomEvent, local: &str) -> (r: Vec<
    RoomAction<String>,
>)
    ensures
        (strings_view(final(speakers)@), actions_view(r@)) == room_step(
            strings_view(old(speakers)@),
            *ev,
            local@,
        ),
{
    let mut out: Vec<RoomAction<String>> = Vec::new();
    match ev {
        RoomEvent::ParticipantConnected { user_id } => {
            out.push(RoomAction::Joined { user_id: copy_string(user_id.as_str()) });
        },
        RoomEvent::ParticipantDisconnected { user_id } => {
            if contains_str(speakers.as_slice(), user_id.as_str()) {
                let gone = vec![copy_string(user_id.as_str())];
                assert(strings_view(gone@) =~= seq![user_id@]);
                let rest = ids_minus(speakers.as_slice(), gone.as_slice());
                *speakers = rest;
                out.push(RoomAction::Speaking { user_id: copy_string(user_id.as_str()), speaking: false });
            }
            out.push(RoomAction::Left { user_id: copy_string(user_id.as_str()) });
        },
        RoomEvent::TrackPublished { kind, source, user_id } => {
            if *kind == TrackKind::Video {
                if *source == TrackSource::Screenshare {
                    out.push(RoomAction::KeepPublication { user_id: copy_string(user_id.as_str()) });
                    out.push(RoomAction::Stream { user_id: copy_string(user_id.as_str()), active: true });
                }
            } else {
                out.push(RoomAction::SubscribeAudio);
            }
        },
        RoomEvent::TrackUnpublished { kind, source, user_id } => {
            if *kind == TrackKind::Video && *source == TrackSource::Screenshare {
                out.push(RoomAction::DropPublication { user_id: copy_string(user_id.as_str()) });
                out.push(RoomAction::DropRemoteVideo { user_id: copy_string(user_id.as_str()) });
                out.push(RoomAction::Stream { user_id: copy_string(user_id.as_str()), active: false });
            }
        },
        RoomEvent::TrackSubscribed { kind, source, sid, user_id } => {
            if *kind == TrackKind::Audio {
                let gain_key = if *source == TrackSource::ScreenshareAudio {
                    crate::text::concat_str(user_id.as_str(), SCREEN_AUDIO_SUFFIX)
                } else {
                    copy_string(user_id.as_str())
                };
                out.push(
                    RoomAction::StartRemoteAudio {
                        sid: copy_string(sid.as_str()),
                        user_id: copy_string(user_id.as_str()),
                        gain_key,
                    },
                );
            } else {
                out.push(
                    RoomAction::KeepRemoteVideo { user_id: copy_string(user_id.as_str()), sid: copy_string(sid.as_str()) },
                );
            }
        },
        RoomEvent::TrackUnsubscribed { kind, sid, user_id } => {
            if *kind == TrackKind::Audio {
                out.push(RoomAction::StopRemoteAudio { sid: copy_string(sid.as_str()) });
            } else {
                out.push(RoomAction::DropRemoteVideo { user_id: copy_string(user_id.as_str()) });
            }
        },
        RoomEvent::ActiveSpeakersChanged { speakers: now } => {
            let next = others_speaking(now.as_slice(), local);
            let stopped = ids_minus(speakers.as_slice(), next.as_slice());
            let started = ids_minus(next.as_slice(), speakers.as_slice());
            push_speaking(&mut out, stopped.as_slice(), false);
            push_speaking(&mut out, started.as_slice(), true);
            *speakers = next;
        },
        RoomEvent::ConnectionQualityChanged { user_id, quality } => {
            out.push(RoomAction::Quality { user_id: copy_string(user_id.as_str()), quality: *quality });
        },
        RoomEvent::Reconnecting => {
            out.push(RoomAction::Transport(VoiceEvent::Disconnected { recoverable: true }));
        },
        RoomEvent::Reconnected => {
            out.push(RoomAction::Transport(VoiceEvent::Reconnected));
        },
        RoomEvent::Disconnected { reason } => {
            if let Some(why) = reason {
                out.push(
                    RoomAction::Error {
                        code: "ERR_VOICE_DISCONNECTED".to_string(),
                        message: copy_string(why.as_str()),
                    },
                );
                out.push(RoomAction::Transport(VoiceEvent::Disconnected { recoverable: false }));
            }
            out.push(RoomAction::Stop);
        },
        RoomEvent::Other => {},
    }
    assert(actions_view(out@) =~= room_step(strings_view(old(speakers)@), *ev, local@).1);
    out
}

/// An id is in `minus(a, b)` exactly when it is in `a` and not in `b`.
pub proof fn lemma_minus_contains(a: Seq<Seq<char>>, b: Seq<Seq<char>>, x: Seq<char>)
    ensures
        minus(a, b).contains(x) <==> (a.contains(x) && !b.contains(x)),
    decreases a.len(),
{
    if a.len() > 0 {
        lemma_minus_contains(a.drop_last(), b, x);
        let r = minus(a.drop_last(), b);
        let y = a.last();
        let m = minus(a, b);
        assert(m == if b.contains(y) {
            r
        } else {
            r.push(y)
        });
        if a.contains(x) && !b.contains(x) {
            let k = choose|k: int| 0 <= k < a.len() && a[k] == x;
            if k < a.len() - 1 {
                assert(a.drop_last()[k] == x);
                assert(r.contains(x));
                let j = choose|j: int| 0 <= j < r.len() && r[j] == x;
                if !b.contains(y) {
                    assert(r.push(y)[j] == x);
                }
                assert(m.contains(x));
            } else {
                assert(x == y);
                assert(r.push(y)[r.len() as int] == x);
                assert(m.contains(x));
            }
        }
        if m.contains(x) {
            let k = choose|k: int| 0 <= k < m.len() && m[k] == x;
            if !b.contains(y) && k == r.len() {
                assert(x == y);
                assert(a[a.len() - 1] == x);
            } else {
                assert(r[k] == x);
                assert(r.contains(x));
                let j = choose|j: int| 0 <= j < a.drop_last().len() && a.drop_last()[j] == x;
                assert(a[j] == x);
            }
        }
    }
}

/// An id is among the others speaking exactly when it is in `now` and is not
/// the local participant.
pub proof fn lemma_distinct_others_contains(now: Seq<Seq<char>>, local: Seq<char>, x: Seq<char>)
    ensures
        distinct_others(now, local).contains(x) <==> (now.contains(x) && x != local),
    decreases now.len(),
{
    if now.len() > 0 {
        lemma_distinct_others_contains(now.drop_last(), local, x);
        let r = distinct_others(now.drop_last(), local);
        let y = now.last();
        if now.contains(x) && x != local {
            let k = choose|k: int| 0 <= k < now.len() && now[k] == x;
            if k < now.len() - 1 {
                assert(now.drop_last()[k] == x);
                assert(r.contains(x));
                if !(y == local || r.contains(y)) {
                    let j = choose|j: int| 0 <= j < r.len() && r[j] == x;
                    assert(r.push(y)[j] == x);
                }
            } else {
                assert(x == y);
                if !r.contains(y) {
                    assert(r.push(y)[r.len() as int] == x);
                }
            }
        }
        if distinct_others(now, local).contains(x) {
            let d = distinct_others(now, local);
            let k = choose|k: int| 0 <= k < d.len() && d[k] == x;
            if k < r.len() {
                assert(r[k] == x);
                let j = choose|j: int| 0 <= j < now.drop_last().len() && now.drop_last()[j] == x;
                assert(now[j] == x);
            } else {
                assert(x == y);
                assert(now[now.len() - 1] == x);
            }
        }
    }
}

/// After a change of active speakers, the speaking notifications take the
/// speakers known before to the new ones: a participant is speaking
/// afterwards exactly when they were and were not reported stopped, or were
/// reported started; the local participant is never among them.
pub proof fn lemma_speaker_notices(speakers: Seq<Seq<char>>, now: Seq<Seq<char>>, local: Seq<char>, x: Seq<char>)
    ensures
        ({
            let next = distinct_others(now, local);
            &&& next.contains(x) <==> ((speakers.contains(x) && !minus(speakers, next).contains(x))
                || minus(next, speakers).contains(x))
            &&& !next.contains(local)
        }),
{
    let next = distinct_others(now, local);
    lemma_minus_contains(speakers, next, x);
    lemma_minus_contains(next, speakers, x);
    lemma_distinct_others_contains(now, local, local);
}

/// A subscribed audio track is played under its owner's volume: the user's
/// own id for a microphone or any source but screen-share audio, and the id
/// followed by `#screen` for screen-share audio, so a user's voice and the
/// audio of their screen share never share a volume key. The speaking set
/// stays as it was, and the track is started for its sid and owner.
pub proof fn lemma_audio_gain_key(
    speakers: Seq<Seq<char>>,
    source: TrackSource,
    sid: String,
    user_id: String,
    local: Seq<char>,
)
    ensures
        ({
            let (next, actions) = room_step(
                speakers,
                RoomEvent::TrackSubscribed { kind: TrackKind::Audio, source, sid, user_id },
                local,
            );
            &&& next == speakers
            &&& actions.len() == 1
            &&& actions[0] matches RoomAction::StartRemoteAudio { sid: s, user_id: u, gain_key: g }
                && s == sid@ && u == user_id@ && (source != TrackSource::ScreenshareAudio ==> g == user_id@)
                && (source == TrackSource::ScreenshareAudio ==> g == user_id@ + "#screen"@ && g != user_id@)
        }),
{
    reveal_strlit("#screen");
    if source == TrackSource::ScreenshareAudio {
        let g = user_id@ + SCREEN_AUDIO_SUFFIX@;
        assert(SCREEN_AUDIO_SUFFIX@ == "#screen"@);
        assert(g.len() == user_id@.len() + 7);
    }
}

/// A participant who leaves is announced as left, last; where they were
/// speaking they are first announced as no longer speaking, and they are no
/// longer among the speakers; everyone else keeps their place.
pub proof fn lemma_participant_leaves(speakers: Seq<Seq<char>>, user_id: String, local: Seq<char>, other: Seq<char>)
    ensures
        ({
            let (next, actions) = room_step(
                speakers,
                RoomEvent::ParticipantDisconnected { user_id },
                local,
            );
            &&& actions.len() >= 1
            &&& actions.last() == RoomAction::Left { user_id: user_id@ }
            &&& !next.contains(user_id@)
            &&& (other != user_id@ ==> (next.contains(other) <==> speakers.contains(other)))
            &&& (speakers.contains(user_id@) <==> actions.len() == 2)
            &&& (speakers.contains(user_id@) ==> actions[0] == RoomAction::Speaking::<Seq<char>> {
                user_id: user_id@,
                speaking: false,
            })
        }),
{
    let x = user_id@;
    lemma_minus_contains(speakers, seq![x], x);
    lemma_minus_contains(speakers, seq![x], other);
    assert(seq![x].contains(x)) by {
        assert(seq![x][0] == x);
    }
    if other != x {
        assert(!seq![x].contains(other));
    }
}

/// A participant's screen share shows up when its video is published
/// (the publication kept, the stream announced active) and goes away when
/// it is unpublished (publication and remote video dropped, the stream
/// announced inactive); a track that is unsubscribed is stopped by its sid
/// (audio) or by its owner (video). None of these changes the speakers.
pub proof fn lemma_screen_share_tracks(
    speakers: Seq<Seq<char>>,
    kind: TrackKind,
    sid: String,
    user_id: String,
    local: Seq<char>,
)
    ensures
        room_step(
            speakers,
            RoomEvent::TrackPublished { kind: TrackKind::Video, source: TrackSource::Screenshare, user_id },
            local,
        ) == (
            speakers,
            seq![
                RoomAction::KeepPublication { user_id: user_id@ },
                RoomAction::Stream { user_id: user_id@, active: true },
            ],
        ),
        room_step(
            speakers,
            RoomEvent::TrackUnpublished { kind: TrackKind::Video, source: TrackSource::Screenshare, user_id },
            local,
        ) == (
            speakers,
            seq![
                RoomAction::DropPublication { user_id: user_id@ },
                RoomAction::DropRemoteVideo { user_id: user_id@ },
                RoomAction::Stream { user_id: user_id@, active: false },
            ],
        ),
        room_step(speakers, RoomEvent::TrackUnsubscribed { kind, sid, user_id }, local) == (
            speakers,
            if kind == TrackKind::Audio {
                seq![RoomAction::StopRemoteAudio { sid: sid@ }]
            } else {
                seq![RoomAction::DropRemoteVideo { user_id: user_id@ }]
            },
        ),
{
}

/// The transport's events reach the connection state machine: a
/// reconnecting room is a recoverable drop, a reconnected room reconnects;
/// a room that closes stops the engine (as its last action), and where a
/// reason is given it is first reported as `ERR_VOICE_DISCONNECTED` and
/// the connection fails without retries.
pub proof fn lemma_transport_events(speakers: Seq<Seq<char>>, reason: Option<String>, local: Seq<char>)
    ensures
        room_step(speakers, RoomEvent::Reconnecting, local).1 == seq![
            RoomAction::<Seq<char>>::Transport(VoiceEvent::Disconnected { recoverable: true }),
        ],
        room_step(speakers, RoomEvent::Reconnected, local).1 == seq![
            RoomAction::<Seq<char>>::Transport(VoiceEvent::Reconnected),
        ],
        ({
            let (next, actions) = room_step(speakers, RoomEvent::Disconnected { reason }, local);
            &&& next == speakers
            &&& actions.len() >= 1
            &&& actions.last() == RoomAction::<Seq<char>>::Stop
            &&& (reason is None ==> actions.len() == 1)
            &&& (reason matches Some(why) ==> actions.len() == 3 && actions[0] == RoomAction::Error {
                code: "ERR_VOICE_DISCONNECTED"@,
                message: why@,
            } && actions[1] == RoomAction::<Seq<char>>::Transport(
                VoiceEvent::Disconnected { recoverable: false },
            ))
        }),
{
}

} // verus!
