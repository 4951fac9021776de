use omnidisc::audio::pipeline::{outgoing_frame, tick, TickInput, TickState, FRAME_SAMPLES};

fn input(got: bool, silent: bool, loud: bool, transmitting: bool) -> TickInput {
    TickInput { got, tone: false, silent, above_threshold: loud, transmitting, monitor: true }
}

#[test]
fn speaking_starts_on_loud_input_hangs_over_and_stops_when_gated() {
    let mut s = TickState::new();
    let (n, ev) = tick(s, input(true, false, true, true));
    assert_eq!(ev.speaking, Some(true));
    s = n;
    for k in 1..30 {
        let (n, ev) = tick(s, input(true, false, false, true));
        assert_eq!(ev.speaking, None, "tick {k}");
        assert!(n.speaking);
        s = n;
    }
    let (n, ev) = tick(s, input(true, false, false, true));
    assert_eq!(ev.speaking, Some(false));
    assert!(!n.speaking);

    let (n, _) = tick(TickState::new(), input(true, false, true, true));
    let (n, ev) = tick(n, input(true, false, true, false));
    assert_eq!(ev.speaking, Some(false));
    assert!(!n.speaking);
}

#[test]
fn an_underrun_is_reported_once_at_fifty_empty_ticks() {
    let mut s = TickState::new();
    let mut reported = Vec::new();
    for k in 1..=120u32 {
        let (n, ev) = tick(s, input(false, false, false, true));
        if ev.underrun {
            reported.push(k);
        }
        s = n;
    }
    assert_eq!(reported, vec![50]);
    let (n, _) = tick(s, input(true, false, false, true));
    assert_eq!(n.underruns, 0);
}

#[test]
fn all_zero_input_warns_once_after_two_hundred_ticks() {
    let mut s = TickState::new();
    let mut warned = Vec::new();
    for k in 1..=450u32 {
        let (n, ev) = tick(s, input(true, true, false, true));
        if ev.silent_input {
            warned.push(k);
        }
        s = n;
    }
    assert_eq!(warned, vec![200]);
    let (n, _) = tick(s, input(true, false, false, true));
    assert!(!n.silent_flagged);
    assert_eq!(n.zero_ticks, 0);
}

#[test]
fn the_level_is_reported_every_tenth_tick_while_monitoring() {
    let mut s = TickState::new();
    let mut at = Vec::new();
    for k in 1..=35u32 {
        let (n, ev) = tick(s, input(true, false, false, true));
        if ev.level {
            at.push(k);
        }
        s = n;
    }
    assert_eq!(at, vec![10, 20, 30]);
    let quiet = TickInput { monitor: false, ..input(true, false, false, true) };
    let (_, ev) = tick(TickState { tick: 9, ..TickState::new() }, quiet);
    assert!(!ev.level);
    let (n, _) = tick(TickState { tick: u32::MAX, ..TickState::new() }, quiet);
    assert_eq!(n.tick, 0);
}

#[test]
fn a_muted_microphone_sends_silence_and_stops_speaking_once() {
    let mut s = TickState::new();
    let (n, ev) = tick(s, input(true, false, true, true));
    assert_eq!(ev.speaking, Some(true));
    s = n;
    let (n, ev) = tick(s, input(true, false, true, false));
    assert_eq!(ev.speaking, Some(false));
    assert!(!n.speaking);
    s = n;
    for _ in 0..40 {
        let (n, ev) = tick(s, input(true, false, true, false));
        assert_eq!(ev.speaking, None);
        s = n;
    }
    let captured: Vec<i16> = (0..FRAME_SAMPLES as i16).collect();
    let muted = outgoing_frame(false, &captured);
    assert_eq!(muted.len(), 480);
    assert!(muted.iter().all(|x| *x == 0));
    assert_eq!(outgoing_frame(true, &captured), captured);
}
