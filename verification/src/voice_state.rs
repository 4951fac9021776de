//! The voice connection's state machine.

use vstd::prelude::*;

verus! {

#[derive(Clone, Copy, PartialEq, Eq, Structural, Debug)]
pub enum VoiceState {
    Idle,
    Connecting,
    Connected,
    Reconnecting,
    Failed,
}

impl Default for VoiceState {
    fn default() -> (r: Self)
        ensures
            r == VoiceState::Idle,
    {
        VoiceState::Idle
    }
}

#[derive(Clone, Copy, PartialEq, Eq, Structural, Debug)]
pub enum VoiceEvent {
    Join,
    Connected,
    Disconnected { recoverable: bool },
    Reconnected,
    Leave,
    GiveUp,
}

/// The retry counter of the transition fits its byte: a recoverable drop
/// while connecting, connected or reconnecting must not push it past 255.
pub open spec fn retry_fits(s: VoiceState, retries: int, ev: VoiceEvent) -> bool {
    (ev == VoiceEvent::Disconnected { recoverable: true } && (s == VoiceState::Connecting || s
        == VoiceState::Connected || s == VoiceState::Reconnecting)) ==> retries < 255
}

/// The retry counts that the states can carry: none while idle or connected,
/// one to the limit while reconnecting.
pub open spec fn retries_shape(s: VoiceState, retries: int) -> bool {
    &&& 0 <= retries <= 255
    &&& (s == VoiceState::Idle || s == VoiceState::Connected) ==> retries == 0
    &&& s == VoiceState::Reconnecting ==> 1 <= retries <= MAX_RETRIES
}

/// How many recoverable drops in a row are retried before giving up.
pub const MAX_RETRIES: u8 = 5;

/// One transition: the next state and retry count from a state, a retry
/// count and an event.
pub open spec fn step(s: VoiceState, retries: int, ev: VoiceEvent) -> (VoiceState, int) {
    match (s, ev) {
        (VoiceState::Idle, VoiceEvent::Join) => (VoiceState::Connecting, retries),
        (VoiceState::Connecting, VoiceEvent::Connected) => (VoiceState::Connected, 0),
        (VoiceState::Connecting, VoiceEvent::Disconnected { recoverable: true })
        | (VoiceState::Connected, VoiceEvent::Disconnected { recoverable: true })
        | (VoiceState::Reconnecting, VoiceEvent::Disconnected { recoverable: true }) => {
            if retries + 1 > MAX_RETRIES {
                (VoiceState::Failed, retries + 1)
            } else {
                (VoiceState::Reconnecting, retries + 1)
            }
        },
        (VoiceState::Connecting, VoiceEvent::Disconnected { recoverable: false })
        | (VoiceState::Connected, VoiceEvent::Disconnected { recoverable: false }) => (VoiceState::Failed, retries),
        (VoiceState::Reconnecting, VoiceEvent::Reconnected)
        | (VoiceState::Reconnecting, VoiceEvent::Connected) => (VoiceState::Connected, 0),
        (VoiceState::Reconnecting, VoiceEvent::Disconnected { recoverable: false })
        | (VoiceState::Reconnecting, VoiceEvent::GiveUp) => (VoiceState::Failed, retries),
        (_, VoiceEvent::Leave) => (VoiceState::Idle, 0),
        (VoiceState::Failed, VoiceEvent::Join) => (VoiceState::Connecting, retries),
        (s, _) => (s, retries),
    }
}

/// The state and retry count after a sequence of events.
pub open spec fn run(s: VoiceState, retries: int, evs: Seq<VoiceEvent>) -> (VoiceState, int)
    decreases evs.len(),
{
    if evs.len() == 0 {
        (s, retries)
    } else {
        let (s1, r1) = run(s, retries, evs.drop_last());
        step(s1, r1, evs.last())
    }
}

/// Tracks the connection's state and the retries of the current outage.
#[derive(Clone, Debug)]
pub struct VoiceStateMachine {
    state: VoiceState,
    retries: u8,
}

impl VoiceStateMachine {
    pub closed spec fn spec_state(self) -> VoiceState {
        self.state
    }

    pub closed spec fn spec_retries(self) -> int {
        self.retries as int
    }

    pub fn state(&self) -> (r: VoiceState)
        ensures
            r == self.spec_state(),
    {
        self.state
    }

    /// Applies one event and returns the new state.
    pub fn apply(&mut self, ev: &VoiceEvent) -> (r: VoiceState)
        requires
            retry_fits(old(self).spec_state(), old(self).spec_retries(), *ev),
        ensures
            (final(self).spec_state(), final(self).spec_retries()) == step(
                old(self).spec_state(),
                old(self).spec_retries(),
                *ev,
            ),
            r == final(self).spec_state(),
    {
        let retries = self.retries;
        let (state, retries) = match (self.state, *ev) {
            (VoiceState::Idle, VoiceEvent::Join) => (VoiceState::Connecting, retries),
            (VoiceState::Connecting, VoiceEvent::Connected) => (VoiceState::Connected, 0),
            (VoiceState::Connecting, VoiceEvent::Disconnected { recoverable: true })
            | (VoiceState::Connected, VoiceEvent::Disconnected { recoverable: true }) => {
                let r = retries + 1;
                if r > MAX_RETRIES {
                    (VoiceState::Failed, r)
                } else {
                    (VoiceState::Reconnecting, r)
                }
            },
            (VoiceState::Connecting, VoiceEvent::Disconnected { recoverable: false })
            | (VoiceState::Connected, VoiceEvent::Disconnected { recoverable: false }) => (
                VoiceState::Failed,
                retries,
            ),
            (VoiceState::Reconnecting, VoiceEvent::Reconnected)
            | (VoiceState::Reconnecting, VoiceEvent::Connected) => (VoiceState::Connected, 0),
            (VoiceState::Reconnecting, VoiceEvent::Disconnected { recoverable: true }) => {
                let r = retries + 1;
                if r > MAX_RETRIES {
                    (VoiceState::Failed, r)
                } else {
                    (VoiceState::Reconnecting, r)
                }
            },
            (VoiceState::Reconnecting, VoiceEvent::Disconnected { recoverable: false })
            | (VoiceState::Reconnecting, VoiceEvent::GiveUp) => (VoiceState::Failed, retries),
            (_, VoiceEvent::Leave) => (VoiceState::Idle, 0),
            (VoiceState::Failed, VoiceEvent::Join) => (VoiceState::Connecting, retries),
            (s, _) => (s, retries),
        };
        *self = VoiceStateMachine { state, retries };
        state
    }
}

impl Default for VoiceStateMachine {
    fn default() -> (r: Self)
        ensures
            r.spec_state() == VoiceState::Idle,
            r.spec_retries() == 0,
    {
        VoiceStateMachine { state: VoiceState::Idle, retries: 0 }
    }
}

/// What `state()` reports after `apply`: the state that `apply` returned,
/// which is the transition's target; reading the state changes nothing. A
/// fresh machine starts idle with no retries, so from it `Join`, `Connected`
/// and `Leave` lead to connecting, connected and idle again.
pub proof fn lemma_state_reports_last_apply(
    before: VoiceStateMachine,
    ev: VoiceEvent,
    after: VoiceStateMachine,
    r: VoiceState,
)
    requires
        (after.spec_state(), after.spec_retries()) == step(
            before.spec_state(),
            before.spec_retries(),
            ev,
        ),
        r == after.spec_state(),
    ensures
        after.spec_state() == r,
        r == step(before.spec_state(), before.spec_retries(), ev).0,
        step(VoiceState::Idle, 0, VoiceEvent::Join) == (VoiceState::Connecting, 0int),
        step(VoiceState::Connecting, 0, VoiceEvent::Connected) == (VoiceState::Connected, 0int),
        step(VoiceState::Connected, 0, VoiceEvent::Leave) == (VoiceState::Idle, 0int),
{
}

/// A connection that comes back is connected again, whatever the outage
/// cost: from `Reconnecting`, `Reconnected` (or `Connected`) leads to
/// `Connected` with the retries cleared, for every retry count.
pub proof fn lemma_reconnected_connects(retries: int)
    ensures
        step(VoiceState::Reconnecting, retries, VoiceEvent::Reconnected) == (VoiceState::Connected, 0int),
        step(VoiceState::Reconnecting, retries, VoiceEvent::Connected) == (VoiceState::Connected, 0int),
        step(VoiceState::Connecting, retries, VoiceEvent::Connected) == (VoiceState::Connected, 0int),
{
}

/// A recoverable drop counts one more retry and reconnects, until the count
/// passes the limit, which fails the connection; an unrecoverable drop, or
/// giving up while reconnecting, fails it with the count kept.
pub proof fn lemma_drops_count_and_fail(s: VoiceState, retries: int)
    requires
        s == VoiceState::Connecting || s == VoiceState::Connected || s == VoiceState::Reconnecting,
    ensures
        retries + 1 <= MAX_RETRIES ==> step(s, retries, VoiceEvent::Disconnected { recoverable: true })
            == (VoiceState::Reconnecting, retries + 1),
        retries + 1 > MAX_RETRIES ==> step(s, retries, VoiceEvent::Disconnected { recoverable: true })
            == (VoiceState::Failed, retries + 1),
        step(s, retries, VoiceEvent::Disconnected { recoverable: false }) == (VoiceState::Failed, retries),
        s == VoiceState::Reconnecting ==> step(s, retries, VoiceEvent::GiveUp) == (VoiceState::Failed, retries),
{
}

/// Joining starts connecting from `Idle` and from `Failed`; an event that
/// does not apply to a state leaves state and retries as they were.
pub proof fn lemma_join_and_ignored_events(retries: int)
    ensures
        step(VoiceState::Idle, retries, VoiceEvent::Join) == (VoiceState::Connecting, retries),
        step(VoiceState::Failed, retries, VoiceEvent::Join) == (VoiceState::Connecting, retries),
        step(VoiceState::Connected, retries, VoiceEvent::Join) == (VoiceState::Connected, retries),
        step(VoiceState::Idle, retries, VoiceEvent::Reconnected) == (VoiceState::Idle, retries),
        step(VoiceState::Connected, retries, VoiceEvent::Reconnected) == (VoiceState::Connected, retries),
        step(VoiceState::Idle, retries, VoiceEvent::Disconnected { recoverable: true }) == (
            VoiceState::Idle,
            retries,
        ),
        step(VoiceState::Failed, retries, VoiceEvent::Connected) == (VoiceState::Failed, retries),
{
}

/// An outage of up to the retry limit ends connected again: from
/// `Connected`, `k` recoverable drops (1 to `MAX_RETRIES`) and then
/// `Reconnected` leave the connection `Connected` with no retries.
pub proof fn lemma_outage_recovers(k: nat)
    requires
        1 <= k <= MAX_RETRIES,
    ensures
        run(
            VoiceState::Connected,
            0,
            Seq::new(k, |i: int| VoiceEvent::Disconnected { recoverable: true }).push(VoiceEvent::Reconnected),
        ) == (VoiceState::Connected, 0int),
{
    let drops = Seq::new(k, |i: int| VoiceEvent::Disconnected { recoverable: true });
    assert(drops.push(VoiceEvent::Reconnected).drop_last() =~= drops);
    lemma_drops_run(k);
}

proof fn lemma_drops_run(k: nat)
    requires
        1 <= k <= MAX_RETRIES,
    ensures
        run(VoiceState::Connected, 0, Seq::new(k, |i: int| VoiceEvent::Disconnected { recoverable: true }))
            == (VoiceState::Reconnecting, k as int),
    decreases k,
{
    let drops = Seq::new(k, |i: int| VoiceEvent::Disconnected { recoverable: true });
    assert(drops.drop_last() =~= Seq::new((k - 1) as nat, |i: int| VoiceEvent::Disconnected { recoverable: true }));
    assert(drops.last() == VoiceEvent::Disconnected { recoverable: true });
    if k > 1 {
        lemma_drops_run((k - 1) as nat);
        assert(run(VoiceState::Connected, 0, drops.drop_last()) == (VoiceState::Reconnecting, k - 1));
    } else {
        assert(drops.drop_last() =~= Seq::<VoiceEvent>::empty());
        assert(run(VoiceState::Connected, 0, drops.drop_last()) == (VoiceState::Connected, 0int));
    }
    assert(run(VoiceState::Connected, 0, drops) == step(
        run(VoiceState::Connected, 0, drops.drop_last()).0,
        run(VoiceState::Connected, 0, drops.drop_last()).1,
        drops.last(),
    ));
}

/// `Leave` returns to `Idle` from every state and clears the retries.
pub proof fn lemma_leave_always_idles(s: VoiceState, retries: int)
    ensures
        step(s, retries, VoiceEvent::Leave) == (VoiceState::Idle, 0int),
{
}

/// Every transition keeps the retry counts in their shape: none while idle or
/// connected, one to the limit while reconnecting. The fresh machine is in
/// shape, so every reachable one is.
pub proof fn lemma_retries_shape_kept(s: VoiceState, retries: int, ev: VoiceEvent)
    requires
        retries_shape(s, retries),
        retry_fits(s, retries, ev),
    ensures
        retries_shape(step(s, retries, ev).0, step(s, retries, ev).1),
        retries_shape(VoiceState::Idle, 0),
{
}

/// A reachable machine that is idle, connected or reconnecting accepts every
/// event; only a connection attempt that has failed and been rejoined many
/// times can run its counter to the top.
pub proof fn lemma_settled_states_accept_all(s: VoiceState, retries: int, ev: VoiceEvent)
    requires
        retries_shape(s, retries),
        s != VoiceState::Connecting,
    ensures
        retry_fits(s, retries, ev),
{
}

/// From a fresh connection, `n` recoverable drops in a row leave the machine
/// reconnecting with `n` retries as long as `n` is within the limit; the next
/// one after the limit fails the connection.
pub proof fn lemma_gives_up_after_max_retries(n: nat)
    requires
        1 <= n <= MAX_RETRIES + 1,
    ensures
        run(VoiceState::Connected, 0, Seq::new(n, |i: int| VoiceEvent::Disconnected { recoverable: true }))
            == (if n <= MAX_RETRIES {
            (VoiceState::Reconnecting, n as int)
        } else {
            (VoiceState::Failed, n as int)
        }),
    decreases n,
{
    let evs = Seq::new(n, |i: int| VoiceEvent::Disconnected { recoverable: true });
    let prev = Seq::new((n - 1) as nat, |i: int| VoiceEvent::Disconnected { recoverable: true });
    assert(evs.drop_last() =~= prev);
    if n == 1 {
        assert(run(VoiceState::Connected, 0, prev) == (VoiceState::Connected, 0int));
    } else {
        lemma_gives_up_after_max_retries((n - 1) as nat);
    }
}

/// A failed connection is only left by joining again or leaving.
pub proof fn lemma_failed_is_sticky(retries: int, ev: VoiceEvent)
    requires
        ev != VoiceEvent::Join,
        ev != VoiceEvent::Leave,
    ensures
        step(VoiceState::Failed, retries, ev) == (VoiceState::Failed, retries),
{
}

} // verus!
