//! 64-bit identifiers: 42 bits of milliseconds since the OmniDisc epoch,
//! 10 bits of worker id and 12 bits of per-millisecond sequence.

use vstd::prelude::*;
use crate::text::{dec_digits, decimal, string_of, chars_of};
use crate::text::scan::{parse_u64_spec, parse_u64};

verus! {

pub const OMNIDISC_EPOCH_MS: u64 = 1_785_542_400_000;

pub const BUCKET_SPAN_MS: u64 = 864_000_000;

pub const WORKER_BITS: u64 = 10;

pub const SEQUENCE_BITS: u64 = 12;

pub const WORKER_SHIFT: u64 = 12;

pub const TIMESTAMP_SHIFT: u64 = 22;

pub const SEQUENCE_MASK: u64 = 4095;

pub const WORKER_MASK: u64 = 1023;

/// The millisecond part of a raw id, counted from the OmniDisc epoch.
pub open spec fn ts_part(raw: u64) -> int {
    raw as int / 4194304
}

/// The worker part of a raw id.
pub open spec fn worker_part(raw: u64) -> int {
    (raw as int / 4096) % 1024
}

/// The sequence part of a raw id.
pub open spec fn seq_part(raw: u64) -> int {
    raw as int % 4096
}

/// The raw id made of a millisecond offset, a worker id and a sequence number.
pub open spec fn compose(ts: int, worker: int, seq: int) -> int {
    ts * 4194304 + worker * 4096 + seq
}

/// The ten-day bucket that a millisecond offset falls in.
pub open spec fn bucket_of_offset(offset: int) -> int {
    offset / BUCKET_SPAN_MS as int
}

#[derive(Clone, Copy, PartialEq, Eq, PartialOrd, Ord, Hash, Default, Debug)]
pub struct Snowflake(pub u64);

proof fn lemma_shr22(x: u64)
    ensures
        x >> 22u64 == x / 4194304,
        x >> 22u64 <= 0x3ff_ffff_ffffu64,
{
    assert(x >> 22u64 == x / 4194304) by (bit_vector);
    assert(x >> 22u64 <= 0x3ff_ffff_ffffu64) by (bit_vector);
}

/// A raw id splits into its three parts and is rebuilt from them.
pub proof fn lemma_parts_compose(raw: u64)
    ensures
        0 <= ts_part(raw) < 0x400_0000_0000,
        0 <= worker_part(raw) < 1024,
        0 <= seq_part(raw) < 4096,
        raw as int == compose(ts_part(raw), worker_part(raw), seq_part(raw)),
{
    let t = raw as int / 4194304;
    let r = raw as int % 4194304;
    assert(raw as int == t * 4194304 + r);
    assert(r == (r / 4096) * 4096 + r % 4096);
    assert(r / 4096 == (raw as int / 4096) % 1024) by (nonlinear_arith)
        requires
            raw as int == t * 4194304 + r,
            0 <= r < 4194304,
            t >= 0,
    {
        assert(raw as int / 4096 == t * 1024 + r / 4096) by (nonlinear_arith)
            requires
                raw as int == t * 4194304 + r,
                0 <= r < 4194304,
                t >= 0,
        ;
    }
    assert(r % 4096 == raw as int % 4096) by (nonlinear_arith)
        requires
            raw as int == t * 4194304 + r,
            0 <= r < 4194304,
            t >= 0,
    ;
}

/// Three parts in range make a raw id that splits back into them.
pub proof fn lemma_compose_parts(ts: int, worker: int, seq: int)
    requires
        0 <= ts < 0x400_0000_0000,
        0 <= worker < 1024,
        0 <= seq < 4096,
    ensures
        0 <= compose(ts, worker, seq) <= u64::MAX,
        ts_part(compose(ts, worker, seq) as u64) == ts,
        worker_part(compose(ts, worker, seq) as u64) == worker,
        seq_part(compose(ts, worker, seq) as u64) == seq,
{
    let c = compose(ts, worker, seq);
    let low = worker * 4096 + seq;
    assert(0 <= low < 4194304);
    assert(c == ts * 4194304 + low);
    assert(c / 4194304 == ts) by (nonlinear_arith)
        requires
            c == ts * 4194304 + low,
            0 <= low < 4194304,
            ts >= 0,
    ;
    assert(c / 4096 == ts * 1024 + worker) by (nonlinear_arith)
        requires
            c == ts * 4194304 + worker * 4096 + seq,
            0 <= seq < 4096,
            ts >= 0,
            worker >= 0,
    ;
    assert((ts * 1024 + worker) % 1024 == worker) by (nonlinear_arith)
        requires
            0 <= worker < 1024,
            ts >= 0,
    ;
    assert(c % 4096 == seq) by (nonlinear_arith)
        requires
            c == ts * 4194304 + worker * 4096 + seq,
            0 <= seq < 4096,
            ts >= 0,
            worker >= 0,
    ;
    assert(c <= u64::MAX) by (nonlinear_arith)
        requires
            c == ts * 4194304 + low,
            0 <= low < 4194304,
            0 <= ts < 0x400_0000_0000,
    ;
}

impl Snowflake {
    pub fn from_raw(raw: u64) -> (r: Self)
        ensures
            r.0 == raw,
    {
        Snowflake(raw)
    }

    /// Unix milliseconds at which the id was minted.
    pub fn timestamp_ms(self) -> (r: u64)
        ensures
            r == ts_part(self.0) + OMNIDISC_EPOCH_MS,
    {
        proof {
            lemma_shr22(self.0);
        }
        (self.0 >> TIMESTAMP_SHIFT) + OMNIDISC_EPOCH_MS
    }

    pub fn worker_id(self) -> (r: u16)
        ensures
            r == worker_part(self.0),
    {
        let x = self.0;
        assert((x >> 12u64) & 1023u64 == (x / 4096) % 1024) by (bit_vector);
        assert((x >> 12u64) & 1023u64 < 1024) by (bit_vector);
        ((x >> WORKER_SHIFT) & WORKER_MASK) as u16
    }

    pub fn sequence(self) -> (r: u16)
        ensures
            r == seq_part(self.0),
    {
        let x = self.0;
        assert(x & 4095u64 == x % 4096) by (bit_vector);
        (x & SEQUENCE_MASK) as u16
    }

    /// The ten-day bucket of the id's timestamp.
    pub fn bucket(self) -> (r: u32)
        ensures
            r == bucket_of_offset(ts_part(self.0)),
    {
        let t = self.timestamp_ms();
        let d = (t - OMNIDISC_EPOCH_MS) / BUCKET_SPAN_MS;
        let ghost off: int = t - OMNIDISC_EPOCH_MS;
        assert(d <= 6000) by (nonlinear_arith)
            requires
                d == off / 864_000_000,
                0 <= off <= 0x3ff_ffff_ffff,
        ;
        d as u32
    }

    /// The bucket of a Unix timestamp; times before the epoch fall in bucket 0.
    pub fn bucket_for_timestamp_ms(ts: u64) -> (r: u32)
        ensures
            r == (bucket_of_offset(if ts >= OMNIDISC_EPOCH_MS { ts - OMNIDISC_EPOCH_MS } else { 0 }) as u32),
    {
        (ts.saturating_sub(OMNIDISC_EPOCH_MS) / BUCKET_SPAN_MS) as u32
    }

    /// The smallest id whose timestamp lies in `bucket` (bits shifted past the
    /// top of the word are dropped).
    pub fn lower_bound_for_bucket(bucket: u32) -> (r: Self)
        ensures
            r.0 as int == (bucket as int * BUCKET_SPAN_MS * 4194304) % 0x1_0000_0000_0000_0000,
    {
        let m = bucket as u64 * BUCKET_SPAN_MS;
        assert(m << 22u64 == (m * 4194304) % 0x1_0000_0000_0000_0000) by (bit_vector);
        Snowflake(m << TIMESTAMP_SHIFT)
    }

    pub fn is_nil(self) -> (r: bool)
        ensures
            r == (self.0 == 0),
    {
        self.0 == 0
    }

    /// The id in decimal, as it is written on the wire.
    pub fn to_string(&self) -> (r: String)
        ensures
            r@ == dec_digits(self.0 as nat),
    {
        let d = decimal(self.0);
        string_of(d.as_slice())
    }

    /// The id written in decimal in `s`, as `str::parse::<u64>` reads it.
    pub fn parse(s: &str) -> (r: Option<Snowflake>)
        ensures
            r == (match parse_u64_spec(s@) {
                Some(v) => Some(Snowflake(v)),
                None => None,
            }),
    {
        let cs = chars_of(s);
        match parse_u64(cs.as_slice()) {
            Some(v) => Some(Snowflake(v)),
            None => None,
        }
    }
}

impl From<u64> for Snowflake {
    fn from(v: u64) -> (r: Self) {
        Snowflake(v)
    }
}

impl vstd::std_specs::convert::FromSpecImpl<u64> for Snowflake {
    open spec fn obeys_from_spec() -> bool {
        true
    }

    open spec fn from_spec(v: u64) -> Snowflake {
        Snowflake(v)
    }
}

/// An id written in decimal reads back as the same id.
pub proof fn lemma_decimal_round_trip(id: Snowflake)
    ensures
        parse_u64_spec(dec_digits(id.0 as nat)) == Some(id.0),
{
    crate::subtitle_merge::round_trip::lemma_dec_digits(id.0 as nat);
    crate::subtitle_merge::round_trip::lemma_parse_digits(dec_digits(id.0 as nat));
}

/// An id lies in its own bucket: the lower bound of its bucket is at or below
/// it, and the lower bound of the next bucket above it. Ids in the topmost
/// bucket are left out, because the next bound there no longer fits the word.
pub proof fn lemma_bucket_brackets(id: Snowflake)
    requires
        ts_part(id.0) < 5090 * BUCKET_SPAN_MS,
    ensures
        bucket_of_offset(ts_part(id.0)) < u32::MAX,
        (bucket_of_offset(ts_part(id.0)) * BUCKET_SPAN_MS * 4194304) % 0x1_0000_0000_0000_0000
            <= id.0,
        id.0 < ((bucket_of_offset(ts_part(id.0)) + 1) * BUCKET_SPAN_MS * 4194304)
            % 0x1_0000_0000_0000_0000,
{
    let t = ts_part(id.0);
    let b = bucket_of_offset(t);
    lemma_parts_compose(id.0);
    assert(0 <= b < 5090) by (nonlinear_arith)
        requires
            b == t / 864_000_000,
            0 <= t < 5090 * 864_000_000,
    ;
    assert(b * 864_000_000 <= t < (b + 1) * 864_000_000) by (nonlinear_arith)
        requires
            b == t / 864_000_000,
            t >= 0,
    ;
    let lo = b * 864_000_000 * 4194304;
    let hi = (b + 1) * 864_000_000 * 4194304;
    assert(0 <= lo && hi < 0x1_0000_0000_0000_0000) by (nonlinear_arith)
        requires
            lo == b * 864_000_000 * 4194304,
            hi == (b + 1) * 864_000_000 * 4194304,
            0 <= b < 5090,
    ;
    assert(lo % 0x1_0000_0000_0000_0000 == lo);
    assert(hi % 0x1_0000_0000_0000_0000 == hi);
    assert(lo <= t * 4194304 && (t + 1) * 4194304 <= hi) by (nonlinear_arith)
        requires
            b * 864_000_000 <= t < (b + 1) * 864_000_000,
            lo == b * 864_000_000 * 4194304,
            hi == (b + 1) * 864_000_000 * 4194304,
    ;
}

/// The bucket of an id is the bucket of its Unix timestamp.
pub proof fn lemma_bucket_matches_timestamp(id: Snowflake)
    ensures
        bucket_of_offset(ts_part(id.0)) == (bucket_of_offset(
            if ts_part(id.0) + OMNIDISC_EPOCH_MS >= OMNIDISC_EPOCH_MS {
                ts_part(id.0) + OMNIDISC_EPOCH_MS - OMNIDISC_EPOCH_MS
            } else {
                0
            },
        ) as u32),
{
    lemma_parts_compose(id.0);
    let t = ts_part(id.0);
    assert(0 <= t / 864_000_000 < 6000) by (nonlinear_arith)
        requires
            0 <= t < 0x400_0000_0000,
    ;
}

/// Reads the wall clock in Unix milliseconds (0 when the clock reads before
/// 1970). Calls `SystemTime::now` and `SystemTime::duration_since`; nothing is
/// promised of the value, which depends on the machine's clock.
#[verifier::external_body]
fn clock_unix_ms() -> u64 {
    std::time::SystemTime::now()
        .duration_since(std::time::UNIX_EPOCH)
        .map(|d| d.as_millis() as u64)
        .unwrap_or(0)
}

/// Milliseconds from the OmniDisc epoch to the Unix time `unix_ms`; 0 for a
/// time before the epoch.
pub open spec fn since_epoch(unix_ms: int) -> int {
    if unix_ms >= OMNIDISC_EPOCH_MS {
        unix_ms - OMNIDISC_EPOCH_MS
    } else {
        0
    }
}

/// Hands out strictly increasing ids for one worker.
pub struct SnowflakeGenerator {
    worker_id: u64,
    state: u64,
}

impl SnowflakeGenerator {
    pub closed spec fn worker(&self) -> int {
        self.worker_id as int
    }

    /// Milliseconds (since the epoch) of the last id handed out.
    pub closed spec fn last_ts(&self) -> int {
        self.state as int / 4096
    }

    /// Sequence number of the last id handed out.
    pub closed spec fn last_seq(&self) -> int {
        self.state as int % 4096
    }

    pub closed spec fn wf(&self) -> bool {
        self.worker_id < 1024
    }

    /// The raw value of the last id handed out (or of the start state).
    pub open spec fn last_id(&self) -> int {
        compose(self.last_ts(), self.worker(), self.last_seq())
    }

    pub fn new(worker_id: u16) -> (r: Self)
        ensures
            r.wf(),
            r.worker() == worker_id as int % 1024,
            r.last_ts() == 0,
            r.last_seq() == 0,
    {
        let w = worker_id as u64;
        assert(w & 1023u64 == w % 1024) by (bit_vector);
        SnowflakeGenerator { worker_id: w & WORKER_MASK, state: 0 }
    }

    /// One step of id allocation at clock reading `now` (milliseconds since
    /// the epoch). A later millisecond starts a new sequence; the same or an
    /// earlier one continues the last sequence; `None` when that sequence is
    /// used up, and then nothing changes.
    pub fn next_at(&mut self, now: u64) -> (r: Option<Snowflake>)
        requires
            old(self).wf(),
        ensures
            final(self).wf(),
            final(self).worker() == old(self).worker(),
            now > old(self).last_ts() ==> r.is_some() && final(self).last_ts() == now as int % 0x10_0000_0000_0000
                && final(self).last_seq() == 0,
            now <= old(self).last_ts() && old(self).last_seq() < 4095 ==> r.is_some()
                && final(self).last_ts() == old(self).last_ts() && final(self).last_seq()
                == old(self).last_seq() + 1,
            now <= old(self).last_ts() && old(self).last_seq() == 4095 ==> r.is_none() && *final(self)
                == *old(self),
            r matches Some(id) ==> id.0 as int == (final(self).last_ts() * 4194304 + final(self).worker()
                * 4096 + final(self).last_seq()) % 0x1_0000_0000_0000_0000,
    {
        let prev = self.state;
        let prev_ts = prev >> SEQUENCE_BITS;
        let prev_seq = prev & SEQUENCE_MASK;
        assert(prev >> 12u64 == prev / 4096) by (bit_vector);
        assert(prev & 4095u64 == prev % 4096) by (bit_vector);
        let ts: u64;
        let seq: u64;
        if now > prev_ts {
            ts = now;
            seq = 0;
        } else if prev_seq < SEQUENCE_MASK {
            ts = prev_ts;
            seq = prev_seq + 1;
        } else {
            return None;
        }
        let next = (ts << SEQUENCE_BITS) | seq;
        let w = self.worker_id;
        assert(((ts << 12u64) | seq) / 4096 == ts % 0x10_0000_0000_0000) by (bit_vector)
            requires
                seq < 4096,
        ;
        assert(((ts << 12u64) | seq) % 4096 == seq) by (bit_vector)
            requires
                seq < 4096,
        ;
        assert(prev_ts < 0x10_0000_0000_0000) by (bit_vector)
            requires
                prev_ts == prev >> 12u64,
        ;
        self.state = next;
        let raw = (ts << TIMESTAMP_SHIFT) | (w << WORKER_SHIFT) | seq;
        assert(((ts << 22u64) | (w << 12u64) | seq) == (((ts % 0x10_0000_0000_0000) * 4194304 + w
            * 4096 + seq) % 0x1_0000_0000_0000_0000)) by (bit_vector)
            requires
                w < 1024,
                seq < 4096,
        ;
        Some(Snowflake(raw))
    }

    /// Milliseconds since the OmniDisc epoch of the Unix time `unix_ms` (0
    /// before the epoch).
    pub fn ms_since_epoch(unix_ms: u64) -> (r: u64)
        ensures
            r == since_epoch(unix_ms as int),
    {
        unix_ms.saturating_sub(OMNIDISC_EPOCH_MS)
    }

    /// Milliseconds since the OmniDisc epoch (0 before it): the epoch offset
    /// of what the wall clock reads, whatever it reads.
    pub fn now_ms() -> (r: u64)
        ensures
            exists|unix_ms: u64| r == since_epoch(unix_ms as int),
    {
        let t = clock_unix_ms();
        Self::ms_since_epoch(t)
    }

    /// Allocates an id at the current time; `None` when the 4096 ids of the
    /// current millisecond are used up (the caller retries once the clock has
    /// moved on). The id lies above the last one handed out and carries the
    /// worker id, unless the clock reads 2^42 milliseconds (about 139 years)
    /// past the epoch or more, where the id's timestamp field overflows.
    pub fn next(&mut self) -> (r: Option<Snowflake>)
        requires
            old(self).wf(),
        ensures
            final(self).wf(),
            final(self).worker() == old(self).worker(),
            r matches Some(id) ==> id.0 as int == (final(self).last_ts() * 4194304 + final(self).worker()
                * 4096 + final(self).last_seq()) % 0x1_0000_0000_0000_0000,
            old(self).last_seq() < 4095 ==> r is Some,
            r is None ==> old(self).last_seq() == 4095 && *final(self) == *old(self),
            exists|now: u64| Self::step_at(*old(self), now, *final(self), r),
            exists|unix_ms: u64|
                #![trigger since_epoch(unix_ms as int)]
                Self::step_at(*old(self), since_epoch(unix_ms as int) as u64, *final(self), r),
            r matches Some(id) ==> (old(self).last_ts() < 0x400_0000_0000 ==> (id.0 > old(self).last_id()
                && worker_part(id.0) == old(self).worker() && id.0 == final(self).last_id()
                && final(self).last_ts() < 0x400_0000_0000) || exists|now: u64|
                now >= 0x400_0000_0000 && Self::step_at(*old(self), now, *final(self), r)),
    {
        let now = Self::now_ms();
        let r = self.next_at(now);
        assert(Self::step_at(*old(self), now, *self, r));
        proof {
            let t = choose|unix_ms: u64| now == since_epoch(unix_ms as int);
            assert(Self::step_at(*old(self), since_epoch(t as int) as u64, *self, r));
        }
        proof {
            if r is Some && old(self).last_ts() < 0x400_0000_0000 && now < 0x400_0000_0000 {
                lemma_step_increases(*old(self), now, *self, r->0);
            }
        }
        r
    }

    /// One step of allocation at clock reading `now`, as `next_at` takes it:
    /// the generator before and after and the id handed out.
    pub open spec fn step_at(before: Self, now: u64, after: Self, r: Option<Snowflake>) -> bool {
        &&& after.wf()
        &&& after.worker() == before.worker()
        &&& now > before.last_ts() ==> r is Some && after.last_ts() == now as int
            % 0x10_0000_0000_0000 && after.last_seq() == 0
        &&& now <= before.last_ts() && before.last_seq() < 4095 ==> r is Some && after.last_ts()
            == before.last_ts() && after.last_seq() == before.last_seq() + 1
        &&& now <= before.last_ts() && before.last_seq() == 4095 ==> r is None && after == before
        &&& r matches Some(id) ==> id.0 as int == (after.last_ts() * 4194304 + after.worker() * 4096
            + after.last_seq()) % 0x1_0000_0000_0000_0000
    }
}

/// Ids come out strictly increasing: when the last id and the clock both lie
/// below 2^42 milliseconds (about 139 years after the epoch), a successful
/// step yields an id above the last one, carrying the generator's worker id.
pub proof fn lemma_next_increases(before: SnowflakeGenerator, after: SnowflakeGenerator, now: u64, id: Snowflake)
    requires
        before.wf(),
        before.last_ts() < 0x400_0000_0000,
        now < 0x400_0000_0000,
        after.worker() == before.worker(),
        now > before.last_ts() ==> after.last_ts() == now as int % 0x10_0000_0000_0000 && after.last_seq() == 0,
        now <= before.last_ts() ==> after.last_ts() == before.last_ts() && after.last_seq()
            == before.last_seq() + 1 && before.last_seq() < 4095,
        id.0 as int == (after.last_ts() * 4194304 + after.worker() * 4096 + after.last_seq())
            % 0x1_0000_0000_0000_0000,
    ensures
        id.0 as int == after.last_id(),
        id.0 > before.last_id(),
        worker_part(id.0) == before.worker(),
        after.last_ts() < 0x400_0000_0000,
{
    assert(0 <= before.worker() < 1024) by {
        reveal_wf(before);
    }
    assert(0 <= before.last_seq() < 4096) by {
        reveal_seq(before);
    }
    if now > before.last_ts() {
        assert(now as int % 0x10_0000_0000_0000 == now);
    }
    assert(0 <= after.last_ts() < 0x400_0000_0000);
    assert(0 <= after.last_seq() < 4096);
    lemma_compose_parts(after.last_ts(), after.worker(), after.last_seq());
    assert(id.0 as int == after.last_id());
    lemma_compose_parts(before.last_ts(), before.worker(), before.last_seq());
}

/// The parts of a generator's state: a sequence number below 4096 and a
/// timestamp below 2^52; a well-formed generator's worker id is below 1024.
pub proof fn lemma_generator_bounds(g: SnowflakeGenerator)
    ensures
        0 <= g.last_seq() < 4096,
        0 <= g.last_ts() < 0x10_0000_0000_0000,
        g.wf() ==> 0 <= g.worker() < 1024,
{
    reveal_seq(g);
}

/// Whatever the clock read, an id that `next` hands out lies above the last
/// one and carries the generator's worker id, as long as the last id and the
/// clock reading lie below 2^42 milliseconds.
pub proof fn lemma_step_increases(before: SnowflakeGenerator, now: u64, after: SnowflakeGenerator, id: Snowflake)
    requires
        before.wf(),
        SnowflakeGenerator::step_at(before, now, after, Some(id)),
        before.last_ts() < 0x400_0000_0000,
        now < 0x400_0000_0000,
    ensures
        id.0 as int == after.last_id(),
        id.0 > before.last_id(),
        worker_part(id.0) == before.worker(),
        after.last_ts() < 0x400_0000_0000,
{
    lemma_generator_bounds(before);
    if now <= before.last_ts() {
        assert(before.last_seq() != 4095);
    }
    lemma_next_increases(before, after, now, id);
}

/// An id minted when the wall clock reads the Unix time `unix_ms` (at or
/// after the epoch, less than 2^42 ms past it, and later than the last id's
/// millisecond) carries that time: its `timestamp_ms` is `unix_ms`, and it
/// starts the millisecond's sequence at 0. A clock before the epoch mints
/// into millisecond 0 of the epoch.
pub proof fn lemma_minted_at_clock(
    before: SnowflakeGenerator,
    unix_ms: u64,
    after: SnowflakeGenerator,
    id: Snowflake,
)
    requires
        before.wf(),
        SnowflakeGenerator::step_at(before, since_epoch(unix_ms as int) as u64, after, Some(id)),
    ensures
        unix_ms >= OMNIDISC_EPOCH_MS && unix_ms - OMNIDISC_EPOCH_MS < 0x400_0000_0000 && unix_ms
            - OMNIDISC_EPOCH_MS > before.last_ts() ==> ts_part(id.0) + OMNIDISC_EPOCH_MS == unix_ms
            && seq_part(id.0) == 0 && worker_part(id.0) == before.worker(),
        unix_ms < OMNIDISC_EPOCH_MS && before.last_ts() == 0 && before.last_seq() < 4095
            ==> ts_part(id.0) == 0,
{
    lemma_generator_bounds(before);
    lemma_generator_bounds(after);
    let now = since_epoch(unix_ms as int);
    if unix_ms >= OMNIDISC_EPOCH_MS && unix_ms - OMNIDISC_EPOCH_MS < 0x400_0000_0000 && unix_ms
        - OMNIDISC_EPOCH_MS > before.last_ts() {
        assert(now as u64 == now);
        assert(after.last_ts() == now);
        lemma_compose_parts(after.last_ts(), after.worker(), after.last_seq());
    }
    if unix_ms < OMNIDISC_EPOCH_MS && before.last_ts() == 0 && before.last_seq() < 4095 {
        assert(after.last_ts() == 0);
        lemma_compose_parts(after.last_ts(), after.worker(), after.last_seq());
    }
}

proof fn reveal_wf(g: SnowflakeGenerator)
    requires
        g.wf(),
    ensures
        0 <= g.worker() < 1024,
{
}

proof fn reveal_seq(g: SnowflakeGenerator)
    ensures
        0 <= g.last_seq() < 4096,
        g.last_ts() >= 0,
{
}

} // verus!
