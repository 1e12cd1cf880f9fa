//! Sequence identifiers: 64-bit ids that order by creation time.
//!
//! An id packs, from the most significant bit down:
//! - 42 bits: milliseconds since 1 Jan 2001 UTC,
//! - 8 bits: the generator's node id,
//! - 8 bits: a per-generator counter, which starts over at 0 when the
//!   millisecond changes and takes a random value once it reaches 255,
//! - 6 bits: random.
use std::sync::atomic::AtomicU64;
use std::sync::atomic::Ordering;
use std::time::Duration;
use vstd::prelude::*;

verus! {

/// Epoch start: 1 Jan 2001 00:00:00 UTC, in seconds since the Unix epoch.
pub const EPOCH_OFFSET: u64 = 978307200;

/// Mask of the 42 time bits.
pub const TIME_MASK: u64 = 0x3FF_FFFF_FFFF;

/// The counter state of a fresh generator: it records no time field that a
/// 42-bit time can match, so the first id's counter is 0.
pub const INITIAL_COUNTER_STATE: u64 = 0xFFFF_FFFF_FFFF_FFFF;

/// The id made of its four fields (time, node, counter and random bits).
pub open spec fn spec_compose_id(time: u64, node_id: u8, counter: u64, random: u64) -> u64 {
    (time & 0x3FF_FFFF_FFFF) << 22u64 | ((node_id as u64) & 0xFF) << 14u64 | (counter & 0xFF)
        << 6u64 | random
}

/// The time field of an id.
pub open spec fn id_time(id: u64) -> u64 {
    id >> 22u64
}

/// The node field of an id.
pub open spec fn id_node(id: u64) -> u64 {
    (id >> 14u64) & 0xFF
}

/// The counter field of an id.
pub open spec fn id_counter(id: u64) -> u64 {
    (id >> 6u64) & 0xFF
}

/// The random field of an id.
pub open spec fn id_random(id: u64) -> u64 {
    id & 0x3F
}

/// The milliseconds since the id epoch at a given Unix time in milliseconds
/// (0 before the epoch).
pub open spec fn spec_time_since_epoch(unix_millis: u64) -> u64 {
    if unix_millis >= EPOCH_OFFSET * 1000 {
        (unix_millis - EPOCH_OFFSET * 1000) as u64
    } else {
        0
    }
}

/// Milliseconds of a clock reading given in whole seconds and nanoseconds,
/// truncated to 64 bits (`Duration::as_millis() as u64`).
pub open spec fn spec_millis(secs: u64, nanos: u32) -> u64 {
    (secs as int * 1000 + nanos as int / 1_000_000) as u64
}

/// Nanoseconds of a clock reading given in whole seconds and nanoseconds,
/// truncated to 32 bits (`Duration::as_nanos() as u32`).
pub open spec fn spec_nanos_low(secs: u64, nanos: u32) -> u32 {
    ((secs as int * 1_000_000_000 + nanos as int) % 0x1_0000_0000) as u32
}

/// The id's time field for a clock reading: its milliseconds since the id epoch.
pub open spec fn spec_reading_time(secs: u64, nanos: u32) -> u64 {
    spec_time_since_epoch(spec_millis(secs, nanos))
}

/// The xorshift scramble of a seed.
pub open spec fn spec_scramble(seed: u32) -> u32 {
    let x0 = seed.wrapping_mul(1103515245).wrapping_add(12345);
    let x1 = x0 ^ (x0 << 13u32);
    let x2 = x1 ^ (x1 >> 17u32);
    x2 ^ (x2 << 5u32)
}

/// The counter state of a generator holds the time field of its last id
/// above the low byte, and that id's counter in the low byte. The counter
/// of the next id at time field `time`: 0 when the time field changed, one
/// more when it did not, and the low byte of `random` once it reached 255.
pub open spec fn spec_next_counter(state: u64, time: u64, random: u32) -> u64 {
    if state >> 8u64 != time & 0x3FF_FFFF_FFFF {
        0
    } else if state & 0xFF >= 255 {
        (random as u64) & 0xFF
    } else {
        ((state & 0xFF) + 1) as u64
    }
}

/// The counter state after the next id at time field `time`.
pub open spec fn spec_next_state(state: u64, time: u64, random: u32) -> u64 {
    (time & 0x3FF_FFFF_FFFF) << 8u64 | spec_next_counter(state, time, random)
}

/// The id made from a clock reading, a node id, a counter, and a random
/// number whose low six bits become the random field.
pub open spec fn spec_id_from_reading(
    secs: u64,
    nanos: u32,
    node_id: u8,
    counter: u64,
    random: u32,
) -> u64 {
    spec_compose_id(spec_reading_time(secs, nanos), node_id, counter, (random & 0x3F) as u64)
}

/// Assembles an id from its fields: 42 bits of time, 8 of node id, 8 of
/// counter, then the random bits.
pub fn compose_id(time: u64, node_id: u8, counter: u64, random: u64) -> (id: u64)
    ensures
        id == spec_compose_id(time, node_id, counter, random),
{
    (time & TIME_MASK) << 22u64 | ((node_id as u64) & 0xFF) << 14u64 | (counter & 0xFF) << 6u64
        | random
}

/// Milliseconds since the id epoch at a Unix time in milliseconds.
pub fn time_since_epoch(unix_millis: u64) -> (r: u64)
    ensures
        r == spec_time_since_epoch(unix_millis),
{
    unix_millis.saturating_sub(EPOCH_OFFSET * 1000)
}

/// The id's time field for a clock reading.
pub fn reading_time(secs: u64, nanos: u32) -> (r: u64)
    ensures
        r == spec_reading_time(secs, nanos),
{
    let total: u128 = (secs as u128) * 1000 + (nanos as u128) / 1_000_000;
    let now = total as u64;
    time_since_epoch(now)
}

/// Simple xorshift scramble of a seed.
pub fn scramble(seed: u32) -> (r: u32)
    ensures
        r == spec_scramble(seed),
{
    let mut x = seed.wrapping_mul(1103515245).wrapping_add(12345);
    x = x ^ (x << 13u32);
    x = x ^ (x >> 17u32);
    x = x ^ (x << 5u32);
    x
}

/// The random number for a clock reading: the scramble of the low 32 bits
/// of its nanoseconds.
pub fn rand_from_reading(secs: u64, nanos: u32) -> (r: u32)
    ensures
        r == spec_scramble(spec_nanos_low(secs, nanos)),
{
    let total: u128 = (secs as u128) * 1_000_000_000 + (nanos as u128);
    let seed = total as u32;
    assert(seed == spec_nanos_low(secs, nanos)) by (bit_vector)
        requires
            total == secs as u128 * 1_000_000_000 + nanos as u128,
            seed == total as u32,
    ;
    scramble(seed)
}

/// The counter of the next id at time field `time`.
pub fn next_counter(state: u64, time: u64, random: u32) -> (r: u64)
    ensures
        r == spec_next_counter(state, time, random),
{
    if state >> 8u64 != time & TIME_MASK {
        0
    } else if state & 0xFF >= 255 {
        (random as u64) & 0xFF
    } else {
        (state & 0xFF) + 1
    }
}

/// The counter state after the next id at time field `time`.
pub fn next_counter_state(state: u64, time: u64, random: u32) -> (r: u64)
    ensures
        r == spec_next_state(state, time, random),
{
    (time & TIME_MASK) << 8u64 | next_counter(state, time, random)
}

/// The id made from a clock reading, a node id, a counter and a random number.
pub fn id_from_reading(secs: u64, nanos: u32, node_id: u8, counter: u64, random: u32) -> (id: u64)
    ensures
        id == spec_id_from_reading(secs, nanos, node_id, counter, random),
{
    compose_id(reading_time(secs, nanos), node_id, counter, (random & 0x3F) as u64)
}

/// `Duration::as_secs`: the whole seconds of a duration.
pub assume_specification[ core::time::Duration::as_secs ](d: &Duration) -> u64;

/// `Duration::subsec_nanos`: the fractional part of a duration, in
/// nanoseconds, which the documentation bounds by one billion.
pub assume_specification[ core::time::Duration::subsec_nanos ](d: &Duration) -> (r: u32)
    ensures
        r < 1_000_000_000,
;

/// The time elapsed since the Unix epoch.
///
/// Calls `SystemTime::now().duration_since(UNIX_EPOCH)`, a zero duration
/// when the clock stands before the epoch. The clock is read afresh on each
/// call, so nothing is stated of the result.
#[verifier::external_body]
fn elapsed_since_unix_epoch() -> Duration {
    std::time::SystemTime::now().duration_since(std::time::UNIX_EPOCH).unwrap_or_default()
}

/// The current Unix time as whole seconds and nanoseconds.
fn unix_clock() -> (r: (u64, u32))
    ensures
        r.1 < 1_000_000_000,
{
    let d = elapsed_since_unix_epoch();
    (d.as_secs(), d.subsec_nanos())
}

/// Simple random number generator: the xorshift scramble of the low 32
/// bits of the current Unix time in nanoseconds.
pub fn rand_simple() -> (r: u32)
    ensures
        exists|secs: u64, nanos: u32| nanos < 1_000_000_000 && r == spec_scramble(spec_nanos_low(secs, nanos)),
{
    let (secs, nanos) = unix_clock();
    rand_from_reading(secs, nanos)
}

/// Custom sequence id generator.
pub struct SequenceId {
    node_id: u8,
    /// The counter state: the time field of the last id above the low byte,
    /// that id's counter in the low byte.
    counter: AtomicU64,
}

/// Steps the counter state of a generator to the next id at time field
/// `time` and returns the state before the step.
///
/// Calls `AtomicU64::fetch_update` with a step that always yields a value,
/// so that the call returns the previous value. Other threads may step the
/// same state, so nothing is stated of that value.
#[verifier::external_body]
fn fetch_step(counter: &AtomicU64, time: u64, random: u32) -> u64 {
    counter.fetch_update(Ordering::Relaxed, Ordering::Relaxed, |s| Some(next_counter_state(s, time, random))).unwrap_or(0)
}

impl SequenceId {
    /// The node id of the generator.
    pub closed spec fn node(&self) -> u8 {
        self.node_id
    }

    /// Creates a new SequenceId with default node_id
    pub fn new() -> (s: Self)
        ensures
            s.node() == 0,
    {
        Self::with_node_id(0)
    }

    /// Creates a new SequenceId with custom node_id
    pub fn with_node_id(node_id: u8) -> (s: Self)
        ensures
            s.node() == node_id,
    {
        Self { node_id, counter: AtomicU64::new(INITIAL_COUNTER_STATE) }
    }

    /// The node id of the generator.
    pub fn node_id(&self) -> (r: u8)
        ensures
            r == self.node(),
    {
        self.node_id
    }

    /// Generates a new 64-bit id: the current time in milliseconds since
    /// the id epoch, the generator's node id, the counter that follows the
    /// generator's counter state at that time, and six random bits.
    ///
    /// The clock reading comes from outside, so the contract fixes the node
    /// bits alone; `next_id_at` states what the id is for the reading taken.
    pub fn next_id(&self) -> (id: u64)
        ensures
            id_node(id) == self.node(),
    {
        let (secs, nanos) = unix_clock();
        self.next_id_at(secs, nanos)
    }

    /// The id generated at the Unix clock reading `secs` seconds and `nanos`
    /// nanoseconds: its time field is the reading's milliseconds since the
    /// id epoch (within 42 bits), its node field the generator's node id,
    /// followed by the low byte of a counter and six random bits.
    ///
    /// The counter state (shared with other threads) and the random numbers
    /// come from outside, so the contract fixes the time and node fields;
    /// `next_counter` and `id_from_reading` state exactly how the drawn
    /// values become the id.
    pub fn next_id_at(&self, secs: u64, nanos: u32) -> (id: u64)
        ensures
            id_time(id) == spec_reading_time(secs, nanos) & 0x3FF_FFFF_FFFF,
            id_node(id) == self.node(),
    {
        let time = reading_time(secs, nanos);
        // * get and step the counter, which starts over when the time changes
        let x = rand_simple();
        let state = fetch_step(&self.counter, time, x);
        let counter = next_counter(state, time, x);
        // * get random bits
        let y = rand_simple();
        let id = id_from_reading(secs, nanos, self.node_id, counter, y);
        proof {
            lemma_reading_id_fields(secs, nanos, self.node_id, counter, y);
        }
        id
    }
}

/// The id made from a clock reading carries the reading's time (within 42
/// bits) and the node id.
proof fn lemma_reading_id_fields(secs: u64, nanos: u32, node_id: u8, counter: u64, y: u32)
    ensures
        id_time(spec_id_from_reading(secs, nanos, node_id, counter, y)) == spec_reading_time(
            secs,
            nanos,
        ) & 0x3FF_FFFF_FFFF,
        id_node(spec_id_from_reading(secs, nanos, node_id, counter, y)) == node_id as u64,
{
    let random = (y & 0x3F) as u64;
    assert(random < 64) by (bit_vector)
        requires
            random == (y & 0x3F) as u64,
    ;
    lemma_id_fields(spec_reading_time(secs, nanos), node_id, counter, random);
}

impl Default for SequenceId {
    fn default() -> (s: Self)
        ensures
            s.node() == 0,
    {
        Self::new()
    }
}

/// Each field of an assembled id reads back as it went in: the low 42 bits
/// of the time, the node id, the low byte of the counter, and the random
/// bits when there are fewer than 64 of them.
pub proof fn lemma_id_fields(time: u64, node_id: u8, counter: u64, random: u64)
    requires
        random < 64,
    ensures
        id_time(spec_compose_id(time, node_id, counter, random)) == time & 0x3FF_FFFF_FFFF,
        id_node(spec_compose_id(time, node_id, counter, random)) == node_id as u64,
        id_counter(spec_compose_id(time, node_id, counter, random)) == counter & 0xFF,
        id_random(spec_compose_id(time, node_id, counter, random)) == random,
{
    let n = node_id as u64;
    assert(n < 256);
    let id = spec_compose_id(time, node_id, counter, random);
    assert(id == (time & 0x3FF_FFFF_FFFF) << 22u64 | (n & 0xFF) << 14u64 | (counter & 0xFF) << 6u64 | random);
    assert(id >> 22u64 == time & 0x3FF_FFFF_FFFF) by (bit_vector)
        requires
            random < 64,
            id == (time & 0x3FF_FFFF_FFFF) << 22u64 | (n & 0xFF) << 14u64 | (counter & 0xFF) << 6u64 | random;
    assert((id >> 14u64) & 0xFF == n) by (bit_vector)
        requires
            random < 64,
            n < 256,
            id == (time & 0x3FF_FFFF_FFFF) << 22u64 | (n & 0xFF) << 14u64 | (counter & 0xFF) << 6u64 | random;
    assert((id >> 6u64) & 0xFF == counter & 0xFF) by (bit_vector)
        requires
            random < 64,
            id == (time & 0x3FF_FFFF_FFFF) << 22u64 | (n & 0xFF) << 14u64 | (counter & 0xFF) << 6u64 | random;
    assert(id & 0x3F == random) by (bit_vector)
        requires
            random < 64,
            id == (time & 0x3FF_FFFF_FFFF) << 22u64 | (n & 0xFF) << 14u64 | (counter & 0xFF) << 6u64 | random;
}

/// Two ids whose fields differ (time within 42 bits, counter within a byte,
/// random bits within six) are different ids.
pub proof fn lemma_id_distinct(
    t1: u64,
    n1: u8,
    c1: u64,
    r1: u64,
    t2: u64,
    n2: u8,
    c2: u64,
    r2: u64,
)
    requires
        t1 <= 0x3FF_FFFF_FFFF,
        t2 <= 0x3FF_FFFF_FFFF,
        c1 <= 255,
        c2 <= 255,
        r1 < 64,
        r2 < 64,
        (t1, n1, c1, r1) != (t2, n2, c2, r2),
    ensures
        spec_compose_id(t1, n1, c1, r1) != spec_compose_id(t2, n2, c2, r2),
{
    lemma_id_fields(t1, n1, c1, r1);
    lemma_id_fields(t2, n2, c2, r2);
    assert(t1 & 0x3FF_FFFF_FFFF == t1) by (bit_vector)
        requires t1 <= 0x3FF_FFFF_FFFF;
    assert(t2 & 0x3FF_FFFF_FFFF == t2) by (bit_vector)
        requires t2 <= 0x3FF_FFFF_FFFF;
    assert(c1 & 0xFF == c1) by (bit_vector)
        requires c1 <= 255;
    assert(c2 & 0xFF == c2) by (bit_vector)
        requires c2 <= 255;
}

/// Ids order by time: an id with a later time field (within 42 bits) is
/// larger, whatever the node, counter and random bits of either.
pub proof fn lemma_later_time_larger_id(
    t1: u64,
    n1: u8,
    c1: u64,
    r1: u64,
    t2: u64,
    n2: u8,
    c2: u64,
    r2: u64,
)
    requires
        t1 < t2 <= 0x3FF_FFFF_FFFF,
        r1 < 64,
        r2 < 64,
    ensures
        spec_compose_id(t1, n1, c1, r1) < spec_compose_id(t2, n2, c2, r2),
{
    let m1 = n1 as u64;
    let m2 = n2 as u64;
    assert(m1 < 256 && m2 < 256);
    assert((t1 & 0x3FF_FFFF_FFFF) << 22u64 | (m1 & 0xFF) << 14u64 | (c1 & 0xFF) << 6u64 | r1 < (
    t2 & 0x3FF_FFFF_FFFF) << 22u64 | (m2 & 0xFF) << 14u64 | (c2 & 0xFF) << 6u64 | r2)
        by (bit_vector)
        requires
            t1 < t2,
            t2 <= 0x3FF_FFFF_FFFF,
            r1 < 64,
            r2 < 64,
    ;
}

/// Ids drawn in a later millisecond (of the 2^42 milliseconds from the id
/// epoch on) sort after ids drawn in an earlier one.
pub proof fn lemma_later_millisecond_larger_id(
    ms1: u64,
    n1: u8,
    c1: u64,
    x1: u32,
    ms2: u64,
    n2: u8,
    c2: u64,
    x2: u32,
)
    requires
        EPOCH_OFFSET * 1000 <= ms1 < ms2 < EPOCH_OFFSET * 1000 + 0x400_0000_0000,
    ensures
        spec_compose_id(spec_time_since_epoch(ms1), n1, c1, (x1 & 0x3F) as u64) < spec_compose_id(
            spec_time_since_epoch(ms2),
            n2,
            c2,
            (x2 & 0x3F) as u64,
        ),
{
    let r1 = (x1 & 0x3F) as u64;
    let r2 = (x2 & 0x3F) as u64;
    assert(r1 < 64) by (bit_vector)
        requires r1 == (x1 & 0x3F) as u64;
    assert(r2 < 64) by (bit_vector)
        requires r2 == (x2 & 0x3F) as u64;
    lemma_later_time_larger_id(
        spec_time_since_epoch(ms1),
        n1,
        c1,
        r1,
        spec_time_since_epoch(ms2),
        n2,
        c2,
        r2,
    );
}

/// Ids order by their time field: an id whose time field is smaller is the
/// smaller id.
pub proof fn lemma_time_field_orders_ids(id1: u64, id2: u64)
    requires
        id_time(id1) < id_time(id2),
    ensures
        id1 < id2,
{
    assert(id1 >> 22u64 < id2 >> 22u64 ==> id1 < id2) by (bit_vector);
}

/// Ids made at a later millisecond sort after ids made at an earlier one:
/// for readings from the id epoch on, within the 2^42 milliseconds that the
/// time field holds, the id of the later reading is the larger.
pub proof fn lemma_later_reading_larger_id(
    id1: u64,
    secs1: u64,
    nanos1: u32,
    id2: u64,
    secs2: u64,
    nanos2: u32,
)
    requires
        id_time(id1) == spec_reading_time(secs1, nanos1) & 0x3FF_FFFF_FFFF,
        id_time(id2) == spec_reading_time(secs2, nanos2) & 0x3FF_FFFF_FFFF,
        EPOCH_OFFSET * 1000 <= spec_millis(secs1, nanos1) < spec_millis(secs2, nanos2)
            < EPOCH_OFFSET * 1000 + 0x400_0000_0000,
    ensures
        id1 < id2,
{
    let t1 = spec_reading_time(secs1, nanos1);
    let t2 = spec_reading_time(secs2, nanos2);
    assert(t1 < t2 <= 0x3FF_FFFF_FFFF);
    assert(t1 & 0x3FF_FFFF_FFFF == t1) by (bit_vector)
        requires t1 <= 0x3FF_FFFF_FFFF;
    assert(t2 & 0x3FF_FFFF_FFFF == t2) by (bit_vector)
        requires t2 <= 0x3FF_FFFF_FFFF;
    lemma_time_field_orders_ids(id1, id2);
}

/// Counters stay within a byte, whatever the state and random number.
pub proof fn lemma_next_counter_in_byte(state: u64, time: u64, random: u32)
    ensures
        spec_next_counter(state, time, random) <= 255,
{
    let r = random as u64;
    assert(r & 0xFF <= 255) by (bit_vector);
    assert(state & 0xFF <= 255) by (bit_vector);
}

/// The state after a step records the time field (its low 42 bits) and the
/// counter that the step gave.
pub proof fn lemma_next_state_fields(state: u64, time: u64, random: u32)
    ensures
        spec_next_state(state, time, random) >> 8u64 == time & 0x3FF_FFFF_FFFF,
        spec_next_state(state, time, random) & 0xFF == spec_next_counter(state, time, random),
{
    let c = spec_next_counter(state, time, random);
    lemma_next_counter_in_byte(state, time, random);
    let s = spec_next_state(state, time, random);
    assert(s == (time & 0x3FF_FFFF_FFFF) << 8u64 | c);
    assert(s >> 8u64 == time & 0x3FF_FFFF_FFFF && s & 0xFF == c) by (bit_vector)
        requires
            c <= 255,
            s == (time & 0x3FF_FFFF_FFFF) << 8u64 | c,
    ;
}

/// Within one millisecond the counter counts up: after a step at time field
/// `time`, the next step at the same time field gives one more, until 255.
pub proof fn lemma_counts_up_within_millisecond(state: u64, time: u64, x1: u32, x2: u32)
    requires
        spec_next_counter(state, time, x1) < 255,
    ensures
        spec_next_counter(spec_next_state(state, time, x1), time, x2) == spec_next_counter(
            state,
            time,
            x1,
        ) + 1,
{
    lemma_next_state_fields(state, time, x1);
}

/// When the millisecond changes the counter starts over: after a step at
/// one time field, a step at a different time field gives 0.
pub proof fn lemma_restarts_on_new_millisecond(state: u64, t1: u64, t2: u64, x1: u32, x2: u32)
    requires
        t1 & 0x3FF_FFFF_FFFF != t2 & 0x3FF_FFFF_FFFF,
    ensures
        spec_next_counter(spec_next_state(state, t1, x1), t2, x2) == 0,
{
    lemma_next_state_fields(state, t1, x1);
}

/// The counter state after `k` ids drawn at time field `time` by a fresh
/// generator (the random numbers only matter once the counter reaches 255;
/// here they are 0).
pub open spec fn spec_state_after(time: u64, k: nat) -> u64
    decreases k,
{
    if k == 0 {
        INITIAL_COUNTER_STATE
    } else {
        spec_next_state(spec_state_after(time, (k - 1) as nat), time, 0)
    }
}

/// A fresh generator's first id has counter 0, whatever its time field.
pub proof fn lemma_fresh_counter_zero(time: u64, random: u32)
    ensures
        spec_next_counter(INITIAL_COUNTER_STATE, time, random) == 0,
{
    let s = INITIAL_COUNTER_STATE;
    assert(s >> 8u64 != time & 0x3FF_FFFF_FFFF) by (bit_vector)
        requires
            s == 0xFFFF_FFFF_FFFF_FFFF,
    ;
}

/// Within one millisecond a fresh generator's ids count 0, 1, ..., 255:
/// after `k` ids, the next one's counter is `k`.
pub proof fn lemma_counts_from_zero(time: u64, k: nat, random: u32)
    requires
        k <= 255,
    ensures
        spec_next_counter(spec_state_after(time, k), time, random) == k,
    decreases k,
{
    if k == 0 {
        lemma_fresh_counter_zero(time, random);
    } else {
        let prev = spec_state_after(time, (k - 1) as nat);
        lemma_counts_from_zero(time, (k - 1) as nat, 0);
        lemma_next_state_fields(prev, time, 0);
        lemma_counts_up_within_millisecond(prev, time, 0, random);
    }
}

} // verus!
