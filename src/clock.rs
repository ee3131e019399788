use vstd::prelude::*;

verus! {

/// The clock system value: the fields the execution engine reads, in the
/// order in which they are encoded.
#[derive(Clone, Copy, Debug, PartialEq, Eq, Structural)]
pub struct Clock {
    pub slot: u64,
    pub epoch_start_timestamp: i64,
    pub epoch: u64,
    pub leader_schedule_epoch: u64,
    pub unix_timestamp: i64,
}

impl Default for Clock {
    fn default() -> (r: Clock)
        ensures
            r == (Clock {
                slot: 0,
                epoch_start_timestamp: 0,
                epoch: 0,
                leader_schedule_epoch: 0,
                unix_timestamp: 0,
            }),
    {
        Clock { slot: 0, epoch_start_timestamp: 0, epoch: 0, leader_schedule_epoch: 0, unix_timestamp: 0 }
    }
}

/// The unsigned little-endian integer held by the eight bytes of `b` from `at`.
pub open spec fn le_u64_at(b: Seq<u8>, at: int) -> int {
    b[at] + 256 * (b[at + 1] + 256 * (b[at + 2] + 256 * (b[at + 3] + 256 * (b[at + 4] + 256 * (
    b[at + 5] + 256 * (b[at + 6] + 256 * b[at + 7]))))))
}

/// The eight little-endian bytes of `x`.
pub open spec fn word_bytes(x: u64) -> Seq<u8> {
    seq![
        x as u8,
        (x >> 8) as u8,
        (x >> 16) as u8,
        (x >> 24) as u8,
        (x >> 32) as u8,
        (x >> 40) as u8,
        (x >> 48) as u8,
        (x >> 56) as u8,
    ]
}

/// The encoding of a clock: its five fields in declaration order, each as
/// eight little-endian bytes (signed fields in two's complement).
pub open spec fn clock_bytes(c: Clock) -> Seq<u8> {
    word_bytes(c.slot) + word_bytes(c.epoch_start_timestamp as u64) + word_bytes(c.epoch)
        + word_bytes(c.leader_schedule_epoch) + word_bytes(c.unix_timestamp as u64)
}

/// The clock whose encoding `b` starts with (meaningful when `b` holds at
/// least forty bytes).
pub open spec fn clock_from_bytes(b: Seq<u8>) -> Clock {
    Clock {
        slot: le_u64_at(b, 0) as u64,
        epoch_start_timestamp: le_u64_at(b, 8) as i64,
        epoch: le_u64_at(b, 16) as u64,
        leader_schedule_epoch: le_u64_at(b, 24) as u64,
        unix_timestamp: le_u64_at(b, 32) as i64,
    }
}

proof fn lemma_word_round_trip(x: u64)
    ensures
        le_u64_at(word_bytes(x), 0) == x,
{
    let b = word_bytes(x);
    let (b0, b1, b2, b3, b4, b5, b6, b7) = (b[0], b[1], b[2], b[3], b[4], b[5], b[6], b[7]);
    assert(b0 == x as u8 && b1 == (x >> 8) as u8 && b2 == (x >> 16) as u8 && b3 == (x >> 24) as u8);
    assert(b4 == (x >> 32) as u8 && b5 == (x >> 40) as u8 && b6 == (x >> 48) as u8 && b7 == (x >> 56) as u8);
    assert(b0 + 256 * (b1 + 256 * (b2 + 256 * (b3 + 256 * (b4 + 256 * (b5 + 256 * (b6 + 256 * b7))))))
        == x) by (bit_vector)
        requires
            b0 == x as u8,
            b1 == (x >> 8) as u8,
            b2 == (x >> 16) as u8,
            b3 == (x >> 24) as u8,
            b4 == (x >> 32) as u8,
            b5 == (x >> 40) as u8,
            b6 == (x >> 48) as u8,
            b7 == (x >> 56) as u8,
    ;
}

proof fn lemma_word_at(c: Clock, k: int, x: u64)
    requires
        0 <= k < 5,
        x == (if k == 0 {
            c.slot
        } else if k == 1 {
            c.epoch_start_timestamp as u64
        } else if k == 2 {
            c.epoch
        } else if k == 3 {
            c.leader_schedule_epoch
        } else {
            c.unix_timestamp as u64
        }),
    ensures
        le_u64_at(clock_bytes(c), 8 * k) == x,
{
    let b = clock_bytes(c);
    let w = word_bytes(x);
    assert forall|i: int| 0 <= i < 8 implies b[8 * k + i] == w[i] by {}
    lemma_word_round_trip(x);
}

/// Decoding the encoding of a clock gives the clock back.
pub proof fn lemma_clock_round_trip(c: Clock)
    ensures
        clock_bytes(c).len() == 40,
        clock_from_bytes(clock_bytes(c)) == c,
{
    let b = clock_bytes(c);
    lemma_word_at(c, 0, c.slot);
    lemma_word_at(c, 1, c.epoch_start_timestamp as u64);
    lemma_word_at(c, 2, c.epoch);
    lemma_word_at(c, 3, c.leader_schedule_epoch);
    lemma_word_at(c, 4, c.unix_timestamp as u64);
    let (e, t) = (c.epoch_start_timestamp, c.unix_timestamp);
    assert((e as u64) as i64 == e && (t as u64) as i64 == t) by (bit_vector);
}

/// Relies on `bincode::serialize` of a `solana_clock::Clock`: bincode's free
/// functions write integers fixed-width and little-endian, and the derived
/// `Serialize` writes the five fields in declaration order. With no size
/// limit and integer fields only, it does not fail.
#[verifier::external_body]
pub fn encode_clock(c: &Clock) -> (r: Vec<u8>)
    ensures
        r@ == clock_bytes(*c),
{
    let outside = solana_clock::Clock {
        slot: c.slot,
        epoch_start_timestamp: c.epoch_start_timestamp,
        epoch: c.epoch,
        leader_schedule_epoch: c.leader_schedule_epoch,
        unix_timestamp: c.unix_timestamp,
    };
    match bincode::serialize(&outside) {
        Ok(v) => v,
        Err(_) => Vec::new(),
    }
}

/// Relies on `bincode::deserialize::<solana_clock::Clock>`: it reads five
/// fixed-width little-endian fields in declaration order, accepts trailing
/// bytes, and fails only when fewer than forty bytes are given.
#[verifier::external_body]
pub fn decode_clock(bytes: &[u8]) -> (r: Option<Clock>)
    ensures
        r == (if bytes@.len() >= 40 {
            Some(clock_from_bytes(bytes@))
        } else {
            None
        }),
{
    match bincode::deserialize::<solana_clock::Clock>(bytes) {
        Ok(c) => Some(Clock {
            slot: c.slot,
            epoch_start_timestamp: c.epoch_start_timestamp,
            epoch: c.epoch,
            leader_schedule_epoch: c.leader_schedule_epoch,
            unix_timestamp: c.unix_timestamp,
        }),
        Err(_) => None,
    }
}

/// Seconds of wall-clock time from `last` to `now`; none when the wall clock
/// went backwards.
pub open spec fn elapsed_seconds(last: u64, now: u64) -> int {
    if now > last {
        now - last
    } else {
        0
    }
}

/// `x`, held to the range of `i64`.
pub open spec fn clamp_i64(x: int) -> i64 {
    if x > i64::MAX {
        i64::MAX
    } else if x < i64::MIN {
        i64::MIN
    } else {
        x as i64
    }
}

/// The clock time `t` advanced by the wall-clock seconds from `last` to `now`.
pub open spec fn advanced_timestamp(t: i64, last: u64, now: u64) -> i64 {
    clamp_i64(t + elapsed_seconds(last, now))
}

/// `a + b`, saturating at the bounds of `i64`.
pub fn saturating_add_i64(a: i64, b: i64) -> (r: i64)
    ensures
        r == clamp_i64(a + b),
{
    if b > 0 && a > i64::MAX - b {
        i64::MAX
    } else if b < 0 && a < i64::MIN - b {
        i64::MIN
    } else {
        a + b
    }
}

} // verus!
