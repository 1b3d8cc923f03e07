//! The position counter of a movable graphics object.
//!
//! The counter advances on every colour clock, but the position it stands for
//! advances only on every fourth: the counter proper holds four ticks per
//! position. Beside the regular clock a counter can be given extra motion
//! pulses, whose number is set when horizontal motion starts and counted down
//! as they are applied.

use vstd::prelude::*;
use vstd::arithmetic::div_mod::{
    lemma_add_mod_noop, lemma_mod_mod, lemma_mod_self_0, lemma_small_mod,
};
use crate::signed::{byte_pattern, nibble_to_signed, nibble_value, signed_to_byte};

verus! {

/// A position counter as contracts see it.
pub struct CounterState {
    /// The number of positions: the counter counts modulo this.
    pub period: nat,
    /// The position that a reset puts the counter in.
    pub reset_value: nat,
    /// The live counter, in ticks: four to a position.
    pub internal_value: nat,
    /// The position last reported by a clock.
    pub last_value: nat,
    /// The motion pulses not yet applied.
    pub clocks_to_add: nat,
}

impl CounterState {
    /// The invariant of a counter in use: there is at least one position, and
    /// the reset position and the live counter lie within the period.
    pub open spec fn wf(self) -> bool {
        &&& 0 < self.period <= u8::MAX
        &&& self.reset_value < self.period
        &&& self.internal_value < 4 * self.period
    }

    /// The position the counter stands at.
    pub open spec fn value(self) -> nat {
        self.internal_value / 4
    }

    /// The counter put back to its reset position.
    pub open spec fn reset(self) -> Self {
        CounterState { internal_value: 4 * self.reset_value, ..self }
    }

    /// The counter put at the start of position `val`.
    pub open spec fn set_value(self, val: nat) -> Self {
        CounterState { internal_value: 4 * val, ..self }
    }

    /// The live counter one tick later.
    pub open spec fn next_tick(self) -> nat {
        (self.internal_value + 1) % (4 * self.period)
    }

    /// Whether the next clock reports a change of position: it does when the
    /// position after the tick is not the one last reported.
    pub open spec fn clock_moves(self) -> bool {
        self.next_tick() / 4 != self.last_value
    }

    /// The counter after one clock: one tick further, and the new position reported.
    pub open spec fn clock(self) -> Self {
        CounterState {
            internal_value: self.next_tick(),
            last_value: self.next_tick() / 4,
            ..self
        }
    }

    /// The counter after `n` clocks.
    pub open spec fn clocked(self, n: nat) -> Self
        decreases n,
    {
        if n == 0 {
            self
        } else {
            self.clocked((n - 1) as nat).clock()
        }
    }

    /// The counter after horizontal motion was started with register value `hm_val`.
    pub open spec fn start_hmove(self, hm_val: u8) -> Self {
        CounterState { clocks_to_add: hmove_pulses(hm_val), ..self }
    }

    /// Whether applying a motion pulse leaves more pulses to apply.
    pub open spec fn hmove_continues(self) -> bool {
        self.clocks_to_add > 1
    }

    /// The counter after one motion pulse was applied, if any was left.
    pub open spec fn apply_hmove(self) -> Self {
        if self.clocks_to_add == 0 {
            self
        } else {
            CounterState { clocks_to_add: (self.clocks_to_add - 1) as nat, ..self }
        }
    }

    /// The counter after `n` motion pulses were applied.
    pub open spec fn hmoved(self, n: nat) -> Self
        decreases n,
    {
        if n == 0 {
            self
        } else {
            self.hmoved((n - 1) as nat).apply_hmove()
        }
    }
}

/// The motion that the register value `v` asks for: its high nibble read as
/// a 4-bit two's-complement number, negated. The low nibble does not count.
/// The result lies in `-7 ..= 8`: `0x00` gives 0, `0x10 ..= 0x70` give
/// `-1 ..= -7`, `0x80` gives 8 and `0xf0` gives 1.
pub open spec fn spec_hmove_value(v: u8) -> int {
    -nibble_value(v as int / 16)
}

/// The number of motion pulses that the register value `v` queues: the byte
/// pattern of its motion.
pub open spec fn hmove_pulses(v: u8) -> nat {
    byte_pattern(spec_hmove_value(v)) as nat
}

/// Decodes the motion that a horizontal-motion register value asks for.
pub fn hmove_value(v: u8) -> (motion: i8)
    ensures
        motion == spec_hmove_value(v),
        -7 <= motion <= 8,
{
    -nibble_to_signed(v / 16)
}

/// The position counter of a player, a missile or the ball.
pub struct Counter {
    period: u8,
    reset_value: u8,
    pub internal_value: u16,
    last_value: u8,
    clocks_to_add: u8,
}

impl View for Counter {
    type V = CounterState;

    closed spec fn view(&self) -> CounterState {
        CounterState {
            period: self.period as nat,
            reset_value: self.reset_value as nat,
            internal_value: self.internal_value as nat,
            last_value: self.last_value as nat,
            clocks_to_add: self.clocks_to_add as nat,
        }
    }
}

impl Counter {
    /// A counter with `period` positions that resets to position
    /// `reset_value`. It starts at position 0 with no motion queued.
    pub fn new_counter(period: u8, reset_value: u8) -> (counter: Self)
        requires
            0 < period,
            reset_value < period,
        ensures
            counter@ == (CounterState {
                period: period as nat,
                reset_value: reset_value as nat,
                internal_value: 0,
                last_value: 0,
                clocks_to_add: 0,
            }),
            counter@.wf(),
    {
        Self { period: period, reset_value: reset_value, internal_value: 0, last_value: 0, clocks_to_add: 0 }
    }

    /// Puts the counter back to its reset position. What the last clock
    /// reported and the queued motion stay as they are.
    pub fn reset(&mut self)
        ensures
            final(self)@ == old(self)@.reset(),
            final(self)@.value() == old(self)@.reset_value,
            old(self)@.wf() ==> final(self)@.wf(),
    {
        self.internal_value = self.reset_value as u16 * 4;
    }

    /// The position the counter stands at.
    pub fn value(&self) -> (position: u8)
        requires
            self@.wf(),
        ensures
            position == self@.value(),
            position < self@.period,
    {
        (self.internal_value / 4) as u8
    }

    /// Puts the counter at the start of position `val`.
    pub fn set_value(&mut self, val: u8)
        requires
            val < old(self)@.period,
        ensures
            final(self)@ == old(self)@.set_value(val as nat),
            final(self)@.value() == val,
            old(self)@.wf() ==> final(self)@.wf(),
    {
        self.internal_value = val as u16 * 4;
    }

    /// Advances the counter by one tick, wrapping at the end of the period,
    /// and tells whether the position is another than the last clock reported.
    pub fn clock(&mut self) -> (moved: bool)
        requires
            old(self)@.wf(),
        ensures
            final(self)@ == old(self)@.clock(),
            moved == old(self)@.clock_moves(),
            final(self)@.wf(),
            final(self)@.internal_value == if old(self)@.internal_value + 1 == 4 * old(self)@.period {
                0
            } else {
                old(self)@.internal_value + 1
            },
    {
        proof {
            lemma_tick_wraps(self@);
        }
        self.internal_value = (self.internal_value + 1) % (self.period as u16 * 4);
        let position: u8 = self.value();
        if self.last_value != position {
            self.last_value = position;
            true
        } else {
            false
        }
    }

    /// Starts horizontal motion: queues the motion pulses that the register
    /// value `hm_val` asks for, in place of any still queued.
    pub fn start_hmove(&mut self, hm_val: u8)
        ensures
            final(self)@ == old(self)@.start_hmove(hm_val),
            old(self)@.wf() ==> final(self)@.wf(),
    {
        self.clocks_to_add = signed_to_byte(hmove_value(hm_val));
    }

    /// Applies one queued motion pulse and tells whether more are left. With
    /// none queued it does nothing and returns `false`.
    pub fn apply_hmove(&mut self) -> (more: bool)
        ensures
            final(self)@ == old(self)@.apply_hmove(),
            more == old(self)@.hmove_continues(),
            old(self)@.wf() ==> final(self)@.wf(),
    {
        if self.clocks_to_add != 0 {
            self.clocks_to_add = self.clocks_to_add - 1;
            return self.clocks_to_add != 0;
        }
        false
    }
}

/// Within the period a tick adds one; the tick that completes the period
/// puts the live counter back to zero.
pub proof fn lemma_tick_wraps(c: CounterState)
    requires
        c.wf(),
    ensures
        c.next_tick() == if c.internal_value + 1 == 4 * c.period {
            0
        } else {
            c.internal_value + 1
        },
{
    let m = 4 * c.period;
    if c.internal_value + 1 == m {
        lemma_mod_self_0(m as int);
    } else {
        lemma_small_mod(c.internal_value + 1, m);
    }
}

/// `n` clocks advance the live counter by `n` ticks modulo four times the
/// period and change nothing else but the position last reported, which after
/// any clock is the position the counter stands at.
pub proof fn lemma_clocked(c: CounterState, n: nat)
    requires
        c.wf(),
    ensures
        c.clocked(n).wf(),
        c.clocked(n).internal_value == (c.internal_value + n) % (4 * c.period),
        c.clocked(n).period == c.period,
        c.clocked(n).reset_value == c.reset_value,
        c.clocked(n).clocks_to_add == c.clocks_to_add,
        n > 0 ==> c.clocked(n).last_value == c.clocked(n).value(),
    decreases n,
{
    let m = (4 * c.period) as int;
    if n == 0 {
        lemma_small_mod(c.internal_value, m as nat);
    } else {
        let before = c.clocked((n - 1) as nat);
        lemma_clocked(c, (n - 1) as nat);
        lemma_add_mod_noop(c.internal_value + n - 1, 1, m);
        lemma_small_mod(1, m as nat);
    }
}

/// A full cycle: after four clocks for each position of the period the live
/// counter is back where it was.
pub proof fn lemma_clocked_full_cycle(c: CounterState)
    requires
        c.wf(),
    ensures
        c.clocked(4 * c.period).internal_value == c.internal_value,
        c.clocked(4 * c.period).value() == c.value(),
{
    let m = (4 * c.period) as int;
    lemma_clocked(c, 4 * c.period);
    lemma_add_mod_noop(c.internal_value as int, m, m);
    lemma_small_mod(c.internal_value, m as nat);
    lemma_mod_self_0(m);
}

/// The rhythm of the clock: on a counter with at least two positions that
/// last reported the position it stands at, the `n`-th clock from now reports
/// a change exactly when it completes a group of four ticks. A counter fresh
/// from its constructor reports a change on every fourth clock and on no other.
pub proof fn lemma_clock_rhythm(c: CounterState, n: nat)
    requires
        c.wf(),
        c.period >= 2,
        c.last_value == c.value(),
        n >= 1,
    ensures
        c.clocked((n - 1) as nat).clock_moves() <==> (c.internal_value + n) % 4 == 0,
{
    let m = (4 * c.period) as int;
    let before = c.clocked((n - 1) as nat);
    lemma_clocked(c, (n - 1) as nat);
    assert(before.last_value == before.value());
    // The tick before the clock, taken modulo 4, is that of the start plus n - 1.
    lemma_mod_mod(c.internal_value + n - 1, 4, c.period as int);
    assert(before.internal_value % 4 == (c.internal_value + n - 1) % 4);
    lemma_tick_wraps(before);
}

/// Motion pulses are counted down one per application and never below zero;
/// nothing else changes.
pub proof fn lemma_hmoved(c: CounterState, n: nat)
    ensures
        c.hmoved(n) == (CounterState {
            clocks_to_add: if n <= c.clocks_to_add {
                (c.clocks_to_add - n) as nat
            } else {
                0
            },
            ..c
        }),
    decreases n,
{
    if n > 0 {
        lemma_hmoved(c, (n - 1) as nat);
    }
}

/// Once horizontal motion was started with `hm_val`, the `n`-th application
/// of a pulse says that more are left exactly while `n` is below the number
/// of pulses queued: with `p` pulses queued the first `p - 1` applications
/// return true and every later one returns false. From the `p`-th on an
/// application changes nothing.
pub proof fn lemma_hmove_pulses(c: CounterState, hm_val: u8, n: nat)
    requires
        n >= 1,
    ensures
        c.start_hmove(hm_val).hmoved((n - 1) as nat).hmove_continues() <==> n < hmove_pulses(hm_val),
        n >= hmove_pulses(hm_val) ==> c.start_hmove(hm_val).hmoved(n) == (CounterState {
            clocks_to_add: 0,
            ..c
        }),
        n > hmove_pulses(hm_val) ==> c.start_hmove(hm_val).hmoved(n) == c.start_hmove(
            hm_val,
        ).hmoved((n - 1) as nat),
{
    let started = c.start_hmove(hm_val);
    lemma_hmoved(started, (n - 1) as nat);
    lemma_hmoved(started, n);
}

/// The number of pulses that each register value queues: none for a zero
/// high nibble, `256 - h` for a high nibble `h` in `1 ..= 7` (the motion is
/// negative and is counted as its byte pattern), `16 - h` for `h` in `8 ..= 15`.
pub proof fn lemma_hmove_pulses_by_nibble(hm_val: u8)
    ensures
        hm_val / 16 == 0 ==> hmove_pulses(hm_val) == 0,
        1 <= hm_val / 16 <= 7 ==> hmove_pulses(hm_val) == 256 - hm_val / 16,
        8 <= hm_val / 16 ==> hmove_pulses(hm_val) == 16 - hm_val / 16,
{
}

/// Queued motion pulses are only ever used up: a reset, a direct write of the
/// position and a clock leave their number as it is, and applying one never
/// raises it. Only the start of horizontal motion sets it anew.
pub proof fn lemma_pulses_never_grow(c: CounterState, val: nat)
    ensures
        c.reset().clocks_to_add == c.clocks_to_add,
        c.set_value(val).clocks_to_add == c.clocks_to_add,
        c.clock().clocks_to_add == c.clocks_to_add,
        c.apply_hmove().clocks_to_add <= c.clocks_to_add,
{
}

/// A position that was set is the position the counter stands at.
pub proof fn lemma_set_value_then_value(c: CounterState, val: nat)
    ensures
        c.set_value(val).value() == val,
{
}

/// A reset puts the counter at its reset position, wherever it stood.
pub proof fn lemma_reset_then_value(c: CounterState)
    ensures
        c.reset().value() == c.reset_value,
        c.reset().last_value == c.last_value,
        c.reset().clocks_to_add == c.clocks_to_add,
{
}

} // verus!
