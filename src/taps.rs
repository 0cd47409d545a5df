//! The choices a reverb makes once, when it is built: how long each
//! channel's delay is within a diffusion stage, and which channels flip
//! polarity. All of them come from one generator, in a fixed order, so a
//! reverb built twice from the same seed makes the same choices.
use vstd::prelude::*;

use crate::rnd::{rnd_state_after, rnd_step, rnd_value, Rnd};

verus! {

/// Start of channel `channel`'s share of `range` samples split into
/// `channels` equal parts.
pub open spec fn share_start(channel: int, channels: int, range: int) -> int {
    range * channel / channels
}

/// The delay length, in samples, that draw `n` gives channel `channel`: a
/// point of the channel's share `[start, end)` picked in proportion to `n`
/// out of 2^32, plus one so that no line is empty.
pub open spec fn tap_len(channel: int, channels: int, range: int, n: u32) -> int {
    let start = share_start(channel, channels, range);
    let end = share_start(channel + 1, channels, range);
    start + (end - start) * n / 0x1_0000_0000 + 1
}

/// Whether draw `n` flips a channel's polarity: it does above half the
/// 32-bit range.
pub open spec fn flips(n: u32) -> bool {
    n > u32::MAX / 2
}

/// Whether draw `n` flips a channel's polarity (for half of all draws).
pub fn flips_polarity(n: u32) -> (r: bool)
    ensures
        r == flips(n),
{
    n > u32::MAX / 2
}

/// The delay length, in samples, that draw `n` gives channel `channel` of
/// `channels` sharing `range` samples.
pub fn tap_length(channel: usize, channels: usize, range: usize, n: u32) -> (r: usize)
    requires
        channel < channels,
        range < usize::MAX,
    ensures
        r == tap_len(channel as int, channels as int, range as int, n),
        r <= range + 1,
{
    proof {
        lemma_tap_in_share(channel as int, channels as int, range as int, n);
    }
    let c: u128 = channels as u128;
    assert((range as u128) * (channel as u128 + 1) < 0x1_0000_0000_0000_0000_0000_0000_0000_0000)
        by (nonlinear_arith)
        requires
            range < 0x1_0000_0000_0000_0000,
            channel < 0x1_0000_0000_0000_0000,
    ;
    assert((range as u128) * (channel as u128) <= (range as u128) * (channel as u128 + 1))
        by (nonlinear_arith);
    let start: u128 = (range as u128) * (channel as u128) / c;
    let end: u128 = (range as u128) * (channel as u128 + 1) / c;
    proof {
        assert(start == share_start(channel as int, channels as int, range as int));
        assert(end == share_start(channel as int + 1, channels as int, range as int));
        assert(end - start < 0x1_0000_0000_0000_0000);
        assert((end - start) * n < 0x1_0000_0000_0000_0000_0000_0000) by (nonlinear_arith)
            requires
                0 <= end - start < 0x1_0000_0000_0000_0000,
                n < 0x1_0000_0000,
        ;
    }
    let pick: u128 = (end - start) * (n as u128) / 0x1_0000_0000u128;
    (start + pick + 1) as usize
}

/// Each channel's delay, less the one sample added, lies in the channel's
/// own share `[range * c / channels, range * (c + 1) / channels)` (at its
/// start where the share is empty), so the shares of a stage never overlap.
pub proof fn lemma_tap_in_share(channel: int, channels: int, range: int, n: u32)
    requires
        0 <= channel < channels,
        0 <= range,
    ensures
        share_start(channel, channels, range) <= tap_len(channel, channels, range, n) - 1,
        share_start(channel, channels, range) < share_start(channel + 1, channels, range) ==> tap_len(
            channel,
            channels,
            range,
            n,
        ) - 1 < share_start(channel + 1, channels, range),
        tap_len(channel, channels, range, n) <= share_start(channel + 1, channels, range) + 1,
        share_start(channel, channels, range) <= share_start(channel + 1, channels, range)
            <= range,
{
    let start = share_start(channel, channels, range);
    let end = share_start(channel + 1, channels, range);
    assert(range * channel <= range * (channel + 1)) by (nonlinear_arith)
        requires
            range >= 0,
            channel >= 0,
    ;
    assert(range * (channel + 1) <= range * channels) by (nonlinear_arith)
        requires
            range >= 0,
            channel < channels,
    ;
    vstd::arithmetic::div_mod::lemma_div_is_ordered(range * channel, range * (channel + 1), channels);
    vstd::arithmetic::div_mod::lemma_div_is_ordered(range * (channel + 1), range * channels, channels);
    vstd::arithmetic::div_mod::lemma_div_by_multiple(range, channels);
    assert(range * channels == channels * range) by (nonlinear_arith);
    let d = end - start;
    assert(d * n >= 0) by (nonlinear_arith)
        requires
            d >= 0,
    ;
    vstd::arithmetic::div_mod::lemma_div_pos_is_pos(d * n, 0x1_0000_0000);
    if d == 0 {
        assert(d * n == 0) by (nonlinear_arith)
            requires
                d == 0,
        ;
    }
    if d > 0 {
        assert(d * n < d * 0x1_0000_0000) by (nonlinear_arith)
            requires
                d > 0,
                n < 0x1_0000_0000,
        ;
        vstd::arithmetic::div_mod::lemma_div_by_multiple(d, 0x1_0000_0000);
        vstd::arithmetic::div_mod::lemma_div_is_ordered(d * n, d * 0x1_0000_0000 - 1, 0x1_0000_0000);
        assert(d * 0x1_0000_0000 - 1 == (d - 1) * 0x1_0000_0000 + 0xffff_ffff) by (nonlinear_arith);
        vstd::arithmetic::div_mod::lemma_fundamental_div_mod_converse(
            d * 0x1_0000_0000 - 1,
            0x1_0000_0000,
            d - 1,
            0xffff_ffff,
        );
    }
}

/// Delay lengths and polarity flips of one diffusion stage of `C` channels
/// spread over `range` samples: `C` draws pick the lengths, channel by
/// channel, then `C` more draws pick the flips.
pub fn diffusion_taps<const C: usize>(range: usize, rnd: &mut Rnd) -> (r: ([usize; C], [bool; C]))
    requires
        range < usize::MAX,
    ensures
        final(rnd).state() == rnd_state_after(old(rnd).state(), 2 * C as nat),
        forall|i: int|
            0 <= i < C ==> #[trigger] r.0@[i] == tap_len(
                i,
                C as int,
                range as int,
                rnd_value(rnd_state_after(old(rnd).state(), i as nat)),
            ),
        forall|i: int|
            0 <= i < C ==> #[trigger] r.1@[i] == flips(
                rnd_value(rnd_state_after(old(rnd).state(), (C + i) as nat)),
            ),
{
    let ghost s0 = rnd.state();
    let mut lens: [usize; C] = [1usize; C];
    let mut i: usize = 0;
    while i < C
        invariant
            range < usize::MAX,
            i <= C,
            rnd.state() == rnd_state_after(s0, i as nat),
            forall|j: int|
                0 <= j < i ==> #[trigger] lens@[j] == tap_len(
                    j,
                    C as int,
                    range as int,
                    rnd_value(rnd_state_after(s0, j as nat)),
                ),
        decreases C - i,
    {
        let n = rnd.next();
        proof {
            lemma_state_after_step(s0, i as nat);
        }
        lens[i] = tap_length(i, C, range, n);
        i = i + 1;
    }
    let mut flip: [bool; C] = [false; C];
    let mut k: usize = 0;
    while k < C
        invariant
            k <= C,
            rnd.state() == rnd_state_after(s0, (C + k) as nat),
            forall|j: int|
                0 <= j < k ==> #[trigger] flip@[j] == flips(
                    rnd_value(rnd_state_after(s0, (C + j) as nat)),
                ),
        decreases C - k,
    {
        let n = rnd.next();
        proof {
            lemma_state_after_step(s0, (C + k) as nat);
        }
        flip[k] = flips_polarity(n);
        k = k + 1;
    }
    assert((C + C) as nat == 2 * C as nat);
    (lens, flip)
}

/// One more draw after `n` draws leaves the state of `n + 1` draws.
pub proof fn lemma_state_after_step(s: u32, n: nat)
    ensures
        rnd_step(rnd_state_after(s, n)) == rnd_state_after(s, n + 1),
    decreases n,
{
    reveal_with_fuel(rnd_state_after, 2);
    if n > 0 {
        lemma_state_after_step(rnd_step(s), (n - 1) as nat);
        assert(rnd_state_after(s, n + 1) == rnd_state_after(rnd_step(s), n));
        assert(rnd_state_after(s, n) == rnd_state_after(rnd_step(s), (n - 1) as nat));
    }
}

/// Building a diffusion stage twice, over the same range and from generators
/// in the same state, gives the same lengths and flips and leaves the
/// generators in the same state.
pub proof fn lemma_taps_deterministic<const C: usize>(
    range: usize,
    before1: Rnd,
    after1: Rnd,
    taps1: ([usize; C], [bool; C]),
    before2: Rnd,
    after2: Rnd,
    taps2: ([usize; C], [bool; C]),
)
    requires
        before1.state() == before2.state(),
        after1.state() == rnd_state_after(before1.state(), 2 * C as nat),
        after2.state() == rnd_state_after(before2.state(), 2 * C as nat),
        forall|i: int|
            0 <= i < C ==> #[trigger] taps1.0@[i] == tap_len(
                i,
                C as int,
                range as int,
                rnd_value(rnd_state_after(before1.state(), i as nat)),
            ),
        forall|i: int|
            0 <= i < C ==> #[trigger] taps1.1@[i] == flips(
                rnd_value(rnd_state_after(before1.state(), (C + i) as nat)),
            ),
        forall|i: int|
            0 <= i < C ==> #[trigger] taps2.0@[i] == tap_len(
                i,
                C as int,
                range as int,
                rnd_value(rnd_state_after(before2.state(), i as nat)),
            ),
        forall|i: int|
            0 <= i < C ==> #[trigger] taps2.1@[i] == flips(
                rnd_value(rnd_state_after(before2.state(), (C + i) as nat)),
            ),
    ensures
        taps1 == taps2,
        after1.state() == after2.state(),
{
    assert(taps1.0@ =~= taps2.0@);
    assert(taps1.1@ =~= taps2.1@);
    assert(taps1.0 == taps2.0);
    assert(taps1.1 == taps2.1);
}

} // verus!
