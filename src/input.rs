//! Inputs polled with the time of the poll: levels, edges and deltas.
use vstd::prelude::*;

use crate::clock::Time;

verus! {

/// Least time, in milliseconds, that a debounced input holds a level.
pub const DEBOUNCE_MILLIS: i64 = 1;

/// An input that produces deltas, such as a rotary encoder giving -1, 0 or
/// 1. Gives 0 while there is nothing to report.
pub trait DeltaInput<const CLK: u32> {
    /// The input can be polled.
    spec fn ready(&self) -> bool;

    fn tick(&mut self, now: Time<CLK>) -> (r: i8)
        requires
            old(self).ready(),
        ensures
            final(self).ready(),
    ;
}

/// An input that is either high or low.
pub trait DigitalInput<const CLK: u32>: Sized {
    /// The input can be polled.
    spec fn ready(&self) -> bool;

    fn tick(&mut self, now: Time<CLK>) -> (r: HiLo<CLK>)
        requires
            old(self).ready(),
        ensures
            final(self).ready(),
    ;
}

/// An input that switches between low and high now and then, reported as
/// the edges between the two. Gives `None` while nothing changes.
pub trait EdgeInput<const CLK: u32> {
    /// The input can be polled.
    spec fn ready(&self) -> bool;

    fn tick(&mut self, now: Time<CLK>) -> (r: Option<Edge<CLK>>)
        requires
            old(self).ready(),
        ensures
            final(self).ready(),
    ;
}

/// A level, high or low, with the time it was read at or changed at.
#[derive(Debug, Clone, Copy)]
pub enum HiLo<const CLK: u32> {
    Hi(Time<CLK>),
    Lo(Time<CLK>),
}

/// The time carried by a level.
pub open spec fn hilo_time<const CLK: u32>(v: HiLo<CLK>) -> Time<CLK> {
    match v {
        HiLo::Hi(t) => t,
        HiLo::Lo(t) => t,
    }
}

/// Whether a level is high.
pub open spec fn hilo_high<const CLK: u32>(v: HiLo<CLK>) -> bool {
    v is Hi
}

impl<const CLK: u32> HiLo<CLK> {
    /// Whether both levels are high or both are low, whatever their times.
    pub fn is_same_state(&self, other: &HiLo<CLK>) -> (r: bool)
        ensures
            r == (hilo_high(*self) == hilo_high(*other)),
    {
        match (self, other) {
            (HiLo::Hi(_), HiLo::Hi(_)) => true,
            (HiLo::Lo(_), HiLo::Lo(_)) => true,
            _ => false,
        }
    }

    /// The time carried.
    pub fn time(&self) -> (r: &Time<CLK>)
        ensures
            *r == hilo_time(*self),
    {
        match self {
            HiLo::Hi(v) => v,
            HiLo::Lo(v) => v,
        }
    }

    /// Whether the level is high.
    pub fn is_set(&self) -> (r: bool)
        ensures
            r == hilo_high(*self),
    {
        match self {
            HiLo::Hi(_) => true,
            HiLo::Lo(_) => false,
        }
    }

    /// The time the level changed to what it is now.
    pub fn since(&self) -> (r: &Time<CLK>)
        ensures
            *r == hilo_time(*self),
    {
        match self {
            HiLo::Hi(t) => t,
            HiLo::Lo(t) => t,
        }
    }
}

impl<const CLK: u32> PartialEq for HiLo<CLK> {
    fn eq(&self, other: &Self) -> (r: bool) {
        self.is_same_state(other)
    }
}

impl<const CLK: u32> vstd::std_specs::cmp::PartialEqSpecImpl for HiLo<CLK> {
    open spec fn obeys_eq_spec() -> bool {
        true
    }

    open spec fn eq_spec(&self, other: &HiLo<CLK>) -> bool {
        hilo_high(*self) == hilo_high(*other)
    }
}

/// A change of level, with its time.
#[derive(Debug, Clone, Copy, PartialEq, Eq, PartialOrd, Ord)]
pub enum Edge<const CLK: u32> {
    Rising(Time<CLK>),
    Falling(Time<CLK>),
}

/// The edge that leads to level `v`.
pub open spec fn edge_into<const CLK: u32>(v: HiLo<CLK>) -> Edge<CLK> {
    match v {
        HiLo::Hi(t) => Edge::Rising(t),
        HiLo::Lo(t) => Edge::Falling(t),
    }
}

/// The edge between level `prev` and a newly read level `cur`: none where
/// both are high or both low, else the edge into `cur`.
pub fn edge_between<const CLK: u32>(prev: HiLo<CLK>, cur: HiLo<CLK>) -> (r: Option<Edge<CLK>>)
    ensures
        hilo_high(prev) == hilo_high(cur) ==> r.is_none(),
        hilo_high(prev) != hilo_high(cur) ==> r == Some(edge_into(cur)),
{
    if prev.is_same_state(&cur) {
        None
    } else {
        Some(
            match cur {
                HiLo::Hi(t) => Edge::Rising(t),
                HiLo::Lo(t) => Edge::Falling(t),
            },
        )
    }
}

/// Whether more than `DEBOUNCE_MILLIS` passed from `since` to `now`.
pub open spec fn held_long_enough<const CLK: u32>(since: Time<CLK>, now: Time<CLK>) -> bool {
    now.count - since.count > DEBOUNCE_MILLIS * CLK / 1000
}

/// The debounced level after reading `cur` at `now` while holding `held`: a
/// new level is taken only once the held one is older than
/// `DEBOUNCE_MILLIS`.
pub fn debounce_step<const CLK: u32>(
    held: HiLo<CLK>,
    cur: HiLo<CLK>,
    now: Time<CLK>,
) -> (r: HiLo<CLK>)
    ensures
        r == if hilo_high(held) != hilo_high(cur) && held_long_enough(hilo_time(held), now) {
            cur
        } else {
            held
        },
{
    let limit = Time::<CLK>::from_millis(DEBOUNCE_MILLIS);
    if !held.is_same_state(&cur) {
        let since = *held.time();
        if (now.count as i128) - (since.count as i128) > limit.count as i128 {
            return cur;
        }
    }
    held
}

/// A level input over a word read by `read`: high where any bit of `mask`
/// is set.
pub struct BitmaskDigitalInput<F> {
    read: F,
    mask: u32,
}

impl<F: Fn() -> u32> BitmaskDigitalInput<F> {
    /// The mask tested.
    pub closed spec fn mask(&self) -> u32 {
        self.mask
    }

    /// The word can be read at any time.
    pub closed spec fn wf(&self) -> bool {
        self.read.requires(())
    }

    /// An input reading its word with `read` and testing it with `mask`.
    pub fn new(read: F, mask: u32) -> (r: Self)
        requires
            read.requires(()),
        ensures
            r.wf(),
            r.mask() == mask,
    {
        BitmaskDigitalInput { read, mask }
    }

    /// Whether the word may read `v`.
    pub closed spec fn may_read(&self, v: u32) -> bool {
        self.read.ensures((), v)
    }
}

/// The level of `word` under `mask` at `now`: high where they share a bit.
pub fn masked_level<const CLK: u32>(word: u32, mask: u32, now: Time<CLK>) -> (r: HiLo<CLK>)
    ensures
        r == if word & mask != 0 {
            HiLo::Hi(now)
        } else {
            HiLo::Lo(now)
        },
{
    if word & mask > 0 {
        HiLo::Hi(now)
    } else {
        HiLo::Lo(now)
    }
}

impl<F: Fn() -> u32, const CLK: u32> DigitalInput<CLK> for BitmaskDigitalInput<F> {
    open spec fn ready(&self) -> bool {
        self.wf()
    }

    /// Reads the word: high at `now` where it shares a bit with the mask.
    fn tick(&mut self, now: Time<CLK>) -> (r: HiLo<CLK>)
        ensures
            exists|w: u32|
                old(self).may_read(w) && r == (if w & old(self).mask() != 0 {
                    HiLo::Hi(now)
                } else {
                    HiLo::Lo(now)
                }),
    {
        let word = (self.read)();
        let r = masked_level(word, self.mask, now);
        assert(old(self).may_read(word));
        r
    }
}

/// Reports the edges of a level input.
pub struct DigitalEdgeInput<I, const CLK: u32> {
    input: I,
    value: HiLo<CLK>,
}

impl<I: DigitalInput<CLK>, const CLK: u32> DigitalEdgeInput<I, CLK> {
    /// The wrapped input can be polled.
    pub closed spec fn wf(&self) -> bool {
        self.input.ready()
    }

    /// The level last seen.
    pub closed spec fn value(&self) -> HiLo<CLK> {
        self.value
    }

    /// Wraps `input`, taking its level at time zero as the starting level.
    pub fn new(input: I) -> (r: Self)
        requires
            input.ready(),
        ensures
            r.wf(),
    {
        let mut input = input;
        let value = input.tick(Time::new(0));
        DigitalEdgeInput { input, value }
    }
}

impl<I: DigitalInput<CLK>, const CLK: u32> EdgeInput<CLK> for DigitalEdgeInput<I, CLK> {
    open spec fn ready(&self) -> bool {
        self.wf()
    }

    /// Polls the input and reports the edge into its level where it changed.
    fn tick(&mut self, now: Time<CLK>) -> (r: Option<Edge<CLK>>)
        ensures
            r.is_none() ==> final(self).value() == old(self).value(),
            r.is_some() ==> hilo_high(final(self).value()) != hilo_high(old(self).value()) && r
                == Some(edge_into(final(self).value())),
    {
        let x = self.input.tick(now);
        let e = edge_between(self.value, x);
        if e.is_some() {
            self.value = x;
        }
        e
    }
}

/// Holds a level until the input has kept another one for longer than
/// `DEBOUNCE_MILLIS`, so a bouncing switch reads as one change.
pub struct DebounceDigitalInput<I, const CLK: u32> {
    input: I,
    value: HiLo<CLK>,
}

impl<I: DigitalInput<CLK>, const CLK: u32> DebounceDigitalInput<I, CLK> {
    /// The wrapped input can be polled.
    pub closed spec fn wf(&self) -> bool {
        self.input.ready()
    }

    /// The level held.
    pub closed spec fn value(&self) -> HiLo<CLK> {
        self.value
    }

    /// Wraps `input`, taking its level at time zero as the starting level.
    pub fn new(input: I) -> (r: Self)
        requires
            input.ready(),
        ensures
            r.wf(),
    {
        let mut input = input;
        let value = input.tick(Time::new(0));
        DebounceDigitalInput { input, value }
    }
}

impl<I: DigitalInput<CLK>, const CLK: u32> DigitalInput<CLK> for DebounceDigitalInput<I, CLK> {
    open spec fn ready(&self) -> bool {
        self.wf()
    }

    /// Polls the input and gives the debounced level.
    fn tick(&mut self, now: Time<CLK>) -> (r: HiLo<CLK>)
        ensures
            r == final(self).value(),
            final(self).value() == old(self).value() || (hilo_high(final(self).value())
                != hilo_high(old(self).value()) && held_long_enough(
                hilo_time(old(self).value()),
                now,
            )),
    {
        let cur = self.input.tick(now);
        self.value = debounce_step(self.value, cur, now);
        self.value
    }
}

impl<const CLK: u32> DeltaInput<CLK> for () {
    open spec fn ready(&self) -> bool {
        true
    }

    fn tick(&mut self, now: Time<CLK>) -> (r: i8) {
        0
    }
}

impl<const CLK: u32> DigitalInput<CLK> for () {
    open spec fn ready(&self) -> bool {
        true
    }

    fn tick(&mut self, now: Time<CLK>) -> (r: HiLo<CLK>) {
        HiLo::Lo(Time::new(0))
    }
}

impl<const CLK: u32> EdgeInput<CLK> for () {
    open spec fn ready(&self) -> bool {
        true
    }

    fn tick(&mut self, now: Time<CLK>) -> (r: Option<Edge<CLK>>) {
        None
    }
}

} // verus!
