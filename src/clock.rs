//! Time kept by counting CPU cycles.
use vstd::arithmetic::div_mod::*;
use vstd::prelude::*;

verus! {

/// Half of the 32-bit cycle counter's range.
pub const HALF: u32 = 0x8000_0000;

/// Milliseconds in a second.
pub const MILLIS: i64 = 1000;

/// Microseconds in a second.
pub const MICROS: i64 = 1_000_000;

/// Nanoseconds in a second.
pub const NANOS: i64 = 1_000_000_000;

/// The magnitude of `a`.
pub open spec fn abs(a: int) -> int {
    if a < 0 {
        -a
    } else {
        a
    }
}

/// `a / b` rounded toward zero, as Rust's `/` on signed integers does
/// (`b != 0`).
pub open spec fn trunc_div(a: int, b: int) -> int {
    if (a < 0) == (b < 0) {
        abs(a) / abs(b)
    } else {
        -(abs(a) / abs(b))
    }
}

/// The remainder of `a / b` taking the sign of `a`, as Rust's `%` on signed
/// integers does (`b > 0`).
pub open spec fn trunc_rem(a: int, b: int) -> int {
    if a >= 0 {
        a % b
    } else {
        -((-a) % b)
    }
}

/// Whether `r` is the greatest common divisor of `a` and `b`.
pub open spec fn is_gcd(a: u64, b: u64, r: u64) -> bool {
    &&& (b > 0 ==> r > 0)
    &&& (r > 0 ==> a % r == 0 && b % r == 0)
    &&& forall|d: u64| d > 0 && a % d == 0 && b % d == 0 ==> #[trigger] (r % d) == 0
}

/// Relies on `gcd::Gcd::gcd` for `u64`: the greatest common divisor, 0 only
/// where both arguments are 0.
#[verifier::external_body]
fn gcd_u64(a: u64, b: u64) -> (r: u64)
    ensures
        is_gcd(a, b, r),
{
    gcd::Gcd::gcd(a, b)
}

/// The text `<seconds>.<milliseconds, three digits>s`.
pub uninterp spec fn seconds_text(secs: int, millis: int) -> Seq<char>;

/// Relies on `format!` with `"{}.{:03}s"`.
#[verifier::external_body]
fn format_seconds(secs: i64, millis: i64) -> (r: String)
    ensures
        r@ == seconds_text(secs as int, millis as int),
{
    format!("{}.{:03}s", secs, millis)
}

/// A point in time, or a span of time, counted in cycles of a clock running
/// at `FQ` Hz.
#[derive(Clone, Copy, PartialEq, Eq, PartialOrd, Ord, Default, Debug)]
pub struct Time<const FQ: u32> {
    pub count: i64,
}

/// Truncating division of `x` by a positive `f` gives the same whole number
/// as dividing `x * (n / g)` by `f / g`, for `g` dividing both `n` and `f`.
proof fn lemma_scaled_div(x: int, n: int, f: int, g: int)
    requires
        0 <= x,
        0 < g,
        0 < f,
        0 < n,
        n % g == 0,
        f % g == 0,
    ensures
        (x * (n / g)) / (f / g) == (x * n) / f,
{
    lemma_fundamental_div_mod(n, g);
    lemma_fundamental_div_mod(f, g);
    let n1 = n / g;
    let f1 = f / g;
    assert(n == g * n1);
    assert(f == g * f1);
    assert(f1 > 0) by (nonlinear_arith)
        requires
            f == g * f1,
            f > 0,
            g > 0,
    ;
    assert(x * n == (x * n1) * g) by (nonlinear_arith)
        requires
            n == g * n1,
    ;
    lemma_div_denominator(x * n, g, f1);
    assert((x * n1) * g / g == x * n1) by {
        lemma_div_by_multiple(x * n1, g);
    }
    assert(x * n / (g * f1) == (x * n / g) / f1);
}

impl<const FQ: u32> Time<FQ> {
    /// A time of `count` cycles.
    pub fn new(count: i64) -> (r: Self)
        ensures
            r.count == count,
    {
        Time { count }
    }

    /// The time `secs` seconds in.
    pub fn from_secs(secs: i64) -> (r: Self)
        requires
            i64::MIN <= secs * FQ <= i64::MAX,
        ensures
            r.count == secs * FQ,
    {
        Time { count: secs * (FQ as i64) }
    }

    /// The time `millis` milliseconds in, rounded toward zero.
    pub fn from_millis(millis: i64) -> (r: Self)
        requires
            i64::MIN <= millis * FQ <= i64::MAX,
        ensures
            r.count == trunc_div(millis * FQ, MILLIS as int),
    {
        Time { count: (millis * FQ as i64) / MILLIS }
    }

    /// The time `micros` microseconds in, rounded toward zero.
    pub fn from_micros(micros: i64) -> (r: Self)
        requires
            i64::MIN <= micros * FQ <= i64::MAX,
        ensures
            r.count == trunc_div(micros * FQ, MICROS as int),
    {
        Time { count: (micros * FQ as i64) / MICROS }
    }

    /// The time `nanos` nanoseconds in, rounded toward zero.
    pub fn from_nanos(nanos: i64) -> (r: Self)
        requires
            i64::MIN <= nanos * FQ <= i64::MAX,
        ensures
            r.count == trunc_div(nanos * FQ, NANOS as int),
    {
        Time { count: (nanos * FQ as i64) / NANOS }
    }

    /// Whole seconds, rounded toward zero.
    pub fn seconds(&self) -> (r: i64)
        requires
            FQ > 0,
        ensures
            r == trunc_div(self.count as int, FQ as int),
    {
        self.count / (FQ as i64)
    }

    /// The part below a second, in whole milliseconds of `FQ / 1000` cycles.
    pub fn subsec_millis(&self) -> (r: i64)
        requires
            FQ >= 1000,
        ensures
            r == trunc_div(trunc_rem(self.count as int, FQ as int), FQ as int / 1000),
    {
        let rest: i64 = self.count % FQ as i64;
        rest / ((FQ as i64) / MILLIS)
    }

    /// The part below a second in a scale of `unit` steps a second, rounded
    /// toward zero.
    fn subsec_scaled(&self, unit: i64) -> (r: i64)
        requires
            FQ > 0,
            0 < unit <= NANOS,
        ensures
            r == trunc_div(trunc_rem(self.count as int, FQ as int) * unit, FQ as int),
    {
        let rest: i64 = self.count % FQ as i64;
        let g0: u64 = gcd_u64(FQ as u64, unit as u64);
        proof {
            lemma_mod_is_zero(unit as nat, g0 as nat);
            lemma_mod_is_zero(FQ as nat, g0 as nat);
        }
        let g: i64 = g0 as i64;
        let nom: i64 = (FQ as i64) / g;
        let denom: i64 = unit / g;
        proof {
            let r = rest as int;
            assert(-(FQ as int) < r < FQ as int);
            lemma_div_is_ordered_by_denominator(unit as int, 1, g as int);
            lemma_div_is_ordered_by_denominator(FQ as int, 1, g as int);
            assert(unit / g <= unit);
            lemma_div_is_ordered(g as int, FQ as int, g as int);
            lemma_div_by_self(g as int);
            assert(0 < nom);
            assert(r * denom < (FQ as int) * NANOS) by (nonlinear_arith)
                requires
                    r < FQ,
                    0 <= denom <= NANOS,
                    FQ > 0,
            ;
            assert(r * denom > -(FQ as int) * NANOS) by (nonlinear_arith)
                requires
                    r > -(FQ as int),
                    0 <= denom <= NANOS,
                    FQ > 0,
            ;
            if r >= 0 {
                lemma_scaled_div(r, unit as int, FQ as int, g as int);
            } else {
                lemma_scaled_div(-r, unit as int, FQ as int, g as int);
                assert((-r) * denom == -(r * denom)) by (nonlinear_arith);
                assert((-r) * unit == -(r * unit)) by (nonlinear_arith);
            }
        }
        (rest * denom) / nom
    }

    /// The part below a second in whole microseconds.
    pub fn subsec_micros(&self) -> (r: i64)
        requires
            FQ > 0,
        ensures
            r == trunc_div(trunc_rem(self.count as int, FQ as int) * MICROS, FQ as int),
    {
        self.subsec_scaled(MICROS)
    }

    /// The part below a second in whole nanoseconds.
    pub fn subsec_nanos(&self) -> (r: i64)
        requires
            FQ > 0,
        ensures
            r == trunc_div(trunc_rem(self.count as int, FQ as int) * NANOS, FQ as int),
    {
        self.subsec_scaled(NANOS)
    }

    /// The number of clock cycles.
    pub fn count(&self) -> (r: i64)
        ensures
            r == self.count,
    {
        self.count
    }

    /// The time as text: whole seconds, a dot, three digits of milliseconds,
    /// and `s` (`10.000s`).
    pub fn to_text(&self) -> (r: String)
        requires
            FQ >= 1000,
        ensures
            r@ == seconds_text(
                trunc_div(self.count as int, FQ as int),
                trunc_div(trunc_rem(self.count as int, FQ as int), FQ as int / 1000),
            ),
    {
        format_seconds(self.seconds(), self.subsec_millis())
    }
}

/// The 64-bit cycle count made of a high and a low 32-bit word.
pub open spec fn join_words(upper: u32, lower: u32) -> int {
    upper as int * 0x1_0000_0000 + lower as int
}

/// Whether going from cycle counter value `prev` to `cur` is read as the
/// counter having wrapped around.
pub open spec fn wrapped(prev: u32, cur: u32) -> bool {
    cur < HALF && prev > HALF
}

/// A clock built on a 32-bit cycle counter, read by `sample_fn`, giving 64
/// bits of time. `tick` must run often enough that the counter never wraps
/// twice in between (about every 7 s at 600 MHz).
pub struct Clock<S, const FQ: u32> {
    sample_fn: S,
    upper: u32,
    lower: u32,
}

impl<S: Fn() -> u32, const FQ: u32> Clock<S, FQ> {
    /// The number of times the counter has wrapped.
    pub closed spec fn upper(&self) -> u32 {
        self.upper
    }

    /// The counter value last read.
    pub closed spec fn lower(&self) -> u32 {
        self.lower
    }

    /// The counter can be read at any time.
    pub closed spec fn wf(&self) -> bool {
        self.sample_fn.requires(())
    }

    /// Whether the counter may read `v`.
    pub closed spec fn may_read(&self, v: u32) -> bool {
        self.sample_fn.ensures((), v)
    }

    /// A clock reading its counter with `sample_fn`; it starts with the
    /// value read now and no wraps.
    pub fn new(sample_fn: S) -> (r: Self)
        requires
            sample_fn.requires(()),
        ensures
            r.wf(),
            r.upper() == 0,
            r.may_read(r.lower()),
    {
        let start = sample_fn();
        Clock { sample_fn, upper: 0, lower: start }
    }

    /// Reads the counter and counts a wrap where the value went from the
    /// upper half to the lower half.
    pub fn tick(&mut self)
        requires
            old(self).wf(),
            old(self).upper() < u32::MAX,
        ensures
            final(self).wf(),
            old(self).may_read(final(self).lower()),
            final(self).upper() == if wrapped(old(self).lower(), final(self).lower()) {
                old(self).upper() + 1
            } else {
                old(self).upper() as int
            },
    {
        let cur = (self.sample_fn)();
        if cur < HALF && self.lower > HALF {
            self.upper = self.upper + 1;
        }
        self.lower = cur;
    }

    /// The time of counter value `cycle_count`, read against this clock: a
    /// value in the lower half while the clock is in the upper half is taken
    /// to lie after the next wrap.
    pub fn time_relative(&self, cycle_count: u32) -> (r: Time<FQ>)
        requires
            self.upper() < HALF - 1,
        ensures
            r.count == join_words(
                if wrapped(self.lower(), cycle_count) {
                    (self.upper() + 1) as u32
                } else {
                    self.upper()
                },
                cycle_count,
            ),
    {
        let upper: u32 = if cycle_count < HALF && self.lower > HALF {
            self.upper + 1
        } else {
            self.upper
        };
        Time { count: words_to_count(upper, cycle_count) }
    }

    /// The time of the last reading.
    pub fn now(&self) -> (r: Time<FQ>)
        requires
            self.upper() < HALF,
        ensures
            r.count == join_words(self.upper(), self.lower()),
    {
        Time { count: words_to_count(self.upper, self.lower) }
    }

    /// Whether `until` has passed since `start`, by the last reading.
    pub fn delay_elapsed(&self, start: Time<FQ>, until: Time<FQ>) -> (r: bool)
        requires
            self.upper() < HALF,
            0 <= start.count <= join_words(self.upper(), self.lower()),
        ensures
            r == (join_words(self.upper(), self.lower()) - start.count >= until.count),
    {
        let now = self.now();
        now.count - start.count >= until.count
    }
}

/// The 64-bit count `(upper << 32) | lower`.
fn words_to_count(upper: u32, lower: u32) -> (r: i64)
    requires
        upper < HALF,
    ensures
        r == join_words(upper, lower),
{
    let u: i64 = upper as i64;
    let l: i64 = lower as i64;
    let r: i64 = (u << 32u64) | l;
    assert(r == u * 0x1_0000_0000 + l) by (bit_vector)
        requires
            0 <= u < 0x8000_0000,
            0 <= l < 0x1_0000_0000,
            r == (u << 32u64) | l,
    ;
    r
}

impl<const FQ: u32> core::ops::Add for Time<FQ> {
    type Output = Self;

    fn add(self, rhs: Self) -> (r: Self) {
        Time { count: self.count + rhs.count }
    }
}

impl<const FQ: u32> vstd::std_specs::ops::AddSpecImpl for Time<FQ> {
    open spec fn obeys_add_spec() -> bool {
        true
    }

    open spec fn add_req(self, rhs: Self) -> bool {
        i64::MIN <= self.count + rhs.count <= i64::MAX
    }

    open spec fn add_spec(self, rhs: Self) -> Self {
        Time { count: (self.count + rhs.count) as i64 }
    }
}

impl<const FQ: u32> core::ops::Sub for Time<FQ> {
    type Output = Self;

    fn sub(self, rhs: Self) -> (r: Self) {
        Time { count: self.count - rhs.count }
    }
}

impl<const FQ: u32> vstd::std_specs::ops::SubSpecImpl for Time<FQ> {
    open spec fn obeys_sub_spec() -> bool {
        true
    }

    open spec fn sub_req(self, rhs: Self) -> bool {
        i64::MIN <= self.count - rhs.count <= i64::MAX
    }

    open spec fn sub_spec(self, rhs: Self) -> Self {
        Time { count: (self.count - rhs.count) as i64 }
    }
}

} // verus!
