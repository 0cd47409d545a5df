//! Rotary encoders read as two quadrature pins.
use vstd::prelude::*;

use crate::clock::{trunc_div, trunc_rem, Time};
use crate::input::DeltaInput;

verus! {

/// Direction of a move between two pin readings, indexed by
/// `previous << 2 | current`: 1 one way, -1 the other, 0 for no move or an
/// impossible jump.
pub open spec fn table_direction(code: u8) -> i8 {
    if code == 1 || code == 7 || code == 8 || code == 14 {
        -1i8
    } else if code == 2 || code == 4 || code == 11 || code == 13 {
        1
    } else {
        0
    }
}

/// Position of a four-move history in a clockwise detent, 1 to 4.
pub open spec fn cw_position(state: u8) -> int {
    if state == 0b01000010 {
        1
    } else if state == 0b00101011 {
        2
    } else if state == 0b10111101 {
        3
    } else if state == 0b11010100 {
        4
    } else {
        0
    }
}

/// Position of a four-move history in a counter-clockwise detent, 1 to 4.
pub open spec fn ccw_position(state: u8) -> int {
    if state == 0b10000001 {
        1
    } else if state == 0b00010111 {
        2
    } else if state == 0b01111110 {
        3
    } else if state == 0b11101000 {
        4
    } else {
        0
    }
}

/// The decoder's memory: the last two readings, the last four moves, and
/// the last detent position (negative counter-clockwise).
pub struct Decoder {
    pub prev_next: u8,
    pub state: u8,
    pub last_pos: i8,
}

/// What reading `cur` (pin a as bit 1, pin b as bit 0) does to decoder `d`:
/// the new memory and the step reported.
pub open spec fn decode(d: Decoder, cur: u8) -> (Decoder, i8) {
    if d.prev_next & 3 == cur {
        (d, 0)
    } else {
        let pn = (((d.prev_next as u32) << 2u32) & 0b1100u32 | cur as u32) as u8;
        if table_direction(pn) == 0 {
            (Decoder { prev_next: pn, state: d.state, last_pos: d.last_pos }, 0)
        } else {
            let st = ((((d.state as u32) << 4u32) | pn as u32) & 0xffu32) as u8;
            let pos: int = if cw_position(st) != 0 {
                cw_position(st)
            } else {
                -ccw_position(st)
            };
            if pos == 0 {
                (Decoder { prev_next: pn, state: st, last_pos: d.last_pos }, 0)
            } else {
                let new_turn = (pos == 1 || pos == -1) && d.last_pos != 1 && d.last_pos != -1;
                (
                    Decoder { prev_next: pn, state: st, last_pos: pos as i8 },
                    if new_turn {
                        if pos > 0 {
                            1i8
                        } else {
                            -1i8
                        }
                    } else {
                        0i8
                    },
                )
            }
        }
    }
}

/// Steps the decoder with reading `cur`; gives 1 or -1 once per detent, at
/// the start of a new turn, else 0.
pub fn decode_step(d: &mut Decoder, cur: u8)
    -> (r: i8)
    requires
        cur < 4,
    ensures
        (*final(d), r) == decode(*old(d), cur),
{
    if (d.prev_next & 0b11) == cur {
        return 0;
    }
    let pn: u8 = (((d.prev_next as u32) << 2u32) & 0b1100u32 | cur as u32) as u8;
    d.prev_next = pn;
    let direction: i8 = if pn == 1 || pn == 7 || pn == 8 || pn == 14 {
        -1
    } else if pn == 2 || pn == 4 || pn == 11 || pn == 13 {
        1
    } else {
        0
    };
    if direction == 0 {
        return 0;
    }
    let st: u8 = ((((d.state as u32) << 4u32) | pn as u32) & 0xffu32) as u8;
    d.state = st;
    let cw: i8 = if st == 0b01000010 {
        1
    } else if st == 0b00101011 {
        2
    } else if st == 0b10111101 {
        3
    } else if st == 0b11010100 {
        4
    } else {
        0
    };
    let ccw: i8 = if st == 0b10000001 {
        1
    } else if st == 0b00010111 {
        2
    } else if st == 0b01111110 {
        3
    } else if st == 0b11101000 {
        4
    } else {
        0
    };
    let pos: i8 = if cw != 0 {
        cw
    } else {
        -ccw
    };
    if pos == 0 {
        return 0;
    }
    let new_turn = (pos == 1 || pos == -1) && d.last_pos != 1 && d.last_pos != -1;
    d.last_pos = pos;
    if new_turn {
        if pos > 0 {
            1
        } else {
            -1
        }
    } else {
        0
    }
}

/// The two pins of a quadrature encoder.
pub trait QuadratureSource {
    /// The pins can be read.
    spec fn ready(&self) -> bool;

    fn pin_a(&self) -> bool
        requires
            self.ready(),
    ;

    fn pin_b(&self) -> bool
        requires
            self.ready(),
    ;
}

/// A rotary encoder: one step per detent, from its pins.
pub struct Encoder<T> {
    quad: T,
    decoder: Decoder,
}

impl<T: QuadratureSource> Encoder<T> {
    /// The decoder's memory.
    pub closed spec fn decoder(&self) -> Decoder {
        self.decoder
    }

    /// The pins can be read.
    pub closed spec fn wf(&self) -> bool {
        self.quad.ready()
    }

    /// An encoder over `quad`, taken to rest between detents.
    pub fn new(quad: T) -> (r: Self)
        requires
            quad.ready(),
        ensures
            r.wf(),
            r.decoder() == (Decoder { prev_next: 0, state: 0, last_pos: 4 }),
    {
        Encoder { quad, decoder: Decoder { prev_next: 0, state: 0, last_pos: 4 } }
    }
}

impl<T: QuadratureSource, const CLK: u32> DeltaInput<CLK> for Encoder<T> {
    open spec fn ready(&self) -> bool {
        self.wf()
    }

    /// Reads the pins and steps the decoder.
    fn tick(&mut self, now: Time<CLK>) -> (r: i8)
        ensures
            exists|cur: u8| cur < 4 && (final(self).decoder(), r) == decode(old(self).decoder(), cur),
    {
        let a: u8 = if self.quad.pin_a() {
            0b10
        } else {
            0
        };
        let b: u8 = if self.quad.pin_b() {
            0b01
        } else {
            0
        };
        let cur: u8 = a + b;
        let ghost before = self.decoder;
        let r = decode_step(&mut self.decoder, cur);
        assert(cur < 4 && (self.decoder(), r) == decode(old(self).decoder(), cur));
        r
    }
}

/// Quadrature pins as two bits of a word read by `read`.
pub struct BitmaskQuadratureSource<F> {
    read: F,
    mask_a: u32,
    mask_b: u32,
}

impl<F: Fn() -> u32> BitmaskQuadratureSource<F> {
    /// The word can be read at any time.
    pub closed spec fn wf(&self) -> bool {
        self.read.requires(())
    }

    /// Whether the word may read `v`.
    pub closed spec fn may_read(&self, v: u32) -> bool {
        self.read.ensures((), v)
    }

    /// The mask of pin a.
    pub closed spec fn mask_a(&self) -> u32 {
        self.mask_a
    }

    /// The mask of pin b.
    pub closed spec fn mask_b(&self) -> u32 {
        self.mask_b
    }

    /// Pins read from the word `read` gives, through `mask_a` and `mask_b`.
    pub fn new(read: F, mask_a: u32, mask_b: u32) -> (r: Self)
        requires
            read.requires(()),
        ensures
            r.ready(),
            r.mask_a() == mask_a,
            r.mask_b() == mask_b,
    {
        BitmaskQuadratureSource { read, mask_a, mask_b }
    }
}

impl<F: Fn() -> u32> QuadratureSource for BitmaskQuadratureSource<F> {
    open spec fn ready(&self) -> bool {
        self.wf()
    }

    /// Whether the word read shares a bit with the mask of pin a.
    fn pin_a(&self) -> (r: bool)
        ensures
            exists|w: u32| self.may_read(w) && r == (w & self.mask_a() != 0),
    {
        let w = (self.read)();
        assert(self.may_read(w));
        w & self.mask_a > 0
    }

    /// Whether the word read shares a bit with the mask of pin b.
    fn pin_b(&self) -> (r: bool)
        ensures
            exists|w: u32| self.may_read(w) && r == (w & self.mask_b() != 0),
    {
        let w = (self.read)();
        assert(self.may_read(w));
        w & self.mask_b > 0
    }
}

/// Speed lost per millisecond without a step.
pub const DECELERATION: u32 = 500;

/// Speed given to steps less than a millisecond apart.
pub const TOP_SPEED: u32 = 1_200_000;

/// Accumulated speed at which a step is repeated.
pub const ACC_STEP: u32 = 1_000_000;

/// What an accelerator remembers between polls.
#[derive(Clone, Copy)]
pub struct Accel<const CLK: u32> {
    /// Time of the last step of the encoder.
    pub prev_time: Time<CLK>,
    /// Direction of the last step of the encoder.
    pub prev_dir: i8,
    /// Current speed.
    pub speed: u32,
    /// Speed accumulated towards the next repeated step.
    pub acc: u32,
    /// Time of the last step or deceleration.
    pub last_emit: Time<CLK>,
}

/// `v` held to the range of `i64`.
pub open spec fn clamp64(v: int) -> int {
    if v > i64::MAX {
        i64::MAX as int
    } else if v < i64::MIN {
        i64::MIN as int
    } else {
        v
    }
}

/// -1, 0 or 1 as `v` is below, at or above zero.
pub open spec fn sign(v: int) -> int {
    if v > 0 {
        1
    } else if v < 0 {
        -1
    } else {
        0
    }
}

/// The speed that a step `dt` cycles after one in the same direction gives:
/// none after a second or more, the top speed within a millisecond, else
/// `TOP_SPEED` over the milliseconds (as `u32`).
pub open spec fn step_speed(dt: int, clk: int) -> u32 {
    if trunc_div(dt, clk) > 0 {
        0
    } else {
        let ms = trunc_div(trunc_rem(dt, clk), clk / 1000);
        if ms == 0 {
            TOP_SPEED
        } else {
            trunc_div(TOP_SPEED as int, ms) as u32
        }
    }
}

/// The accelerator's next memory and output after the encoder gave
/// `direction` at `now`.
///
/// A step is passed on. A step against the last one within 4 ms is dropped
/// as a bounce; against it later, it stops the speed; with it, it raises the
/// speed to what its gap gives (or stops it where that is 0). With no step,
/// each millisecond the speed falls by `DECELERATION` and adds to an
/// accumulator; each `ACC_STEP` accumulated repeats the last step.
pub open spec fn accel<const CLK: u32>(a: Accel<CLK>, now: Time<CLK>, direction: i8) -> (
    Accel<CLK>,
    i8,
) {
    if direction != 0 {
        let dt = clamp64(now.count - a.prev_time.count);
        let turned = sign(direction as int) != sign(a.prev_dir as int);
        let micros = trunc_div(trunc_rem(dt, CLK as int) * 1_000_000, CLK as int);
        if turned && micros < 4000 {
            (a, 0)
        } else {
            let speed: u32 = if turned {
                0
            } else {
                step_speed(dt, CLK as int)
            };
            let new_speed = if speed > a.speed || speed == 0 {
                speed
            } else {
                a.speed
            };
            (
                Accel {
                    prev_time: now,
                    prev_dir: direction,
                    speed: new_speed,
                    acc: a.acc,
                    last_emit: now,
                },
                direction,
            )
        }
    } else if now.count - a.last_emit.count >= CLK as int / 1000 {
        let speed: u32 = if a.speed > DECELERATION {
            (a.speed - DECELERATION) as u32
        } else {
            0
        };
        let total = a.acc + speed;
        if total >= ACC_STEP {
            (
                Accel {
                    prev_time: a.prev_time,
                    prev_dir: a.prev_dir,
                    speed,
                    acc: (total % ACC_STEP as int) as u32,
                    last_emit: now,
                },
                a.prev_dir,
            )
        } else {
            (
                Accel {
                    prev_time: a.prev_time,
                    prev_dir: a.prev_dir,
                    speed,
                    acc: if speed == 0 {
                        0
                    } else {
                        total as u32
                    },
                    last_emit: now,
                },
                0,
            )
        }
    } else {
        (
            Accel {
                prev_time: a.prev_time,
                prev_dir: a.prev_dir,
                speed: a.speed,
                acc: if a.speed == 0 {
                    0
                } else {
                    a.acc
                },
                last_emit: a.last_emit,
            },
            0,
        )
    }
}

/// Steps the accelerator's memory `a` with `direction` from the encoder at
/// `now`.
pub fn accel_step<const CLK: u32>(a: &mut Accel<CLK>, now: Time<CLK>, direction: i8) -> (r: i8)
    requires
        CLK >= 1000,
        old(a).acc < ACC_STEP,
    ensures
        (*final(a), r) == accel(*old(a), now, direction),
        final(a).acc < ACC_STEP,
{
    if direction != 0 {
        let d: i128 = (now.count as i128) - (a.prev_time.count as i128);
        let dc: i64 = if d > i64::MAX as i128 {
            i64::MAX
        } else if d < i64::MIN as i128 {
            i64::MIN
        } else {
            d as i64
        };
        let dt = Time::<CLK>::new(dc);
        let s1: i8 = if direction > 0 {
            1
        } else {
            -1
        };
        let s2: i8 = if a.prev_dir > 0 {
            1
        } else if a.prev_dir < 0 {
            -1
        } else {
            0
        };
        let turned = s1 != s2;
        if turned && dt.subsec_micros() < 4000 {
            return 0;
        }
        let speed: u32 = if turned {
            0
        } else if dt.seconds() > 0 {
            0
        } else {
            let ms: i64 = dt.subsec_millis();
            if ms == 0 {
                TOP_SPEED
            } else {
                let q: i64 = if ms > 0 {
                    TOP_SPEED as i64 / ms
                } else {
                    -(TOP_SPEED as i64 / -ms)
                };
                assert(q == trunc_div(TOP_SPEED as int, ms as int));
                #[verifier::truncate]
                (q as u32)
            }
        };
        if speed > a.speed || speed == 0 {
            a.speed = speed;
        }
        a.prev_time = now;
        a.prev_dir = direction;
        a.last_emit = now;
        return direction;
    }
    let limit = Time::<CLK>::from_millis(1);
    if (now.count as i128) - (a.last_emit.count as i128) >= limit.count as i128 {
        a.last_emit = now;
        if a.speed > DECELERATION {
            a.speed = a.speed - DECELERATION;
        } else {
            a.speed = 0;
        }
        let total: u64 = a.acc as u64 + a.speed as u64;
        if total >= ACC_STEP as u64 {
            a.acc = (total % ACC_STEP as u64) as u32;
            return a.prev_dir;
        }
        a.acc = total as u32;
    }
    if a.speed == 0 {
        a.acc = 0;
    }
    0
}

/// Speeds up an encoder: quick turns in one direction keep stepping for a
/// while after the encoder stops.
pub struct EncoderAccelerator<E, const CLK: u32> {
    encoder: E,
    state: Accel<CLK>,
}

impl<E: DeltaInput<CLK>, const CLK: u32> EncoderAccelerator<E, CLK> {
    /// The accelerator's memory.
    pub closed spec fn state(&self) -> Accel<CLK> {
        self.state
    }

    /// The encoder can be polled and the clock counts at least a kilohertz.
    pub closed spec fn wf(&self) -> bool {
        &&& self.encoder.ready()
        &&& CLK >= 1000
        &&& self.state.acc < ACC_STEP
    }

    /// An accelerator over `encoder`, at rest.
    pub fn new(encoder: E) -> (r: Self)
        requires
            encoder.ready(),
            CLK >= 1000,
        ensures
            r.wf(),
            r.state() == (Accel::<CLK> {
                prev_time: Time { count: 0 },
                prev_dir: 0,
                speed: 0,
                acc: 0,
                last_emit: Time { count: 0 },
            }),
    {
        EncoderAccelerator {
            encoder,
            state: Accel {
                prev_time: Time::new(0),
                prev_dir: 0,
                speed: 0,
                acc: 0,
                last_emit: Time::new(0),
            },
        }
    }
}

impl<E: DeltaInput<CLK>, const CLK: u32> DeltaInput<CLK> for EncoderAccelerator<E, CLK> {
    open spec fn ready(&self) -> bool {
        self.wf()
    }

    /// Polls the encoder and steps the accelerator with what it gave.
    fn tick(&mut self, now: Time<CLK>) -> (r: i8)
        ensures
            exists|d: i8| (final(self).state(), r) == accel(old(self).state(), now, d),
    {
        let direction = self.encoder.tick(now);
        let r = accel_step(&mut self.state, now, direction);
        assert((self.state(), r) == accel(old(self).state(), now, direction));
        r
    }
}

} // verus!
