//! Building blocks for a small embedded groove box, each with its contract
//! proved:
//!
//! * `delay`: the fixed-capacity delay line of the reverb, and the law that
//!   it hands its input back `n` samples later;
//! * `taps`: the choices a reverb makes when it is built (delay lengths in
//!   per-channel shares of a time range, polarity flips), all drawn from one
//!   generator;
//! * `rnd`: the deterministic generator behind every random choice;
//! * `clock`: time in CPU cycles, and a 64-bit clock over a 32-bit counter;
//! * `pat`, `euclid`: rhythmic patterns and euclidean distribution of beats;
//! * `tempo`: prediction of the next clock interval;
//! * `input`, `encoder`: levels, edges, debouncing, quadrature decoding and
//!   acceleration;
//! * `matrix`: text drawn on a 7x5 LED matrix;
//! * `ring_buf`, `bitfield`: a bounded queue and bit flags.
pub mod bitfield;
pub mod clock;
pub mod delay;
pub mod encoder;
pub mod euclid;
pub mod input;
pub mod matrix;
pub mod pat;
pub mod ring_buf;
pub mod rnd;
pub mod taps;
pub mod tempo;
