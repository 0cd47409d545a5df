use vstd::arithmetic::div_mod::*;
use vstd::prelude::*;
use vstd::string::StringExecFns;

verus! {

/// The most steps a pattern can hold.
pub const MAX_LEN: usize = 64;

/// Velocity of a plain step.
pub const VELOCITY_PLAIN: u8 = 127;

/// Velocity of an accented step.
pub const VELOCITY_ACCENT: u8 = 255;

/// A sequence of at most `MAX_LEN` values kept in a fixed array, with the
/// number of values in use beside it. Slots past the length keep whatever
/// they held and are not part of the pattern.
#[derive(Clone, Copy, PartialEq, Eq, Debug)]
pub struct Pat<T>(pub [T; MAX_LEN], pub usize);

/// A rhythmical pattern: each step is the velocity of that step, 0 for a rest.
pub type Pattern = Pat<u8>;

/// A pattern of patterns.
pub type PatternGroup = Pat<Pattern>;

/// The values of `s` at positions `from..to`, the end cut back to the length.
pub open spec fn sub_view<T>(s: Seq<T>, from: int, to: int) -> Seq<T> {
    s.subrange(from, if to < s.len() { to } else { s.len() as int })
}

/// `s` repeated until it is `len` long (empty where `s` is).
pub open spec fn repeat_view<T>(s: Seq<T>, len: nat) -> Seq<T> {
    if s.len() == 0 {
        Seq::empty()
    } else {
        Seq::new(len, |i: int| s[i % (s.len() as int)])
    }
}

/// `s` read from position `m` on, wrapping round to its start, `m` below its
/// length.
pub open spec fn rotate_view<T>(s: Seq<T>, m: int) -> Seq<T> {
    s.subrange(m, s.len() as int) + s.subrange(0, m)
}

impl<T: Copy> Pat<T> {
    /// The values in use.
    pub open spec fn view(&self) -> Seq<T> {
        self.0@.subrange(0, self.1 as int)
    }

    /// The length stays within the array.
    pub open spec fn wf(&self) -> bool {
        self.1 <= MAX_LEN
    }

    /// A pattern of `len` copies of `val`.
    pub fn new_with(val: T, len: usize) -> (r: Self)
        requires
            len <= MAX_LEN,
        ensures
            r.wf(),
            r.view() == Seq::new(len as nat, |_i: int| val),
            forall|i: int| 0 <= i < MAX_LEN ==> #[trigger] r.0@[i] == val,
    {
        let r = Pat([val; MAX_LEN], len);
        assert(r.view() =~= Seq::new(len as nat, |_i: int| val));
        r
    }

    /// Number of values in use.
    pub fn len(&self) -> (r: usize)
        requires
            self.wf(),
        ensures
            r == self.view().len(),
    {
        self.1
    }

    /// Appends `val`.
    pub fn push(&mut self, val: T)
        requires
            old(self).wf(),
            old(self).view().len() < MAX_LEN,
        ensures
            final(self).wf(),
            final(self).view() == old(self).view().push(val),
    {
        self.0[self.1] = val;
        self.1 = self.1 + 1;
        assert(self.view() =~= old(self).view().push(val));
    }

    /// The value at `index`, if it is in use.
    pub fn get(&self, index: usize) -> (r: Option<T>)
        requires
            self.wf(),
        ensures
            index < self.view().len() ==> r == Some(self.view()[index as int]),
            index >= self.view().len() ==> r.is_none(),
    {
        if index < self.1 {
            Some(self.0[index])
        } else {
            None
        }
    }

    /// The value at `index`, which must be in use.
    pub fn at(&self, index: usize) -> (r: T)
        requires
            self.wf(),
            index < self.view().len(),
        ensures
            r == self.view()[index as int],
    {
        self.0[index]
    }

    /// Sets the value at `index`, counted modulo the length (so -1 is the
    /// last value).
    pub fn set(&mut self, index: isize, v: T)
        requires
            old(self).wf(),
            old(self).view().len() > 0,
        ensures
            final(self).wf(),
            final(self).view() == old(self).view().update(
                index as int % old(self).view().len() as int,
                v,
            ),
    {
        let n: usize = self.1;
        let ghost len = n as int;
        let step: isize = n as isize;
        let mut i: isize = index;
        while i < 0
            invariant
                0 < len <= MAX_LEN,
                n == len,
                step == len,
                i as int % len == index as int % len,
                i as int >= index as int,
            decreases if i < 0 { 0 - i as int } else { 0 },
        {
            proof {
                lemma_mod_add_multiples_vanish(i as int, len);
            }
            i = i + step;
        }
        let k: usize = i as usize % n;
        proof {
            lemma_mod_bound(i as int, len);
        }
        self.0[k] = v;
        assert(self.view() =~= old(self).view().update(index as int % len, v));
    }
}

impl<T: Copy + Default> Pat<T> {
    /// An empty pattern.
    pub fn new() -> (r: Self)
        ensures
            r.wf(),
            r.view().len() == 0,
    {
        Pat([T::default(); MAX_LEN], 0)
    }

    /// A copy of the values at positions `from..to`; `to` is cut back to the
    /// length, and `from` must not lie past the result's end.
    pub fn sub(&self, from: usize, to: usize) -> (r: Self)
        requires
            self.wf(),
            from <= to,
            from <= self.view().len(),
        ensures
            r.wf(),
            r.view() == sub_view(self.view(), from as int, to as int),
    {
        let end: usize = if self.1 < to { self.1 } else { to };
        let len: usize = end - from;
        let mut p: [T; MAX_LEN] = [T::default(); MAX_LEN];
        let mut i: usize = 0;
        while i < len
            invariant
                self.wf(),
                from + len == end <= self.1,
                i <= len,
                forall|j: int| 0 <= j < i ==> p@[j] == self.0@[j + from],
            decreases len - i,
        {
            p[i] = self.0[i + from];
            i = i + 1;
        }
        let r = Pat(p, len);
        assert(r.view() =~= sub_view(self.view(), from as int, to as int));
        r
    }

    /// The two patterns one after the other.
    pub fn concat(&self, rhs: &Self) -> (r: Self)
        requires
            self.wf(),
            rhs.wf(),
            self.view().len() + rhs.view().len() <= MAX_LEN,
        ensures
            r.wf(),
            r.view() == self.view() + rhs.view(),
    {
        let mut r = *self;
        r.append(rhs);
        r
    }

    /// Appends the values of `rhs`.
    pub fn append(&mut self, rhs: &Self)
        requires
            old(self).wf(),
            rhs.wf(),
            old(self).view().len() + rhs.view().len() <= MAX_LEN,
        ensures
            final(self).wf(),
            final(self).view() == old(self).view() + rhs.view(),
    {
        let off: usize = self.1;
        let mut i: usize = 0;
        while i < rhs.1
            invariant
                rhs.wf(),
                off == old(self).1,
                self.1 == off,
                off + rhs.1 <= MAX_LEN,
                i <= rhs.1,
                forall|j: int| 0 <= j < off ==> self.0@[j] == old(self).0@[j],
                forall|j: int| 0 <= j < i ==> self.0@[j + off] == rhs.0@[j],
            decreases rhs.1 - i,
        {
            self.0[i + off] = rhs.0[i];
            i = i + 1;
        }
        self.1 = off + rhs.1;
        assert(self.view() =~= old(self).view() + rhs.view());
    }

    /// A copy that starts `offset` steps in: values before that point move to
    /// the end (`x--x-` with offset 1 is `--x-x`).
    pub fn offset(&self, offset: u8) -> (r: Self)
        requires
            self.wf(),
            self.view().len() > 0,
        ensures
            r.wf(),
            r.view() == rotate_view(self.view(), offset as int % self.view().len() as int),
    {
        let m: usize = (offset as usize) % self.1;
        let a = self.sub(m, self.1);
        let b = self.sub(0, m);
        a.concat(&b)
    }

    /// The pattern repeated up to a length of `len`, the last repetition cut
    /// short; an empty pattern stays empty.
    pub fn repeat_to(&self, len: usize) -> (r: Self)
        requires
            self.wf(),
            len <= MAX_LEN,
        ensures
            r.wf(),
            r.view() == repeat_view(self.view(), len as nat),
    {
        let mut x = Self::new();
        if self.1 == 0 {
            assert(x.view() =~= repeat_view(self.view(), len as nat));
            return x;
        }
        let ghost s = self.view();
        let ghost l = self.1 as int;
        let n: usize = len / self.1;
        let m: usize = len % self.1;
        proof {
            lemma_fundamental_div_mod(len as int, l);
        }
        let mut k: usize = 0;
        while k < n
            invariant
                self.wf(),
                s == self.view(),
                l == self.1 > 0,
                len == l * n + m,
                len <= MAX_LEN,
                0 <= m < l,
                k <= n,
                x.wf(),
                x.view().len() == k * l,
                forall|i: int| 0 <= i < k * l ==> #[trigger] x.view()[i] == s[i % l],
            decreases n - k,
        {
            proof {
                assert((k + 1) * l <= n * l) by (nonlinear_arith)
                    requires
                        k < n,
                        l > 0,
                ;
                assert((k + 1) * l == k * l + l) by (nonlinear_arith);
                assert(n * l == l * n) by (nonlinear_arith);
            }
            let ghost before = x.view();
            x.append(self);
            proof {
                assert forall|i: int| 0 <= i < (k + 1) * l implies #[trigger] x.view()[i] == s[i
                    % l] by {
                    if i >= k * l {
                        lemma_fundamental_div_mod_converse(i, l, k as int, i - k * l);
                    }
                }
            }
            k = k + 1;
        }
        let tail = self.sub(0, m);
        let ghost before = x.view();
        x.append(&tail);
        proof {
            assert forall|i: int| 0 <= i < len implies #[trigger] x.view()[i] == s[i % l] by {
                if i >= n * l {
                    lemma_fundamental_div_mod_converse(i, l, n as int, i - n * l);
                }
            }
            assert(x.view() =~= repeat_view(self.view(), len as nat));
        }
        x
    }
}

impl<T: Copy + Default> Default for Pat<T> {
    /// An empty pattern.
    fn default() -> (r: Self)
        ensures
            r.wf(),
            r.view().len() == 0,
    {
        Pat([T::default(); MAX_LEN], 0)
    }
}

/// The values of all patterns of `s`, one pattern after the other.
pub open spec fn flat_view<T: Copy>(s: Seq<Pat<T>>) -> Seq<T>
    decreases s.len(),
{
    if s.len() == 0 {
        Seq::empty()
    } else {
        flat_view(s.drop_last()) + s.last().view()
    }
}

impl<T: Copy + Default> Pat<Pat<T>> {
    /// All inner patterns joined into one: `[[1,2],[3,4]]` becomes `[1,2,3,4]`.
    pub fn flatten(&self) -> (r: Pat<T>)
        requires
            self.wf(),
            forall|i: int| 0 <= i < self.view().len() ==> (#[trigger] self.view()[i]).wf(),
            flat_view(self.view()).len() <= MAX_LEN,
        ensures
            r.wf(),
            r.view() == flat_view(self.view()),
    {
        let mut p: Pat<T> = Pat::new();
        let mut i: usize = 0;
        while i < self.1
            invariant
                self.wf(),
                forall|j: int| 0 <= j < self.view().len() ==> (#[trigger] self.view()[j]).wf(),
                flat_view(self.view()).len() <= MAX_LEN,
                i <= self.1,
                p.wf(),
                p.view() == flat_view(self.view().subrange(0, i as int)),
            decreases self.1 - i,
        {
            proof {
                lemma_flat_prefix_len(self.view(), (i + 1) as int);
                assert(self.view().subrange(0, i + 1).drop_last() =~= self.view().subrange(
                    0,
                    i as int,
                ));
            }
            let inner = self.0[i];
            p.append(&inner);
            i = i + 1;
        }
        assert(self.view().subrange(0, self.1 as int) =~= self.view());
        p
    }
}

/// Joining a prefix of `s` never gives more values than joining all of `s`.
proof fn lemma_flat_prefix_len<T: Copy>(s: Seq<Pat<T>>, k: int)
    requires
        0 <= k <= s.len(),
    ensures
        flat_view(s.subrange(0, k)).len() <= flat_view(s).len(),
    decreases s.len(),
{
    if k < s.len() {
        assert(s.drop_last().subrange(0, k) =~= s.subrange(0, k));
        lemma_flat_prefix_len(s.drop_last(), k);
    } else {
        assert(s.subrange(0, k) =~= s);
    }
}

/// How many values of `s` are not zero.
pub open spec fn count_hits(s: Seq<u8>) -> nat
    decreases s.len(),
{
    if s.len() == 0 {
        0
    } else {
        count_hits(s.drop_last()) + if s.last() != 0 { 1nat } else { 0nat }
    }
}

/// The velocity that the text form gives to step character `c`.
pub open spec fn step_value(c: char) -> u8 {
    if c == '-' {
        0
    } else if lowercase_char(c) {
        VELOCITY_PLAIN
    } else {
        VELOCITY_ACCENT
    }
}

/// The character that shows velocity `x`.
pub open spec fn step_char(x: u8) -> char {
    if x == 0 {
        '-'
    } else if x <= VELOCITY_PLAIN {
        'x'
    } else {
        'X'
    }
}

/// Whether velocity `x` is what step character `c` stands for.
pub open spec fn step_matches(x: u8, c: char) -> bool {
    if c == '-' {
        x == 0
    } else if lowercase_char(c) {
        x != 0 && x <= VELOCITY_PLAIN
    } else {
        x > VELOCITY_PLAIN
    }
}

/// Whether a character has the Unicode `Lowercase` property.
pub uninterp spec fn lowercase_char(c: char) -> bool;

/// Relies on `char::is_lowercase`, which tells whether a character has the
/// Unicode `Lowercase` property (true for `a`..=`z`, false for `A`..=`Z`
/// and `-`).
#[verifier::external_body]
fn is_lowercase(c: char) -> (r: bool)
    ensures
        r == lowercase_char(c),
        'a' <= c <= 'z' ==> r,
        'A' <= c <= 'Z' ==> !r,
{
    c.is_lowercase()
}

impl Pat<u8> {
    /// Twice the number of steps with a beat once the pattern is repeated to
    /// the full length of `MAX_LEN`.
    pub fn density(&self) -> (r: u8)
        requires
            self.wf(),
        ensures
            r == 2 * count_hits(repeat_view(self.view(), MAX_LEN as nat)),
    {
        let x = self.repeat_to(MAX_LEN);
        let mut n: u8 = 0;
        let mut i: usize = 0;
        while i < x.1
            invariant
                x.wf(),
                i <= x.1,
                n == count_hits(x.view().subrange(0, i as int)),
                n <= i,
            decreases x.1 - i,
        {
            proof {
                assert(x.view().subrange(0, i + 1).drop_last() =~= x.view().subrange(0, i as int));
            }
            if x.0[i] > 0 {
                n = n + 1;
            }
            i = i + 1;
        }
        assert(x.view().subrange(0, x.1 as int) =~= x.view());
        n * 2
    }

    /// The pattern as text between bars: `-` for a rest, `x` for a beat of
    /// at most `VELOCITY_PLAIN`, `X` for a louder one (`|x-X|`).
    pub fn to_text(&self) -> (r: String)
        requires
            self.wf(),
        ensures
            r@ == seq!['|'] + Seq::new(self.view().len(), |i: int| step_char(self.view()[i]))
                + seq!['|'],
    {
        proof {
            reveal_strlit("|");
            reveal_strlit("-");
            reveal_strlit("x");
            reveal_strlit("X");
        }
        let mut out = String::from_str("|");
        let mut i: usize = 0;
        while i < self.1
            invariant
                self.wf(),
                i <= self.1,
                out@ == seq!['|'] + Seq::new(i as nat, |j: int| step_char(self.view()[j])),
            decreases self.1 - i,
        {
            let v: u8 = self.0[i];
            let step: &str = if v == 0 {
                "-"
            } else if v <= VELOCITY_PLAIN {
                "x"
            } else {
                "X"
            };
            proof {
                reveal_strlit("-");
                reveal_strlit("x");
                reveal_strlit("X");
            }
            out.append(step);
            i = i + 1;
            assert(out@ =~= seq!['|'] + Seq::new(i as nat, |j: int| step_char(self.view()[j])));
        }
        out.append("|");
        out
    }

    /// Reads a pattern from text, bars at either end being optional: `-` is a
    /// rest, a lower-case character a plain beat, any other an accent.
    pub fn parse(text: &str) -> (r: Pattern)
        requires
            trim_view(text@).len() <= MAX_LEN,
        ensures
            r.wf(),
            r.view() == Seq::new(trim_view(text@).len(), |i: int| step_value(trim_view(text@)[i])),
    {
        let t = trim_pattern(text);
        let n: usize = t.unicode_len();
        let mut p: Pattern = Pat::new_with(0, 0);
        let mut i: usize = 0;
        while i < n
            invariant
                t@ == trim_view(text@),
                n == t@.len() <= MAX_LEN,
                i <= n,
                p.wf(),
                p.view() == Seq::new(i as nat, |j: int| step_value(t@[j])),
            decreases n - i,
        {
            let c = t.get_char(i);
            let v: u8 = if c == '-' {
                0
            } else if is_lowercase(c) {
                VELOCITY_PLAIN
            } else {
                VELOCITY_ACCENT
            };
            p.push(v);
            i = i + 1;
            assert(p.view() =~= Seq::new(i as nat, |j: int| step_value(t@[j])));
        }
        p
    }

    /// Whether the pattern reads as `text`, bars at either end being
    /// optional: `-` for a rest, a lower-case character for a beat of at most
    /// `VELOCITY_PLAIN`, any other character for a louder one.
    pub fn matches_text(&self, text: &str) -> (r: bool)
        requires
            self.wf(),
        ensures
            r == (trim_view(text@).len() == self.view().len() && forall|i: int|
                0 <= i < self.view().len() ==> step_matches(
                    #[trigger] self.view()[i],
                    trim_view(text@)[i],
                )),
    {
        let t = trim_pattern(text);
        let n: usize = t.unicode_len();
        if n != self.1 {
            return false;
        }
        let mut i: usize = 0;
        while i < n
            invariant
                self.wf(),
                t@ == trim_view(text@),
                n == t@.len() == self.view().len(),
                i <= n,
                forall|j: int| 0 <= j < i ==> step_matches(#[trigger] self.view()[j], t@[j]),
            decreases n - i,
        {
            let c = t.get_char(i);
            let x: u8 = self.0[i];
            let ok: bool = if c == '-' {
                x == 0
            } else if is_lowercase(c) {
                x != 0 && x <= VELOCITY_PLAIN
            } else {
                x > VELOCITY_PLAIN
            };
            if !ok {
                assert(!step_matches(self.view()[i as int], t@[i as int]));
                return false;
            }
            i = i + 1;
        }
        true
    }
}

/// `s` with one leading and one trailing `|` taken off, where they are.
pub open spec fn trim_view(s: Seq<char>) -> Seq<char> {
    let a = if s.len() > 0 && s[0] == '|' { s.drop_first() } else { s };
    if a.len() > 0 && a[a.len() - 1] == '|' { a.drop_last() } else { a }
}

/// The text of a pattern without its bars: one leading and one trailing `|`
/// are taken off where they are.
pub fn trim_pattern(pattern: &str) -> (r: &str)
    ensures
        r@ == trim_view(pattern@),
{
    let n: usize = pattern.unicode_len();
    let mut from: usize = 0;
    if n > 0 && pattern.get_char(0) == '|' {
        from = 1;
    }
    let mut to: usize = n;
    if to > from && pattern.get_char(to - 1) == '|' {
        to = to - 1;
    }
    let r = pattern.substring_char(from, to);
    proof {
        let s = pattern@;
        let a = if s.len() > 0 && s[0] == '|' { s.drop_first() } else { s };
        assert(a =~= s.subrange(from as int, n as int));
        assert(r@ =~= trim_view(s));
    }
    r
}

} // verus!
