use vstd::prelude::*;

use crate::pat::{
    count_hits, flat_view, sub_view, Pat, Pattern, PatternGroup, MAX_LEN, VELOCITY_PLAIN,
};

verus! {

/// The most steps, and the longest length, that `euclid` takes.
pub const EUCLID_MAX: u8 = 64;

/// Joining two groups of patterns gives what joining each gives, in order.
pub proof fn lemma_flat_concat(a: Seq<Pattern>, b: Seq<Pattern>)
    ensures
        flat_view(a + b) == flat_view(a) + flat_view(b),
    decreases b.len(),
{
    if b.len() == 0 {
        assert(a + b =~= a);
        assert(flat_view(a) + flat_view(b) =~= flat_view(a));
    } else {
        assert((a + b).drop_last() =~= a + b.drop_last());
        lemma_flat_concat(a, b.drop_last());
        assert(flat_view(a + b) =~= flat_view(a) + flat_view(b));
    }
}

/// Beats of two joined sequences add up.
pub proof fn lemma_hits_concat(x: Seq<u8>, y: Seq<u8>)
    ensures
        count_hits(x + y) == count_hits(x) + count_hits(y),
    decreases y.len(),
{
    if y.len() == 0 {
        assert(x + y =~= x);
    } else {
        assert((x + y).drop_last() =~= x + y.drop_last());
        lemma_hits_concat(x, y.drop_last());
    }
}

/// Joining a group split at `k` gives what joining the two parts gives.
proof fn lemma_flat_split(g: Seq<Pattern>, k: int)
    requires
        0 <= k <= g.len(),
    ensures
        flat_view(g) == flat_view(g.subrange(0, k)) + flat_view(g.subrange(k, g.len() as int)),
{
    assert(g =~= g.subrange(0, k) + g.subrange(k, g.len() as int));
    lemma_flat_concat(g.subrange(0, k), g.subrange(k, g.len() as int));
}

/// No pattern of a group is longer than the group joined.
proof fn lemma_flat_member_len(g: Seq<Pattern>, i: int)
    requires
        0 <= i < g.len(),
    ensures
        g[i].view().len() <= flat_view(g).len(),
{
    lemma_flat_split(g, i);
    let rest = g.subrange(i, g.len() as int);
    assert(rest =~= seq![g[i]] + rest.drop_first());
    lemma_flat_concat(seq![g[i]], rest.drop_first());
    assert(seq![g[i]].drop_last() =~= Seq::<Pattern>::empty());
}

/// A group of `k` copies of a one-step pattern `p` joins to `k` steps, with
/// a beat on each where `p` has one.
proof fn lemma_flat_const(p: Pattern, k: nat)
    requires
        p.view().len() == 1,
    ensures
        flat_view(Seq::new(k, |_i: int| p)).len() == k,
        count_hits(flat_view(Seq::new(k, |_i: int| p))) == if p.view()[0] != 0 { k } else { 0 },
    decreases k,
{
    let g = Seq::new(k, |_i: int| p);
    if k > 0 {
        lemma_flat_const(p, (k - 1) as nat);
        assert(g.drop_last() =~= Seq::new((k - 1) as nat, |_i: int| p));
        lemma_hits_concat(flat_view(g.drop_last()), p.view());
        assert(p.view().drop_last() =~= Seq::<u8>::empty());
        assert(count_hits(p.view().drop_last()) == 0);
        assert(p.view().last() == p.view()[0]);
        assert(count_hits(p.view()) == if p.view()[0] != 0 { 1nat } else { 0nat });
    }
}

/// Every step of `s` is a rest or a plain beat.
pub open spec fn plain_steps(s: Seq<u8>) -> bool {
    forall|k: int| 0 <= k < s.len() ==> #[trigger] s[k] == 0 || s[k] == VELOCITY_PLAIN
}

/// Every pattern of the group is well formed and made of rests and plain
/// beats.
pub open spec fn group_wf(g: PatternGroup) -> bool {
    &&& g.wf()
    &&& forall|i: int|
        0 <= i < g.view().len() ==> (#[trigger] g.view()[i]).wf() && plain_steps(g.view()[i].view())
}

/// Joining patterns of rests and plain beats gives rests and plain beats.
proof fn lemma_flat_plain(g: Seq<Pattern>)
    requires
        forall|i: int| 0 <= i < g.len() ==> plain_steps((#[trigger] g[i]).view()),
    ensures
        plain_steps(flat_view(g)),
    decreases g.len(),
{
    if g.len() > 0 {
        lemma_flat_plain(g.drop_last());
        assert(plain_steps(g.last().view()));
    }
}

/// Joining a group whose first pattern is not empty starts with that
/// pattern's first step.
proof fn lemma_flat_first(g: Seq<Pattern>)
    requires
        g.len() > 0,
        g[0].view().len() > 0,
    ensures
        flat_view(g).len() > 0,
        flat_view(g)[0] == g[0].view()[0],
    decreases g.len(),
{
    if g.len() == 1 {
        assert(g.drop_last().len() == 0);
        assert(flat_view(g.drop_last()) =~= Seq::<u8>::empty());
        assert(g.last() == g[0]);
        assert(flat_view(g) =~= g[0].view());
    } else {
        lemma_flat_first(g.drop_last());
    }
}

/// A pattern of `max(steps, length)` steps with `steps` beats spread as
/// evenly as the euclidean algorithm spreads them, starting with a beat.
pub fn euclid(steps: u8, length: u8) -> (r: Pattern)
    requires
        0 < steps <= EUCLID_MAX,
        0 < length <= EUCLID_MAX,
    ensures
        r.wf(),
        r.view().len() == if length < steps { steps } else { length },
        count_hits(r.view()) == steps,
        r.view()[0] == VELOCITY_PLAIN,
        plain_steps(r.view()),
{
    let length: u8 = if length < steps { steps } else { length };
    let ghost total = length as nat;
    let beat: Pattern = Pat::new_with(VELOCITY_PLAIN, 1);
    let rest: Pattern = Pat::new_with(0, 1);
    let mut l: PatternGroup = Pat::new_with(beat, steps as usize);
    let mut r: PatternGroup = Pat::new_with(rest, (length - steps) as usize);
    proof {
        lemma_flat_const(beat, steps as nat);
        lemma_flat_const(rest, (length - steps) as nat);
    }
    while r.len() > 0
        invariant
            group_wf(l),
            group_wf(r),
            l.view().len() > 0,
            l.view()[0].view().len() > 0,
            l.view()[0].view()[0] == VELOCITY_PLAIN,
            flat_view(l.view()).len() + flat_view(r.view()).len() == total,
            total <= MAX_LEN,
            count_hits(flat_view(l.view())) + count_hits(flat_view(r.view())) == steps,
        decreases l.view().len() + r.view().len(),
    {
        let ln: usize = l.len();
        let rn: usize = r.len();
        let s: usize = if ln < rn { ln } else { rn };
        let t: usize = if ln < rn { rn } else { ln };
        let mut nl: PatternGroup = Pat::new();
        let mut i: usize = 0;
        while i < s
            invariant
                group_wf(l),
                group_wf(r),
                ln == l.view().len(),
                rn == r.view().len(),
                s <= ln,
                s <= rn,
                flat_view(l.view()).len() + flat_view(r.view()).len() <= MAX_LEN,
                i <= s,
                group_wf(nl),
                nl.view().len() == i,
                l.view()[0].view().len() > 0,
                l.view()[0].view()[0] == VELOCITY_PLAIN,
                i > 0 ==> nl.view()[0].view().len() > 0 && nl.view()[0].view()[0] == VELOCITY_PLAIN,
                flat_view(nl.view()).len() == flat_view(l.view().subrange(0, i as int)).len()
                    + flat_view(r.view().subrange(0, i as int)).len(),
                count_hits(flat_view(nl.view())) == count_hits(
                    flat_view(l.view().subrange(0, i as int)),
                ) + count_hits(flat_view(r.view().subrange(0, i as int))),
            decreases s - i,
        {
            proof {
                lemma_flat_member_len(l.view(), i as int);
                lemma_flat_member_len(r.view(), i as int);
                lemma_flat_split(l.view(), i as int);
                lemma_flat_split(r.view(), i as int);
                lemma_flat_split(l.view().subrange(i as int, ln as int), 1);
                lemma_flat_split(r.view().subrange(i as int, rn as int), 1);
            }
            let a = l.at(i);
            let b = r.at(i);
            let ab = a.concat(&b);
            let ghost before = nl.view();
            nl.push(ab);
            proof {
                assert(nl.view().drop_last() =~= before);
                let li = l.view().subrange(0, i + 1);
                let ri = r.view().subrange(0, i + 1);
                assert(li.drop_last() =~= l.view().subrange(0, i as int));
                assert(ri.drop_last() =~= r.view().subrange(0, i as int));
                lemma_hits_concat(flat_view(before), a.view() + b.view());
                lemma_hits_concat(a.view(), b.view());
                lemma_hits_concat(flat_view(l.view().subrange(0, i as int)), a.view());
                lemma_hits_concat(flat_view(r.view().subrange(0, i as int)), b.view());
            }
            i = i + 1;
        }
        let la = l.sub(s, t);
        let rb = r.sub(s, t);
        proof {
            assert(la.view() =~= l.view().subrange(s as int, ln as int));
            assert(rb.view() =~= r.view().subrange(s as int, rn as int));
        }
        let nr = la.concat(&rb);
        proof {
            lemma_flat_split(l.view(), s as int);
            lemma_flat_split(r.view(), s as int);
            lemma_flat_concat(la.view(), rb.view());
            let fl = flat_view(l.view().subrange(0, s as int));
            let fr = flat_view(r.view().subrange(0, s as int));
            let gl = flat_view(la.view());
            let gr = flat_view(rb.view());
            lemma_hits_concat(gl, gr);
            lemma_hits_concat(fl, gl);
            lemma_hits_concat(fr, gr);
        }
        l = nl;
        r = nr;
    }
    let a = l.flatten();
    let b = r.flatten();
    let p = a.concat(&b);
    proof {
        lemma_hits_concat(a.view(), b.view());
        lemma_flat_plain(l.view());
        lemma_flat_plain(r.view());
        lemma_flat_first(l.view());
    }
    p
}

} // verus!
