//! A set of addresses kept as sorted, disjoint half-open intervals, from which
//! ranges can be taken out.
use vstd::prelude::*;

verus! {

/// The half-open interval `[left, right)`.
#[derive(Clone, Copy, PartialEq, Eq, Structural, Debug)]
pub struct Interval {
    pub left: u64,
    pub right: u64,
}

impl Interval {
    /// The number of addresses in the interval.
    pub fn len(&self) -> (r: u64)
        requires
            self.left <= self.right,
        ensures
            r == self.right - self.left,
    {
        self.right - self.left
    }
}

/// Whether the intervals are non-empty and in increasing order, each ending at
/// or before the next begins.
pub open spec fn intervals_wf(ivs: Seq<Interval>) -> bool {
    &&& forall|i: int| 0 <= i < ivs.len() ==> #[trigger] ivs[i].left < ivs[i].right
    &&& forall|i: int, j: int| 0 <= i < j < ivs.len() ==> #[trigger] ivs[i].right <= #[trigger] ivs[j].left
}

/// Whether one of the intervals holds `x`.
pub open spec fn covers(ivs: Seq<Interval>, x: int) -> bool {
    exists|i: int| 0 <= i < ivs.len() && #[trigger] ivs[i].left <= x < ivs[i].right
}

/// Whether every interval of `ivs` lies within one of `outer`.
pub open spec fn within(ivs: Seq<Interval>, outer: Seq<Interval>) -> bool {
    forall|k: int| 0 <= k < ivs.len() ==> #[trigger] inside_some(ivs[k], outer)
}

/// Whether interval `a` lies within one of `outer`.
pub open spec fn inside_some(a: Interval, outer: Seq<Interval>) -> bool {
    exists|j: int| 0 <= j < outer.len() && #[trigger] inside(a, outer[j])
}

/// Whether interval `a` lies within interval `b`.
pub open spec fn inside(a: Interval, b: Interval) -> bool {
    b.left <= a.left && a.right <= b.right
}

proof fn lemma_within_refl(ivs: Seq<Interval>)
    ensures
        within(ivs, ivs),
{
    assert forall|k: int| 0 <= k < ivs.len() implies #[trigger] inside_some(ivs[k], ivs) by {
        assert(inside(ivs[k], ivs[k]));
    }
}

/// What taking `[left, right)` out of interval `iv` leaves: `iv` itself if
/// they do not meet, else the part before `left` and the part from `right`
/// on, each where it is not empty.
pub open spec fn exclude_one(iv: Interval, left: u64, right: u64) -> Seq<Interval> {
    if iv.right <= left || iv.left >= right {
        seq![iv]
    } else {
        (if iv.left < left {
            seq![Interval { left: iv.left, right: left }]
        } else {
            Seq::empty()
        }) + (if right < iv.right {
            seq![Interval { left: right, right: iv.right }]
        } else {
            Seq::empty()
        })
    }
}

/// What taking `[left, right)` out of each of `ivs` in turn leaves, in order.
pub open spec fn exclude_each(ivs: Seq<Interval>, left: u64, right: u64) -> Seq<Interval>
    decreases ivs.len(),
{
    if ivs.len() == 0 {
        Seq::empty()
    } else {
        exclude_each(ivs.drop_last(), left, right) + exclude_one(ivs.last(), left, right)
    }
}

/// The intervals left after taking `[left, right)` out of `ivs`; an empty
/// range takes nothing out.
pub open spec fn excluded(ivs: Seq<Interval>, left: u64, right: u64) -> Seq<Interval> {
    if left >= right {
        ivs
    } else {
        exclude_each(ivs, left, right)
    }
}

/// A set of addresses, as sorted disjoint intervals.
pub struct IntervalExcluder {
    pub intervals: Vec<Interval>,
}

impl IntervalExcluder {
    /// The empty set.
    pub fn new() -> (r: IntervalExcluder)
        ensures
            r.intervals@.len() == 0,
    {
        IntervalExcluder { intervals: Vec::new() }
    }

    /// Adds `[left, right)` after the intervals already held.
    pub fn add_range(&mut self, left: u64, right: u64)
        requires
            intervals_wf(old(self).intervals@),
            left < right,
            old(self).intervals@.len() > 0 ==> old(self).intervals@.last().right <= left,
        ensures
            intervals_wf(final(self).intervals@),
            final(self).intervals@ == old(self).intervals@.push(Interval { left, right }),
            forall|x: int| covers(final(self).intervals@, x) == (covers(old(self).intervals@, x) || left <= x < right),
    {
        let ghost old_ivs = self.intervals@;
        self.intervals.push(Interval { left, right });
        proof {
            let ivs = self.intervals@;
            assert forall|i: int, j: int| 0 <= i < j < ivs.len() implies #[trigger] ivs[i].right <= #[trigger] ivs[j].left by {
                if j == ivs.len() - 1 && i < j {
                    assert(old_ivs[i].right <= old_ivs.last().right) by {
                        if i < old_ivs.len() - 1 {
                            assert(old_ivs[i].right <= old_ivs[old_ivs.len() - 1].left);
                        }
                    }
                }
            }
            assert forall|x: int| covers(ivs, x) == (covers(old_ivs, x) || left <= x < right) by {
                if covers(ivs, x) {
                    let i = choose|i: int| 0 <= i < ivs.len() && #[trigger] ivs[i].left <= x < ivs[i].right;
                    if i < old_ivs.len() {
                        assert(old_ivs[i].left <= x < old_ivs[i].right);
                    }
                }
                if covers(old_ivs, x) {
                    let i = choose|i: int| 0 <= i < old_ivs.len() && #[trigger] old_ivs[i].left <= x < old_ivs[i].right;
                    assert(ivs[i].left <= x < ivs[i].right);
                }
                if left <= x < right {
                    assert(ivs[ivs.len() - 1].left <= x < ivs[ivs.len() - 1].right);
                }
            }
        }
    }

    /// Takes `[left, right)` out of the set.
    pub fn exclude_range(&mut self, left: u64, right: u64)
        requires
            intervals_wf(old(self).intervals@),
        ensures
            intervals_wf(final(self).intervals@),
            forall|x: int| covers(final(self).intervals@, x) == (covers(old(self).intervals@, x) && !(left <= x < right)),
            within(final(self).intervals@, old(self).intervals@),
            final(self).intervals@ == excluded(old(self).intervals@, left, right),
    {
        if left >= right {
            proof {
                lemma_within_refl(self.intervals@);
            }
            return;
        }
        let ghost ivs = self.intervals@;
        let mut out: Vec<Interval> = Vec::new();
        let mut i: usize = 0;
        while i < self.intervals.len()
            invariant
                ivs == self.intervals@,
                intervals_wf(ivs),
                i <= ivs.len(),
                left < right,
                intervals_wf(out@),
                within(out@, ivs),
                forall|k: int| 0 <= k < out@.len() ==> i < ivs.len() ==> #[trigger] out@[k].right <= ivs[i as int].left,
                forall|x: int| covers(out@, x) == ((exists|k: int| 0 <= k < i && #[trigger] ivs[k].left <= x < ivs[k].right) && !(left <= x < right)),
                out@ == exclude_each(ivs.take(i as int), left, right),
            decreases ivs.len() - i,
        {
            let iv = self.intervals[i];
            let ghost before = out@;
            assert(ivs.take(i + 1).drop_last() =~= ivs.take(i as int));
            assert(ivs.take(i + 1).last() == iv);
            if iv.right <= left || iv.left >= right {
                out.push(iv);
            } else {
                if iv.left < left {
                    out.push(Interval { left: iv.left, right: left });
                }
                if right < iv.right {
                    out.push(Interval { left: right, right: iv.right });
                }
            }
            proof {
                let o = out@;
                assert(forall|k: int| 0 <= k < before.len() ==> o[k] == before[k]);
                assert(forall|k: int| before.len() <= k < o.len() ==> iv.left <= #[trigger] o[k].left && o[k].right <= iv.right);
                assert forall|k: int| 0 <= k < o.len() implies #[trigger] o[k].left < o[k].right by {}
                assert forall|k: int| 0 <= k < o.len() implies #[trigger] inside_some(o[k], ivs) by {
                    if k < before.len() {
                        assert(o[k] == before[k]);
                        assert(inside_some(before[k], ivs));
                    } else {
                        assert(inside(o[k], ivs[i as int]));
                    }
                }
                assert forall|k1: int, k2: int| 0 <= k1 < k2 < o.len() implies #[trigger] o[k1].right <= #[trigger] o[k2].left by {
                    if k2 >= before.len() && k1 < before.len() {
                        assert(before[k1].right <= ivs[i as int].left);
                    }
                }
                if i + 1 < ivs.len() {
                    assert forall|k: int| 0 <= k < o.len() implies #[trigger] o[k].right <= ivs[i + 1].left by {
                        assert(ivs[i as int].right <= ivs[i + 1].left);
                        if k < before.len() {
                            assert(before[k].right <= ivs[i as int].left);
                        }
                    }
                }
                assert forall|x: int| covers(o, x) == ((exists|k: int| 0 <= k < i + 1 && #[trigger] ivs[k].left <= x < ivs[k].right) && !(left <= x < right)) by {
                    if covers(o, x) {
                        let k = choose|k: int| 0 <= k < o.len() && #[trigger] o[k].left <= x < o[k].right;
                        if k < before.len() {
                            assert(before[k].left <= x < before[k].right);
                            assert(covers(before, x));
                        } else {
                            assert(ivs[i as int].left <= x < ivs[i as int].right);
                        }
                    }
                    if (exists|k: int| 0 <= k < i + 1 && #[trigger] ivs[k].left <= x < ivs[k].right) && !(left <= x < right) {
                        let k = choose|k: int| 0 <= k < i + 1 && #[trigger] ivs[k].left <= x < ivs[k].right;
                        if k < i {
                            assert(covers(before, x));
                            let m = choose|m: int| 0 <= m < before.len() && #[trigger] before[m].left <= x < before[m].right;
                            assert(o[m] == before[m]);
                        } else {
                            if iv.right <= left || iv.left >= right {
                                assert(o[before.len() as int] == iv);
                            } else if x < left {
                                assert(o[before.len() as int].left <= x < o[before.len() as int].right);
                            } else {
                                let last = o.len() - 1;
                                assert(o[last].left <= x < o[last].right);
                            }
                        }
                    }
                }
            }
            i = i + 1;
        }
        proof {
            assert(ivs.take(i as int) =~= ivs);
            assert forall|x: int| covers(out@, x) == (covers(ivs, x) && !(left <= x < right)) by {
                if covers(ivs, x) {
                    let k = choose|k: int| 0 <= k < ivs.len() && #[trigger] ivs[k].left <= x < ivs[k].right;
                    assert(0 <= k < i && ivs[k].left <= x < ivs[k].right);
                }
            }
        }
        self.intervals = out;
    }

    /// Takes the `len` addresses from `left` on out of the set.
    pub fn exclude_len(&mut self, left: u64, len: u64)
        requires
            intervals_wf(old(self).intervals@),
            left + len <= u64::MAX,
        ensures
            intervals_wf(final(self).intervals@),
            forall|x: int| covers(final(self).intervals@, x) == (covers(old(self).intervals@, x) && !(left <= x < left + len)),
            within(final(self).intervals@, old(self).intervals@),
            final(self).intervals@ == excluded(old(self).intervals@, left, (left + len) as u64),
    {
        self.exclude_range(left, left + len);
    }
}


/// Lying within is transitive.
pub proof fn lemma_within_trans(a: Seq<Interval>, b: Seq<Interval>, c: Seq<Interval>)
    requires
        within(a, b),
        within(b, c),
    ensures
        within(a, c),
{
    assert forall|k: int| 0 <= k < a.len() implies #[trigger] inside_some(a[k], c) by {
        assert(inside_some(a[k], b));
        let j = choose|j: int| 0 <= j < b.len() && #[trigger] inside(a[k], b[j]);
        assert(inside_some(b[j], c));
        let m = choose|m: int| 0 <= m < c.len() && #[trigger] inside(b[j], c[m]);
        assert(inside(a[k], c[m]));
    }
}

} // verus!
