//! A time-windowed history of touch samples, and its grouping into
//! per-finger traces.
use std::collections::VecDeque;
use crate::form::Form;
use vstd::prelude::*;

verus! {

/// A touch reading: `(x, y, tick)`.
pub type Sample = (i32, i32, usize);

/// Samples older than this many ticks are dropped.
pub const MAX_AGE: usize = 500;

/// Two samples closer than this squared distance belong to one trace.
pub const CLUSTER_RADIUS_SQ: u128 = 64;

pub open spec fn square_distance(x1: int, y1: int, x2: int, y2: int) -> int {
    (x1 - x2) * (x1 - x2) + (y1 - y2) * (y1 - y2)
}

/// `b` continues a trace whose last sample is `a`.
pub open spec fn is_close(a: Sample, b: Sample) -> bool {
    square_distance(a.0 as int, a.1 as int, b.0 as int, b.1 as int) < CLUSTER_RADIUS_SQ
}

pub open spec fn ticks_sorted(s: Seq<Sample>) -> bool {
    forall|i: int, j: int| 0 <= i < j < s.len() ==> s[i].2 <= s[j].2
}

pub open spec fn ticks_at_most(s: Seq<Sample>, t: int) -> bool {
    forall|i: int| 0 <= i < s.len() ==> s[i].2 <= t
}

/// Drops samples from the front while they are older than `MAX_AGE` at tick `t`.
pub open spec fn evict_stale(s: Seq<Sample>, t: int) -> Seq<Sample>
    decreases s.len(),
{
    if s.len() == 0 {
        s
    } else if t - s[0].2 > MAX_AGE {
        evict_stale(s.drop_first(), t)
    } else {
        s
    }
}

/// The new points, stamped with tick `t`.
pub open spec fn stamped(points: Seq<(i32, i32)>, t: usize) -> Seq<Sample> {
    points.map_values(|p: (i32, i32)| (p.0, p.1, t))
}

/// A trace after seeing sample `s`: extended when `s` is close to its last sample.
pub open spec fn extend_trace(trace: Seq<Sample>, s: Sample) -> Seq<Sample> {
    if is_close(trace.last(), s) {
        trace.push(s)
    } else {
        trace
    }
}

/// One greedy step: `s` joins every trace it is close to, or opens a new one.
pub open spec fn extend_traces(traces: Seq<Seq<Sample>>, s: Sample) -> Seq<Seq<Sample>> {
    if exists|j: int| 0 <= j < traces.len() && is_close(#[trigger] traces[j].last(), s) {
        traces.map_values(|t: Seq<Sample>| extend_trace(t, s))
    } else {
        traces.push(seq![s])
    }
}

/// The traces of a left-to-right greedy pass over `samples`.
pub open spec fn cluster(samples: Seq<Sample>) -> Seq<Seq<Sample>>
    decreases samples.len(),
{
    if samples.len() == 0 {
        seq![]
    } else {
        extend_traces(cluster(samples.drop_last()), samples.last())
    }
}

pub open spec fn traces_view(v: Seq<Vec<Sample>>) -> Seq<Seq<Sample>> {
    v.map_values(|t: Vec<Sample>| t@)
}

/// Squared Euclidean distance between `(x1, y1)` and `(x2, y2)`.
pub fn get_square_distance(x1: i32, y1: i32, x2: i32, y2: i32) -> (r: u128)
    ensures
        r == square_distance(x1 as int, y1 as int, x2 as int, y2 as int),
{
    let dx: i128 = x1 as i128 - x2 as i128;
    let dy: i128 = y1 as i128 - y2 as i128;
    assert(0 <= dx * dx <= 0x1_0000_0000_0000_0000) by (nonlinear_arith)
        requires
            -0x1_0000_0000 <= dx <= 0x1_0000_0000,
    ;
    assert(0 <= dy * dy <= 0x1_0000_0000_0000_0000) by (nonlinear_arith)
        requires
            -0x1_0000_0000 <= dy <= 0x1_0000_0000,
    ;
    (dx * dx + dy * dy) as u128
}

/// `k` is the first candidate whose box contains `(x, y)`.
pub open spec fn is_first_hit(cands: Seq<Form>, k: int, x: int, y: int) -> bool {
    &&& 0 <= k < cands.len()
    &&& cands[k].bbox().contains(x, y)
    &&& forall|j: int| 0 <= j < k ==> !(#[trigger] cands[j]).bbox().contains(x, y)
}

/// The trace's first sample lands first on candidate `k`, which is movable
/// and can be moved by the trace's last sample.
pub open spec fn movable_hit(cands: Seq<Form>, k: int, trace: Seq<Sample>) -> bool {
    &&& is_first_hit(cands, k, trace[0].0 as int, trace[0].1 as int)
    &&& cands[k].movable()
    &&& cands[k].can_move_tree(trace.last().0 as int, trace.last().1 as int, true)
}

/// `after` is `cands` once `trace` is acted on: the candidate it lands on is
/// moved as the drag origin by the raw coordinates of the trace's last sample,
/// and nothing else changes; with no such candidate nothing changes at all.
pub open spec fn trace_applied(cands: Seq<Form>, after: Seq<Form>, trace: Seq<Sample>) -> bool {
    if exists|k: int| movable_hit(cands, k, trace) {
        exists|k: int|
            {
                &&& movable_hit(cands, k, trace)
                &&& after.len() == cands.len()
                &&& forall|j: int| 0 <= j < cands.len() && j != k ==> after[j] == cands[j]
                &&& cands[k].moved_tree(after[k], trace.last().0 as int, trace.last().1 as int, true)
            }
    } else {
        after == cands
    }
}

/// `after` is `cands` once every trace is acted on, in order.
pub open spec fn traces_applied(cands: Seq<Form>, after: Seq<Form>, traces: Seq<Seq<Sample>>) -> bool
    decreases traces.len(),
{
    if traces.len() == 0 {
        after == cands
    } else {
        exists|mid: Seq<Form>|
            traces_applied(cands, mid, traces.drop_last()) && trace_applied(
                mid,
                after,
                traces.last(),
            )
    }
}

/// The index of the first candidate whose box contains `(x, y)`; earlier
/// candidates win where boxes overlap.
pub fn check_for_hit(movable_objects: &Vec<Form>, x: i32, y: i32) -> (r: Option<usize>)
    ensures
        r matches Some(k) ==> is_first_hit(movable_objects@, k as int, x as int, y as int),
        r is None ==> forall|j: int|
            0 <= j < movable_objects@.len() ==> !(#[trigger] movable_objects@[j]).bbox().contains(
                x as int,
                y as int,
            ),
{
    let n = movable_objects.len();
    for i in 0..n
        invariant
            n == movable_objects@.len(),
            forall|j: int|
                0 <= j < i ==> !(#[trigger] movable_objects@[j]).bbox().contains(x as int, y as int),
    {
        if movable_objects[i].get_bounding_box().is_in_bound(x, y) {
            return Some(i);
        }
    }
    None
}

/// Eviction keeps order, keeps ticks bounded by `t`, and leaves only samples
/// at most `MAX_AGE` ticks old.
proof fn lemma_evict_stale(s: Seq<Sample>, t: int)
    requires
        ticks_sorted(s),
        ticks_at_most(s, t),
    ensures
        ticks_sorted(evict_stale(s, t)),
        ticks_at_most(evict_stale(s, t), t),
        forall|i: int|
            0 <= i < evict_stale(s, t).len() ==> t - #[trigger] evict_stale(s, t)[i].2
                <= MAX_AGE,
    decreases s.len(),
{
    if s.len() > 0 {
        if t - s[0].2 > MAX_AGE {
            let d = s.drop_first();
            assert forall|i: int, j: int| 0 <= i < j < d.len() implies d[i].2 <= d[j].2 by {
                assert(d[i] == s[i + 1] && d[j] == s[j + 1]);
            }
            assert forall|i: int| 0 <= i < d.len() implies d[i].2 <= t by {
                assert(d[i] == s[i + 1]);
            }
            lemma_evict_stale(d, t);
        } else {
            assert forall|i: int| 0 <= i < s.len() implies t - s[i].2 <= MAX_AGE by {
                if i > 0 {
                    assert(s[0].2 <= s[i].2);
                }
            }
        }
    }
}

/// After aging to tick `t` and appending new samples stamped `t`, samples
/// stay ordered oldest to newest, none is later than `t`, and none is more
/// than `MAX_AGE` ticks old.
pub proof fn lemma_update_window(h: Seq<Sample>, t: usize, points: Seq<(i32, i32)>)
    requires
        ticks_sorted(h),
        ticks_at_most(h, t as int),
    ensures
        ticks_sorted(evict_stale(h, t as int) + stamped(points, t)),
        ticks_at_most(evict_stale(h, t as int) + stamped(points, t), t as int),
        forall|i: int|
            0 <= i < (evict_stale(h, t as int) + stamped(points, t)).len() ==> t - (#[trigger] (
            evict_stale(h, t as int) + stamped(points, t))[i]).2 <= MAX_AGE,
{
    lemma_evict_stale(h, t as int);
    let e = evict_stale(h, t as int);
    let r = e + stamped(points, t);
    assert forall|i: int| 0 <= i < r.len() implies (#[trigger] r[i]).2 <= t && t - r[i].2
        <= MAX_AGE by {
        if i >= e.len() {
            assert(r[i] == stamped(points, t)[i - e.len()]);
        }
    }
    assert forall|i: int, j: int| 0 <= i < j < r.len() implies r[i].2 <= r[j].2 by {
        if j >= e.len() {
            assert(r[j] == stamped(points, t)[j - e.len()]);
        }
    }
}

/// The samples of the last `MAX_AGE` ticks, oldest first.
pub struct TouchHistory {
    cur_touches: VecDeque<Sample>,
}

impl View for TouchHistory {
    type V = Seq<Sample>;

    closed spec fn view(&self) -> Seq<Sample> {
        self.cur_touches@
    }
}

impl TouchHistory {
    /// Samples are ordered oldest to newest.
    pub open spec fn wf(&self) -> bool {
        ticks_sorted(self@)
    }

    pub fn new() -> (r: TouchHistory)
        ensures
            r@ == Seq::<Sample>::empty(),
            r.wf(),
    {
        TouchHistory { cur_touches: VecDeque::new() }
    }

    /// The samples held, oldest first.
    pub fn entries(&self) -> (r: Vec<Sample>)
        ensures
            r@ == self@,
    {
        let mut r: Vec<Sample> = Vec::new();
        let n = self.cur_touches.len();
        for i in 0..n
            invariant
                n == self@.len(),
                r@ == self@.subrange(0, i as int),
        {
            r.push(self.cur_touches[i]);
            assert(r@ =~= self@.subrange(0, i + 1));
        }
        assert(r@ =~= self@);
        r
    }

    /// Ages the history to tick `cur_ticks`, then records `new_touches` at that tick.
    pub fn update(&mut self, cur_ticks: usize, new_touches: Vec<(i32, i32)>)
        requires
            old(self).wf(),
            ticks_at_most(old(self)@, cur_ticks as int),
        ensures
            final(self)@ == evict_stale(old(self)@, cur_ticks as int) + stamped(
                new_touches@,
                cur_ticks,
            ),
            final(self).wf(),
            ticks_at_most(final(self)@, cur_ticks as int),
            forall|i: int|
                0 <= i < final(self)@.len() ==> cur_ticks - #[trigger] final(self)@[i].2
                    <= MAX_AGE,
    {
        proof {
            lemma_update_window(old(self)@, cur_ticks, new_touches@);
        }
        while self.cur_touches.len() > 0 && cur_ticks - self.cur_touches[0].2 > MAX_AGE
            invariant
                ticks_sorted(self@),
                ticks_at_most(self@, cur_ticks as int),
                evict_stale(self@, cur_ticks as int) == evict_stale(old(self)@, cur_ticks as int),
            decreases self@.len(),
        {
            proof {
                let s = self@;
                let d = s.drop_first();
                assert forall|i: int, j: int| 0 <= i < j < d.len() implies d[i].2 <= d[j].2 by {
                    assert(d[i] == s[i + 1] && d[j] == s[j + 1]);
                }
            }
            self.cur_touches.pop_front();
        }
        let ghost base = self@;
        assert(base == evict_stale(old(self)@, cur_ticks as int));
        let n = new_touches.len();
        for i in 0..n
            invariant
                n == new_touches@.len(),
                self@ == base + stamped(new_touches@.subrange(0, i as int), cur_ticks),
        {
            let p = new_touches[i];
            self.cur_touches.push_back((p.0, p.1, cur_ticks));
            assert(stamped(new_touches@.subrange(0, i + 1), cur_ticks) =~= stamped(
                new_touches@.subrange(0, i as int),
                cur_ticks,
            ).push((p.0, p.1, cur_ticks)));
        }
        assert(new_touches@.subrange(0, n as int) =~= new_touches@);
    }

    /// Groups the held samples into traces by one greedy pass, oldest first.
    pub fn cluster_traces(&self) -> (r: Vec<Vec<Sample>>)
        ensures
            traces_view(r@) == cluster(self@),
            forall|k: int| 0 <= k < r@.len() ==> #[trigger] r@[k]@.len() > 0,
    {
        let mut traces: Vec<Vec<Sample>> = Vec::new();
        let n = self.cur_touches.len();
        assert(traces_view(traces@) =~= cluster(self@.subrange(0, 0)));
        for i in 0..n
            invariant
                n == self@.len(),
                traces_view(traces@) == cluster(self@.subrange(0, i as int)),
                forall|k: int| 0 <= k < traces@.len() ==> #[trigger] traces@[k]@.len() > 0,
        {
            let s = self.cur_touches[i];
            let ghost prev = traces_view(traces@);
            let mut remaining = traces;
            let mut next: Vec<Vec<Sample>> = Vec::new();
            let mut found = false;
            while remaining.len() > 0
                invariant
                    prev.len() == next@.len() + remaining@.len(),
                    forall|k: int| 0 <= k < prev.len() ==> #[trigger] prev[k].len() > 0,
                    forall|k: int|
                        0 <= k < next@.len() ==> #[trigger] next@[k]@ == extend_trace(prev[k], s),
                    forall|k: int|
                        0 <= k < remaining@.len() ==> #[trigger] remaining@[k]@ == prev[next@.len()
                            + k],
                    found == exists|j: int|
                        0 <= j < next@.len() && is_close(#[trigger] prev[j].last(), s),
                decreases remaining@.len(),
            {
                let ghost done = next@.len() as int;
                let mut t = remaining.remove(0);
                assert(t@ == prev[done]);
                let last = t[t.len() - 1];
                if get_square_distance(last.0, last.1, s.0, s.1) < CLUSTER_RADIUS_SQ {
                    t.push(s);
                    found = true;
                }
                next.push(t);
                assert forall|k: int| 0 <= k < remaining@.len() implies #[trigger] remaining@[k]@
                    == prev[next@.len() + k] by {}
                assert(found == exists|j: int|
                    0 <= j < next@.len() && is_close(#[trigger] prev[j].last(), s)) by {
                    if is_close(prev[done].last(), s) {
                        assert(0 <= done < next@.len() && is_close(prev[done].last(), s));
                    }
                }
            }
            if !found {
                next.push(vec![s]);
            }
            proof {
                let sub = self@.subrange(0, i + 1);
                assert(sub.drop_last() =~= self@.subrange(0, i as int));
                assert(sub.last() == s);
                if found {
                    assert(traces_view(next@) =~= prev.map_values(
                        |t: Seq<Sample>| extend_trace(t, s),
                    ));
                } else {
                    assert forall|k: int| 0 <= k < prev.len() implies extend_trace(prev[k], s)
                        == prev[k] by {
                        assert(!is_close(prev[k].last(), s));
                    }
                    assert(next@.last()@ =~= seq![s]);
                    assert(traces_view(next@) =~= prev.push(seq![s]));
                }
            }
            traces = next;
        }
        assert(self@.subrange(0, n as int) =~= self@);
        traces
    }

    /// Clusters the held samples and, for each trace in turn, moves the
    /// candidate that its first sample lands on, if that candidate is movable,
    /// by the raw coordinates of the trace's last sample. A move that would
    /// leave the `i32` coordinate space is skipped.
    pub fn check_for_object_moves(&self, movable_objects: &mut Vec<Form>)
        ensures
            traces_applied(old(movable_objects)@, final(movable_objects)@, cluster(self@)),
    {
        let traces = self.cluster_traces();
        let ghost all = cluster(self@);
        let n = traces.len();
        assert(all.take(0) =~= Seq::<Seq<Sample>>::empty());
        for i in 0..n
            invariant
                n == traces@.len(),
                all == traces_view(traces@),
                forall|k: int| 0 <= k < traces@.len() ==> #[trigger] traces@[k]@.len() > 0,
                traces_applied(old(movable_objects)@, movable_objects@, all.take(i as int)),
        {
            let ghost before = movable_objects@;
            let tr = &traces[i];
            assert(tr@ == all[i as int]);
            let first = tr[0];
            let last = tr[tr.len() - 1];
            if let Some(k) = check_for_hit(movable_objects, first.0, first.1) {
                if movable_objects[k].is_movable() && movable_objects[k].can_move_form(
                    last.0,
                    last.1,
                    true,
                ) {
                    let mut node = movable_objects.remove(k);
                    node.move_form(last.0, last.1, true);
                    movable_objects.insert(k, node);
                    assert(movable_hit(before, k as int, tr@));
                    assert(trace_applied(before, movable_objects@, tr@));
                } else {
                    assert forall|k2: int| !movable_hit(before, k2, tr@) by {
                        if movable_hit(before, k2, tr@) {
                            if k2 < k {
                                assert(!before[k2].bbox().contains(first.0 as int, first.1 as int));
                            } else if k2 > k {
                                assert(!before[k as int].bbox().contains(
                                    first.0 as int,
                                    first.1 as int,
                                ));
                            }
                        }
                    }
                }
            } else {
                assert forall|k2: int| !movable_hit(before, k2, tr@) by {
                    if movable_hit(before, k2, tr@) {
                        assert(!before[k2].bbox().contains(first.0 as int, first.1 as int));
                    }
                }
            }
            assert(all.take(i + 1).drop_last() =~= all.take(i as int));
            assert(all.take(i + 1).last() == tr@);
            assert(trace_applied(before, movable_objects@, tr@));
            assert(traces_applied(old(movable_objects)@, before, all.take(i + 1).drop_last()));
            assert(traces_applied(old(movable_objects)@, movable_objects@, all.take(i + 1)));
        }
        assert(all.take(n as int) =~= all);
    }

    /// Recognizes no directional gestures yet; leaves everything as it is.
    pub fn check_for_directions(&self) {
    }

    /// One step of the pipeline: ages the history to `cur_ticks`, records
    /// `new_touches`, then acts on the traces of what is held.
    pub fn tick(&mut self, cur_ticks: usize, new_touches: Vec<(i32, i32)>, movable_objects: &mut Vec<
        Form,
    >)
        requires
            old(self).wf(),
            ticks_at_most(old(self)@, cur_ticks as int),
        ensures
            final(self)@ == evict_stale(old(self)@, cur_ticks as int) + stamped(
                new_touches@,
                cur_ticks,
            ),
            final(self).wf(),
            traces_applied(old(movable_objects)@, final(movable_objects)@, cluster(final(self)@)),
    {
        self.update(cur_ticks, new_touches);
        self.check_for_object_moves(movable_objects);
    }
}

} // verus!
