//! The animated state of the overlay: the pointer trail, which keeps the
//! recent pointer positions for a short while, and the click ripples, which
//! live for a fixed time after each click. Time is the number of
//! microseconds since the overlay started, from a monotonic clock.

use vstd::prelude::*;
use std::collections::VecDeque;

verus! {

/// How long a trail point stays in the trail: 0.3 s.
pub const TRAIL_LIFETIME_US: u64 = 300_000;

/// The radius, in pixels, that a click ripple reaches as it ends.
pub const RIPPLE_MAX_RADIUS: u32 = 120;

/// How long a click ripple lives: 0.5 s.
pub const RIPPLE_DURATION_US: u64 = 500_000;

/// A recorded pointer position, relative to the overlay's origin.
#[derive(Clone, Copy, Debug, PartialEq, Eq, Structural)]
pub struct TrailPoint {
    pub x: i64,
    pub y: i64,
    pub time_us: u64,
}

/// A ripple spreading from a click, centred at (`x`, `y`) relative to the
/// overlay's origin.
#[derive(Clone, Copy, Debug, PartialEq, Eq, Structural)]
pub struct ClickRipple {
    pub x: i64,
    pub y: i64,
    pub start_us: u64,
    pub max_radius: u32,
    pub duration_us: u64,
}

/// The effect state: the trail, oldest point first, the live ripples, and
/// the time of the latest frame.
pub struct Effects {
    pub trail: VecDeque<TrailPoint>,
    pub ripples: Vec<ClickRipple>,
    pub now_us: u64,
}

/// A trail point is expired at `now` once it is older than the trail's
/// lifetime.
pub open spec fn expired(p: TrailPoint, now: u64) -> bool {
    now - p.time_us > TRAIL_LIFETIME_US
}

/// Trail points are recorded in time order.
pub open spec fn time_ordered(s: Seq<TrailPoint>) -> bool {
    forall|i: int, j: int| 0 <= i <= j < s.len() ==> s[i].time_us <= s[j].time_us
}

/// No trail point is later than `now`.
pub open spec fn not_after(s: Seq<TrailPoint>, now: u64) -> bool {
    forall|i: int| 0 <= i < s.len() ==> #[trigger] s[i].time_us <= now
}

/// Drops trail points from the front, oldest first, for as long as the front
/// point is expired.
pub open spec fn prune_spec(s: Seq<TrailPoint>, now: u64) -> Seq<TrailPoint>
    decreases s.len(),
{
    if s.len() > 0 && expired(s[0], now) {
        prune_spec(s.drop_first(), now)
    } else {
        s
    }
}

/// A ripple is alive at `now` while it is younger than its duration.
pub open spec fn ripple_alive(r: ClickRipple, now: u64) -> bool {
    now - r.start_us < r.duration_us
}

/// The ripple that a click at (`cx`, `cy`) on the virtual desktop starts at
/// time `now`, on an overlay whose origin is at (`ox`, `oy`).
pub open spec fn ripple_for_click(cx: i32, cy: i32, ox: i32, oy: i32, now: u64) -> ClickRipple {
    ClickRipple {
        x: (cx - ox) as i64,
        y: (cy - oy) as i64,
        start_us: now,
        max_radius: RIPPLE_MAX_RADIUS,
        duration_us: RIPPLE_DURATION_US,
    }
}

/// The ripples started by a batch of clicks, in click order.
pub open spec fn ripples_for_clicks(clicks: Seq<(i32, i32)>, ox: i32, oy: i32, now: u64) -> Seq<
    ClickRipple,
> {
    clicks.map_values(|c: (i32, i32)| ripple_for_click(c.0, c.1, ox, oy, now))
}

/// The live ripples of `s` at `now`, in order.
pub open spec fn live_ripples(s: Seq<ClickRipple>, now: u64) -> Seq<ClickRipple> {
    s.filter(|r: ClickRipple| ripple_alive(r, now))
}

/// The trail points that are drawn at `now`, each with its position in the
/// trail (the position picks its colour): those younger than the lifetime.
pub open spec fn drawn_trail_spec(s: Seq<TrailPoint>, now: u64) -> Seq<(usize, TrailPoint)> {
    Seq::new(s.len(), |i: int| (i as usize, s[i])).filter(
        |e: (usize, TrailPoint)| now - e.1.time_us < TRAIL_LIFETIME_US,
    )
}

impl Effects {
    /// Every recorded time lies at or before the latest frame, and the trail
    /// is in time order.
    pub open spec fn wf(&self) -> bool {
        &&& time_ordered(self.trail@)
        &&& not_after(self.trail@, self.now_us)
        &&& forall|i: int|
            0 <= i < self.ripples@.len() ==> #[trigger] self.ripples@[i].start_us <= self.now_us
        &&& self.trail@.len() < usize::MAX
    }

    /// An empty state at time 0.
    pub fn new() -> (r: Effects)
        ensures
            r.wf(),
            r.trail@ == Seq::<TrailPoint>::empty(),
            r.ripples@ == Seq::<ClickRipple>::empty(),
            r.now_us == 0,
    {
        Effects { trail: VecDeque::new(), ripples: Vec::new(), now_us: 0 }
    }

    /// Starts the frame at `now_us`, records the pointer at (`x`, `y`) at the
    /// end of the trail, then drops expired points from the trail's front.
    pub fn record_pointer(&mut self, x: i64, y: i64, now_us: u64)
        requires
            old(self).wf(),
            old(self).now_us <= now_us,
            old(self).trail@.len() + 1 < usize::MAX,
        ensures
            final(self).wf(),
            final(self).now_us == now_us,
            final(self).trail@ == prune_spec(
                old(self).trail@.push(TrailPoint { x, y, time_us: now_us }),
                now_us,
            ),
            final(self).trail@ == old(self).trail@.push(TrailPoint { x, y, time_us: now_us }).filter(
                |q: TrailPoint| now_us - q.time_us <= TRAIL_LIFETIME_US,
            ),
            final(self).ripples@ == old(self).ripples@,
    {
        self.now_us = now_us;
        self.trail.push_back(TrailPoint { x, y, time_us: now_us });
        let ghost full = self.trail@;
        while self.trail.len() > 0 && now_us - self.trail[0].time_us > TRAIL_LIFETIME_US
            invariant
                prune_spec(self.trail@, now_us) == prune_spec(full, now_us),
                time_ordered(self.trail@),
                not_after(self.trail@, now_us),
                self.trail@.len() < usize::MAX,
                self.now_us == now_us,
                self.ripples@ == old(self).ripples@,
            decreases self.trail@.len(),
        {
            assert(self.trail@.drop_first() =~= self.trail@.subrange(1, self.trail@.len() as int));
            self.trail.pop_front();
        }
        proof {
            lemma_prune_by_lifetime(full, now_us);
        }
    }

    /// Starts a ripple for each click, in click order, at the frame's time.
    /// Clicks are in virtual-desktop coordinates; the overlay's origin is at
    /// (`origin_x`, `origin_y`).
    pub fn add_clicks(&mut self, clicks: &[(i32, i32)], origin_x: i32, origin_y: i32)
        requires
            old(self).wf(),
        ensures
            final(self).wf(),
            final(self).now_us == old(self).now_us,
            final(self).trail@ == old(self).trail@,
            final(self).ripples@ == old(self).ripples@ + ripples_for_clicks(
                clicks@,
                origin_x,
                origin_y,
                old(self).now_us,
            ),
            final(self).ripples@.len() == old(self).ripples@.len() + clicks@.len(),
            forall|k: int|
                0 <= k < clicks@.len() ==> #[trigger] final(self).ripples@[old(self).ripples@.len()
                    + k] == (ClickRipple {
                    x: (clicks@[k].0 - origin_x) as i64,
                    y: (clicks@[k].1 - origin_y) as i64,
                    start_us: old(self).now_us,
                    max_radius: 120,
                    duration_us: 500_000,
                }),
    {
        let now = self.now_us;
        let mut i: usize = 0;
        while i < clicks.len()
            invariant
                i <= clicks@.len(),
                self.now_us == now,
                now == old(self).now_us,
                self.trail@ == old(self).trail@,
                self.wf(),
                self.ripples@ == old(self).ripples@ + ripples_for_clicks(
                    clicks@.take(i as int),
                    origin_x,
                    origin_y,
                    now,
                ),
            decreases clicks@.len() - i,
        {
            let (cx, cy) = clicks[i];
            let ripple = ClickRipple {
                x: (cx as i64) - (origin_x as i64),
                y: (cy as i64) - (origin_y as i64),
                start_us: now,
                max_radius: RIPPLE_MAX_RADIUS,
                duration_us: RIPPLE_DURATION_US,
            };
            self.ripples.push(ripple);
            assert(clicks@.take(i + 1) =~= clicks@.take(i as int).push((cx, cy)));
            assert(ripples_for_clicks(clicks@.take(i + 1), origin_x, origin_y, now)
                =~= ripples_for_clicks(clicks@.take(i as int), origin_x, origin_y, now).push(
                ripple,
            ));
            i += 1;
        }
        assert(clicks@.take(clicks@.len() as int) =~= clicks@);
    }

    /// Drops the ripples that have run their course at the frame's time,
    /// keeping the order of the others.
    pub fn expire_ripples(&mut self)
        requires
            old(self).wf(),
        ensures
            final(self).wf(),
            final(self).now_us == old(self).now_us,
            final(self).trail@ == old(self).trail@,
            final(self).ripples@ == live_ripples(old(self).ripples@, old(self).now_us),
            final(self).ripples@ == old(self).ripples@.filter(
                |r: ClickRipple| old(self).now_us - r.start_us < r.duration_us,
            ),
    {
        let now = self.now_us;
        let ghost all = self.ripples@;
        let mut kept: Vec<ClickRipple> = Vec::new();
        let mut i: usize = 0;
        while i < self.ripples.len()
            invariant
                self.ripples@ == all,
                i <= all.len(),
                now == self.now_us,
                forall|k: int| 0 <= k < all.len() ==> #[trigger] all[k].start_us <= now,
                kept@ == live_ripples(all.take(i as int), now),
            decreases all.len() - i,
        {
            let r = self.ripples[i];
            proof {
                reveal_with_fuel(Seq::<_>::filter, 1);
                assert(all.take(i + 1).drop_last() =~= all.take(i as int));
            }
            if now - r.start_us < r.duration_us {
                kept.push(r);
            }
            i += 1;
        }
        proof {
            assert(all.take(all.len() as int) =~= all);
        }
        self.ripples = kept;
        proof {
            assert forall|k: int| 0 <= k < self.ripples@.len() implies #[trigger] self.ripples@[k].start_us
                <= self.now_us by {
                let r = self.ripples@[k];
                assert(live_ripples(all, now).contains(r));
                all.lemma_filter_contains_rev(|r: ClickRipple| ripple_alive(r, now), r);
            }
            lemma_live_ripples_by_duration(all, now);
        }
    }

    /// One frame: records the pointer at (`x`, `y`) at time `now_us`, drops
    /// the expired trail points, starts a ripple for each click, then drops
    /// the ripples that have ended.
    pub fn advance(
        &mut self,
        now_us: u64,
        x: i64,
        y: i64,
        clicks: &[(i32, i32)],
        origin_x: i32,
        origin_y: i32,
    )
        requires
            old(self).wf(),
            old(self).now_us <= now_us,
            old(self).trail@.len() + 1 < usize::MAX,
        ensures
            final(self).wf(),
            final(self).now_us == now_us,
            final(self).trail@ == prune_spec(
                old(self).trail@.push(TrailPoint { x, y, time_us: now_us }),
                now_us,
            ),
            final(self).trail@ == old(self).trail@.push(TrailPoint { x, y, time_us: now_us }).filter(
                |q: TrailPoint| now_us - q.time_us <= TRAIL_LIFETIME_US,
            ),
            final(self).ripples@ == live_ripples(
                old(self).ripples@ + ripples_for_clicks(clicks@, origin_x, origin_y, now_us),
                now_us,
            ),
    {
        self.record_pointer(x, y, now_us);
        self.add_clicks(clicks, origin_x, origin_y);
        self.expire_ripples();
    }

    /// The trail points to draw this frame, each with its index in the
    /// trail: those younger than the trail's lifetime, oldest first.
    pub fn drawn_trail(&self) -> (r: Vec<(usize, TrailPoint)>)
        requires
            self.wf(),
        ensures
            r@ == drawn_trail_spec(self.trail@, self.now_us),
            forall|i: int|
                0 <= i < self.trail@.len() ==> (r@.contains((i as usize, self.trail@[i])) <==> (
                self.now_us - self.trail@[i].time_us < TRAIL_LIFETIME_US)),
            forall|j: int|
                0 <= j < r@.len() ==> (#[trigger] r@[j]).0 < self.trail@.len() && r@[j].1
                    == self.trail@[r@[j].0 as int],
            forall|j: int, k: int| 0 <= j < k < r@.len() ==> (#[trigger] r@[j]).0 < (#[trigger] r@[k]).0,
    {
        let now = self.now_us;
        let ghost all = Seq::new(self.trail@.len(), |i: int| (i as usize, self.trail@[i]));
        let mut out: Vec<(usize, TrailPoint)> = Vec::new();
        let mut i: usize = 0;
        while i < self.trail.len()
            invariant
                i <= self.trail@.len(),
                all.len() == self.trail@.len(),
                forall|k: int| 0 <= k < all.len() ==> #[trigger] all[k] == (k as usize, self.trail@[k]),
                not_after(self.trail@, now),
                now == self.now_us,
                out@ == all.take(i as int).filter(
                    |e: (usize, TrailPoint)| now - e.1.time_us < TRAIL_LIFETIME_US,
                ),
            decreases self.trail@.len() - i,
        {
            let p = self.trail[i];
            proof {
                reveal_with_fuel(Seq::<_>::filter, 1);
                assert(all.take(i + 1).drop_last() =~= all.take(i as int));
                assert(all[i as int] == (i, p));
            }
            if now - p.time_us < TRAIL_LIFETIME_US {
                out.push((i, p));
            }
            i += 1;
        }
        proof {
            assert(all.take(all.len() as int) =~= all);
            lemma_drawn_trail_exact(self.trail@, now);
            let d = drawn_trail_spec(self.trail@, now);
            assert(out@ == d);
            assert forall|j: int, k: int| 0 <= j < k < out@.len() implies (#[trigger] out@[j]).0
                < (#[trigger] out@[k]).0 by {
                assert(d[j].0 < d[k].0);
            }
        }
        out
    }
}

/// Pruning removes a prefix: what it keeps is a suffix of the trail.
pub proof fn lemma_prune_is_suffix(s: Seq<TrailPoint>, now: u64)
    ensures
        prune_spec(s, now).len() <= s.len(),
        prune_spec(s, now) == s.subrange(s.len() - prune_spec(s, now).len(), s.len() as int),
    decreases s.len(),
{
    if s.len() > 0 && expired(s[0], now) {
        lemma_prune_is_suffix(s.drop_first(), now);
        assert(s.drop_first().subrange(
            s.drop_first().len() - prune_spec(s, now).len(),
            s.drop_first().len() as int,
        ) =~= s.subrange(s.len() - prune_spec(s, now).len(), s.len() as int));
    } else {
        assert(s.subrange(0, s.len() as int) =~= s);
    }
}

/// On a time-ordered trail whose times lie at or before `now`, pruning the
/// front removes exactly the expired points: the result is the trail with
/// every expired point filtered out.
pub proof fn lemma_prune_removes_exactly_expired(s: Seq<TrailPoint>, now: u64)
    requires
        time_ordered(s),
        not_after(s, now),
    ensures
        prune_spec(s, now) == s.filter(|p: TrailPoint| !expired(p, now)),
    decreases s.len(),
{
    reveal_with_fuel(Seq::<_>::filter, 1);
    if s.len() == 0 {
        assert(s.filter(|p: TrailPoint| !expired(p, now)) =~= s);
    } else if expired(s[0], now) {
        assert(time_ordered(s.drop_first()));
        assert(not_after(s.drop_first(), now));
        lemma_prune_removes_exactly_expired(s.drop_first(), now);
        lemma_filter_first(s, now);
    } else {
        // The front is fresh, and every later point is at least as recent.
        assert forall|i: int| 0 <= i < s.len() implies !expired(#[trigger] s[i], now) by {
            assert(s[0].time_us <= s[i].time_us);
        }
        lemma_filter_all(s, now);
    }
}

proof fn lemma_filter_first(s: Seq<TrailPoint>, now: u64)
    requires
        s.len() > 0,
        expired(s[0], now),
    ensures
        s.filter(|p: TrailPoint| !expired(p, now)) == s.drop_first().filter(
            |p: TrailPoint| !expired(p, now),
        ),
    decreases s.len(),
{
    let f = |p: TrailPoint| !expired(p, now);
    if s.len() == 1 {
        reveal_with_fuel(Seq::<_>::filter, 2);
        assert(s.drop_last() =~= Seq::<TrailPoint>::empty());
        assert(s.drop_first() =~= Seq::<TrailPoint>::empty());
        assert(Seq::<TrailPoint>::empty().filter(f) =~= Seq::<TrailPoint>::empty());
    } else {
        reveal_with_fuel(Seq::<_>::filter, 1);
        lemma_filter_first(s.drop_last(), now);
        assert(s.drop_last().drop_first() =~= s.drop_first().drop_last());
        assert(s.drop_first().last() == s.last());
    }
}

proof fn lemma_filter_all(s: Seq<TrailPoint>, now: u64)
    requires
        forall|i: int| 0 <= i < s.len() ==> !expired(#[trigger] s[i], now),
    ensures
        s.filter(|p: TrailPoint| !expired(p, now)) == s,
    decreases s.len(),
{
    reveal_with_fuel(Seq::<_>::filter, 1);
    if s.len() > 0 {
        lemma_filter_all(s.drop_last(), now);
        assert(s.drop_last().push(s.last()) =~= s);
    } else {
        assert(s.filter(|p: TrailPoint| !expired(p, now)) =~= s);
    }
}

/// The trail keeps exactly the points of the last 0.3 s: on a time-ordered
/// trail whose times lie at or before `now`, pruning keeps precisely the
/// points with `now - time <= TRAIL_LIFETIME_US`, in order.
pub proof fn lemma_prune_by_lifetime(s: Seq<TrailPoint>, now: u64)
    requires
        time_ordered(s),
        not_after(s, now),
    ensures
        prune_spec(s, now) == s.filter(|q: TrailPoint| now - q.time_us <= TRAIL_LIFETIME_US),
{
    lemma_prune_removes_exactly_expired(s, now);
    let f1 = |p: TrailPoint| !expired(p, now);
    let f2 = |q: TrailPoint| now - q.time_us <= TRAIL_LIFETIME_US;
    assert(f1 =~= f2);
}

/// The drawn trail is exactly the trail points younger than the lifetime,
/// each with its own index, in trail order: `(i, s[i])` is drawn iff
/// `now - s[i].time < TRAIL_LIFETIME_US`, every drawn entry is a trail point
/// at its index, and the indices strictly increase.
pub proof fn lemma_drawn_trail_exact(s: Seq<TrailPoint>, now: u64)
    requires
        s.len() <= usize::MAX,
    ensures
        forall|i: int|
            0 <= i < s.len() ==> (drawn_trail_spec(s, now).contains((i as usize, s[i])) <==> (now
                - s[i].time_us < TRAIL_LIFETIME_US)),
        forall|j: int|
            0 <= j < drawn_trail_spec(s, now).len() ==> (#[trigger] drawn_trail_spec(s, now)[j]).0
                < s.len() && drawn_trail_spec(s, now)[j].1 == s[drawn_trail_spec(s, now)[j].0 as int],
        forall|j: int, k: int|
            0 <= j < k < drawn_trail_spec(s, now).len() ==> (#[trigger] drawn_trail_spec(s, now)[j]).0
                < (#[trigger] drawn_trail_spec(s, now)[k]).0,
{
    let all = Seq::new(s.len(), |i: int| (i as usize, s[i]));
    let f = |e: (usize, TrailPoint)| now - e.1.time_us < TRAIL_LIFETIME_US;
    let d = all.filter(f);
    assert(d == drawn_trail_spec(s, now));
    assert forall|i: int| 0 <= i < s.len() implies (d.contains((i as usize, s[i])) <==> (now
        - s[i].time_us < TRAIL_LIFETIME_US)) by {
        assert(all[i] == (i as usize, s[i]));
        if now - s[i].time_us < TRAIL_LIFETIME_US {
            all.lemma_filter_contains(f, i);
        }
        if d.contains((i as usize, s[i])) {
            let k = choose|k: int| 0 <= k < d.len() && d[k] == (i as usize, s[i]);
            all.lemma_filter_pred(f, k);
        }
    }
    assert forall|j: int| 0 <= j < d.len() implies (#[trigger] d[j]).0 < s.len() && d[j].1 == s[d[j].0 as int] by {
        assert(d.contains(d[j]));
        all.lemma_filter_contains_rev(f, d[j]);
        let m = choose|m: int| 0 <= m < all.len() && all[m] == d[j];
        assert(all[m] == (m as usize, s[m]));
    }
    assert(forall|j: int, k: int| 0 <= j < k < all.len() ==> (#[trigger] all[j]).0 < (#[trigger] all[k]).0);
    lemma_filter_keeps_increasing(all, f);
}

proof fn lemma_filter_keeps_increasing(t: Seq<(usize, TrailPoint)>, f: spec_fn((usize, TrailPoint)) -> bool)
    requires
        forall|j: int, k: int| 0 <= j < k < t.len() ==> (#[trigger] t[j]).0 < (#[trigger] t[k]).0,
    ensures
        forall|j: int, k: int|
            0 <= j < k < t.filter(f).len() ==> (#[trigger] t.filter(f)[j]).0 < (#[trigger] t.filter(f)[k]).0,
    decreases t.len(),
{
    reveal_with_fuel(Seq::<_>::filter, 1);
    if t.len() > 0 {
        let dl = t.drop_last();
        lemma_filter_keeps_increasing(dl, f);
        let fd = dl.filter(f);
        assert forall|j: int| 0 <= j < fd.len() implies (#[trigger] fd[j]).0 < t.last().0 by {
            assert(fd.contains(fd[j]));
            dl.lemma_filter_contains_rev(f, fd[j]);
            let m = choose|m: int| 0 <= m < dl.len() && dl[m] == fd[j];
            assert(t[m] == dl[m]);
        }
        if f(t.last()) {
            assert(t.filter(f) == fd.push(t.last()));
        } else {
            assert(t.filter(f) == fd);
        }
    }
}

/// After a frame records the pointer, the trail is time-ordered, no point
/// in it is expired, and its last point is the one just recorded.
pub proof fn lemma_trail_after_record(s: Seq<TrailPoint>, p: TrailPoint, now: u64)
    requires
        time_ordered(s),
        not_after(s, now),
        p.time_us == now,
    ensures
        prune_spec(s.push(p), now).len() > 0,
        prune_spec(s.push(p), now).last() == p,
        forall|i: int|
            0 <= i < prune_spec(s.push(p), now).len() ==> !expired(
                #[trigger] prune_spec(s.push(p), now)[i],
                now,
            ),
{
    let t = s.push(p);
    assert(time_ordered(t));
    assert(not_after(t, now));
    lemma_prune_removes_exactly_expired(t, now);
    lemma_prune_is_suffix(t, now);
    let f = |q: TrailPoint| !expired(q, now);
    assert(f(p));
    assert(t.filter(f).contains(p)) by {
        t.lemma_filter_contains(f, t.len() - 1);
    }
    assert(prune_spec(t, now).last() == t.last());
    assert forall|i: int| 0 <= i < prune_spec(t, now).len() implies !expired(
        #[trigger] prune_spec(t, now)[i],
        now,
    ) by {
        t.lemma_filter_pred(f, i);
    }
}

/// A ripple is kept exactly while it is younger than its own duration:
/// the live ripples are the ripples with `now - start < duration`, in order.
pub proof fn lemma_live_ripples_by_duration(s: Seq<ClickRipple>, now: u64)
    ensures
        live_ripples(s, now) == s.filter(|r: ClickRipple| now - r.start_us < r.duration_us),
{
    let f1 = |r: ClickRipple| ripple_alive(r, now);
    let f2 = |r: ClickRipple| now - r.start_us < r.duration_us;
    assert(f1 =~= f2);
}

/// A click at (`cx`, `cy`) starts, at the frame's time, a ripple centred on
/// the click relative to the overlay's origin, growing to a radius of 120
/// pixels over 0.5 s; that ripple is alive exactly while less than 0.5 s has
/// passed since the click.
pub proof fn lemma_click_ripple(cx: i32, cy: i32, ox: i32, oy: i32, t: u64, now: u64)
    ensures
        ripple_for_click(cx, cy, ox, oy, t).x == cx - ox,
        ripple_for_click(cx, cy, ox, oy, t).y == cy - oy,
        ripple_for_click(cx, cy, ox, oy, t).start_us == t,
        ripple_for_click(cx, cy, ox, oy, t).max_radius == 120,
        ripple_for_click(cx, cy, ox, oy, t).duration_us == 500_000,
        ripple_alive(ripple_for_click(cx, cy, ox, oy, t), now) <==> now - t < 500_000,
{
}

/// After ripples expire, every ripple left is alive, and every ripple that
/// was alive is left.
pub proof fn lemma_live_ripples_exact(s: Seq<ClickRipple>, now: u64)
    ensures
        forall|i: int|
            0 <= i < live_ripples(s, now).len() ==> ripple_alive(
                #[trigger] live_ripples(s, now)[i],
                now,
            ),
        forall|i: int|
            0 <= i < s.len() && ripple_alive(#[trigger] s[i], now) ==> live_ripples(
                s,
                now,
            ).contains(s[i]),
{
    let f = |r: ClickRipple| ripple_alive(r, now);
    assert forall|i: int| 0 <= i < live_ripples(s, now).len() implies ripple_alive(
        #[trigger] live_ripples(s, now)[i],
        now,
    ) by {
        s.lemma_filter_pred(f, i);
    }
    assert forall|i: int| 0 <= i < s.len() && ripple_alive(#[trigger] s[i], now) implies live_ripples(
        s,
        now,
    ).contains(s[i]) by {
        s.lemma_filter_contains(f, i);
    }
}

} // verus!
