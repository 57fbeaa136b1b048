//! Window selection for axis scaling: the visible time domain and the maximum
//! rate among the points inside it.

use crate::series::{store_wf, SamplePoint, SeriesStore};
use vstd::prelude::*;

verus! {

/// Visible bounds of the chart: the time domain `[start_ms, end_ms]` and the
/// value range `[0, max_rate]`.
#[derive(Clone, Copy, PartialEq, Eq, Structural, Debug)]
pub struct Window {
    pub start_ms: u64,
    pub end_ms: u64,
    pub max_rate: u64,
}

/// The timestamp of a series' last point, or 0 for an empty series.
pub open spec fn series_last_ts(pts: Seq<SamplePoint>) -> u64 {
    if pts.len() == 0 {
        0
    } else {
        pts.last().timestamp_ms
    }
}

/// The latest timestamp across all series, or 0 where no data exists yet.
pub open spec fn spec_last_timestamp(v: Seq<(Seq<u8>, Seq<SamplePoint>)>) -> u64
    decreases v.len(),
{
    if v.len() == 0 {
        0
    } else {
        let rest = spec_last_timestamp(v.drop_last());
        if series_last_ts(v.last().1) > rest {
            series_last_ts(v.last().1)
        } else {
            rest
        }
    }
}

/// The greatest rate among a series' points with timestamp at or after
/// `start_ms`, or 0 where no point qualifies.
pub open spec fn series_max_rate_from(pts: Seq<SamplePoint>, start_ms: u64) -> u64
    decreases pts.len(),
{
    if pts.len() == 0 {
        0
    } else {
        let rest = series_max_rate_from(pts.drop_last(), start_ms);
        let here = if pts.last().timestamp_ms >= start_ms {
            pts.last().rate_bytes_per_sec
        } else {
            0
        };
        if here > rest {
            here
        } else {
            rest
        }
    }
}

/// The greatest qualifying rate across all series, or 0 where none qualifies.
pub open spec fn spec_max_rate_from(v: Seq<(Seq<u8>, Seq<SamplePoint>)>, start_ms: u64) -> u64
    decreases v.len(),
{
    if v.len() == 0 {
        0
    } else {
        let rest = spec_max_rate_from(v.drop_last(), start_ms);
        let here = series_max_rate_from(v.last().1, start_ms);
        if here > rest {
            here
        } else {
            rest
        }
    }
}

proof fn lemma_series_max_is_bound(pts: Seq<SamplePoint>, start_ms: u64, j: int)
    requires
        0 <= j < pts.len(),
        pts[j].timestamp_ms >= start_ms,
    ensures
        pts[j].rate_bytes_per_sec <= series_max_rate_from(pts, start_ms),
    decreases pts.len(),
{
    if j < pts.len() - 1 {
        assert(pts.drop_last()[j] == pts[j]);
        lemma_series_max_is_bound(pts.drop_last(), start_ms, j);
    }
}

proof fn lemma_series_max_attained(pts: Seq<SamplePoint>, start_ms: u64)
    ensures
        series_max_rate_from(pts, start_ms) == 0 || exists|j: int|
            0 <= j < pts.len() && #[trigger] pts[j].timestamp_ms >= start_ms
                && pts[j].rate_bytes_per_sec == series_max_rate_from(pts, start_ms),
    decreases pts.len(),
{
    if pts.len() > 0 {
        lemma_series_max_attained(pts.drop_last(), start_ms);
        let m = series_max_rate_from(pts, start_ms);
        let rest = series_max_rate_from(pts.drop_last(), start_ms);
        if m != 0 {
            if m > rest {
                assert(pts[pts.len() - 1].timestamp_ms >= start_ms
                    && pts[pts.len() - 1].rate_bytes_per_sec == m);
            } else {
                let j = choose|j: int|
                    0 <= j < pts.drop_last().len() && #[trigger] pts.drop_last()[j].timestamp_ms
                        >= start_ms && pts.drop_last()[j].rate_bytes_per_sec == rest;
                assert(pts[j].timestamp_ms >= start_ms && pts[j].rate_bytes_per_sec == m);
            }
        }
    }
}

/// The range maximum counts no point before the window's start: every visible
/// point's rate is bounded by it.
pub proof fn lemma_max_rate_is_bound(
    v: Seq<(Seq<u8>, Seq<SamplePoint>)>,
    start_ms: u64,
    e: int,
    j: int,
)
    requires
        0 <= e < v.len(),
        0 <= j < v[e].1.len(),
        v[e].1[j].timestamp_ms >= start_ms,
    ensures
        v[e].1[j].rate_bytes_per_sec <= spec_max_rate_from(v, start_ms),
    decreases v.len(),
{
    if e == v.len() - 1 {
        lemma_series_max_is_bound(v[e].1, start_ms, j);
    } else {
        assert(v.drop_last()[e] == v[e]);
        lemma_max_rate_is_bound(v.drop_last(), start_ms, e, j);
    }
}

/// The range maximum is no wider than the visible points either: it is 0 with
/// nothing visible, and otherwise the rate of some point at or after the
/// window's start. With `lemma_max_rate_is_bound`, points before the start
/// cannot contribute.
pub proof fn lemma_max_rate_attained(v: Seq<(Seq<u8>, Seq<SamplePoint>)>, start_ms: u64)
    ensures
        spec_max_rate_from(v, start_ms) == 0 || exists|e: int, j: int|
            0 <= e < v.len() && 0 <= j < v[e].1.len() && #[trigger] v[e].1[j].timestamp_ms
                >= start_ms && v[e].1[j].rate_bytes_per_sec == spec_max_rate_from(v, start_ms),
    decreases v.len(),
{
    if v.len() > 0 {
        lemma_max_rate_attained(v.drop_last(), start_ms);
        let m = spec_max_rate_from(v, start_ms);
        let rest = spec_max_rate_from(v.drop_last(), start_ms);
        if m != 0 {
            if m > rest {
                lemma_series_max_attained(v.last().1, start_ms);
                let j = choose|j: int|
                    0 <= j < v.last().1.len() && #[trigger] v.last().1[j].timestamp_ms >= start_ms
                        && v.last().1[j].rate_bytes_per_sec == m;
                assert(v[v.len() - 1].1[j].timestamp_ms >= start_ms && v[v.len() - 1].1[
                    j
                ].rate_bytes_per_sec == m);
            } else {
                let (e, j) = choose|e: int, j: int|
                    0 <= e < v.drop_last().len() && 0 <= j < v.drop_last()[e].1.len()
                        && #[trigger] v.drop_last()[e].1[j].timestamp_ms >= start_ms
                        && v.drop_last()[e].1[j].rate_bytes_per_sec == rest;
                assert(v.drop_last()[e] == v[e]);
                assert(v[e].1[j].timestamp_ms >= start_ms && v[e].1[j].rate_bytes_per_sec == m);
            }
        }
    }
}

/// In a well-formed store the latest timestamp bounds every point: since the
/// domain's right edge is never below it, no data ever lies beyond the right
/// edge of the window.
pub proof fn lemma_last_timestamp_bounds(
    v: Seq<(Seq<u8>, Seq<SamplePoint>)>,
    e: int,
    j: int,
)
    requires
        store_wf(v),
        0 <= e < v.len(),
        0 <= j < v[e].1.len(),
    ensures
        v[e].1[j].timestamp_ms <= spec_last_timestamp(v),
    decreases v.len(),
{
    if e == v.len() - 1 {
        if j < v[e].1.len() - 1 {
            assert(v[e].1[j].timestamp_ms < v[e].1[v[e].1.len() - 1].timestamp_ms);
        }
    } else {
        assert(store_wf(v.drop_last())) by {
            assert(forall|a: int|
                0 <= a < v.drop_last().len() ==> #[trigger] v.drop_last()[a] == v[a]);
        }
        assert(v.drop_last()[e] == v[e]);
        lemma_last_timestamp_bounds(v.drop_last(), e, j);
    }
}

/// The domain always spans exactly the display duration, never reaches before
/// time zero, and keeps the latest data inside its right edge.
pub proof fn lemma_domain_spans_duration(last_ts_ms: u64, duration_ms: u64)
    requires
        duration_ms > 0,
    ensures
        spec_domain(last_ts_ms, duration_ms).1 - spec_domain(last_ts_ms, duration_ms).0
            == duration_ms,
        spec_domain(last_ts_ms, duration_ms).0 >= 0,
        spec_domain(last_ts_ms, duration_ms).1 >= last_ts_ms,
{
}

/// The exact domain the chart shows for a display duration: the window spans
/// at least the duration, is anchored so the latest data sits at the right
/// edge, and never reaches before time zero.
pub open spec fn spec_domain(last_ts_ms: u64, duration_ms: u64) -> (u64, u64) {
    let end = if duration_ms > last_ts_ms {
        duration_ms
    } else {
        last_ts_ms
    };
    ((end - duration_ms) as u64, end)
}

/// The points of one series visible from the window's start (no cut is
/// needed at the right edge: no timestamp exceeds the domain's end).
pub fn visible_points(points: &Vec<SamplePoint>, start_ms: u64) -> (r: Vec<SamplePoint>)
    ensures
        r@ == points@.filter(|p: SamplePoint| p.timestamp_ms >= start_ms),
{
    let ghost keep = |p: SamplePoint| p.timestamp_ms >= start_ms;
    let n: usize = points.len();
    let mut r: Vec<SamplePoint> = Vec::new();
    proof {
        reveal(Seq::filter);
        assert(points@.take(0).filter(keep) =~= Seq::<SamplePoint>::empty());
    }
    let mut i: usize = 0;
    while i < n
        invariant
            n == points@.len(),
            i <= n,
            keep == (|p: SamplePoint| p.timestamp_ms >= start_ms),
            r@ == points@.take(i as int).filter(keep),
        decreases n - i,
    {
        let p: SamplePoint = points[i];
        if p.timestamp_ms >= start_ms {
            r.push(p);
        }
        proof {
            reveal(Seq::filter);
            assert(points@.take(i + 1).drop_last() =~= points@.take(i as int));
            assert(points@.take(i + 1).last() == points@[i as int]);
            if keep(points@[i as int]) {
                assert(points@.take(i + 1).filter(keep) == points@.take(i as int).filter(
                    keep,
                ).push(points@[i as int]));
            } else {
                assert(points@.take(i + 1).filter(keep) == points@.take(i as int).filter(keep));
            }
        }
        i = i + 1;
    }
    proof {
        assert(points@.take(n as int) =~= points@);
    }
    r
}

impl SeriesStore {
    /// The latest timestamp any series holds, or 0 with no data yet.
    pub fn last_timestamp(&self) -> (last: u64)
        ensures
            last == spec_last_timestamp(self@),
    {
        let n: usize = self.len();
        let mut last: u64 = 0;
        let mut i: usize = 0;
        while i < n
            invariant
                n == self@.len(),
                i <= n,
                last == spec_last_timestamp(self@.take(i as int)),
            decreases n - i,
        {
            let points = self.points_at(i);
            let m: usize = points.len();
            let here: u64 = if m == 0 {
                0
            } else {
                points[m - 1].timestamp_ms
            };
            if here > last {
                last = here;
            }
            proof {
                assert(self@.take(i + 1).drop_last() =~= self@.take(i as int));
                assert(self@.take(i + 1).last() == self@[i as int]);
            }
            i = i + 1;
        }
        proof {
            assert(self@.take(n as int) =~= self@);
        }
        last
    }

    /// The greatest rate among points visible from `start_ms` on, across all
    /// series, or 0 where nothing is visible: the value range reflects only
    /// what the window shows.
    pub fn max_rate_from(&self, start_ms: u64) -> (max: u64)
        ensures
            max == spec_max_rate_from(self@, start_ms),
    {
        let n: usize = self.len();
        let mut max: u64 = 0;
        let mut i: usize = 0;
        while i < n
            invariant
                n == self@.len(),
                i <= n,
                max == spec_max_rate_from(self@.take(i as int), start_ms),
            decreases n - i,
        {
            let points = self.points_at(i);
            let m: usize = points.len();
            let mut here: u64 = 0;
            let mut j: usize = 0;
            while j < m
                invariant
                    m == points@.len(),
                    j <= m,
                    here == series_max_rate_from(points@.take(j as int), start_ms),
                decreases m - j,
            {
                let p: SamplePoint = points[j];
                if p.timestamp_ms >= start_ms && p.rate_bytes_per_sec > here {
                    here = p.rate_bytes_per_sec;
                }
                proof {
                    assert(points@.take(j + 1).drop_last() =~= points@.take(j as int));
                    assert(points@.take(j + 1).last() == points@[j as int]);
                }
                j = j + 1;
            }
            if here > max {
                max = here;
            }
            proof {
                assert(points@.take(m as int) =~= points@);
                assert(self@.take(i + 1).drop_last() =~= self@.take(i as int));
                assert(self@.take(i + 1).last() == self@[i as int]);
            }
            i = i + 1;
        }
        proof {
            assert(self@.take(n as int) =~= self@);
        }
        max
    }

    /// The window the chart shows for a display duration: domain per
    /// `spec_domain`, range maximum restricted to points at or after the
    /// domain's start. With no data yet the domain is `[0, duration]` and the
    /// range maximum 0.
    pub fn select_window(&self, duration_ms: u64) -> (w: Window)
        requires
            duration_ms > 0,
        ensures
            (w.start_ms, w.end_ms) == spec_domain(spec_last_timestamp(self@), duration_ms),
            w.max_rate == spec_max_rate_from(self@, w.start_ms),
    {
        let last = self.last_timestamp();
        let end: u64 = if duration_ms > last {
            duration_ms
        } else {
            last
        };
        let start: u64 = end - duration_ms;
        let max_rate = self.max_rate_from(start);
        Window { start_ms: start, end_ms: end, max_rate }
    }
}

} // verus!
