//! The append-only, time-ordered series store: one series of sample points per
//! network interface, keyed by interface name.
//!
//! Entries are kept sorted by the byte order of the interface names' UTF-8
//! encodings, so that the chart's legend and colors visit interfaces in a
//! fixed order on every walk. Within each series, timestamps strictly
//! increase, and points are never removed or changed once appended.

use crate::order::{bytes_cmp, lemma_lex_lt_ne, lemma_lex_lt_transitive, lex_lt, ByteOrder};
use vstd::prelude::*;
use vstd::utf8::encode_utf8;

verus! {

/// One sample: milliseconds since process start, and bytes per second.
#[derive(Clone, Copy, PartialEq, Eq, Structural, Debug)]
pub struct SamplePoint {
    pub timestamp_ms: u64,
    pub rate_bytes_per_sec: u64,
}

struct SeriesEntry {
    name: String,
    points: Vec<SamplePoint>,
}

/// Mapping from interface name to its series, as a sequence of entries sorted
/// by name. The abstract value pairs each name's UTF-8 bytes with its points.
pub struct SeriesStore {
    entries: Vec<SeriesEntry>,
}

/// Timestamps strictly increase along a series: the append-only order is the
/// time order.
pub open spec fn series_wf(pts: Seq<SamplePoint>) -> bool {
    forall|i: int, j: int|
        0 <= i < j < pts.len() ==> #[trigger] pts[i].timestamp_ms < #[trigger] pts[j].timestamp_ms
}

/// Entries are strictly sorted by name (hence names are unique), and every
/// series is time-ordered.
pub open spec fn store_wf(v: Seq<(Seq<u8>, Seq<SamplePoint>)>) -> bool {
    &&& forall|i: int, j: int| 0 <= i < j < v.len() ==> lex_lt(#[trigger] v[i].0, #[trigger] v[j].0)
    &&& forall|i: int| 0 <= i < v.len() ==> series_wf(#[trigger] v[i].1)
}

/// Whether some entry carries this name.
pub open spec fn store_contains(v: Seq<(Seq<u8>, Seq<SamplePoint>)>, key: Seq<u8>) -> bool {
    exists|i: int| 0 <= i < v.len() && #[trigger] v[i].0 == key
}

/// The index of the entry carrying this name; meaningful under `store_wf`
/// and `store_contains`, where it is unique.
pub open spec fn store_index_of(v: Seq<(Seq<u8>, Seq<SamplePoint>)>, key: Seq<u8>) -> int {
    choose|i: int| 0 <= i < v.len() && #[trigger] v[i].0 == key
}

/// In a sorted store an entry's name pins its index down.
pub proof fn lemma_store_index_unique(
    v: Seq<(Seq<u8>, Seq<SamplePoint>)>,
    key: Seq<u8>,
    i: int,
    j: int,
)
    requires
        store_wf(v),
        0 <= i < v.len(),
        0 <= j < v.len(),
        v[i].0 == key,
        v[j].0 == key,
    ensures
        i == j,
{
    if i < j {
        lemma_lex_lt_ne(v[i].0, v[j].0);
    }
    if j < i {
        lemma_lex_lt_ne(v[j].0, v[i].0);
    }
}

/// Whether a copied-out snapshot carries exactly the names and points of a
/// store value.
pub open spec fn entries_match(
    v: Seq<(Seq<u8>, Seq<SamplePoint>)>,
    r: Seq<(String, Vec<SamplePoint>)>,
) -> bool {
    &&& r.len() == v.len()
    &&& forall|i: int|
        0 <= i < v.len() ==> encode_utf8(#[trigger] r[i].0@) == v[i].0 && r[i].1@ == v[i].1
}

/// Appended points keep every series strictly monotone in time: in a
/// well-formed store, an earlier point's timestamp lies strictly below any
/// later point's.
pub proof fn lemma_series_time_ordered(
    v: Seq<(Seq<u8>, Seq<SamplePoint>)>,
    e: int,
    i: int,
    j: int,
)
    requires
        store_wf(v),
        0 <= e < v.len(),
        0 <= i < j < v[e].1.len(),
    ensures
        v[e].1[i].timestamp_ms < v[e].1[j].timestamp_ms,
{
}

impl View for SeriesStore {
    type V = Seq<(Seq<u8>, Seq<SamplePoint>)>;

    closed spec fn view(&self) -> Self::V {
        self.entries@.map(|i: int, e: SeriesEntry| (encode_utf8(e.name@), e.points@))
    }
}

impl SeriesStore {
    pub open spec fn wf(&self) -> bool {
        store_wf(self@)
    }

    /// An empty store: no interface has been observed yet.
    pub fn new() -> (s: Self)
        ensures
            s@ == Seq::<(Seq<u8>, Seq<SamplePoint>)>::empty(),
            s.wf(),
    {
        let s = SeriesStore { entries: Vec::new() };
        proof {
            assert(s@ =~= Seq::<(Seq<u8>, Seq<SamplePoint>)>::empty());
        }
        s
    }

    /// Number of interfaces observed so far.
    pub fn len(&self) -> (n: usize)
        ensures
            n == self@.len(),
    {
        self.entries.len()
    }

    /// The name of the entry at a position of the sorted order.
    pub fn name_at(&self, i: usize) -> (name: &String)
        requires
            i < self@.len(),
        ensures
            encode_utf8(name@) == self@[i as int].0,
    {
        &self.entries[i].name
    }

    /// The points of the entry at a position of the sorted order.
    pub fn points_at(&self, i: usize) -> (points: &Vec<SamplePoint>)
        requires
            i < self@.len(),
        ensures
            points@ == self@[i as int].1,
    {
        &self.entries[i].points
    }

    /// Copy every entry out, for a renderer that must not hold the store
    /// while it draws.
    pub fn snapshot_entries(&self) -> (r: Vec<(String, Vec<SamplePoint>)>)
        ensures
            entries_match(self@, r@),
    {
        let n: usize = self.entries.len();
        let mut r: Vec<(String, Vec<SamplePoint>)> = Vec::new();
        let mut i: usize = 0;
        while i < n
            invariant
                n == self@.len(),
                i <= n,
                r@.len() == i,
                forall|j: int|
                    0 <= j < i ==> encode_utf8(#[trigger] r@[j].0@) == self@[j].0 && r@[j].1@
                        == self@[j].1,
            decreases n - i,
        {
            let name = self.entries[i].name.clone();
            let points = &self.entries[i].points;
            let m: usize = points.len();
            let mut copied: Vec<SamplePoint> = Vec::new();
            let mut j: usize = 0;
            while j < m
                invariant
                    m == points@.len(),
                    j <= m,
                    copied@.len() == j,
                    forall|a: int| 0 <= a < j ==> #[trigger] copied@[a] == points@[a],
                decreases m - j,
            {
                copied.push(points[j]);
                j = j + 1;
            }
            proof {
                assert(copied@ =~= points@);
                assert(self@[i as int].1 == self.entries@[i as int].points@);
            }
            r.push((name, copied));
            i = i + 1;
        }
        r
    }

    /// Where `key` stands, or would stand, in the sorted order: the first
    /// position whose name is not below `key`, and whether it carries `key`.
    fn find_pos(&self, key: &[u8]) -> (r: (usize, bool))
        requires
            self.wf(),
        ensures
            r.0 <= self@.len(),
            forall|j: int| 0 <= j < r.0 ==> lex_lt(#[trigger] self@[j].0, key@),
            r.1 ==> r.0 < self@.len() && self@[r.0 as int].0 == key@,
            !r.1 ==> r.0 == self@.len() || lex_lt(key@, self@[r.0 as int].0),
    {
        let n: usize = self.entries.len();
        let mut i: usize = 0;
        loop
            invariant
                self.wf(),
                n == self@.len(),
                i <= n,
                forall|j: int| 0 <= j < i ==> lex_lt(#[trigger] self@[j].0, key@),
            decreases n - i,
        {
            if i >= n {
                return (i, false);
            }
            let c = bytes_cmp(self.entries[i].name.as_str().as_bytes(), key);
            match c {
                ByteOrder::Less => {
                    i = i + 1;
                },
                ByteOrder::Equal => {
                    return (i, true);
                },
                ByteOrder::Greater => {
                    return (i, false);
                },
            }
        }
    }

    /// Record one sample for `name`. A new interface gets a fresh series at
    /// its sorted position. An existing series takes the point only if its
    /// timestamp lies strictly after the series' last point, which keeps every
    /// series strictly increasing in time; otherwise the store is unchanged
    /// and the call reports that nothing was appended.
    pub fn append(&mut self, name: &str, point: SamplePoint) -> (appended: bool)
        requires
            old(self).wf(),
        ensures
            final(self).wf(),
            ({
                let v = old(self)@;
                let w = final(self)@;
                let k = encode_utf8(name@);
                if !store_contains(v, k) {
                    &&& appended
                    &&& exists|i: int|
                        0 <= i <= v.len() && w == #[trigger] v.insert(i, (k, seq![point]))
                } else {
                    let i = store_index_of(v, k);
                    if v[i].1.len() == 0 || v[i].1.last().timestamp_ms < point.timestamp_ms {
                        &&& appended
                        &&& w == v.update(i, (k, v[i].1.push(point)))
                    } else {
                        &&& !appended
                        &&& w == v
                    }
                }
            }),
    {
        let ghost v = self@;
        let ghost k = encode_utf8(name@);
        let (i, eq) = self.find_pos(name.as_bytes());
        if eq {
            proof {
                assert(store_contains(v, k));
                lemma_store_index_unique(v, k, store_index_of(v, k), i as int);
            }
            let mut entry = self.entries.remove(i);
            let m: usize = entry.points.len();
            let fresh: bool = m == 0 || entry.points[m - 1].timestamp_ms < point.timestamp_ms;
            if fresh {
                proof {
                    assert forall|a: int| 0 <= a < entry.points@.len() implies #[trigger] entry.points@[a].timestamp_ms
                        < point.timestamp_ms by {
                        assert(series_wf(v[i as int].1));
                        if a < m - 1 {
                            assert(entry.points@[a].timestamp_ms < entry.points@[m - 1].timestamp_ms);
                        }
                    }
                }
                entry.points.push(point);
            }
            self.entries.insert(i, entry);
            proof {
                if fresh {
                    assert(self@ =~~= v.update(i as int, (k, v[i as int].1.push(point))));
                } else {
                    assert(self@ =~~= v);
                }
                assert(self.wf());
            }
            fresh
        } else {
            proof {
                assert forall|j: int| 0 <= j < v.len() implies #[trigger] v[j].0 != k by {
                    if j < i {
                        lemma_lex_lt_ne(v[j].0, k);
                    } else if j == i {
                        lemma_lex_lt_ne(k, v[j].0);
                    } else {
                        lemma_lex_lt_transitive(k, v[i as int].0, v[j].0);
                        lemma_lex_lt_ne(k, v[j].0);
                    }
                }
                assert(!store_contains(v, k));
            }
            let mut points: Vec<SamplePoint> = Vec::new();
            points.push(point);
            self.entries.insert(i, SeriesEntry { name: name.to_owned(), points });
            proof {
                v.insert_ensures(i as int, (k, seq![point]));
                assert(self@ =~~= v.insert(i as int, (k, seq![point])));
                let w = self@;
                assert forall|a: int, b: int| 0 <= a < b < w.len() implies lex_lt(
                    #[trigger] w[a].0,
                    #[trigger] w[b].0,
                ) by {
                    if b > i {
                        assert(w[b] == v.insert(i as int, (k, seq![point]))[(b - 1) + 1]);
                        assert(w[b] == v[b - 1]);
                    }
                    if a > i {
                        assert(w[a] == v.insert(i as int, (k, seq![point]))[(a - 1) + 1]);
                        assert(w[a] == v[a - 1]);
                    }
                    if a == i && b > i + 1 {
                        lemma_lex_lt_transitive(k, v[i as int].0, v[b - 1].0);
                    }
                }
                assert(self.wf());
            }
            true
        }
    }
}

} // verus!
