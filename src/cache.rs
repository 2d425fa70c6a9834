use vstd::prelude::*;

use rayon::prelude::{IntoParallelIterator, ParallelIterator};

use crate::error::NedError;
use crate::ids::{padded_ids, try_tomezoneids, NedTimezoneIds, TIMEZONE_LIST_LENGTH};

verus! {

/// Westmost longitude of the grid.
pub const MIN_LNG: i16 = -180;
/// Number of one-degree longitude bands.
pub const LNG_COUNT: usize = 360;
/// Southmost latitude of the grid.
pub const MIN_LAT: i16 = -90;
/// Number of one-degree cells in one longitude band.
pub const LAT_COUNT: usize = 180;
/// Number of cells of the whole grid.
pub const CELL_COUNT: usize = 64800;
/// One more than the largest id that a candidate list can hold.
pub const MAX_RECORDS: usize = 32768;

/// `(lng, lat)` names the unit rectangle `[lng, lng + 1) x [lat, lat + 1)` of the grid.
pub open spec fn is_cell(lng: int, lat: int) -> bool {
    -180 <= lng < 180 && -90 <= lat < 90
}

/// Position of a cell in the grid, longitude band by longitude band.
pub open spec fn cell_index(lng: int, lat: int) -> int {
    (lng + 180) * 180 + (lat + 90)
}

/// `e` lists, in ascending order, exactly the ids below `n` for which
/// `intersects` reported that the record's geometry meets cell `(lng, lat)`.
pub open spec fn is_entry<F: Fn(i16, i16, usize) -> bool>(
    intersects: F,
    lng: i16,
    lat: i16,
    n: nat,
    e: Seq<i16>,
) -> bool {
    &&& forall|i: int, j: int| 0 <= i < j < e.len() ==> e[i] < e[j]
    &&& forall|i: int|
        0 <= i < e.len() ==> 0 <= e[i] < n && intersects.ensures((lng, lat, e[i] as usize), true)
    &&& forall|id: usize|
        id < n && !e.contains(id as i16) ==> intersects.ensures((lng, lat, id), false)
}

/// `intersects` answers the same way each time it is asked about the same
/// cell and record.
pub open spec fn is_deterministic<F: Fn(i16, i16, usize) -> bool>(intersects: F) -> bool {
    forall|a: (i16, i16, usize), b1: bool, b2: bool|
        intersects.ensures(a, b1) && intersects.ensures(a, b2) ==> b1 == b2
}

/// Collect, in ascending order, the ids below `n` whose geometry meets the cell
/// `(lng, lat)`.
pub fn cell_candidates<F: Fn(i16, i16, usize) -> bool>(
    lng: i16,
    lat: i16,
    n: usize,
    intersects: &F,
) -> (r: Vec<i16>)
    requires
        n <= MAX_RECORDS,
        forall|id: usize| id < n ==> intersects.requires((lng, lat, id)),
    ensures
        is_entry(*intersects, lng, lat, n as nat, r@),
{
    let mut r: Vec<i16> = Vec::new();
    let mut id: usize = 0;
    while id < n
        invariant
            id <= n <= MAX_RECORDS,
            forall|k: usize| k < n ==> intersects.requires((lng, lat, k)),
            forall|i: int, j: int| 0 <= i < j < r@.len() ==> r@[i] < r@[j],
            forall|i: int|
                0 <= i < r@.len() ==> 0 <= r@[i] < id && intersects.ensures(
                    (lng, lat, r@[i] as usize),
                    true,
                ),
            forall|k: usize|
                k < id && !r@.contains(k as i16) ==> intersects.ensures((lng, lat, k), false),
        decreases n - id,
    {
        let hit = intersects(lng, lat, id);
        let ghost prev = r@;
        if hit {
            r.push(id as i16);
            assert forall|k: usize|
                k < id + 1 && !r@.contains(k as i16) implies intersects.ensures(
                (lng, lat, k),
                false,
            ) by {
                if k < id {
                    if prev.contains(k as i16) {
                        let i = choose|i: int| 0 <= i < prev.len() && prev[i] == k as i16;
                        assert(r@[i] == k as i16);
                    }
                } else {
                    assert(r@[prev.len() as int] == k as i16);
                }
            }
        } else {
            assert forall|k: usize|
                k < id + 1 && !r@.contains(k as i16) implies intersects.ensures(
                (lng, lat, k),
                false,
            ) by {
                if k == id {
                }
            }
        }
        id = id + 1;
    }
    r
}

/// Collect the candidate lists of the cells of one longitude band, from the
/// southmost latitude up.
pub fn cache_band<F: Fn(i16, i16, usize) -> bool>(lng: i16, n: usize, intersects: &F) -> (r: Vec<
    Vec<i16>,
>)
    requires
        n <= MAX_RECORDS,
        forall|lat: i16, id: usize| id < n ==> intersects.requires((lng, lat, id)),
    ensures
        r@.len() == LAT_COUNT,
        forall|lat: int|
            #![trigger r@[lat + 90]]
            -90 <= lat < 90 ==> is_entry(*intersects, lng, lat as i16, n as nat, r@[lat + 90]@),
{
    let mut r: Vec<Vec<i16>> = Vec::new();
    let mut k: usize = 0;
    while k < LAT_COUNT
        invariant
            k <= LAT_COUNT,
            r@.len() == k,
            n <= MAX_RECORDS,
            forall|lat: i16, id: usize| id < n ==> intersects.requires((lng, lat, id)),
            forall|lat: int|
                #![trigger r@[lat + 90]]
                -90 <= lat < k - 90 ==> is_entry(*intersects, lng, lat as i16, n as nat, r@[lat + 90]@),
        decreases LAT_COUNT - k,
    {
        let lat: i16 = k as i16 + MIN_LAT;
        let e = cell_candidates(lng, lat, n, intersects);
        r.push(e);
        k = k + 1;
    }
    r
}

/// The candidate lists of every cell of the grid, immutable once built.
pub struct SpatialCache {
    entries: Vec<Vec<i16>>,
}

impl View for SpatialCache {
    type V = Seq<Seq<i16>>;

    closed spec fn view(&self) -> Seq<Seq<i16>> {
        self.entries@.map_values(|e: Vec<i16>| e@)
    }
}

impl SpatialCache {
    /// Every cell of the grid has a candidate list.
    pub open spec fn wf(&self) -> bool {
        self@.len() == CELL_COUNT
    }

    /// The candidate list of the cell `(lng, lat)`.
    pub open spec fn entry(&self, lng: int, lat: int) -> Seq<i16> {
        self@[cell_index(lng, lat)]
    }

    /// Each cell's list is exactly what `intersects` reports for the first
    /// `n` records.
    pub open spec fn built_by<F: Fn(i16, i16, usize) -> bool>(&self, intersects: F, n: nat) -> bool {
        &&& self.wf()
        &&& forall|lng: int, lat: int|
            #![trigger self.entry(lng, lat)]
            is_cell(lng, lat) ==> is_entry(intersects, lng as i16, lat as i16, n, self.entry(lng, lat))
    }

    /// Join the bands of a sweep, westmost first, into one cache; `None` unless
    /// there is one band per longitude and one list per latitude in each.
    pub fn from_bands(bands: Vec<Vec<Vec<i16>>>) -> (r: Option<SpatialCache>)
        ensures
            r is Some <==> (bands@.len() == LNG_COUNT && forall|b: int|
                0 <= b < LNG_COUNT ==> #[trigger] bands@[b]@.len() == LAT_COUNT),
            r is Some ==> r->Some_0.wf() && forall|lng: int, lat: int|
                #![trigger r->Some_0.entry(lng, lat)]
                is_cell(lng, lat) ==> r->Some_0.entry(lng, lat) == bands@[lng + 180]@[lat + 90]@,
    {
        if bands.len() != LNG_COUNT {
            return None;
        }
        let ghost orig = bands@;
        let mut rest = bands;
        let mut entries: Vec<Vec<i16>> = Vec::new();
        let mut b: usize = 0;
        while b < LNG_COUNT
            invariant
                b <= LNG_COUNT,
                rest@.len() == LNG_COUNT,
                orig == bands@,
                forall|c: int| b <= c < LNG_COUNT ==> #[trigger] rest@[c] == orig[c],
                forall|c: int| 0 <= c < b ==> #[trigger] orig[c]@.len() == LAT_COUNT,
                entries@.len() == b * LAT_COUNT,
                forall|c: int, k: int|
                    #![trigger orig[c]@[k]]
                    0 <= c < b && 0 <= k < LAT_COUNT ==> entries@[c * 180 + k] == orig[c]@[k],
            decreases LNG_COUNT - b,
        {
            if rest[b].len() != LAT_COUNT {
                assert(!(forall|c: int| 0 <= c < LNG_COUNT ==> #[trigger] orig[c]@.len() == LAT_COUNT));
                return None;
            }
            let mut band: Vec<Vec<i16>> = Vec::new();
            rest.set_and_swap(b, &mut band);
            let ghost before = entries@;
            entries.append(&mut band);
            assert forall|c: int, k: int|
                0 <= c < b + 1 && 0 <= k < LAT_COUNT implies entries@[c * 180 + k] == #[trigger] orig[c]@[k] by {
                if c < b {
                    assert(c * 180 + k < b * 180) by (nonlinear_arith)
                        requires c < b, k < 180;
                } else {
                    assert(c * 180 + k == b * 180 + k);
                }
            }
            b = b + 1;
        }
        let r = SpatialCache { entries };
        assert forall|lng: int, lat: int|
            is_cell(lng, lat) implies #[trigger] r.entry(lng, lat) == orig[lng + 180]@[lat + 90]@ by {
            let c = lng + 180;
            let k = lat + 90;
            assert(cell_index(lng, lat) == c * 180 + k);
            assert(0 <= c * 180 + k < 64800) by (nonlinear_arith)
                requires 0 <= c < 360, 0 <= k < 180;
        }
        Some(r)
    }

    pub(crate) fn from_entries(entries: Vec<Vec<i16>>) -> (r: SpatialCache)
        ensures
            r@ == entries@.map_values(|e: Vec<i16>| e@),
    {
        SpatialCache { entries }
    }

    /// The candidate list of the cell `(lng, lat)`.
    pub fn get(&self, lng: i16, lat: i16) -> (r: &Vec<i16>)
        requires
            self.wf(),
            is_cell(lng as int, lat as int),
        ensures
            r@ == self.entry(lng as int, lat as int),
    {
        &self.entries[((lng as i32 + 180) * 180 + (lat as i32 + 90)) as usize]
    }

    /// The fixed-width candidate ids of the cell `(lng, lat)`, failing when its
    /// list is longer than the fixed width.
    pub fn candidate_ids(&self, lng: i16, lat: i16) -> (r: Result<NedTimezoneIds, NedError>)
        requires
            self.wf(),
            is_cell(lng as int, lat as int),
        ensures
            r is Ok <==> self.entry(lng as int, lat as int).len() <= TIMEZONE_LIST_LENGTH,
            r is Ok ==> r->Ok_0@ == padded_ids(self.entry(lng as int, lat as int)),
            r is Err ==> r == Err::<NedTimezoneIds, NedError>(
                (NedError::CapacityExceeded { len: self.entry(lng as int, lat as int).len() as usize }),
            ),
    {
        try_tomezoneids(self.get(lng, lat).clone())
    }
}

/// Relies on rayon's indexed `into_par_iter().map(..).collect()` over the range
/// of longitudes: one band per longitude, collected westmost first whatever the
/// number of workers, each band being what `cache_band` returned for it.
#[verifier::external_body]
fn par_bands<F: Fn(i16, i16, usize) -> bool + Sync>(n: usize, intersects: &F) -> (r: Vec<
    Vec<Vec<i16>>,
>)
    requires
        n <= MAX_RECORDS,
        forall|lng: i16, lat: i16, id: usize| id < n ==> intersects.requires((lng, lat, id)),
    ensures
        r@.len() == LNG_COUNT,
        forall|b: int|
            0 <= b < LNG_COUNT ==> (#[trigger] r@[b])@.len() == LAT_COUNT && forall|lat: int|
                #![trigger r@[b]@[lat + 90]]
                -90 <= lat < 90 ==> is_entry(
                    *intersects,
                    (b - 180) as i16,
                    lat as i16,
                    n as nat,
                    r@[b]@[lat + 90]@,
                ),
{
    (-180i16..180i16).into_par_iter().map(|lng| cache_band(lng, n, intersects)).collect()
}

/// Sweep the whole grid, one longitude band per task of the worker pool, and
/// list for each cell the ids below `n` whose geometry meets it.
pub fn build_cache<F: Fn(i16, i16, usize) -> bool + Sync>(n: usize, intersects: &F) -> (r: SpatialCache)
    requires
        n <= MAX_RECORDS,
        forall|lng: i16, lat: i16, id: usize| id < n ==> intersects.requires((lng, lat, id)),
    ensures
        r.built_by(*intersects, n as nat),
{
    let bands = par_bands(n, intersects);
    let ghost bs = bands@;
    let r = SpatialCache::from_bands(bands);
    match r {
        Some(c) => {
            assert forall|lng: int, lat: int| is_cell(lng, lat) implies is_entry(
                *intersects,
                lng as i16,
                lat as i16,
                n as nat,
                #[trigger] c.entry(lng, lat),
            ) by {
                assert(bs[lng + 180]@.len() == LAT_COUNT);
                assert(((lng + 180) - 180) as i16 == lng as i16);
                assert(c.entry(lng, lat) == bs[lng + 180]@[lat + 90]@);
            }
            c
        },
        None => {
            // the bands have the shape that `from_bands` asks for
            assert(forall|b: int| 0 <= b < LNG_COUNT ==> #[trigger] bs[b]@.len() == LAT_COUNT);
            vstd::pervasive::unreached()
        },
    }
}

/// Two strictly ascending lists that hold the same ids are the same list.
proof fn lemma_sorted_same_members(a: Seq<i16>, b: Seq<i16>)
    requires
        forall|i: int, j: int| 0 <= i < j < a.len() ==> a[i] < a[j],
        forall|i: int, j: int| 0 <= i < j < b.len() ==> b[i] < b[j],
        forall|x: i16| a.contains(x) <==> b.contains(x),
    ensures
        a == b,
    decreases a.len(),
{
    if a.len() == 0 {
        if b.len() > 0 {
            assert(b.contains(b[0]));
        }
        assert(b =~= a);
    } else if b.len() == 0 {
        assert(a.contains(a[0]));
    } else {
        // Both heads are the least member.
        assert(a.contains(a[0]));
        assert(b.contains(b[0]));
        let ia = choose|i: int| 0 <= i < a.len() && a[i] == b[0];
        let ib = choose|i: int| 0 <= i < b.len() && b[i] == a[0];
        assert(a[0] == b[0]) by {
            if a[0] < b[0] {
                if ib > 0 {
                    assert(b[0] < b[ib]);
                }
            } else if b[0] < a[0] {
                if ia > 0 {
                    assert(a[0] < a[ia]);
                }
            }
        }
        let ta = a.drop_first();
        let tb = b.drop_first();
        assert forall|x: i16| ta.contains(x) <==> tb.contains(x) by {
            if ta.contains(x) {
                let i = choose|i: int| 0 <= i < ta.len() && ta[i] == x;
                assert(a[i + 1] == x);
                assert(b.contains(x));
                let j = choose|j: int| 0 <= j < b.len() && b[j] == x;
                assert(j != 0);
                assert(tb[j - 1] == x);
            }
            if tb.contains(x) {
                let i = choose|i: int| 0 <= i < tb.len() && tb[i] == x;
                assert(b[i + 1] == x);
                assert(a.contains(x));
                let j = choose|j: int| 0 <= j < a.len() && a[j] == x;
                assert(j != 0);
                assert(ta[j - 1] == x);
            }
        }
        lemma_sorted_same_members(ta, tb);
        assert(a =~= seq![a[0]] + ta);
        assert(b =~= seq![b[0]] + tb);
    }
}

/// With an intersection test that always answers alike, a cell has exactly
/// one candidate list.
pub proof fn lemma_entry_unique<F: Fn(i16, i16, usize) -> bool>(
    intersects: F,
    lng: i16,
    lat: i16,
    n: nat,
    e1: Seq<i16>,
    e2: Seq<i16>,
)
    requires
        n <= MAX_RECORDS,
        is_deterministic(intersects),
        is_entry(intersects, lng, lat, n, e1),
        is_entry(intersects, lng, lat, n, e2),
    ensures
        e1 == e2,
{
    assert forall|x: i16| e1.contains(x) implies e2.contains(x) by {
        let i = choose|i: int| 0 <= i < e1.len() && e1[i] == x;
        let id = x as usize;
        assert(id as i16 == x);
        if !e2.contains(x) {
            assert(intersects.ensures((lng, lat, id), true));
            assert(intersects.ensures((lng, lat, id), false));
        }
    }
    assert forall|x: i16| e2.contains(x) implies e1.contains(x) by {
        let i = choose|i: int| 0 <= i < e2.len() && e2[i] == x;
        let id = x as usize;
        assert(id as i16 == x);
        if !e1.contains(x) {
            assert(intersects.ensures((lng, lat, id), true));
            assert(intersects.ensures((lng, lat, id), false));
        }
    }
    lemma_sorted_same_members(e1, e2);
}

/// Sweeping twice with an intersection test that always answers alike gives
/// the same cache, whatever the number of workers of either sweep.
pub proof fn lemma_sweep_deterministic<F: Fn(i16, i16, usize) -> bool>(
    intersects: F,
    n: nat,
    c1: SpatialCache,
    c2: SpatialCache,
)
    requires
        n <= MAX_RECORDS,
        is_deterministic(intersects),
        c1.built_by(intersects, n),
        c2.built_by(intersects, n),
    ensures
        c1@ == c2@,
{
    assert forall|i: int| 0 <= i < CELL_COUNT implies c1@[i] == c2@[i] by {
        let lng = i / 180 - 180;
        let lat = i % 180 - 90;
        assert(cell_index(lng, lat) == i);
        assert(is_cell(lng, lat));
        assert(c1.entry(lng, lat) == c1@[i]);
        assert(c2.entry(lng, lat) == c2@[i]);
        lemma_entry_unique(intersects, lng as i16, lat as i16, n, c1@[i], c2@[i]);
    }
    assert(c1@ =~= c2@);
}

} // verus!
