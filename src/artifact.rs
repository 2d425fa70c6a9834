use vstd::prelude::*;

use crate::error::NedError;
use crate::cache::{cell_index, is_deterministic, SpatialCache, CELL_COUNT, MAX_RECORDS};

verus! {

/// One cell of a cache artifact: its `(lng, lat)` key and its candidate list.
pub type Cell = ((i16, i16), Vec<i16>);

/// The key of the cell at grid position `i`.
pub open spec fn key_of(i: int) -> (i16, i16) {
    ((i / 180 - 180) as i16, (i % 180 - 90) as i16)
}

/// The cells of the candidate lists `v`, keyed and in grid order.
pub open spec fn cells_of(v: Seq<Seq<i16>>) -> Seq<((i16, i16), Seq<i16>)> {
    Seq::new(v.len(), |i: int| (key_of(i), v[i]))
}

/// The plain value of a list of cells.
pub open spec fn cells_view(c: Seq<Cell>) -> Seq<((i16, i16), Seq<i16>)> {
    c.map_values(|p: Cell| (p.0, p.1@))
}

/// `c` holds one cell per grid position, keyed in grid order.
pub open spec fn in_grid_order(c: Seq<((i16, i16), Seq<i16>)>) -> bool {
    c.len() == CELL_COUNT && forall|i: int| 0 <= i < c.len() ==> (#[trigger] c[i]).0 == key_of(i)
}

/// The bytes that bincode's standard configuration writes for the cells `c`
/// (a length, then each key and list); `None` where it reports an error.
pub uninterp spec fn bincode_of_cells(c: Seq<((i16, i16), Seq<i16>)>) -> Option<Seq<u8>>;

/// The cells that bincode's standard configuration reads from the front of
/// `b`; `None` where it reports an error.
pub uninterp spec fn cells_from_bincode(b: Seq<u8>) -> Option<Seq<((i16, i16), Seq<i16>)>>;

/// Relies on `bincode::serde::encode_to_vec` with the standard configuration:
/// its output depends on the value encoded alone.
#[verifier::external_body]
fn encode_cells(cells: &Vec<Cell>) -> (r: Option<Vec<u8>>)
    ensures
        r is Some <==> bincode_of_cells(cells_view(cells@)) is Some,
        r is Some ==> r->Some_0@ == bincode_of_cells(cells_view(cells@))->Some_0,
{
    bincode::serde::encode_to_vec(cells, bincode::config::standard()).ok()
}

/// Relies on `bincode::serde::decode_from_slice` with the standard
/// configuration: what it reads depends on the bytes alone.
#[verifier::external_body]
fn decode_cells(bytes: &[u8]) -> (r: Option<Vec<Cell>>)
    ensures
        r is Some <==> cells_from_bincode(bytes@) is Some,
        r is Some ==> cells_view(r->Some_0@) == cells_from_bincode(bytes@)->Some_0,
{
    bincode::serde::decode_from_slice::<Vec<Cell>, _>(bytes, bincode::config::standard()).ok().map(|d| d.0)
}

fn copy_ids(v: &Vec<i16>) -> (r: Vec<i16>)
    ensures
        r@ == v@,
{
    let mut r: Vec<i16> = Vec::new();
    let mut i: usize = 0;
    while i < v.len()
        invariant
            i <= v@.len(),
            r@ == v@.take(i as int),
        decreases v@.len() - i,
    {
        r.push(v[i]);
        i = i + 1;
        assert(r@ =~= v@.take(i as int));
    }
    assert(v@.take(i as int) =~= v@);
    r
}

impl SpatialCache {
    /// The cells of the cache, keyed and in grid order.
    pub fn to_cells(&self) -> (r: Vec<Cell>)
        requires
            self.wf(),
        ensures
            cells_view(r@) == cells_of(self@),
    {
        let mut r: Vec<Cell> = Vec::new();
        let mut i: usize = 0;
        while i < CELL_COUNT
            invariant
                self.wf(),
                i <= CELL_COUNT,
                cells_view(r@) == cells_of(self@).take(i as int),
            decreases CELL_COUNT - i,
        {
            let lng: i16 = (i / 180) as i16 - 180;
            let lat: i16 = (i % 180) as i16 - 90;
            assert(cell_index(lng as int, lat as int) == i);
            let ids = copy_ids(self.get(lng, lat));
            let ghost before = r@;
            r.push(((lng, lat), ids));
            i = i + 1;
            assert(cells_view(r@) =~= cells_of(self@).take(i as int)) by {
                assert(cells_view(r@) =~= cells_view(before).push(((lng, lat), ids@)));
            }
        }
        assert(cells_of(self@).take(i as int) =~= cells_of(self@));
        r
    }

    /// The cache whose cells are `cells`; `None` unless they hold one cell per
    /// grid position, keyed in grid order.
    pub fn from_cells(cells: Vec<Cell>) -> (r: Option<SpatialCache>)
        ensures
            r is Some <==> in_grid_order(cells_view(cells@)),
            r is Some ==> r->Some_0.wf() && cells_of(r->Some_0@) == cells_view(cells@),
    {
        if cells.len() != CELL_COUNT {
            return None;
        }
        let ghost orig = cells@;
        let mut rest = cells;
        let mut entries: Vec<Vec<i16>> = Vec::new();
        let mut i: usize = 0;
        while i < CELL_COUNT
            invariant
                orig == cells@,
                orig.len() == CELL_COUNT,
                rest@.len() == CELL_COUNT,
                i <= CELL_COUNT,
                forall|k: int| i <= k < CELL_COUNT ==> #[trigger] rest@[k] == orig[k],
                forall|k: int| 0 <= k < i ==> (#[trigger] orig[k]).0 == key_of(k),
                entries@.len() == i,
                forall|k: int| 0 <= k < i ==> (#[trigger] entries@[k])@ == orig[k].1@,
            decreases CELL_COUNT - i,
        {
            let lng: i16 = (i / 180) as i16 - 180;
            let lat: i16 = (i % 180) as i16 - 90;
            let mut cell: Cell = ((0, 0), Vec::new());
            rest.set_and_swap(i, &mut cell);
            let (key, ids) = cell;
            if key.0 != lng || key.1 != lat {
                assert(cells_view(orig)[i as int].0 != key_of(i as int));
                return None;
            }
            entries.push(ids);
            i = i + 1;
        }
        let r = SpatialCache::from_entries(entries);
        assert(cells_of(r@) =~= cells_view(orig));
        Some(r)
    }

    /// Encode the cache as its artifact, the cells keyed and in grid order;
    /// `None` where bincode reports an error.
    pub fn encode(&self) -> (r: Option<Vec<u8>>)
        requires
            self.wf(),
        ensures
            r is Some <==> bincode_of_cells(cells_of(self@)) is Some,
            r is Some ==> r->Some_0@ == bincode_of_cells(cells_of(self@))->Some_0,
    {
        encode_cells(&self.to_cells())
    }

    /// Decode a cache artifact; fails where bincode reports an error or the
    /// cells are not one per grid position in grid order.
    pub fn decode(bytes: &[u8]) -> (r: Result<SpatialCache, NedError>)
        ensures
            r is Ok <==> (cells_from_bincode(bytes@) is Some && in_grid_order(
                cells_from_bincode(bytes@)->Some_0,
            )),
            r is Ok ==> r->Ok_0.wf() && cells_of(r->Ok_0@) == cells_from_bincode(bytes@)->Some_0,
            r is Err ==> r == Err::<SpatialCache, NedError>(NedError::DecodeFailure),
    {
        match decode_cells(bytes) {
            Some(cells) => match SpatialCache::from_cells(cells) {
                Some(c) => Ok(c),
                None => Err(NedError::DecodeFailure),
            },
            None => Err(NedError::DecodeFailure),
        }
    }
}

/// The cells of a cache are in grid order, so `from_cells` accepts what
/// `to_cells` gives, and the cache it builds from them has the same lists.
pub proof fn lemma_cells_round_trip(c: SpatialCache, d: SpatialCache)
    requires
        c.wf(),
        d.wf(),
        cells_of(d@) == cells_of(c@),
    ensures
        in_grid_order(cells_of(c@)),
        d@ == c@,
{
    assert forall|i: int| 0 <= i < CELL_COUNT implies d@[i] == c@[i] by {
        assert(cells_of(d@)[i] == cells_of(c@)[i]);
    }
    assert(d@ =~= c@);
}

/// Sweeping twice with an intersection test that always answers alike gives
/// byte-identical artifacts, whatever the number of workers of either sweep.
pub proof fn lemma_artifact_deterministic<F: Fn(i16, i16, usize) -> bool>(
    intersects: F,
    n: nat,
    c1: SpatialCache,
    c2: SpatialCache,
)
    requires
        n <= MAX_RECORDS,
        is_deterministic(intersects),
        c1.built_by(intersects, n),
        c2.built_by(intersects, n),
    ensures
        bincode_of_cells(cells_of(c1@)) == bincode_of_cells(cells_of(c2@)),
{
    crate::cache::lemma_sweep_deterministic(intersects, n, c1, c2);
}

} // verus!
