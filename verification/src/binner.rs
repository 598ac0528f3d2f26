use crate::shape::{BoundingBox, Shape};
use vstd::prelude::*;

verus! {

/// How many tiles of edge `tile_size` it takes to cover `extent`.
pub open spec fn tiles_across(extent: int, tile_size: int) -> int {
    if extent % tile_size == 0 {
        extent / tile_size
    } else {
        extent / tile_size + 1
    }
}

/// The number of entries in the first `k` lists.
pub open spec fn total_len(lists: Seq<Vec<u32>>, k: int) -> int
    decreases k,
{
    if k <= 0 {
        0
    } else {
        total_len(lists, k - 1) + lists[k - 1]@.len()
    }
}

/// The first `k` lists, one after the other.
pub open spec fn concat(lists: Seq<Vec<u32>>, k: int) -> Seq<u32>
    decreases k,
{
    if k <= 0 {
        Seq::empty()
    } else {
        concat(lists, k - 1) + lists[k - 1]@
    }
}

/// `total_len` does not shrink as more lists are counted.
pub proof fn lemma_total_len_monotonic(lists: Seq<Vec<u32>>, j: int, k: int)
    requires
        j <= k,
    ensures
        0 <= total_len(lists, j) <= total_len(lists, k),
    decreases k,
{
    if k <= 0 {
    } else if j == k {
        lemma_total_len_monotonic(lists, j - 1, k - 1);
    } else {
        lemma_total_len_monotonic(lists, j, k - 1);
    }
}

/// The concatenation is as long as the lists it is made of.
pub proof fn lemma_concat_len(lists: Seq<Vec<u32>>, k: int)
    ensures
        concat(lists, k).len() == total_len(lists, k),
    decreases k,
{
    if k > 0 {
        lemma_concat_len(lists, k - 1);
    }
}

/// List `t` stands in the concatenation between the offsets before and
/// after it.
pub proof fn lemma_concat_slice(lists: Seq<Vec<u32>>, n: int, t: int)
    requires
        0 <= t < n,
    ensures
        0 <= total_len(lists, t) <= total_len(lists, t + 1) <= concat(lists, n).len(),
        concat(lists, n).subrange(total_len(lists, t), total_len(lists, t + 1)) == lists[t]@,
    decreases n,
{
    lemma_total_len_monotonic(lists, t, t + 1);
    lemma_total_len_monotonic(lists, t + 1, n);
    lemma_concat_len(lists, n);
    lemma_concat_len(lists, n - 1);
    if t == n - 1 {
        assert(concat(lists, n).subrange(total_len(lists, t), total_len(lists, t + 1))
            =~= lists[t]@);
    } else {
        lemma_concat_slice(lists, n - 1, t);
        lemma_total_len_monotonic(lists, t + 1, n - 1);
        assert(concat(lists, n).subrange(total_len(lists, t), total_len(lists, t + 1))
            =~= concat(lists, n - 1).subrange(total_len(lists, t), total_len(lists, t + 1)));
    }
}

/// Whether the point `(x, y)` lies in tile `(tx, ty)`: the square of edge
/// `tile_size` whose least corner is `(tx * tile_size, ty * tile_size)`.
pub open spec fn in_tile(tile_size: int, tx: int, ty: int, x: int, y: int) -> bool {
    tx * tile_size <= x < (tx + 1) * tile_size && ty * tile_size <= y < (ty + 1) * tile_size
}

/// Whether the box and tile `(tx, ty)` have a point in common.
pub open spec fn tile_meets(b: BoundingBox, tile_size: int, tx: int, ty: int) -> bool {
    exists|x: int, y: int| b.contains_point(x, y) && in_tile(tile_size, tx, ty, x, y)
}

/// `tile_meets`, written as comparisons of the box's sides with the tile's.
pub open spec fn tile_hits(b: BoundingBox, tile_size: int, tx: int, ty: int) -> bool {
    &&& b.min.x <= b.max.x
    &&& b.min.y <= b.max.y
    &&& b.min.x < (tx + 1) * tile_size
    &&& tx * tile_size <= b.max.x
    &&& b.min.y < (ty + 1) * tile_size
    &&& ty * tile_size <= b.max.y
}

/// A tile is hit by a box exactly when the two have a point in common.
pub proof fn lemma_tile_hits_is_tile_meets(b: BoundingBox, tile_size: int, tx: int, ty: int)
    requires
        tile_size > 0,
    ensures
        tile_hits(b, tile_size, tx, ty) == tile_meets(b, tile_size, tx, ty),
{
    assert((tx + 1) * tile_size == tx * tile_size + tile_size) by (nonlinear_arith);
    assert((ty + 1) * tile_size == ty * tile_size + tile_size) by (nonlinear_arith);
    if tile_hits(b, tile_size, tx, ty) {
        let x = if b.min.x as int >= tx * tile_size {
            b.min.x as int
        } else {
            tx * tile_size
        };
        let y = if b.min.y as int >= ty * tile_size {
            b.min.y as int
        } else {
            ty * tile_size
        };
        assert(b.contains_point(x, y) && in_tile(tile_size, tx, ty, x, y));
    }
}

/// The shape indices from `start` up to `end`, in order.
pub open spec fn index_run(start: int, end: int) -> Seq<u32> {
    Seq::new((end - start) as nat, |k: int| (start + k) as u32)
}

proof fn lemma_floor_tile(a: int, tile_size: int, tx: int)
    requires
        tile_size > 0,
    ensures
        (a / tile_size <= tx) == (a < (tx + 1) * tile_size),
        (tx <= a / tile_size) == (tx * tile_size <= a),
        a >= 0 ==> a / tile_size >= 0,
{
    let q = a / tile_size;
    let r = a % tile_size;
    vstd::arithmetic::div_mod::lemma_fundamental_div_mod(a, tile_size);
    vstd::arithmetic::div_mod::lemma_mod_bound(a, tile_size);
    assert(a == tile_size * q + r);
    assert(a >= 0 ==> q >= 0) by (nonlinear_arith)
        requires
            a == tile_size * q + r,
            0 <= r < tile_size,
    ;
    assert((q <= tx) == (a < (tx + 1) * tile_size)) by (nonlinear_arith)
        requires
            a == tile_size * q + r,
            0 <= r < tile_size,
            tile_size > 0,
    ;
    assert((tx <= q) == (tx * tile_size <= a)) by (nonlinear_arith)
        requires
            a == tile_size * q + r,
            0 <= r < tile_size,
            tile_size > 0,
    ;
}

/// A box that is not inverted hits the tiles from the one that holds its
/// least corner to the one that holds its greatest: the columns from
/// `min.x / tile_size` to `max.x / tile_size`, both rounded down, and the rows
/// likewise.
pub proof fn lemma_tile_hits_is_floor_range(b: BoundingBox, tile_size: int, tx: int, ty: int)
    requires
        tile_size > 0,
        b.min.x <= b.max.x,
        b.min.y <= b.max.y,
    ensures
        tile_hits(b, tile_size, tx, ty) == ((b.min.x as int) / tile_size <= tx <= (b.max.x as int)
            / tile_size && (b.min.y as int) / tile_size <= ty <= (b.max.y as int) / tile_size),
{
    lemma_floor_tile(b.min.x as int, tile_size, tx);
    lemma_floor_tile(b.max.x as int, tile_size, tx);
    lemma_floor_tile(b.min.y as int, tile_size, ty);
    lemma_floor_tile(b.max.y as int, tile_size, ty);
}

proof fn lemma_tile_coords(t: int, tiles_x: int, tiles_y: int)
    requires
        tiles_x > 0,
        0 <= t < tiles_x * tiles_y,
    ensures
        0 <= t % tiles_x < tiles_x,
        0 <= t / tiles_x < tiles_y,
{
    vstd::arithmetic::div_mod::lemma_fundamental_div_mod(t, tiles_x);
    vstd::arithmetic::div_mod::lemma_mod_bound(t, tiles_x);
    let q = t / tiles_x;
    let r = t % tiles_x;
    assert(0 <= q < tiles_y) by (nonlinear_arith)
        requires
            t == tiles_x * q + r,
            0 <= r < tiles_x,
            0 <= t < tiles_x * tiles_y,
    ;
}

proof fn lemma_tile_index(tx: int, ty: int, tiles_x: int, tiles_y: int)
    requires
        0 <= tx < tiles_x,
        0 <= ty < tiles_y,
    ensures
        0 <= ty * tiles_x + tx < tiles_x * tiles_y,
        (ty * tiles_x + tx) % tiles_x == tx,
        (ty * tiles_x + tx) / tiles_x == ty,
{
    assert(0 <= ty * tiles_x + tx < tiles_x * tiles_y) by (nonlinear_arith)
        requires
            0 <= tx < tiles_x,
            0 <= ty < tiles_y,
    ;
    assert(ty * tiles_x + tx == tiles_x * ty + tx) by (nonlinear_arith);
    vstd::arithmetic::div_mod::lemma_fundamental_div_mod_converse(
        ty * tiles_x + tx,
        tiles_x,
        ty,
        tx,
    );
}

fn push_run(list: &mut Vec<u32>, start: u32, end: u32)
    requires
        start <= end,
    ensures
        final(list)@ == old(list)@ + index_run(start as int, end as int),
{
    let mut i: u32 = start;
    while i < end
        invariant
            start <= i <= end,
            list@ == old(list)@ + index_run(start as int, i as int),
        decreases end - i,
    {
        list.push(i);
        i = i + 1;
        assert(list@ =~= old(list)@ + index_run(start as int, i as int));
    }
    assert(list@ =~= old(list)@ + index_run(start as int, end as int));
}

/// The first index of the run of equal group ids that shape `i` stands in.
pub open spec fn run_start(shapes: Seq<Shape>, i: int) -> int
    decreases i,
{
    if 0 < i < shapes.len() && shapes[i - 1].group_id == shapes[i].group_id {
        run_start(shapes, i - 1)
    } else {
        i
    }
}

/// The index after the last of the run of equal group ids that shape `i`
/// stands in.
pub open spec fn run_end(shapes: Seq<Shape>, i: int) -> int
    decreases shapes.len() - i,
{
    if 0 <= i && i + 1 < shapes.len() && shapes[i + 1].group_id == shapes[i].group_id {
        run_end(shapes, i + 1)
    } else {
        i + 1
    }
}

/// The smallest box that covers the culling bounds of the shapes from `lo` up
/// to `hi`.
pub open spec fn union_of(shapes: Seq<Shape>, lo: int, hi: int) -> BoundingBox
    decreases hi - lo,
{
    if hi <= lo {
        BoundingBox::spec_empty()
    } else {
        union_of(shapes, lo, hi - 1).spec_union(shapes[hi - 1].spec_culling_bounds())
    }
}

/// The box by which shape `i` is binned: that of its whole group.
pub open spec fn group_bounds(shapes: Seq<Shape>, i: int) -> BoundingBox {
    union_of(shapes, run_start(shapes, i), run_end(shapes, i))
}

/// The shapes among the first `n` that belong in tile `(tx, ty)`, as indices
/// in rising order.
pub open spec fn tile_list(shapes: Seq<Shape>, tile_size: int, tx: int, ty: int, n: int) -> Seq<
    u32,
>
    decreases n,
{
    if n <= 0 {
        Seq::empty()
    } else if tile_hits(group_bounds(shapes, n - 1), tile_size, tx, ty) {
        tile_list(shapes, tile_size, tx, ty, n - 1).push((n - 1) as u32)
    } else {
        tile_list(shapes, tile_size, tx, ty, n - 1)
    }
}

/// The number of entries that binning `shapes` puts into the first `k` tiles
/// of a grid with `tiles_x` columns.
pub open spec fn binned_total(shapes: Seq<Shape>, tile_size: int, tiles_x: int, k: int) -> int
    decreases k,
{
    if k <= 0 {
        0
    } else {
        binned_total(shapes, tile_size, tiles_x, k - 1) + tile_list(
            shapes,
            tile_size,
            (k - 1) % tiles_x,
            (k - 1) / tiles_x,
            shapes.len() as int,
        ).len()
    }
}

/// A tile list holds at most one entry for each shape.
pub proof fn lemma_tile_list_len(shapes: Seq<Shape>, tile_size: int, tx: int, ty: int, n: int)
    requires
        0 <= n,
    ensures
        tile_list(shapes, tile_size, tx, ty, n).len() <= n,
    decreases n,
{
    if n > 0 {
        lemma_tile_list_len(shapes, tile_size, tx, ty, n - 1);
    }
}

/// Binning puts at most one entry for each shape into each tile.
pub proof fn lemma_binned_total_bound(shapes: Seq<Shape>, tile_size: int, tiles_x: int, k: int)
    requires
        0 <= k,
    ensures
        0 <= binned_total(shapes, tile_size, tiles_x, k) <= shapes.len() * k,
    decreases k,
{
    if k > 0 {
        lemma_binned_total_bound(shapes, tile_size, tiles_x, k - 1);
        lemma_tile_list_len(
            shapes,
            tile_size,
            (k - 1) % tiles_x,
            (k - 1) / tiles_x,
            shapes.len() as int,
        );
        assert(shapes.len() * k == shapes.len() * (k - 1) + shapes.len()) by (nonlinear_arith);
    } else {
        assert(shapes.len() * k == 0) by (nonlinear_arith)
            requires
                k == 0,
        ;
    }
}

/// A shape below `n` is listed in a tile exactly when the tile is hit by the
/// box of the shape's group, and every entry of the list is such a shape.
pub proof fn lemma_tile_list_contains(
    shapes: Seq<Shape>,
    tile_size: int,
    tx: int,
    ty: int,
    n: int,
    i: int,
)
    requires
        0 <= i < n <= u32::MAX,
    ensures
        tile_list(shapes, tile_size, tx, ty, n).contains(i as u32) == tile_hits(
            group_bounds(shapes, i),
            tile_size,
            tx,
            ty,
        ),
        forall|k: int|
            0 <= k < tile_list(shapes, tile_size, tx, ty, n).len() ==> (#[trigger] tile_list(
                shapes,
                tile_size,
                tx,
                ty,
                n,
            )[k]) < n,
    decreases n,
{
    let shorter = tile_list(shapes, tile_size, tx, ty, n - 1);
    let list = tile_list(shapes, tile_size, tx, ty, n);
    if n - 1 > i {
        lemma_tile_list_contains(shapes, tile_size, tx, ty, n - 1, i);
    } else {
        lemma_tile_list_below(shapes, tile_size, tx, ty, n - 1);
    }
    if tile_hits(group_bounds(shapes, n - 1), tile_size, tx, ty) {
        assert(list == shorter.push((n - 1) as u32));
        assert(list[list.len() - 1] == (n - 1) as u32);
        if shorter.contains(i as u32) {
            let k = choose|k: int| 0 <= k < shorter.len() && shorter[k] == i as u32;
            assert(list[k] == i as u32);
        }
    }
}

/// Every entry of a tile list over the first `n` shapes is below `n`.
pub proof fn lemma_tile_list_below(shapes: Seq<Shape>, tile_size: int, tx: int, ty: int, n: int)
    requires
        0 <= n <= u32::MAX,
    ensures
        forall|k: int|
            0 <= k < tile_list(shapes, tile_size, tx, ty, n).len() ==> (#[trigger] tile_list(
                shapes,
                tile_size,
                tx,
                ty,
                n,
            )[k]) < n,
    decreases n,
{
    if n > 0 {
        lemma_tile_list_below(shapes, tile_size, tx, ty, n - 1);
        let shorter = tile_list(shapes, tile_size, tx, ty, n - 1);
        let list = tile_list(shapes, tile_size, tx, ty, n);
        assert forall|k: int| 0 <= k < list.len() implies (#[trigger] list[k]) < n by {
            if k < shorter.len() {
                assert(list[k] == shorter[k]);
            }
        }
    }
}

proof fn lemma_run_found(shapes: Seq<Shape>, g: int, e: int, k: int)
    requires
        0 <= g <= k < e <= shapes.len(),
        g == 0 || shapes[g - 1].group_id != shapes[g].group_id,
        forall|j: int| g <= j < e ==> (#[trigger] shapes[j]).group_id == shapes[g].group_id,
        e == shapes.len() || shapes[e].group_id != shapes[g].group_id,
    ensures
        run_start(shapes, k) == g,
        run_end(shapes, k) == e,
{
    lemma_run_start_found(shapes, g, e, k);
    lemma_run_end_found(shapes, g, e, k);
}

proof fn lemma_run_start_found(shapes: Seq<Shape>, g: int, e: int, k: int)
    requires
        0 <= g <= k < e <= shapes.len(),
        g == 0 || shapes[g - 1].group_id != shapes[g].group_id,
        forall|j: int| g <= j < e ==> (#[trigger] shapes[j]).group_id == shapes[g].group_id,
    ensures
        run_start(shapes, k) == g,
    decreases k - g,
{
    if k > g {
        assert(shapes[k - 1].group_id == shapes[g].group_id);
        assert(shapes[k].group_id == shapes[g].group_id);
        lemma_run_start_found(shapes, g, e, k - 1);
    }
}

proof fn lemma_run_end_found(shapes: Seq<Shape>, g: int, e: int, k: int)
    requires
        0 <= g <= k < e <= shapes.len(),
        forall|j: int| g <= j < e ==> (#[trigger] shapes[j]).group_id == shapes[g].group_id,
        e == shapes.len() || shapes[e].group_id != shapes[g].group_id,
    ensures
        run_end(shapes, k) == e,
    decreases e - k,
{
    assert(shapes[k].group_id == shapes[g].group_id);
    if k + 1 < e {
        assert(shapes[k + 1].group_id == shapes[g].group_id);
        lemma_run_end_found(shapes, g, e, k + 1);
    }
}

proof fn lemma_tile_list_run(
    shapes: Seq<Shape>,
    tile_size: int,
    tx: int,
    ty: int,
    g: int,
    e: int,
    k: int,
)
    requires
        0 <= g <= k <= e <= shapes.len(),
        e <= u32::MAX,
        g == 0 || shapes[g - 1].group_id != shapes[g].group_id,
        forall|j: int| g <= j < e ==> (#[trigger] shapes[j]).group_id == shapes[g].group_id,
        e == shapes.len() || shapes[e].group_id != shapes[g].group_id,
    ensures
        tile_list(shapes, tile_size, tx, ty, k) == tile_list(shapes, tile_size, tx, ty, g) + (
        if tile_hits(union_of(shapes, g, e), tile_size, tx, ty) {
            index_run(g, k)
        } else {
            Seq::empty()
        }),
    decreases k - g,
{
    let base = tile_list(shapes, tile_size, tx, ty, g);
    if k == g {
        assert(base =~= base + index_run(g, g));
        assert(base =~= base + Seq::<u32>::empty());
    } else {
        lemma_tile_list_run(shapes, tile_size, tx, ty, g, e, k - 1);
        lemma_run_found(shapes, g, e, k - 1);
        if tile_hits(union_of(shapes, g, e), tile_size, tx, ty) {
            assert((base + index_run(g, k - 1)).push((k - 1) as u32) =~= base + index_run(g, k));
        }
    }
}

proof fn lemma_total_len_is_binned_total(
    lists: Seq<Vec<u32>>,
    shapes: Seq<Shape>,
    tile_size: int,
    tiles_x: int,
    k: int,
)
    requires
        0 <= k <= lists.len(),
        forall|t: int|
            0 <= t < k ==> (#[trigger] lists[t])@ == tile_list(
                shapes,
                tile_size,
                t % tiles_x,
                t / tiles_x,
                shapes.len() as int,
            ),
    ensures
        total_len(lists, k) == binned_total(shapes, tile_size, tiles_x, k),
    decreases k,
{
    if k > 0 {
        lemma_total_len_is_binned_total(lists, shapes, tile_size, tiles_x, k - 1);
        assert(lists[k - 1]@ == tile_list(
            shapes,
            tile_size,
            (k - 1) % tiles_x,
            (k - 1) / tiles_x,
            shapes.len() as int,
        ));
    }
}

proof fn lemma_same_lists(a: Seq<Vec<u32>>, b: Seq<Vec<u32>>, k: int)
    requires
        0 <= k <= a.len(),
        k <= b.len(),
        forall|t: int| 0 <= t < k ==> (#[trigger] a[t])@ == b[t]@,
    ensures
        total_len(a, k) == total_len(b, k),
        concat(a, k) == concat(b, k),
    decreases k,
{
    if k > 0 {
        lemma_same_lists(a, b, k - 1);
        assert(a[k - 1]@ == b[k - 1]@);
    }
}

fn ceil_div(extent: u32, tile_size: u32) -> (r: u32)
    requires
        tile_size > 0,
    ensures
        r as int == tiles_across(extent as int, tile_size as int),
{
    let q: u32 = extent / tile_size;
    if extent % tile_size == 0 {
        q
    } else {
        assert(q < u32::MAX) by {
            assert(extent / tile_size <= extent) by (nonlinear_arith)
                requires
                    tile_size > 0,
                    extent >= 0,
            ;
            assert(extent / tile_size == extent ==> extent % tile_size == 0 || tile_size == 1)
                by (nonlinear_arith)
                requires
                    tile_size > 0,
                    extent >= 0,
            ;
        }
        q + 1
    }
}

/// Whether a grid of tiles of edge `tile_size` over a screen of the given
/// resolution is one that a binner can hold: the edge is not zero, and the
/// tiles can be numbered by a `u32`.
pub open spec fn spec_grid_fits(tile_size: u32, resolution: (u32, u32)) -> bool {
    &&& tile_size > 0
    &&& tiles_across(resolution.0 as int, tile_size as int) * tiles_across(
        resolution.1 as int,
        tile_size as int,
    ) <= u32::MAX
}

/// Tests `spec_grid_fits`.
pub fn grid_fits(tile_size: u32, resolution: (u32, u32)) -> (r: bool)
    ensures
        r == spec_grid_fits(tile_size, resolution),
{
    if tile_size == 0 {
        return false;
    }
    let tiles_x: u64 = ceil_div(resolution.0, tile_size) as u64;
    let tiles_y: u64 = ceil_div(resolution.1, tile_size) as u64;
    assert(tiles_x * tiles_y <= 0xFFFF_FFFF * 0xFFFF_FFFF) by (nonlinear_arith)
        requires
            0 <= tiles_x <= 0xFFFF_FFFF,
            0 <= tiles_y <= 0xFFFF_FFFF,
    ;
    tiles_x * tiles_y <= 0xFFFF_FFFFu64
}

/// Sorts shapes into the tiles of a screen, on the CPU.
///
/// `shapes_by_tile` holds one list of shape indices for each tile, row by
/// row. `tile_ranges` and `shape_indices` hold the same lists in compressed
/// form: the list of tile `t` is `shape_indices[tile_ranges[t] ..
/// tile_ranges[t + 1]]`.
pub struct ShapeBinner {
    pub tile_size: u32,
    pub resolution: (u32, u32),
    pub shapes_by_tile: Vec<Vec<u32>>,
    pub tile_ranges: Vec<u32>,
    pub shape_indices: Vec<u32>,
}

impl ShapeBinner {
    /// The number of tile columns.
    pub open spec fn tiles_x(&self) -> int {
        tiles_across(self.resolution.0 as int, self.tile_size as int)
    }

    /// The number of tile rows.
    pub open spec fn tiles_y(&self) -> int {
        tiles_across(self.resolution.1 as int, self.tile_size as int)
    }

    /// The number of tiles.
    pub open spec fn tile_count(&self) -> int {
        self.tiles_x() * self.tiles_y()
    }

    /// The grid is defined, its tiles can be numbered by a `u32`, and there is
    /// one list for each tile.
    pub open spec fn wf(&self) -> bool {
        &&& self.tile_size > 0
        &&& self.tile_count() <= u32::MAX
        &&& self.shapes_by_tile@.len() == self.tile_count()
    }

    /// `tile_ranges` and `shape_indices` are the compressed form of
    /// `shapes_by_tile`.
    pub open spec fn ranges_match_tiles(&self) -> bool {
        &&& self.tile_ranges@.len() == self.shapes_by_tile@.len() + 1
        &&& forall|k: int|
            0 <= k <= self.shapes_by_tile@.len() ==> #[trigger] self.tile_ranges@[k] as int
                == total_len(self.shapes_by_tile@, k)
        &&& self.shape_indices@ == concat(self.shapes_by_tile@, self.shapes_by_tile@.len() as int)
    }

    /// The offsets start at zero, never fall, and end at the number of
    /// indices; between two neighbours stands the list of one tile.
    pub open spec fn ranges_well_formed(&self) -> bool {
        &&& self.tile_ranges@.len() == self.shapes_by_tile@.len() + 1
        &&& self.tile_ranges@[0] == 0
        &&& forall|j: int, k: int|
            0 <= j <= k < self.tile_ranges@.len() ==> self.tile_ranges@[j] <= self.tile_ranges@[k]
        &&& self.shape_indices@.len() == self.tile_ranges@[self.tile_ranges@.len() - 1]
        &&& forall|t: int|
            0 <= t < self.shapes_by_tile@.len() ==> self.shape_indices@.subrange(
                self.tile_ranges@[t] as int,
                self.tile_ranges@[t + 1] as int,
            ) == (#[trigger] self.shapes_by_tile@[t])@
    }

    /// The compressed form of the tile lists is well formed.
    pub proof fn lemma_ranges_well_formed(&self)
        requires
            self.ranges_match_tiles(),
        ensures
            self.ranges_well_formed(),
    {
        let lists = self.shapes_by_tile@;
        let n = lists.len() as int;
        lemma_concat_len(lists, n);
        assert forall|j: int, k: int| 0 <= j <= k < self.tile_ranges@.len() implies
            self.tile_ranges@[j] <= self.tile_ranges@[k] by {
            lemma_total_len_monotonic(lists, j, k);
        }
        assert forall|t: int| 0 <= t < n implies self.shape_indices@.subrange(
            self.tile_ranges@[t] as int,
            self.tile_ranges@[t + 1] as int,
        ) == (#[trigger] lists[t])@ by {
            lemma_concat_slice(lists, n, t);
        }
    }

    /// A binner for tiles of edge `tile_size` on a screen of the given
    /// resolution, every tile list empty.
    pub fn new(tile_size: u32, resolution: (u32, u32)) -> (r: Self)
        requires
            spec_grid_fits(tile_size, resolution),
        ensures
            r.tile_size == tile_size,
            r.resolution == resolution,
            r.wf(),
            forall|t: int| 0 <= t < r.tile_count() ==> (#[trigger] r.shapes_by_tile@[t])@.len() == 0,
            r.tile_ranges@.len() == 0,
            r.shape_indices@.len() == 0,
    {
        let mut binner = Self {
            tile_size,
            resolution: (0, 0),
            shapes_by_tile: Vec::new(),
            tile_ranges: Vec::new(),
            shape_indices: Vec::new(),
        };
        binner.update_resolution(resolution);
        binner
    }

    /// The number of tile columns: what maps a tile's column and row to its
    /// place in `tile_ranges`.
    pub fn screen_width_in_tiles(&self) -> (r: u32)
        requires
            self.tile_size > 0,
        ensures
            r as int == self.tiles_x(),
    {
        ceil_div(self.resolution.0, self.tile_size)
    }

    /// Sets the resolution and makes one empty list for each tile of the new
    /// grid. Lists that exist are emptied and kept.
    pub fn update_resolution(&mut self, resolution: (u32, u32))
        requires
            spec_grid_fits(old(self).tile_size, resolution),
        ensures
            final(self).tile_size == old(self).tile_size,
            final(self).resolution == resolution,
            final(self).wf(),
            forall|t: int|
                0 <= t < final(self).tile_count() ==> (#[trigger] final(self).shapes_by_tile@[t])@.len()
                    == 0,
            final(self).tile_ranges == old(self).tile_ranges,
            final(self).shape_indices == old(self).shape_indices,
    {
        self.resolution = resolution;
        let tiles_x: u32 = ceil_div(resolution.0, self.tile_size);
        let tiles_y: u32 = ceil_div(resolution.1, self.tile_size);
        assert(tiles_x * tiles_y >= 0) by (nonlinear_arith)
            requires
                tiles_x >= 0,
                tiles_y >= 0,
        ;
        let count: usize = (tiles_x * tiles_y) as usize;
        self.shapes_by_tile.truncate(count);
        self.clear_tiles();
        while self.shapes_by_tile.len() < count
            invariant
                self.shapes_by_tile@.len() <= count,
                forall|t: int|
                    0 <= t < self.shapes_by_tile@.len() ==> (#[trigger] self.shapes_by_tile@[t])@.len()
                        == 0,
                self.tile_size == old(self).tile_size,
                self.resolution == resolution,
                self.tile_ranges == old(self).tile_ranges,
                self.shape_indices == old(self).shape_indices,
            decreases count - self.shapes_by_tile@.len(),
        {
            self.shapes_by_tile.push(Vec::new());
        }
    }

    fn clear_tiles(&mut self)
        ensures
            final(self).shapes_by_tile@.len() == old(self).shapes_by_tile@.len(),
            forall|t: int|
                0 <= t < final(self).shapes_by_tile@.len() ==> (
                #[trigger] final(self).shapes_by_tile@[t])@.len() == 0,
            final(self).tile_size == old(self).tile_size,
            final(self).resolution == old(self).resolution,
            final(self).tile_ranges == old(self).tile_ranges,
            final(self).shape_indices == old(self).shape_indices,
    {
        let n: usize = self.shapes_by_tile.len();
        let mut t: usize = 0;
        while t < n
            invariant
                t <= n,
                self.shapes_by_tile@.len() == n,
                forall|u: int| 0 <= u < t ==> (#[trigger] self.shapes_by_tile@[u])@.len() == 0,
                self.tile_size == old(self).tile_size,
                self.resolution == old(self).resolution,
                self.tile_ranges == old(self).tile_ranges,
                self.shape_indices == old(self).shape_indices,
            decreases n - t,
        {
            self.shapes_by_tile[t].clear();
            t = t + 1;
        }
    }

    /// Whether the box touches the tile that stands at place `t` of the grid,
    /// counted row by row.
    pub open spec fn tile_touched(&self, bounds: BoundingBox, t: int) -> bool {
        tile_hits(bounds, self.tile_size as int, t % self.tiles_x(), t / self.tiles_x())
    }

    /// What `bin_shape_group` adds to the list of tile `t`.
    pub open spec fn group_entries(
        &self,
        bounds: BoundingBox,
        start: int,
        end: int,
        t: int,
    ) -> Seq<u32> {
        if self.tile_touched(bounds, t) {
            index_run(start, end)
        } else {
            Seq::empty()
        }
    }

    /// Appends the indices from `start` up to `end` to the list of every tile
    /// of the grid that the box touches. Where the box reaches beyond the
    /// grid, that part of it is passed over.
    pub fn bin_shape_group(&mut self, bounds: &BoundingBox, start: u32, end: u32)
        requires
            old(self).wf(),
            start <= end,
        ensures
            final(self).wf(),
            final(self).tile_size == old(self).tile_size,
            final(self).resolution == old(self).resolution,
            final(self).tile_ranges == old(self).tile_ranges,
            final(self).shape_indices == old(self).shape_indices,
            forall|t: int|
                0 <= t < old(self).tile_count() ==> (#[trigger] final(self).shapes_by_tile@[t])@
                    == old(self).shapes_by_tile@[t]@ + old(self).group_entries(
                    *bounds,
                    start as int,
                    end as int,
                    t,
                ),
    {
        let tiles_x: u32 = ceil_div(self.resolution.0, self.tile_size);
        let tiles_y: u32 = ceil_div(self.resolution.1, self.tile_size);
        let ghost ts = self.tile_size as int;
        let ghost count = self.tile_count();
        let b = *bounds;
        if tiles_x == 0 || tiles_y == 0 {
            assert(count == 0) by (nonlinear_arith)
                requires
                    count == tiles_x * tiles_y,
                    tiles_x == 0 || tiles_y == 0,
            ;
            return ;
        }
        if b.min.x > b.max.x || b.min.y > b.max.y || b.max.x < 0 || b.max.y < 0 {
            proof {
                assert forall|t: int| 0 <= t < count implies !#[trigger] self.tile_touched(b, t) by {
                    lemma_tile_coords(t, tiles_x as int, tiles_y as int);
                    let tx = t % (tiles_x as int);
                    let ty = t / (tiles_x as int);
                    assert(tx * ts >= 0) by (nonlinear_arith)
                        requires
                            tx >= 0,
                            ts > 0,
                    ;
                    assert(ty * ts >= 0) by (nonlinear_arith)
                        requires
                            ty >= 0,
                            ts > 0,
                    ;
                }
            }
            return ;
        }
        let size: i64 = self.tile_size as i64;
        let x0: i64 = if b.min.x <= 0 {
            0
        } else {
            b.min.x as i64 / size
        };
        let y0: i64 = if b.min.y <= 0 {
            0
        } else {
            b.min.y as i64 / size
        };
        let x1_full: i64 = b.max.x as i64 / size;
        let y1_full: i64 = b.max.y as i64 / size;
        let x1: i64 = if x1_full < tiles_x as i64 {
            x1_full
        } else {
            tiles_x as i64 - 1
        };
        let y1: i64 = if y1_full < tiles_y as i64 {
            y1_full
        } else {
            tiles_y as i64 - 1
        };
        proof {
            lemma_floor_tile(b.max.x as int, ts, 0);
            lemma_floor_tile(b.max.y as int, ts, 0);
            if b.min.x > 0 {
                lemma_floor_tile(b.min.x as int, ts, 0);
            }
            if b.min.y > 0 {
                lemma_floor_tile(b.min.y as int, ts, 0);
            }
            assert forall|t: int| 0 <= t < count implies (#[trigger] self.tile_touched(b, t) == (x0
                <= t % (tiles_x as int) <= x1 && y0 <= t / (tiles_x as int) <= y1)) by {
                lemma_tile_coords(t, tiles_x as int, tiles_y as int);
                let tx = t % (tiles_x as int);
                let ty = t / (tiles_x as int);
                lemma_floor_tile(b.max.x as int, ts, tx);
                lemma_floor_tile(b.max.y as int, ts, ty);
                if b.min.x > 0 {
                    lemma_floor_tile(b.min.x as int, ts, tx);
                } else {
                    assert((tx + 1) * ts > 0) by (nonlinear_arith)
                        requires
                            tx >= 0,
                            ts > 0,
                    ;
                }
                if b.min.y > 0 {
                    lemma_floor_tile(b.min.y as int, ts, ty);
                } else {
                    assert((ty + 1) * ts > 0) by (nonlinear_arith)
                        requires
                            ty >= 0,
                            ts > 0,
                    ;
                }
            }
        }
        if x0 > x1 || y0 > y1 {
            return ;
        }
        let ghost run = index_run(start as int, end as int);
        let mut ty: i64 = y0;
        while ty <= y1
            invariant
                0 <= y0 <= ty <= y1 + 1,
                0 <= x0 <= x1 < tiles_x,
                y1 < tiles_y,
                start <= end,
                run == index_run(start as int, end as int),
                old(self).shapes_by_tile@.len() == count,
                self.wf(),
                self.tile_size == old(self).tile_size,
                self.resolution == old(self).resolution,
                self.tile_ranges == old(self).tile_ranges,
                self.shape_indices == old(self).shape_indices,
                count == self.tile_count(),
                count == tiles_x * tiles_y,
                tiles_x as int == self.tiles_x(),
                forall|t: int|
                    0 <= t < count ==> (#[trigger] self.shapes_by_tile@[t])@ == old(
                        self,
                    ).shapes_by_tile@[t]@ + (if x0 <= t % (tiles_x as int) <= x1 && y0 <= t / (
                    tiles_x as int) < ty {
                        run
                    } else {
                        Seq::empty()
                    }),
            decreases y1 + 1 - ty,
        {
            let mut tx: i64 = x0;
            while tx <= x1
                invariant
                    0 <= y0 <= ty <= y1,
                    0 <= x0 <= tx <= x1 + 1,
                    x1 < tiles_x,
                    y1 < tiles_y,
                    start <= end,
                    run == index_run(start as int, end as int),
                    old(self).shapes_by_tile@.len() == count,
                    self.wf(),
                    self.tile_size == old(self).tile_size,
                    self.resolution == old(self).resolution,
                    self.tile_ranges == old(self).tile_ranges,
                    self.shape_indices == old(self).shape_indices,
                    count == self.tile_count(),
                    count == tiles_x * tiles_y,
                    tiles_x as int == self.tiles_x(),
                    forall|t: int|
                        0 <= t < count ==> (#[trigger] self.shapes_by_tile@[t])@ == old(
                            self,
                        ).shapes_by_tile@[t]@ + (if x0 <= t % (tiles_x as int) <= x1 && (y0 <= t
                            / (tiles_x as int) < ty || (t / (tiles_x as int) == ty && t % (
                        tiles_x as int) < tx)) {
                            run
                        } else {
                            Seq::empty()
                        }),
                decreases x1 + 1 - tx,
            {
                proof {
                    lemma_tile_index(tx as int, ty as int, tiles_x as int, tiles_y as int);
                }
                let tile_index: usize = (ty * (tiles_x as i64) + tx) as usize;
                let ghost before = self.shapes_by_tile@;
                push_run(&mut self.shapes_by_tile[tile_index], start, end);
                proof {
                    assert forall|t: int| 0 <= t < count implies (
                    #[trigger] self.shapes_by_tile@[t])@ == old(self).shapes_by_tile@[t]@ + (if x0
                        <= t % (tiles_x as int) <= x1 && (y0 <= t / (tiles_x as int) < ty || (t / (
                    tiles_x as int) == ty && t % (tiles_x as int) < tx + 1)) {
                        run
                    } else {
                        Seq::empty()
                    }) by {
                        if t == tile_index {
                            assert(before[t]@ =~= old(self).shapes_by_tile@[t]@);
                        } else {
                            assert(self.shapes_by_tile@[t] == before[t]);
                            if t / (tiles_x as int) == ty && t % (tiles_x as int) == tx {
                                vstd::arithmetic::div_mod::lemma_fundamental_div_mod(
                                    t,
                                    tiles_x as int,
                                );
                                assert(false) by (nonlinear_arith)
                                    requires
                                        t == (tiles_x as int) * (t / (tiles_x as int)) + t % (
                                        tiles_x as int),
                                        t / (tiles_x as int) == ty,
                                        t % (tiles_x as int) == tx,
                                        tile_index == ty * tiles_x + tx,
                                        t != tile_index,
                                ;
                            }
                        }
                    }
                }
                tx = tx + 1;
            }
            ty = ty + 1;
        }
    }

    /// Whether `bin_shapes` can take a list of `count` shapes: the shapes can
    /// be numbered by a `u32`, and so can the entries of the tile lists even
    /// if every tile lists every shape.
    pub fn can_bin(&self, count: usize) -> (r: bool)
        requires
            self.wf(),
        ensures
            r == (count <= u32::MAX && count * self.tile_count() <= u32::MAX),
            r ==> forall|shapes: Seq<Shape>|
                shapes.len() == count ==> #[trigger] binned_total(
                    shapes,
                    self.tile_size as int,
                    self.tiles_x(),
                    self.tile_count(),
                ) <= u32::MAX,
    {
        let tiles: usize = self.shapes_by_tile.len();
        proof {
            assert forall|shapes: Seq<Shape>| shapes.len() == count implies #[trigger] binned_total(
                shapes,
                self.tile_size as int,
                self.tiles_x(),
                self.tile_count(),
            ) <= count * self.tile_count() by {
                lemma_binned_total_bound(
                    shapes,
                    self.tile_size as int,
                    self.tiles_x(),
                    self.tile_count(),
                );
            }
        }
        if count > 0xFFFF_FFFF {
            return false;
        }
        assert(count * tiles <= 0xFFFF_FFFF * 0xFFFF_FFFF) by (nonlinear_arith)
            requires
                0 <= tiles <= 0xFFFF_FFFF,
                0 <= count <= 0xFFFF_FFFF,
        ;
        (count as u64) * (tiles as u64) <= 0xFFFF_FFFFu64
    }

    /// The list of tile `t` holds the shapes among the first `n` of `shapes`
    /// that belong in it.
    pub open spec fn tile_holds(&self, shapes: Seq<Shape>, t: int, n: int) -> bool {
        self.shapes_by_tile@[t]@ == tile_list(
            shapes,
            self.tile_size as int,
            t % self.tiles_x(),
            t / self.tiles_x(),
            n,
        )
    }

    /// The binner holds the binning of `shapes`: every tile lists, in rising
    /// order, the shapes whose group's box touches it, and `tile_ranges` and
    /// `shape_indices` are the compressed form of those lists.
    pub open spec fn holds_binning_of(&self, shapes: Seq<Shape>) -> bool {
        &&& self.wf()
        &&& forall|t: int|
            0 <= t < self.tile_count() ==> #[trigger] self.tile_holds(shapes, t, shapes.len() as int)
        &&& self.ranges_match_tiles()
    }

    /// Sorts the shapes into the tiles. Neighbours with one group id form a
    /// group, and a group goes as a whole into every tile that the union of
    /// its members' culling bounds touches. What the lists held before is
    /// dropped.
    pub fn bin_shapes(&mut self, shapes: &[Shape])
        requires
            old(self).wf(),
            shapes@.len() <= u32::MAX,
            binned_total(
                shapes@,
                old(self).tile_size as int,
                old(self).tiles_x(),
                old(self).tile_count(),
            ) <= u32::MAX,
        ensures
            final(self).tile_size == old(self).tile_size,
            final(self).resolution == old(self).resolution,
            final(self).holds_binning_of(shapes@),
            final(self).ranges_well_formed(),
    {
        self.clear_tiles();
        let n: usize = shapes.len();
        let ghost ts = self.tile_size as int;
        let ghost count = self.tile_count();
        let mut g: usize = 0;
        assert forall|t: int| 0 <= t < count implies #[trigger] self.tile_holds(shapes@, t, 0) by {
            assert(self.shapes_by_tile@[t]@ =~= Seq::<u32>::empty());
        }
        while g < n
            invariant
                g <= n,
                n == shapes@.len(),
                n <= u32::MAX,
                self.wf(),
                self.tile_size == old(self).tile_size,
                self.resolution == old(self).resolution,
                ts == self.tile_size as int,
                count == self.tile_count(),
                g == 0 || g == n || shapes@[g - 1].group_id != shapes@[g as int].group_id,
                forall|t: int| 0 <= t < count ==> #[trigger] self.tile_holds(shapes@, t, g as int),
            decreases n - g,
        {
            let group_id: u32 = shapes[g].group_id;
            let mut bounds: BoundingBox = shapes[g].culling_bounds();
            let mut e: usize = g + 1;
            proof {
                assert(union_of(shapes@, g as int, g as int) == BoundingBox::spec_empty());
                assert(bounds == union_of(shapes@, g as int, e as int));
            }
            while e < n && shapes[e].group_id == group_id
                invariant
                    g < e <= n,
                    n == shapes@.len(),
                    group_id == shapes@[g as int].group_id,
                    forall|j: int| g <= j < e ==> (#[trigger] shapes@[j]).group_id == group_id,
                    bounds == union_of(shapes@, g as int, e as int),
                decreases n - e,
            {
                let next: BoundingBox = shapes[e].culling_bounds();
                bounds = bounds.union(&next);
                e = e + 1;
            }
            let ghost before = *self;
            self.bin_shape_group(&bounds, g as u32, e as u32);
            proof {
                assert forall|t: int| 0 <= t < count implies #[trigger] self.tile_holds(
                    shapes@,
                    t,
                    e as int,
                ) by {
                    let tx = t % self.tiles_x();
                    let ty = t / self.tiles_x();
                    lemma_tile_list_run(shapes@, ts, tx, ty, g as int, e as int, e as int);
                    assert(before.tile_holds(shapes@, t, g as int));
                    assert(before.tile_touched(bounds, t) == tile_hits(bounds, ts, tx, ty));
                }
            }
            g = e;
        }
        proof {
            assert forall|t: int| 0 <= t < count implies (#[trigger] self.shapes_by_tile@[t])@
                == tile_list(shapes@, ts, t % self.tiles_x(), t / self.tiles_x(), n as int) by {
                assert(self.tile_holds(shapes@, t, n as int));
            }
            lemma_total_len_is_binned_total(
                self.shapes_by_tile@,
                shapes@,
                ts,
                self.tiles_x(),
                count,
            );
        }
        self.calculate_shape_ranges();
    }

    /// In a binner that holds the binning of `shapes`, the list of a tile
    /// names shape `i` exactly when the tile and the union of the culling
    /// bounds of the group of `i` have a point in common. So every tile that a
    /// group's box touches lists all of the group's members, and no other tile
    /// lists any of them.
    pub proof fn lemma_tile_lists_group(&self, shapes: Seq<Shape>, t: int, i: int)
        requires
            self.holds_binning_of(shapes),
            0 <= t < self.tile_count(),
            0 <= i < shapes.len() <= u32::MAX,
        ensures
            self.shapes_by_tile@[t]@.contains(i as u32) == tile_meets(
                group_bounds(shapes, i),
                self.tile_size as int,
                t % self.tiles_x(),
                t / self.tiles_x(),
            ),
    {
        let tx = t % self.tiles_x();
        let ty = t / self.tiles_x();
        assert(self.tile_holds(shapes, t, shapes.len() as int));
        lemma_tile_list_contains(shapes, self.tile_size as int, tx, ty, shapes.len() as int, i);
        lemma_tile_hits_is_tile_meets(group_bounds(shapes, i), self.tile_size as int, tx, ty);
    }

    /// Two binners with one grid that hold the binning of one list of shapes
    /// hold the same offsets and the same indices: binning a list again
    /// changes nothing.
    pub proof fn lemma_binning_is_determined(&self, other: &ShapeBinner, shapes: Seq<Shape>)
        requires
            self.holds_binning_of(shapes),
            other.holds_binning_of(shapes),
            self.tile_size == other.tile_size,
            self.resolution == other.resolution,
        ensures
            self.tile_ranges@ == other.tile_ranges@,
            self.shape_indices@ == other.shape_indices@,
    {
        let n = self.shapes_by_tile@.len() as int;
        assert forall|t: int| 0 <= t < n implies (#[trigger] self.shapes_by_tile@[t])@
            == other.shapes_by_tile@[t]@ by {
            assert(self.tile_holds(shapes, t, shapes.len() as int));
            assert(other.tile_holds(shapes, t, shapes.len() as int));
        }
        assert forall|k: int| 0 <= k <= n implies #[trigger] self.tile_ranges@[k]
            == other.tile_ranges@[k] by {
            lemma_same_lists(self.shapes_by_tile@, other.shapes_by_tile@, k);
        }
        lemma_same_lists(self.shapes_by_tile@, other.shapes_by_tile@, n);
        assert(self.tile_ranges@ =~= other.tile_ranges@);
    }

    /// Writes the tile lists, row by row, into `tile_ranges` and
    /// `shape_indices`.
    pub fn calculate_shape_ranges(&mut self)
        requires
            total_len(old(self).shapes_by_tile@, old(self).shapes_by_tile@.len() as int)
                <= u32::MAX,
        ensures
            final(self).tile_size == old(self).tile_size,
            final(self).resolution == old(self).resolution,
            final(self).shapes_by_tile == old(self).shapes_by_tile,
            final(self).ranges_match_tiles(),
            final(self).ranges_well_formed(),
    {
        self.tile_ranges.clear();
        self.shape_indices.clear();
        self.tile_ranges.push(0);
        let n: usize = self.shapes_by_tile.len();
        let mut t: usize = 0;
        while t < n
            invariant
                t <= n,
                n == self.shapes_by_tile@.len(),
                self.tile_size == old(self).tile_size,
                self.resolution == old(self).resolution,
                self.shapes_by_tile == old(self).shapes_by_tile,
                total_len(self.shapes_by_tile@, n as int) <= u32::MAX,
                self.tile_ranges@.len() == t + 1,
                forall|k: int|
                    0 <= k <= t ==> #[trigger] self.tile_ranges@[k] as int == total_len(
                        self.shapes_by_tile@,
                        k,
                    ),
                self.shape_indices@ == concat(self.shapes_by_tile@, t as int),
            decreases n - t,
        {
            proof {
                lemma_concat_len(self.shapes_by_tile@, t as int + 1);
                lemma_total_len_monotonic(self.shapes_by_tile@, t as int + 1, n as int);
            }
            self.shape_indices.extend_from_slice(self.shapes_by_tile[t].as_slice());
            let end: u32 = self.shape_indices.len() as u32;
            self.tile_ranges.push(end);
            t = t + 1;
        }
        proof {
            self.lemma_ranges_well_formed();
        }
    }
}

} // verus!
