//! The outline of the ship's hull, traced on the corner lattice of the grid.
//!
//! Tile `(x, y)` has its corners at `(x, y)`, `(x + 1, y)`, `(x + 1, y + 1)`
//! and `(x, y + 1)`. Every side of a hull tile that does not face another
//! hull tile is a boundary edge, directed so that the tile lies on its right
//! hand when y grows downwards. The outline follows boundary edges from the
//! first one until it comes back to where it began.

use vstd::prelude::*;
use crate::interior::tile::{in_grid, lemma_index_bounds, tile_index, Tile, TileType};

verus! {

/// A corner of the tile lattice.
pub type Corner = (u32, u32);

/// A directed side of a tile, from one corner to the next.
pub type Edge = (Corner, Corner);

/// How many edges the trace follows at most.
pub const TRACE_LIMIT: u32 = 10_000;

/// Whether `(x, y)` is inside the grid and a hull tile.
pub open spec fn hull_at(tiles: Seq<Tile>, w: int, h: int, x: int, y: int) -> bool {
    in_grid(w, h, x, y) && tiles[y * w + x].tile_type.is_hull()
}

/// The one edge from `(ax, ay)` to `(bx, by)`, unless `blocked`.
pub open spec fn side(blocked: bool, ax: int, ay: int, bx: int, by: int) -> Seq<Edge> {
    if blocked {
        Seq::empty()
    } else {
        seq![((ax as u32, ay as u32), (bx as u32, by as u32))]
    }
}

/// The boundary edges of tile `(x, y)`: top, right, bottom, left.
pub open spec fn tile_edges(tiles: Seq<Tile>, w: int, h: int, x: int, y: int) -> Seq<Edge> {
    if hull_at(tiles, w, h, x, y) {
        side(hull_at(tiles, w, h, x, y - 1), x, y, x + 1, y) + side(
            hull_at(tiles, w, h, x + 1, y),
            x + 1,
            y,
            x + 1,
            y + 1,
        ) + side(hull_at(tiles, w, h, x, y + 1), x + 1, y + 1, x, y + 1) + side(
            hull_at(tiles, w, h, x - 1, y),
            x,
            y + 1,
            x,
            y,
        )
    } else {
        Seq::empty()
    }
}

/// The boundary edges of the first `n` tiles of row `y`.
pub open spec fn row_edges(tiles: Seq<Tile>, w: int, h: int, y: int, n: nat) -> Seq<Edge>
    decreases n,
{
    if n == 0 {
        Seq::empty()
    } else {
        row_edges(tiles, w, h, y, (n - 1) as nat) + tile_edges(tiles, w, h, n - 1, y)
    }
}

/// The boundary edges of the first `m` rows.
pub open spec fn rows_edges(tiles: Seq<Tile>, w: int, h: int, m: nat) -> Seq<Edge>
    decreases m,
{
    if m == 0 {
        Seq::empty()
    } else {
        rows_edges(tiles, w, h, (m - 1) as nat) + row_edges(tiles, w, h, m - 1, w as nat)
    }
}

/// All boundary edges of the grid, tile by tile in row-major order.
pub open spec fn boundary_edges(tiles: Seq<Tile>, w: int, h: int) -> Seq<Edge> {
    rows_edges(tiles, w, h, h as nat)
}

/// Whether `i` is the least index of an edge that starts at `p`.
pub open spec fn is_first_from(edges: Seq<Edge>, p: Corner, i: int) -> bool {
    &&& 0 <= i < edges.len()
    &&& edges[i].0 == p
    &&& forall|j: int| 0 <= j < i ==> edges[j].0 != p
}

/// The least index of an edge that starts at `p`, if there is one.
pub open spec fn first_from(edges: Seq<Edge>, p: Corner) -> Option<int> {
    if exists|i: int| is_first_from(edges, p, i) {
        Some(choose|i: int| is_first_from(edges, p, i))
    } else {
        None
    }
}

/// The path that edge following ends with, from a path already walked
/// (`path`, never empty), the edges not yet used, and the number of edges
/// followed so far.
pub open spec fn trace(remaining: Seq<Edge>, path: Seq<Corner>, steps: nat) -> Seq<Corner>
    decreases remaining.len(),
{
    if remaining.len() == 0 || steps >= TRACE_LIMIT {
        path
    } else {
        match first_from(remaining, path.last()) {
            None => path,
            Some(i) => {
                let next = remaining[i].1;
                if next == path[0] {
                    path.push(next)
                } else {
                    trace(remaining.remove(i), path.push(next), steps + 1)
                }
            },
        }
    }
}

/// The four corners of the whole grid, clockwise from the origin.
pub open spec fn rectangle(w: int, h: int) -> Seq<Corner> {
    seq![(0u32, 0u32), (w as u32, 0u32), (w as u32, h as u32), (0u32, h as u32)]
}

/// Whether a traced path is a closed loop worth keeping.
pub open spec fn closes(path: Seq<Corner>) -> bool {
    path.len() >= 4 && path.last() == path[0]
}

/// The hull outline of a grid: the closed loop traced from the first
/// boundary edge, without its repeated end point; the rectangle of the whole
/// grid where there is no boundary edge or the trace does not close.
pub open spec fn outline(tiles: Seq<Tile>, w: int, h: int) -> Seq<Corner> {
    let edges = boundary_edges(tiles, w, h);
    if edges.len() == 0 {
        rectangle(w, h)
    } else {
        let path = trace(edges, seq![edges[0].0], 0);
        if closes(path) {
            path.drop_last()
        } else {
            rectangle(w, h)
        }
    }
}

fn is_hull_at(tiles: &Vec<Tile>, width: u32, height: u32, x: i64, y: i64) -> (b: bool)
    requires
        tiles@.len() == width * height,
    ensures
        b == hull_at(tiles@, width as int, height as int, x as int, y as int),
{
    if x < 0 || y < 0 || x >= width as i64 || y >= height as i64 {
        false
    } else {
        assert(tiles.len() == tiles@.len());
        let i = tile_index(x as u32, y as u32, width, height);
        is_hull_tile(tiles[i].tile_type)
    }
}

/// Whether a tile of this type is part of the hull.
pub fn is_hull_tile(tile_type: TileType) -> (b: bool)
    ensures
        b == tile_type.is_hull(),
{
    match tile_type {
        TileType::Wall => true,
        TileType::DoorClosed => true,
        TileType::DoorOpen => true,
        _ => false,
    }
}

fn push_side(edges: &mut Vec<Edge>, blocked: bool, ax: u32, ay: u32, bx: u32, by: u32)
    ensures
        final(edges)@ == old(edges)@ + side(blocked, ax as int, ay as int, bx as int, by as int),
{
    if !blocked {
        edges.push(((ax, ay), (bx, by)));
    }
}

/// Collects the boundary edges of the grid.
pub fn collect_boundary_edges(tiles: &Vec<Tile>, width: u32, height: u32) -> (edges: Vec<Edge>)
    requires
        tiles@.len() == width * height,
    ensures
        edges@ == boundary_edges(tiles@, width as int, height as int),
{
    let mut edges: Vec<Edge> = Vec::new();
    let ghost w = width as int;
    let ghost h = height as int;
    let mut y: u32 = 0;
    while y < height
        invariant
            y <= height,
            w == width,
            h == height,
            tiles@.len() == width * height,
            edges@ == rows_edges(tiles@, w, h, y as nat),
        decreases height - y,
    {
        let ghost before = edges@;
        let mut x: u32 = 0;
        while x < width
            invariant
                x <= width,
                y < height,
                w == width,
                h == height,
                tiles@.len() == width * height,
                edges@ == before + row_edges(tiles@, w, h, y as int, x as nat),
            decreases width - x,
        {
            let xi = x as i64;
            let yi = y as i64;
            let ghost row = edges@;
            if is_hull_at(tiles, width, height, xi, yi) {
                let up = is_hull_at(tiles, width, height, xi, yi - 1);
                let right = is_hull_at(tiles, width, height, xi + 1, yi);
                let down = is_hull_at(tiles, width, height, xi, yi + 1);
                let left = is_hull_at(tiles, width, height, xi - 1, yi);
                push_side(&mut edges, up, x, y, x + 1, y);
                push_side(&mut edges, right, x + 1, y, x + 1, y + 1);
                push_side(&mut edges, down, x + 1, y + 1, x, y + 1);
                push_side(&mut edges, left, x, y + 1, x, y);
            }
            assert(edges@ == row + tile_edges(tiles@, w, h, x as int, y as int));
            assert(edges@ == before + row_edges(tiles@, w, h, y as int, (x + 1) as nat));
            x += 1;
        }
        y += 1;
    }
    edges
}

/// Two indices that are both the first edge from `p` are the same index.
proof fn lemma_first_from_is(edges: Seq<Edge>, p: Corner, i: int)
    requires
        is_first_from(edges, p, i),
    ensures
        first_from(edges, p) == Some(i),
{
    let k = choose|k: int| is_first_from(edges, p, k);
    assert(is_first_from(edges, p, k));
    if k < i {
        assert(edges[k].0 != p);
    } else if i < k {
        assert(edges[i].0 != p);
    }
}

/// Finds the first edge that starts at `p`.
fn find_first_from(edges: &Vec<Edge>, p: Corner) -> (found: Option<usize>)
    ensures
        match found {
            Some(i) => first_from(edges@, p) == Some(i as int),
            None => first_from(edges@, p).is_none(),
        },
{
    let n = edges.len();
    let mut i: usize = 0;
    while i < n
        invariant
            i <= n,
            n == edges@.len(),
            forall|j: int| 0 <= j < i ==> edges@[j].0 != p,
        decreases n - i,
    {
        let start = edges[i].0;
        if start.0 == p.0 && start.1 == p.1 {
            proof {
                lemma_first_from_is(edges@, p, i as int);
            }
            return Some(i);
        }
        i += 1;
    }
    None
}

/// Follows boundary edges from the start of the first one.
fn trace_edges(edges: Vec<Edge>) -> (path: Vec<Corner>)
    requires
        edges@.len() > 0,
    ensures
        path@ == trace(edges@, seq![edges@[0].0], 0),
{
    let ghost all = edges@;
    let mut remaining = edges;
    let mut current: Corner = remaining[0].0;
    let first: Corner = current;
    let mut path: Vec<Corner> = Vec::new();
    path.push(current);
    let mut steps: u32 = 0;
    let ghost goal = trace(all, seq![first], 0);
    loop
        invariant_except_break
            path@.len() > 0,
            path@[0] == first,
            path@.last() == current,
            steps <= TRACE_LIMIT,
            trace(remaining@, path@, steps as nat) == goal,
        ensures
            path@ == goal,
        decreases remaining@.len(),
    {
        if remaining.len() == 0 || steps >= TRACE_LIMIT {
            break;
        }
        match find_first_from(&remaining, current) {
            None => {
                break;
            },
            Some(i) => {
                let ghost before = remaining@;
                let ghost walked = path@;
                let edge = remaining.remove(i);
                current = edge.1;
                path.push(current);
                assert(remaining@ == before.remove(i as int));
                assert(path@ == walked.push(before[i as int].1));
                if current.0 == first.0 && current.1 == first.1 {
                    break;
                }
                steps += 1;
            },
        }
    }
    path
}

/// The hull outline of a grid stored row by row.
pub fn hull_outline(tiles: &Vec<Tile>, width: u32, height: u32) -> (corners: Vec<Corner>)
    requires
        tiles@.len() == width * height,
    ensures
        corners@ == outline(tiles@, width as int, height as int),
        corners@.len() >= 4,
{
    proof {
        lemma_outline_has_four_corners(tiles@, width as int, height as int);
    }
    let edges = collect_boundary_edges(tiles, width, height);
    if edges.len() == 0 {
        return rectangular_hull(width, height);
    }
    let mut path = trace_edges(edges);
    let n = path.len();
    if n < 4 || path[n - 1].0 != path[0].0 || path[n - 1].1 != path[0].1 {
        return rectangular_hull(width, height);
    }
    path.pop();
    path
}

/// The corners of the whole grid, clockwise from the origin.
pub fn rectangular_hull(width: u32, height: u32) -> (corners: Vec<Corner>)
    ensures
        corners@ == rectangle(width as int, height as int),
{
    let mut corners: Vec<Corner> = Vec::new();
    corners.push((0, 0));
    corners.push((width, 0));
    corners.push((width, height));
    corners.push((0, height));
    assert(corners@ =~= rectangle(width as int, height as int));
    corners
}

/// Whether an edge joins two corners one lattice step apart.
pub open spec fn unit_step(e: Edge) -> bool {
    let dx = e.1.0 - e.0.0;
    let dy = e.1.1 - e.0.1;
    (dx == 0 && (dy == 1 || dy == -1)) || (dy == 0 && (dx == 1 || dx == -1))
}

/// Whether each corner of `path` but the last is joined to the next by one
/// of `edges`.
pub open spec fn follows(path: Seq<Corner>, edges: Seq<Edge>) -> bool {
    forall|k: int| 0 <= k < path.len() - 1 ==> edges.contains((#[trigger] path[k], path[k + 1]))
}

proof fn lemma_concat_contains<A>(a: Seq<A>, b: Seq<A>, e: A)
    requires
        (a + b).contains(e),
    ensures
        a.contains(e) || b.contains(e),
{
    let k = choose|k: int| 0 <= k < (a + b).len() && (a + b)[k] == e;
    if k < a.len() {
        assert(a[k] == e);
    } else {
        assert(b[k - a.len()] == e);
    }
}

proof fn lemma_tile_edges_unit(tiles: Seq<Tile>, w: int, h: int, x: int, y: int, e: Edge)
    requires
        0 <= w <= u32::MAX,
        0 <= h <= u32::MAX,
        tile_edges(tiles, w, h, x, y).contains(e),
    ensures
        unit_step(e),
{
    let top = side(hull_at(tiles, w, h, x, y - 1), x, y, x + 1, y);
    let right = side(hull_at(tiles, w, h, x + 1, y), x + 1, y, x + 1, y + 1);
    let bottom = side(hull_at(tiles, w, h, x, y + 1), x + 1, y + 1, x, y + 1);
    let left = side(hull_at(tiles, w, h, x - 1, y), x, y + 1, x, y);
    assert(hull_at(tiles, w, h, x, y));
    lemma_concat_contains(top + right + bottom, left, e);
    if left.contains(e) {
        assert(left[0] == e);
    } else {
        lemma_concat_contains(top + right, bottom, e);
        if bottom.contains(e) {
            assert(bottom[0] == e);
        } else {
            lemma_concat_contains(top, right, e);
            if right.contains(e) {
                assert(right[0] == e);
            } else {
                assert(top[0] == e);
            }
        }
    }
}

proof fn lemma_row_edges_unit(tiles: Seq<Tile>, w: int, h: int, y: int, n: nat, e: Edge)
    requires
        0 <= w <= u32::MAX,
        0 <= h <= u32::MAX,
        row_edges(tiles, w, h, y, n).contains(e),
    ensures
        unit_step(e),
    decreases n,
{
    if n > 0 {
        lemma_concat_contains(
            row_edges(tiles, w, h, y, (n - 1) as nat),
            tile_edges(tiles, w, h, n - 1, y),
            e,
        );
        if row_edges(tiles, w, h, y, (n - 1) as nat).contains(e) {
            lemma_row_edges_unit(tiles, w, h, y, (n - 1) as nat, e);
        } else {
            lemma_tile_edges_unit(tiles, w, h, n - 1, y, e);
        }
    }
}

proof fn lemma_rows_edges_unit(tiles: Seq<Tile>, w: int, h: int, m: nat, e: Edge)
    requires
        0 <= w <= u32::MAX,
        0 <= h <= u32::MAX,
        rows_edges(tiles, w, h, m).contains(e),
    ensures
        unit_step(e),
    decreases m,
{
    if m > 0 {
        lemma_concat_contains(
            rows_edges(tiles, w, h, (m - 1) as nat),
            row_edges(tiles, w, h, m - 1, w as nat),
            e,
        );
        if rows_edges(tiles, w, h, (m - 1) as nat).contains(e) {
            lemma_rows_edges_unit(tiles, w, h, (m - 1) as nat, e);
        } else {
            lemma_row_edges_unit(tiles, w, h, m - 1, w as nat, e);
        }
    }
}

/// Edge following only ever walks along edges it was given, and it keeps
/// the corner it started from.
proof fn lemma_trace_follows(remaining: Seq<Edge>, path: Seq<Corner>, steps: nat, all: Seq<Edge>)
    requires
        path.len() > 0,
        follows(path, all),
        forall|k: int| 0 <= k < remaining.len() ==> all.contains(#[trigger] remaining[k]),
    ensures
        follows(trace(remaining, path, steps), all),
        trace(remaining, path, steps).len() > 0,
        trace(remaining, path, steps)[0] == path[0],
    decreases remaining.len(),
{
    if remaining.len() == 0 || steps >= TRACE_LIMIT {
    } else {
        match first_from(remaining, path.last()) {
            None => {},
            Some(i) => {
                assert(is_first_from(remaining, path.last(), i));
                let next = remaining[i].1;
                let longer = path.push(next);
                assert(all.contains(remaining[i]));
                assert forall|k: int| 0 <= k < longer.len() - 1 implies all.contains(
                    (#[trigger] longer[k], longer[k + 1]),
                ) by {
                    if k < path.len() - 1 {
                        assert(longer[k] == path[k]);
                        assert(longer[k + 1] == path[k + 1]);
                    } else {
                        assert((longer[k], longer[k + 1]) == remaining[i]);
                    }
                }
                if next != path[0] {
                    let rest = remaining.remove(i);
                    assert forall|k: int| 0 <= k < rest.len() implies all.contains(
                        #[trigger] rest[k],
                    ) by {
                        if k < i {
                            assert(rest[k] == remaining[k]);
                        } else {
                            assert(rest[k] == remaining[k + 1]);
                        }
                    }
                    lemma_trace_follows(rest, longer, steps + 1, all);
                }
            },
        }
    }
}

/// Along a path of unit steps the sum of the two coordinates changes its
/// parity with every step.
proof fn lemma_parity_alternates(path: Seq<Corner>, edges: Seq<Edge>, k: int)
    requires
        follows(path, edges),
        forall|e: Edge| edges.contains(e) ==> unit_step(e),
        0 <= k < path.len(),
    ensures
        (path[k].0 + path[k].1 - path[0].0 - path[0].1 - k) % 2 == 0,
    decreases k,
{
    if k > 0 {
        lemma_parity_alternates(path, edges, k - 1);
        assert(edges.contains((path[k - 1], path[k])));
        assert(unit_step((path[k - 1], path[k])));
    }
}

/// The hull outline has at least four corners.
pub proof fn lemma_outline_has_four_corners(tiles: Seq<Tile>, w: int, h: int)
    requires
        0 <= w <= u32::MAX,
        0 <= h <= u32::MAX,
    ensures
        outline(tiles, w, h).len() >= 4,
{
    let edges = boundary_edges(tiles, w, h);
    if edges.len() > 0 {
        let path = trace(edges, seq![edges[0].0], 0);
        if closes(path) {
            assert(follows(seq![edges[0].0], edges));
            lemma_trace_follows(edges, seq![edges[0].0], 0, edges);
            assert forall|e: Edge| edges.contains(e) implies unit_step(e) by {
                lemma_rows_edges_unit(tiles, w, h, h as nat, e);
            }
            lemma_parity_alternates(path, edges, path.len() - 1);
        }
    }
}

/// Where the hull outline is not the rectangle of the whole grid, it is a
/// closed loop of boundary edges: each corner is joined to the next, and
/// the last to the first, by a boundary edge of the grid.
pub proof fn lemma_outline_is_closed_loop(tiles: Seq<Tile>, w: int, h: int, k: int)
    requires
        outline(tiles, w, h) != rectangle(w, h),
        0 <= k < outline(tiles, w, h).len(),
    ensures
        boundary_edges(tiles, w, h).contains(
            (
                outline(tiles, w, h)[k],
                outline(tiles, w, h)[if k + 1 < outline(tiles, w, h).len() {
                    k + 1
                } else {
                    0
                }],
            ),
        ),
{
    let edges = boundary_edges(tiles, w, h);
    let path = trace(edges, seq![edges[0].0], 0);
    assert(follows(seq![edges[0].0], edges));
    lemma_trace_follows(edges, seq![edges[0].0], 0, edges);
    assert(edges.contains((path[k], path[k + 1])));
}

/// Whether two grids of the same size have their hull tiles in the same
/// places.
pub open spec fn same_hull_tiles(a: Seq<Tile>, b: Seq<Tile>, w: int, h: int) -> bool {
    forall|i: int| 0 <= i < w * h ==> (#[trigger] a[i]).tile_type.is_hull() == b[i].tile_type.is_hull()
}

proof fn lemma_same_hull_at(a: Seq<Tile>, b: Seq<Tile>, w: int, h: int, x: int, y: int)
    requires
        same_hull_tiles(a, b, w, h),
    ensures
        hull_at(a, w, h, x, y) == hull_at(b, w, h, x, y),
{
    if in_grid(w, h, x, y) {
        lemma_index_bounds(w, h, x, y);
        assert(a[y * w + x].tile_type.is_hull() == b[y * w + x].tile_type.is_hull());
    }
}

proof fn lemma_same_row_edges(a: Seq<Tile>, b: Seq<Tile>, w: int, h: int, y: int, n: nat)
    requires
        same_hull_tiles(a, b, w, h),
    ensures
        row_edges(a, w, h, y, n) == row_edges(b, w, h, y, n),
    decreases n,
{
    if n > 0 {
        lemma_same_row_edges(a, b, w, h, y, (n - 1) as nat);
        let x = n - 1;
        lemma_same_hull_at(a, b, w, h, x, y);
        lemma_same_hull_at(a, b, w, h, x, y - 1);
        lemma_same_hull_at(a, b, w, h, x + 1, y);
        lemma_same_hull_at(a, b, w, h, x, y + 1);
        lemma_same_hull_at(a, b, w, h, x - 1, y);
    }
}

proof fn lemma_same_rows_edges(a: Seq<Tile>, b: Seq<Tile>, w: int, h: int, m: nat)
    requires
        same_hull_tiles(a, b, w, h),
    ensures
        rows_edges(a, w, h, m) == rows_edges(b, w, h, m),
    decreases m,
{
    if m > 0 {
        lemma_same_rows_edges(a, b, w, h, (m - 1) as nat);
        lemma_same_row_edges(a, b, w, h, m - 1, w as nat);
    }
}

/// The hull outline depends on nothing but which tiles are hull tiles: a
/// door that opens or closes, or a floor that becomes a bed, leaves it as
/// it is.
pub proof fn lemma_outline_of_same_hull_tiles(a: Seq<Tile>, b: Seq<Tile>, w: int, h: int)
    requires
        same_hull_tiles(a, b, w, h),
    ensures
        outline(a, w, h) == outline(b, w, h),
{
    lemma_same_rows_edges(a, b, w, h, h as nat);
}

} // verus!
