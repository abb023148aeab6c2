use vstd::prelude::*;
use vstd::arithmetic::div_mod::lemma_fundamental_div_mod_converse;
use vstd::arithmetic::div_mod::lemma_fundamental_div_mod;
use vstd::arithmetic::div_mod::lemma_mod_pos_bound;

use crate::geom::{Aabru, Extent2u, Vec2u};

verus! {

/// Number of tiles of edge `t` needed to cover `n` pixels: `ceil(n / t)`.
pub open spec fn tiles_along(n: int, t: int) -> int {
    if n % t == 0 { n / t } else { n / t + 1 }
}

/// Number of tile columns of the grid.
pub open spec fn grid_columns(res: Extent2u, tile_size: Extent2u) -> int {
    tiles_along(res.w as int, tile_size.w as int)
}

/// Number of tile rows of the grid.
pub open spec fn grid_rows(res: Extent2u, tile_size: Extent2u) -> int {
    tiles_along(res.h as int, tile_size.h as int)
}

/// Total number of tiles of the grid.
pub open spec fn grid_len(res: Extent2u, tile_size: Extent2u) -> int {
    grid_columns(res, tile_size) * grid_rows(res, tile_size)
}

/// The `i`-th tile of the grid. Tiles are numbered column by column: tile
/// `i` is in column `i / rows` and row `i % rows`. Its rectangle starts at
/// a multiple of the tile size and is clipped to the resolution.
pub open spec fn grid_tile(res: Extent2u, tile_size: Extent2u, i: int) -> Aabru {
    let rows = grid_rows(res, tile_size);
    let x0 = (i / rows) * tile_size.w;
    let y0 = (i % rows) * tile_size.h;
    Aabru {
        min: Vec2u { x: x0 as usize, y: y0 as usize },
        max: Vec2u {
            x: (if x0 + tile_size.w <= res.w { x0 + tile_size.w } else { res.w as int }) as usize,
            y: (if y0 + tile_size.h <= res.h { y0 + tile_size.h } else { res.h as int }) as usize,
        },
    }
}

/// The number of the tile that holds pixel `(x, y)`.
pub open spec fn tile_of_pixel(res: Extent2u, tile_size: Extent2u, x: int, y: int) -> int {
    (x / tile_size.w as int) * grid_rows(res, tile_size) + y / tile_size.h as int
}

/// Pixels `[0, n)` cut into pieces of edge `t`: pixel `p` lies in piece `k`
/// exactly when `k == p / t`, and the piece count is `tiles_along(n, t)`.
proof fn lemma_axis(n: int, t: int, p: int, k: int)
    requires
        t > 0,
        0 <= p < n,
        0 <= k,
    ensures
        0 <= p / t < tiles_along(n, t),
        (k * t <= p < k * t + t) <==> k == p / t,
{
    lemma_fundamental_div_mod(p, t);
    lemma_fundamental_div_mod(n, t);
    lemma_mod_pos_bound(p, t);
    lemma_mod_pos_bound(n, t);
    assert(0 <= p / t) by (nonlinear_arith)
        requires 0 <= p, t > 0;
    if p / t >= tiles_along(n, t) {
        assert(p / t >= n / t);
        if n % t == 0 {
            assert(t * (p / t) >= t * (n / t)) by (nonlinear_arith)
                requires p / t >= n / t, t > 0;
        } else {
            assert(p / t >= n / t + 1);
            assert(t * (p / t) >= t * (n / t) + t) by (nonlinear_arith)
                requires p / t >= n / t + 1, t > 0;
        }
        assert(false);
    }
    if k * t <= p < k * t + t {
        lemma_fundamental_div_mod_converse(p, t, k, p - k * t);
    }
    if k == p / t {
        assert(k * t == t * (p / t)) by (nonlinear_arith)
            requires k == p / t;
    }
}

/// A piece number below the piece count starts inside `[0, n)`.
proof fn lemma_piece_start(n: int, t: int, k: int)
    requires
        t > 0,
        n >= 0,
        0 <= k < tiles_along(n, t),
    ensures
        0 <= k * t < n,
        tiles_along(n, t) <= n,
{
    lemma_fundamental_div_mod(n, t);
    lemma_mod_pos_bound(n, t);
    assert(0 <= k * t) by (nonlinear_arith) requires 0 <= k, t > 0;
    if n % t == 0 {
        assert(k * t < t * (n / t)) by (nonlinear_arith) requires k < n / t, t > 0;
    } else {
        assert(k * t <= t * (n / t)) by (nonlinear_arith) requires k <= n / t, t > 0;
    }
    assert(n / t <= n) by (nonlinear_arith) requires t > 0, n >= 0, n == t * (n / t) + n % t, n % t >= 0;
    if n % t != 0 {
        assert(n / t < n) by (nonlinear_arith) requires t > 0, n >= 0, n == t * (n / t) + n % t, n % t > 0;
    }
}

/// Every pixel of the frame lies in exactly one tile of the grid: pixel
/// `(x, y)` is in tile `i` if and only if `i` is `tile_of_pixel(x, y)`, and
/// that number is a tile of the grid.
pub proof fn lemma_grid_partitions_frame(res: Extent2u, tile_size: Extent2u, x: int, y: int, i: int)
    requires
        tile_size.w > 0,
        tile_size.h > 0,
        0 <= x < res.w,
        0 <= y < res.h,
        0 <= i < grid_len(res, tile_size),
    ensures
        0 <= tile_of_pixel(res, tile_size, x, y) < grid_len(res, tile_size),
        grid_tile(res, tile_size, i).contains(x, y) <==> i == tile_of_pixel(res, tile_size, x, y),
{
    let tw = tile_size.w as int;
    let w = res.w as int;
    let h = res.h as int;
    let th = tile_size.h as int;
    let cols = grid_columns(res, tile_size);
    let rows = grid_rows(res, tile_size);
    lemma_axis(h, th, y, 0);
    assert(rows == tiles_along(h, th));
    assert(rows > 0);
    let cx = i / rows;
    let cy = i % rows;
    lemma_fundamental_div_mod(i, rows);
    assert(0 <= cx) by (nonlinear_arith)
        requires 0 <= i, rows > 0, cx == i / rows;
    lemma_axis(w, tw, x, cx);
    lemma_axis(h, th, y, cy);
    let px = x / tw;
    let py = y / th;
    // the pixel's tile number is in range
    assert(px * rows + py < cols * rows) by (nonlinear_arith)
        requires 0 <= px < cols, 0 <= py < rows;
    assert(0 <= px * rows + py) by (nonlinear_arith)
        requires 0 <= px, 0 <= py, 0 <= rows;
    let t = grid_tile(res, tile_size, i);
    assert(cx < cols) by {
        if cx >= cols {
            assert(rows * cx >= rows * cols) by (nonlinear_arith) requires cx >= cols, rows > 0;
            assert(cols * rows == rows * cols) by (nonlinear_arith);
        }
    }
    lemma_piece_start(w, tw, cx);
    lemma_piece_start(h, th, cy);
    if i == px * rows + py {
        lemma_fundamental_div_mod_converse(i, rows, px, py);
    }
    if t.contains(x, y) {
        assert(cx == px && cy == py);
        assert(i == cx * rows + cy) by (nonlinear_arith) requires i == rows * cx + cy;
    }
}

/// `ceil(n / t)` without overflow.
fn count_tiles(n: usize, t: usize) -> (r: usize)
    requires
        t > 0,
    ensures
        r == tiles_along(n as int, t as int),
{
    if n % t == 0 {
        n / t
    } else {
        proof {
            lemma_fundamental_div_mod(n as int, t as int);
            assert(n / t < n) by (nonlinear_arith)
                requires t > 0, n == t * (n / t) + n % t, n % t > 0;
        }
        n / t + 1
    }
}

/// Cuts a frame of resolution `res` into tiles of `tile_size`, column by
/// column; tiles on the right and bottom edges are clipped to the frame.
pub fn tile_grid(res: Extent2u, tile_size: Extent2u) -> (r: Vec<Aabru>)
    requires
        tile_size.w > 0,
        tile_size.h > 0,
        res.area() <= usize::MAX,
    ensures
        r.len() == grid_len(res, tile_size),
        forall|i: int| 0 <= i < r.len() ==> #[trigger] r[i] == grid_tile(res, tile_size, i),
{
    let cols = count_tiles(res.w, tile_size.w);
    let rows = count_tiles(res.h, tile_size.h);
    proof {
        if cols > 0 && rows > 0 {
            lemma_piece_start(res.w as int, tile_size.w as int, 0);
            lemma_piece_start(res.h as int, tile_size.h as int, 0);
            assert(cols * rows <= res.w * res.h) by (nonlinear_arith)
                requires 0 < cols <= res.w, 0 < rows <= res.h;
        } else {
            assert(cols * rows == 0) by (nonlinear_arith) requires cols == 0 || rows == 0;
        }
    }
    let mut tiles: Vec<Aabru> = Vec::new();
    let mut tx: usize = 0;
    while tx < cols
        invariant
            tile_size.w > 0,
            tile_size.h > 0,
            cols == grid_columns(res, tile_size),
            rows == grid_rows(res, tile_size),
            cols * rows <= usize::MAX,
            tx <= cols,
            tiles.len() == tx * rows,
            forall|i: int| 0 <= i < tiles.len() ==> #[trigger] tiles[i] == grid_tile(res, tile_size, i),
        decreases cols - tx,
    {
        proof { lemma_piece_start(res.w as int, tile_size.w as int, tx as int); }
        let x0 = tx * tile_size.w;
        let x1 = if res.w - x0 >= tile_size.w { x0 + tile_size.w } else { res.w };
        let mut ty: usize = 0;
        while ty < rows
            invariant
                tile_size.w > 0,
                tile_size.h > 0,
                cols == grid_columns(res, tile_size),
                rows == grid_rows(res, tile_size),
                cols * rows <= usize::MAX,
                tx < cols,
                ty <= rows,
                x0 == tx * tile_size.w,
                x1 == (if x0 + tile_size.w <= res.w { x0 + tile_size.w } else { res.w as int }),
                tiles.len() == tx * rows + ty,
                forall|i: int| 0 <= i < tiles.len() ==> #[trigger] tiles[i] == grid_tile(res, tile_size, i),
            decreases rows - ty,
        {
            proof {
                lemma_piece_start(res.h as int, tile_size.h as int, ty as int);
                lemma_fundamental_div_mod_converse(tiles.len() as int, rows as int, tx as int, ty as int);
                assert(tx * rows + ty < cols * rows) by (nonlinear_arith)
                    requires tx < cols, ty < rows;
            }
            let y0 = ty * tile_size.h;
            let y1 = if res.h - y0 >= tile_size.h { y0 + tile_size.h } else { res.h };
            tiles.push(Aabru { min: Vec2u { x: x0, y: y0 }, max: Vec2u { x: x1, y: y1 } });
            ty += 1;
        }
        proof {
            assert((tx + 1) * rows == tx * rows + rows) by (nonlinear_arith);
        }
        tx += 1;
    }
    tiles
}

/// Row-major index of pixel `(x, y)` in a buffer `w` pixels wide.
pub open spec fn row_major(w: int, x: int, y: int) -> int {
    x + y * w
}

/// A film buffer after a tile's buffer has been written into it: each pixel
/// of the frame that the tile's rectangle `b` holds takes the tile's value for
/// it, and every other pixel keeps the film's value.
pub open spec fn composited<T>(film: Seq<T>, res: Extent2u, tile: Seq<T>, b: Aabru) -> Seq<T> {
    Seq::new(
        film.len(),
        |k: int|
            if b.contains(k % res.w as int, k / res.w as int) {
                tile[row_major(
                    b.spec_size().w as int,
                    k % res.w as int - b.min.x,
                    k / res.w as int - b.min.y,
                )]
            } else {
                film[k]
            },
    )
}

/// One rectangular piece of the frame, worked on by a single worker in one
/// render pass (`epoch`), with its own per-channel buffers.
pub struct Tile<C> {
    pub index: usize,
    pub epoch: usize,
    pub channels: Vec<C>,
    pub raster_bounds: Aabru,
    pub raster_extent: Extent2u,
}

impl<C> Tile<C> {
    /// The extent is the size of the bounds.
    pub open spec fn wf(&self) -> bool {
        &&& self.raster_bounds.wf()
        &&& self.raster_extent == self.raster_bounds.spec_size()
        &&& self.raster_extent.area() <= usize::MAX
    }

    pub fn new(index: usize, epoch: usize, channels: Vec<C>, raster_bounds: Aabru) -> (r: Tile<C>)
        requires
            raster_bounds.wf(),
            raster_bounds.spec_size().area() <= usize::MAX,
        ensures
            r.wf(),
            r.index == index,
            r.epoch == epoch,
            r.channels == channels,
            r.raster_bounds == raster_bounds,
    {
        let raster_extent = raster_bounds.size();
        Tile { index, epoch, channels, raster_bounds, raster_extent }
    }

    /// Index, in each of the tile's channel buffers, of the pixel at
    /// `tile_coord` (relative to the tile's corner).
    pub fn pixel_index(&self, tile_coord: Vec2u) -> (r: usize)
        requires
            self.wf(),
            tile_coord.x < self.raster_extent.w,
            tile_coord.y < self.raster_extent.h,
        ensures
            r == row_major(self.raster_extent.w as int, tile_coord.x as int, tile_coord.y as int),
            r < self.raster_extent.area(),
    {
        let w = self.raster_extent.w;
        let h = self.raster_extent.h;
        proof {
            assert(tile_coord.x + tile_coord.y * w < w * h) by (nonlinear_arith)
                requires tile_coord.x < w, tile_coord.y < h;
        }
        tile_coord.x + tile_coord.y * w
    }
}

/// Tile-relative pixel of the `k`-th camera ray batch of a tile of extent
/// `e` with `samples` batches per pixel: pixels column by column, each
/// pixel's batches one after another.
pub open spec fn camera_batch_pixel(e: Extent2u, samples: int, k: int) -> Vec2u {
    Vec2u { x: (k / (e.h * samples)) as usize, y: ((k / samples) % e.h as int) as usize }
}

/// The tile-relative pixel of every camera ray batch of `tile`, in the
/// order in which the batches are traced: `samples` batches for each pixel.
pub fn camera_batch_pixels<C>(tile: &Tile<C>, samples: usize) -> (r: Vec<Vec2u>)
    requires
        tile.wf(),
        samples > 0,
        tile.raster_extent.area() * samples <= usize::MAX,
    ensures
        r.len() == tile.raster_extent.area() * samples,
        forall|k: int| 0 <= k < r.len() ==> #[trigger] r[k] == camera_batch_pixel(tile.raster_extent, samples as int, k),
{
    let e = tile.raster_extent;
    let mut out: Vec<Vec2u> = Vec::new();
    let mut x: usize = 0;
    while x < e.w
        invariant
            e == tile.raster_extent,
            samples > 0,
            e.w * e.h * samples <= usize::MAX,
            x <= e.w,
            out.len() == x * (e.h * samples),
            forall|k: int| 0 <= k < out.len() ==> #[trigger] out[k] == camera_batch_pixel(e, samples as int, k),
        decreases e.w - x,
    {
        let mut y: usize = 0;
        while y < e.h
            invariant
                e == tile.raster_extent,
                samples > 0,
                e.w * e.h * samples <= usize::MAX,
                x < e.w,
                y <= e.h,
                out.len() == x * (e.h * samples) + y * samples,
                forall|k: int| 0 <= k < out.len() ==> #[trigger] out[k] == camera_batch_pixel(e, samples as int, k),
            decreases e.h - y,
        {
            let mut n: usize = 0;
            while n < samples
                invariant
                    e == tile.raster_extent,
                    samples > 0,
                    e.w * e.h * samples <= usize::MAX,
                    x < e.w,
                    y < e.h,
                    n <= samples,
                    out.len() == x * (e.h * samples) + y * samples + n,
                    forall|k: int| 0 <= k < out.len() ==> #[trigger] out[k] == camera_batch_pixel(e, samples as int, k),
                decreases samples - n,
            {
                proof {
                    let k = x * (e.h * samples) + y * samples + n;
                    let hs = e.h * samples;
                    assert(y * samples + n < hs) by (nonlinear_arith)
                        requires y < e.h, n < samples, hs == e.h * samples;
                    assert(0 <= y * samples + n) by (nonlinear_arith)
                        requires 0 <= y, 0 <= n, samples > 0;
                    lemma_fundamental_div_mod_converse(k, hs, x as int, y * samples + n);
                    assert(k == (x * e.h + y) * samples + n) by (nonlinear_arith)
                        requires k == x * (e.h * samples) + y * samples + n;
                    assert(0 <= x * e.h + y) by (nonlinear_arith)
                        requires 0 <= x, 0 <= y, e.h >= 0;
                    lemma_fundamental_div_mod_converse(k, samples as int, x * e.h + y, n as int);
                    lemma_fundamental_div_mod_converse(x * e.h + y, e.h as int, x as int, y as int);
                    assert(k < e.w * e.h * samples) by (nonlinear_arith)
                        requires k == x * hs + (y * samples + n), y * samples + n < hs, x < e.w, hs == e.h * samples;
                }
                out.push(Vec2u { x, y });
                n += 1;
            }
            proof {
                assert((y + 1) * samples == y * samples + samples) by (nonlinear_arith);
            }
            y += 1;
        }
        proof {
            assert((x + 1) * (e.h * samples) == x * (e.h * samples) + e.h * samples) by (nonlinear_arith);
            assert(e.h * samples == e.h * samples);
        }
        x += 1;
    }
    proof {
        assert(e.w * (e.h * samples) == e.w * e.h * samples) by (nonlinear_arith);
    }
    out
}

/// Writes a finished tile's buffer `tile` into the frame-sized buffer `film`
/// at the tile's rectangle `bounds`; pixels outside it are left alone.
pub fn composite_tile<T: Copy>(film: &mut Vec<T>, res: Extent2u, tile: &Vec<T>, bounds: Aabru)
    requires
        bounds.wf(),
        bounds.max.x <= res.w,
        bounds.max.y <= res.h,
        old(film).len() == res.area(),
        tile.len() == bounds.spec_size().area(),
    ensures
        final(film)@ == composited(old(film)@, res, tile@, bounds),
{
    let ghost start = film@;
    let extent = bounds.size();
    let w = res.w;
    let mut y: usize = 0;
    while y < extent.h
        invariant
            bounds.wf(),
            bounds.max.x <= res.w,
            bounds.max.y <= res.h,
            w == res.w,
            extent == bounds.spec_size(),
            start.len() == res.area(),
            tile.len() == extent.area(),
            film.len() == start.len(),
            y <= extent.h,
            forall|k: int|
                0 <= k < film.len() ==> #[trigger] film@[k] == (
                    if bounds.contains(k % w as int, k / w as int) && k / w as int - bounds.min.y < y {
                        composited(start, res, tile@, bounds)[k]
                    } else {
                        start[k]
                    }),
        decreases extent.h - y,
    {
        let mut x: usize = 0;
        while x < extent.w
            invariant
                bounds.wf(),
                bounds.max.x <= res.w,
                bounds.max.y <= res.h,
                w == res.w,
                extent == bounds.spec_size(),
                start.len() == res.area(),
                tile.len() == extent.area(),
                film.len() == start.len(),
                y < extent.h,
                x <= extent.w,
                forall|k: int|
                    0 <= k < film.len() ==> #[trigger] film@[k] == (
                        if bounds.contains(k % w as int, k / w as int) && (
                            k / w as int - bounds.min.y < y
                            || (k / w as int - bounds.min.y == y && k % w as int - bounds.min.x < x)) {
                            composited(start, res, tile@, bounds)[k]
                        } else {
                            start[k]
                        }),
            decreases extent.w - x,
        {
            let px = bounds.min.x + x;
            let py = bounds.min.y + y;
            proof {
                assert(x + y * extent.w < extent.w * extent.h) by (nonlinear_arith)
                    requires x < extent.w, y < extent.h;
                assert(px + py * w < w * res.h) by (nonlinear_arith)
                    requires px < w, py < res.h;
                lemma_fundamental_div_mod_converse(px + py * w, w as int, py as int, px as int);
            }
            let v = tile[x + y * extent.w];
            film.set(px + py * w, v);
            proof {
                assert forall|k: int| 0 <= k < film.len() && k != px + py * w implies
                    (#[trigger] (k % w as int) != px || k / w as int != py) by {
                    if k % w as int == px && k / w as int == py {
                        lemma_fundamental_div_mod(k, w as int);
                        assert(k == px + py * w) by (nonlinear_arith)
                            requires k == w * (k / w as int) + k % w as int, k % w as int == px, k / w as int == py;
                    }
                }
            }
            x += 1;
        }
        y += 1;
    }
    assert(film@ =~= composited(start, res, tile@, bounds));
}

/// Compositing is idempotent and forgets what the film held under the tile:
/// writing the same tile data into two films that agree outside the tile's
/// rectangle gives identical buffers, and writing it a second time changes
/// nothing.
pub proof fn lemma_composite_idempotent<T>(
    film_a: Seq<T>,
    film_b: Seq<T>,
    res: Extent2u,
    tile: Seq<T>,
    b: Aabru,
)
    requires
        film_a.len() == film_b.len(),
        forall|k: int|
            0 <= k < film_a.len() && !b.contains(k % res.w as int, k / res.w as int)
                ==> #[trigger] film_a[k] == film_b[k],
    ensures
        composited(film_a, res, tile, b) == composited(film_b, res, tile, b),
        composited(composited(film_a, res, tile, b), res, tile, b) == composited(film_a, res, tile, b),
{
    assert(composited(film_a, res, tile, b) =~= composited(film_b, res, tile, b));
    assert(composited(composited(film_a, res, tile, b), res, tile, b) =~= composited(film_a, res, tile, b));
}

} // verus!
