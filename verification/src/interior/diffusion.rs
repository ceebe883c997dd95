//! Which tiles exchange gas in one diffusion step.
//!
//! The sweep visits the tiles row by row and looks from each tile to four of
//! its eight neighbours: right, below, below right, below left. The other
//! four are the tiles from which this tile is seen, so every pair of
//! neighbouring tiles is met once.

use vstd::prelude::*;
use crate::interior::ship::ShipInterior;
use crate::interior::tile::{lemma_index_bounds, lemma_index_injective, tile_index};

verus! {

/// The four directions of the sweep, in the order it looks in them.
pub open spec fn sweep_offset(k: int) -> (int, int) {
    if k == 0 {
        (1, 0)
    } else if k == 1 {
        (0, 1)
    } else if k == 2 {
        (1, 1)
    } else {
        (-1, 1)
    }
}

impl<Q: Copy> ShipInterior<Q> {
    /// The exchange between tile `(x, y)` and its neighbour in direction
    /// `k`, as a pair of positions in the grids; nothing unless both tiles
    /// are breathable.
    pub open spec fn exchange(&self, x: int, y: int, k: int) -> Seq<(usize, usize)> {
        let (dx, dy) = sweep_offset(k);
        if self.breathable_at(x, y) && self.breathable_at(x + dx, y + dy) {
            seq![((y * self.width + x) as usize, ((y + dy) * self.width + (x + dx)) as usize)]
        } else {
            Seq::empty()
        }
    }

    /// The exchanges of tile `(x, y)` in its first `k` directions.
    pub open spec fn tile_exchanges(&self, x: int, y: int, k: nat) -> Seq<(usize, usize)>
        decreases k,
    {
        if k == 0 {
            Seq::empty()
        } else {
            self.tile_exchanges(x, y, (k - 1) as nat) + self.exchange(x, y, k - 1)
        }
    }

    /// The exchanges of the first `n` tiles of row `y`.
    pub open spec fn row_exchanges(&self, y: int, n: nat) -> Seq<(usize, usize)>
        decreases n,
    {
        if n == 0 {
            Seq::empty()
        } else {
            self.row_exchanges(y, (n - 1) as nat) + self.tile_exchanges(n - 1, y, 4)
        }
    }

    /// The exchanges of the first `m` rows.
    pub open spec fn rows_exchanges(&self, m: nat) -> Seq<(usize, usize)>
        decreases m,
    {
        if m == 0 {
            Seq::empty()
        } else {
            self.rows_exchanges((m - 1) as nat) + self.row_exchanges(m - 1, self.width as nat)
        }
    }

    /// All exchanges of one diffusion step, in the order of the sweep.
    pub open spec fn exchanges(&self) -> Seq<(usize, usize)> {
        self.rows_exchanges(self.height as nat)
    }

    fn push_exchange(&self, pairs: &mut Vec<(usize, usize)>, x: u32, y: u32, k: u8)
        requires
            self.wf(),
            x < self.width,
            y < self.height,
            k < 4,
            self.breathable_at(x as int, y as int),
        ensures
            final(pairs)@ == old(pairs)@ + self.exchange(x as int, y as int, k as int),
    {
        let (dx, dy): (i64, i64) = if k == 0 {
            (1, 0)
        } else if k == 1 {
            (0, 1)
        } else if k == 2 {
            (1, 1)
        } else {
            (-1, 1)
        };
        let nx: i64 = x as i64 + dx;
        let ny: i64 = y as i64 + dy;
        if nx < 0 || nx >= self.width as i64 || ny >= self.height as i64 {
            return ;
        }
        if !Self::tile_supports_atmos(self.tile_type(nx as u32, ny as u32)) {
            return ;
        }
        assert(self.tiles.len() == self.tiles@.len());
        let a = tile_index(x, y, self.width, self.height);
        let b = tile_index(nx as u32, ny as u32, self.width, self.height);
        pairs.push((a, b));
    }

    /// The pairs of tiles that exchange gas in one diffusion step, each as
    /// the positions of the two tiles in the grids, in the order of the
    /// sweep.
    pub fn diffusion_pairs(&self) -> (pairs: Vec<(usize, usize)>)
        requires
            self.wf(),
        ensures
            pairs@ == self.exchanges(),
    {
        let mut pairs: Vec<(usize, usize)> = Vec::new();
        let mut y: u32 = 0;
        while y < self.height
            invariant
                self.wf(),
                y <= self.height,
                pairs@ == self.rows_exchanges(y as nat),
            decreases self.height - y,
        {
            let ghost before = pairs@;
            let mut x: u32 = 0;
            while x < self.width
                invariant
                    self.wf(),
                    y < self.height,
                    x <= self.width,
                    pairs@ == before + self.row_exchanges(y as int, x as nat),
                decreases self.width - x,
            {
                let ghost row = pairs@;
                if Self::tile_supports_atmos(self.tile_type(x, y)) {
                    self.push_exchange(&mut pairs, x, y, 0);
                    self.push_exchange(&mut pairs, x, y, 1);
                    self.push_exchange(&mut pairs, x, y, 2);
                    self.push_exchange(&mut pairs, x, y, 3);
                }
                proof {
                    reveal_with_fuel(ShipInterior::tile_exchanges, 5);
                    assert(pairs@ == row + self.tile_exchanges(x as int, y as int, 4));
                    assert(pairs@ == before + self.row_exchanges(y as int, (x + 1) as nat));
                }
                x += 1;
            }
            y += 1;
        }
        pairs
    }
}

/// Whether two tiles are different and touch, by a side or by a corner.
pub open spec fn neighbours(x1: int, y1: int, x2: int, y2: int) -> bool {
    &&& x1 != x2 || y1 != y2
    &&& -1 <= x2 - x1 <= 1
    &&& -1 <= y2 - y1 <= 1
}

/// The positions of two tiles in a grid of width `w`, as a pair.
pub open spec fn pair_of(w: int, x1: int, y1: int, x2: int, y2: int) -> (usize, usize) {
    ((y1 * w + x1) as usize, (y2 * w + x2) as usize)
}

impl<Q: Copy> ShipInterior<Q> {
    /// Whether `e` is the exchange that the sweep makes from tile `(x, y)`
    /// in direction `d`.
    pub open spec fn swept(&self, e: (usize, usize), x: int, y: int, d: int) -> bool {
        &&& 0 <= d < 4
        &&& self.breathable_at(x, y)
        &&& self.breathable_at(x + sweep_offset(d).0, y + sweep_offset(d).1)
        &&& e == pair_of(
            self.width as int,
            x,
            y,
            x + sweep_offset(d).0,
            y + sweep_offset(d).1,
        )
    }

    /// Whether `e` is swept from tile `(x, y)` in one of its first `k`
    /// directions.
    pub open spec fn swept_from_tile(&self, e: (usize, usize), x: int, y: int, k: int) -> bool {
        exists|d: int| 0 <= d < k && #[trigger] self.swept(e, x, y, d)
    }

    /// Whether `e` is swept from one of the first `n` tiles of row `y`.
    pub open spec fn swept_from_row(&self, e: (usize, usize), y: int, n: int) -> bool {
        exists|x: int, d: int| 0 <= x < n && #[trigger] self.swept(e, x, y, d)
    }

    /// Whether `e` is swept from a tile of the first `m` rows.
    pub open spec fn swept_from_rows(&self, e: (usize, usize), m: int) -> bool {
        exists|x: int, y: int, d: int|
            0 <= x < self.width && 0 <= y < m && #[trigger] self.swept(e, x, y, d)
    }

    /// What holds of an exchange swept from `(x, y)`: it starts at that
    /// tile's position and ends at a later one.
    proof fn lemma_swept(&self, e: (usize, usize), x: int, y: int, d: int)
        requires
            self.wf(),
            self.swept(e, x, y, d),
        ensures
            e.0 == y * self.width + x,
            e.1 == (y + sweep_offset(d).1) * self.width + (x + sweep_offset(d).0),
            e.0 < e.1,
            e.1 < self.width * self.height,
    {
        let w = self.width as int;
        let h = self.height as int;
        let (dx, dy) = sweep_offset(d);
        assert(self.tiles.len() == self.tiles@.len());
        lemma_index_bounds(w, h, x, y);
        lemma_index_bounds(w, h, x + dx, y + dy);
        assert((y + dy) * w == y * w + dy * w) by (nonlinear_arith);
        assert(dy == 1 ==> dy * w == w);
        assert(dy == 0 ==> dy * w == 0);
    }

    /// Every exchange of a tile's first `k` directions is swept from that
    /// tile in one of them, and no two of them are the same.
    proof fn lemma_tile_exchanges(&self, x: int, y: int, k: nat)
        requires
            self.wf(),
            k <= 4,
        ensures
            forall|i: int|
                0 <= i < self.tile_exchanges(x, y, k).len() ==> self.swept_from_tile(
                    #[trigger] self.tile_exchanges(x, y, k)[i],
                    x,
                    y,
                    k as int,
                ),
            forall|i: int, j: int|
                0 <= i < j < self.tile_exchanges(x, y, k).len() ==> self.tile_exchanges(x, y, k)[i]
                    != self.tile_exchanges(x, y, k)[j],
            forall|d: int, e: (usize, usize)|
                0 <= d < k && self.swept(e, x, y, d) ==> self.tile_exchanges(x, y, k).contains(e),
        decreases k,
    {
        if k > 0 {
            let w = self.width as int;
            let before = self.tile_exchanges(x, y, (k - 1) as nat);
            let last = self.exchange(x, y, k - 1);
            let all = self.tile_exchanges(x, y, k);
            self.lemma_tile_exchanges(x, y, (k - 1) as nat);
            assert(all == before + last);
            assert forall|i: int| 0 <= i < all.len() implies self.swept_from_tile(
                #[trigger] all[i],
                x,
                y,
                k as int,
            ) by {
                if i < before.len() {
                    assert(self.swept_from_tile(before[i], x, y, k - 1));
                    let d = choose|d: int| 0 <= d < k - 1 && self.swept(before[i], x, y, d);
                    assert(self.swept(all[i], x, y, d));
                } else {
                    assert(self.swept(all[i], x, y, k - 1));
                }
            }
            assert forall|i: int, j: int| 0 <= i < j < all.len() implies all[i] != all[j] by {
                if j >= before.len() {
                    assert(self.swept_from_tile(before[i], x, y, k - 1));
                    let d = choose|d: int| 0 <= d < k - 1 && self.swept(before[i], x, y, d);
                    self.lemma_swept(before[i], x, y, d);
                    self.lemma_swept(all[j], x, y, k - 1);
                    if all[i] == all[j] {
                        lemma_index_injective(
                            w,
                            x + sweep_offset(d).0,
                            y + sweep_offset(d).1,
                            x + sweep_offset(k - 1).0,
                            y + sweep_offset(k - 1).1,
                        );
                    }
                } else {
                    assert(all[i] == before[i] && all[j] == before[j]);
                }
            }
            assert forall|d: int, e: (usize, usize)|
                0 <= d < k && self.swept(e, x, y, d) implies all.contains(e) by {
                if d < k - 1 {
                    assert(before.contains(e));
                    let i = choose|i: int| 0 <= i < before.len() && before[i] == e;
                    assert(all[i] == e);
                } else {
                    assert(last[0] == e);
                    assert(all[before.len() as int] == e);
                }
            }
        }
    }

    /// The same of the first `n` tiles of a row.
    proof fn lemma_row_exchanges(&self, y: int, n: nat)
        requires
            self.wf(),
            0 <= y < self.height,
            n <= self.width,
        ensures
            forall|i: int|
                0 <= i < self.row_exchanges(y, n).len() ==> self.swept_from_row(
                    #[trigger] self.row_exchanges(y, n)[i],
                    y,
                    n as int,
                ),
            forall|i: int, j: int|
                0 <= i < j < self.row_exchanges(y, n).len() ==> self.row_exchanges(y, n)[i]
                    != self.row_exchanges(y, n)[j],
            forall|x: int, d: int, e: (usize, usize)|
                0 <= x < n && self.swept(e, x, y, d) ==> self.row_exchanges(y, n).contains(e),
        decreases n,
    {
        if n > 0 {
            let xl: int = n - 1;
            let before = self.row_exchanges(y, (n - 1) as nat);
            let last = self.tile_exchanges(n - 1, y, 4);
            let all = self.row_exchanges(y, n);
            self.lemma_row_exchanges(y, (n - 1) as nat);
            self.lemma_tile_exchanges(n - 1, y, 4);
            assert(all == before + last);
            assert forall|i: int| 0 <= i < all.len() implies self.swept_from_row(
                #[trigger] all[i],
                y,
                n as int,
            ) by {
                if i < before.len() {
                    assert(self.swept_from_row(before[i], y, n - 1));
                    let (x, d) = choose|x: int, d: int|
                        0 <= x < n - 1 && self.swept(before[i], x, y, d);
                    assert(self.swept(all[i], x, y, d));
                } else {
                    let e = last[i - before.len()];
                    assert(self.swept_from_tile(e, xl, y, 4));
                    let d = choose|d: int| 0 <= d < 4 && self.swept(e, xl, y, d);
                    assert(self.swept(all[i], xl, y, d));
                }
            }
            assert forall|i: int, j: int| 0 <= i < j < all.len() implies all[i] != all[j] by {
                if j < before.len() {
                    assert(all[i] == before[i] && all[j] == before[j]);
                } else if i >= before.len() {
                    assert(all[i] == last[i - before.len()] && all[j] == last[j - before.len()]);
                } else {
                    assert(self.swept_from_row(before[i], y, n - 1));
                    let (x, d) = choose|x: int, d: int|
                        0 <= x < n - 1 && self.swept(before[i], x, y, d);
                    let e = last[j - before.len()];
                    assert(self.swept_from_tile(e, xl, y, 4));
                    let d2 = choose|d: int| 0 <= d < 4 && self.swept(e, xl, y, d);
                    self.lemma_swept(before[i], x, y, d);
                    self.lemma_swept(e, xl, y, d2);
                }
            }
            assert forall|x: int, d: int, e: (usize, usize)|
                0 <= x < n && self.swept(e, x, y, d) implies all.contains(e) by {
                if x < n - 1 {
                    assert(before.contains(e));
                    let i = choose|i: int| 0 <= i < before.len() && before[i] == e;
                    assert(all[i] == e);
                } else {
                    assert(last.contains(e));
                    let i = choose|i: int| 0 <= i < last.len() && last[i] == e;
                    assert(all[before.len() + i] == e);
                }
            }
        }
    }

    /// The same of the first `m` rows.
    proof fn lemma_rows_exchanges(&self, m: nat)
        requires
            self.wf(),
            m <= self.height,
        ensures
            forall|i: int|
                0 <= i < self.rows_exchanges(m).len() ==> self.swept_from_rows(
                    #[trigger] self.rows_exchanges(m)[i],
                    m as int,
                ),
            forall|i: int, j: int|
                0 <= i < j < self.rows_exchanges(m).len() ==> self.rows_exchanges(m)[i]
                    != self.rows_exchanges(m)[j],
            forall|x: int, y: int, d: int, e: (usize, usize)|
                0 <= x < self.width && 0 <= y < m && self.swept(e, x, y, d)
                    ==> self.rows_exchanges(m).contains(e),
        decreases m,
    {
        if m > 0 {
            let w = self.width as int;
            let h = self.height as int;
            let yl: int = m - 1;
            let before = self.rows_exchanges((m - 1) as nat);
            let last = self.row_exchanges(m - 1, self.width as nat);
            let all = self.rows_exchanges(m);
            self.lemma_rows_exchanges((m - 1) as nat);
            self.lemma_row_exchanges(m - 1, self.width as nat);
            assert(all == before + last);
            assert forall|i: int| 0 <= i < all.len() implies self.swept_from_rows(
                #[trigger] all[i],
                m as int,
            ) by {
                if i < before.len() {
                    assert(self.swept_from_rows(before[i], m - 1));
                    let (x, y, d) = choose|x: int, y: int, d: int|
                        0 <= x < self.width && 0 <= y < m - 1 && self.swept(before[i], x, y, d);
                    assert(self.swept(all[i], x, y, d));
                } else {
                    let e = last[i - before.len()];
                    assert(self.swept_from_row(e, yl, self.width as int));
                    let (x, d) = choose|x: int, d: int|
                        0 <= x < self.width && self.swept(e, x, yl, d);
                    assert(self.swept(all[i], x, yl, d));
                }
            }
            assert forall|i: int, j: int| 0 <= i < j < all.len() implies all[i] != all[j] by {
                if j < before.len() {
                    assert(all[i] == before[i] && all[j] == before[j]);
                } else if i >= before.len() {
                    assert(all[i] == last[i - before.len()] && all[j] == last[j - before.len()]);
                } else {
                    assert(self.swept_from_rows(before[i], m - 1));
                    let (x, y, d) = choose|x: int, y: int, d: int|
                        0 <= x < self.width && 0 <= y < m - 1 && self.swept(before[i], x, y, d);
                    let e = last[j - before.len()];
                    assert(self.swept_from_row(e, yl, self.width as int));
                    let (x2, d2) = choose|x: int, d: int|
                        0 <= x < self.width && self.swept(e, x, yl, d);
                    self.lemma_swept(before[i], x, y, d);
                    self.lemma_swept(e, x2, yl, d2);
                    if before[i] == e {
                        lemma_index_injective(w, x, y, x2, yl);
                    }
                }
            }
            assert forall|x: int, y: int, d: int, e: (usize, usize)|
                0 <= x < self.width && 0 <= y < m && self.swept(e, x, y, d) implies all.contains(
                e,
            ) by {
                if y < m - 1 {
                    assert(before.contains(e));
                    let i = choose|i: int| 0 <= i < before.len() && before[i] == e;
                    assert(all[i] == e);
                } else {
                    assert(last.contains(e));
                    let i = choose|i: int| 0 <= i < last.len() && last[i] == e;
                    assert(all[before.len() + i] == e);
                }
            }
        }
    }

    /// Every exchange of a diffusion step joins two breathable tiles that
    /// are neighbours, the one at the earlier position first.
    pub proof fn lemma_exchange_joins_neighbours(&self, k: int)
        requires
            self.wf(),
            0 <= k < self.exchanges().len(),
        ensures
            self.exchanges()[k].0 < self.exchanges()[k].1,
            exists|x1: int, y1: int, x2: int, y2: int|
                {
                    &&& self.breathable_at(x1, y1)
                    &&& self.breathable_at(x2, y2)
                    &&& neighbours(x1, y1, x2, y2)
                    &&& #[trigger] pair_of(self.width as int, x1, y1, x2, y2) == self.exchanges()[k]
                },
    {
        self.lemma_rows_exchanges(self.height as nat);
        let e = self.exchanges()[k];
        assert(self.swept_from_rows(e, self.height as int));
        let (x, y, d) = choose|x: int, y: int, d: int|
            0 <= x < self.width && 0 <= y < self.height && self.swept(e, x, y, d);
        self.lemma_swept(e, x, y, d);
        assert(pair_of(
            self.width as int,
            x,
            y,
            x + sweep_offset(d).0,
            y + sweep_offset(d).1,
        ) == e);
    }

    /// Any two breathable tiles that are neighbours exchange gas exactly
    /// once in a diffusion step: one place of the list holds their pair, in
    /// one order or the other, and no second place does.
    pub proof fn lemma_neighbours_exchange_once(&self, x1: int, y1: int, x2: int, y2: int)
        requires
            self.wf(),
            self.breathable_at(x1, y1),
            self.breathable_at(x2, y2),
            neighbours(x1, y1, x2, y2),
        ensures
            exists|k: int|
                0 <= k < self.exchanges().len() && (#[trigger] self.exchanges()[k] == pair_of(
                    self.width as int,
                    x1,
                    y1,
                    x2,
                    y2,
                ) || self.exchanges()[k] == pair_of(self.width as int, x2, y2, x1, y1)),
            forall|k: int, l: int|
                0 <= k < self.exchanges().len() && 0 <= l < self.exchanges().len() && (
                self.exchanges()[k] == pair_of(self.width as int, x1, y1, x2, y2)
                    || self.exchanges()[k] == pair_of(self.width as int, x2, y2, x1, y1)) && (
                self.exchanges()[l] == pair_of(self.width as int, x1, y1, x2, y2)
                    || self.exchanges()[l] == pair_of(self.width as int, x2, y2, x1, y1)) ==> k
                    == l,
    {
        let w = self.width as int;
        let all = self.exchanges();
        let forth = pair_of(w, x1, y1, x2, y2);
        let back = pair_of(w, x2, y2, x1, y1);
        self.lemma_rows_exchanges(self.height as nat);
        // the tile that the sweep reaches first looks at the other
        let first_is_one = y1 < y2 || (y1 == y2 && x1 < x2);
        let (sx, sy, tx, ty) = if first_is_one {
            (x1, y1, x2, y2)
        } else {
            (x2, y2, x1, y1)
        };
        let d: int = if ty == sy {
            0
        } else if tx == sx {
            1
        } else if tx == sx + 1 {
            2
        } else {
            3
        };
        let e = pair_of(w, sx, sy, tx, ty);
        assert(self.swept(e, sx, sy, d));
        assert(all.contains(e));
        let k0 = choose|k: int| 0 <= k < all.len() && all[k] == e;
        assert(all[k0] == forth || all[k0] == back);
        self.lemma_swept(e, sx, sy, d);
        assert forall|k: int, l: int|
            0 <= k < all.len() && 0 <= l < all.len() && (all[k] == forth || all[k] == back) && (
            all[l] == forth || all[l] == back) implies k == l by {
            self.lemma_exchange_joins_neighbours(k);
            self.lemma_exchange_joins_neighbours(l);
            assert(all[k] == e);
            assert(all[l] == e);
        }
    }
}

} // verus!
