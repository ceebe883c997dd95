use vstd::prelude::*;
use crate::interior::device::{device_contains, Device, DeviceData};
use crate::interior::gas::{GasType, PowerState, TileAtmosphere};
use crate::interior::hull::{hull_outline, lemma_outline_of_same_hull_tiles, outline, Corner};
use crate::interior::tile::{in_grid, tile_index, Tile, TileType};

verus! {

/// The two atmosphere cells that a change of tile type can put in place.
#[derive(Clone, Copy, Debug)]
pub struct AtmosphereSeed<Q> {
    /// The cell of a tile that holds no gas.
    pub vacuum: TileAtmosphere<Q>,
    /// The filling of a fresh breathable tile.
    pub standard_air: TileAtmosphere<Q>,
}

/// Where a dispenser takes its gas from and where it lets it out.
#[derive(Clone, Copy, Debug)]
pub struct DispenserRoute {
    /// The position of the linked tank among the ship's devices.
    pub tank: usize,
    pub gas: GasType,
    /// The tile that receives the gas; without one the gas is lost.
    pub target: Option<(u32, u32)>,
}

/// The ship's interior: a grid of tiles, an atmosphere cell for every tile,
/// the devices, and the outline of the hull.
#[derive(Clone, Debug)]
pub struct ShipInterior<Q> {
    pub width: u32,
    pub height: u32,
    pub tiles: Vec<Tile>,
    pub tile_atmos: Vec<TileAtmosphere<Q>>,
    pub power: PowerState<Q>,
    pub devices: Vec<Device<Q>>,
    /// The hull outline on the corner lattice of the grid.
    pub hull_outline: Vec<Corner>,
}

impl<Q: Copy> ShipInterior<Q> {
    /// The two grids have one entry for every tile.
    pub open spec fn wf(&self) -> bool {
        &&& self.tiles@.len() == self.width * self.height
        &&& self.tile_atmos@.len() == self.width * self.height
    }

    /// The stored outline is the outline of the tiles as they are.
    pub open spec fn hull_current(&self) -> bool {
        self.hull_outline@ == outline(self.tiles@, self.width as int, self.height as int)
    }

    /// Every tile that cannot hold gas has `vacuum` for its atmosphere cell.
    pub open spec fn airless_hold(&self, vacuum: TileAtmosphere<Q>) -> bool {
        forall|i: int|
            0 <= i < self.tiles@.len() && !(#[trigger] self.tiles@[i]).tile_type.supports_atmos()
                ==> self.tile_atmos@[i] == vacuum
    }

    /// The type of tile `(x, y)`; `Empty` outside the grid.
    pub open spec fn type_at(&self, x: int, y: int) -> TileType {
        if in_grid(self.width as int, self.height as int, x, y) {
            self.tiles@[y * self.width + x].tile_type
        } else {
            TileType::Empty
        }
    }

    /// Whether tile `(x, y)` holds an atmosphere cell.
    pub open spec fn breathable_at(&self, x: int, y: int) -> bool {
        self.type_at(x, y).supports_atmos()
    }

    /// Whether `tx` is the first breathable tile of row `row` among the
    /// columns from `lo` up to, not including, `hi`.
    pub open spec fn first_breathable_in_row(&self, row: int, lo: int, hi: int, tx: int) -> bool {
        &&& lo <= tx < hi
        &&& self.breathable_at(tx, row)
        &&& forall|t: int| lo <= t < tx ==> !self.breathable_at(t, row)
    }

    /// Whether row `row` has no breathable tile in those columns.
    pub open spec fn row_airless(&self, row: int, lo: int, hi: int) -> bool {
        forall|t: int| lo <= t < hi ==> !self.breathable_at(t, row)
    }

    /// Whether `target` is where a device on the rectangle `rect` (x, y,
    /// width, height) lets gas out: the first breathable tile of the row just
    /// below the rectangle, under its columns; failing that the first
    /// breathable tile inside the rectangle, row by row; failing that none.
    pub open spec fn is_output_tile(
        &self,
        rect: (u32, u32, u32, u32),
        target: Option<(u32, u32)>,
    ) -> bool {
        let (x, y, w, h) = rect;
        let lo = x as int;
        let hi = x + w;
        let front = y + h;
        match target {
            Some((tx, ty)) => {
                ||| ty == front && self.first_breathable_in_row(front, lo, hi, tx as int)
                ||| {
                    &&& self.row_airless(front, lo, hi)
                    &&& y <= ty < front
                    &&& self.first_breathable_in_row(ty as int, lo, hi, tx as int)
                    &&& forall|r: int| y <= r < ty ==> self.row_airless(r, lo, hi)
                }
            },
            None => forall|r: int| y <= r <= front ==> self.row_airless(r, lo, hi),
        }
    }

    /// Whether `i` is the first device whose footprint holds tile `(x, y)`.
    pub open spec fn is_first_device_at(&self, x: int, y: int, i: int) -> bool {
        &&& 0 <= i < self.devices@.len()
        &&& self.devices@[i].covers(x, y)
        &&& forall|j: int| 0 <= j < i ==> !self.devices@[j].covers(x, y)
    }

    /// Whether `j` is the first device other than `skip` with the id `id`.
    pub open spec fn is_first_other_with_id(&self, skip: int, id: u64, j: int) -> bool {
        &&& 0 <= j < self.devices@.len()
        &&& j != skip
        &&& self.devices@[j].id == id
        &&& forall|k: int| 0 <= k < j && k != skip ==> self.devices@[k].id != id
    }

    /// Whether device `idx` is a dispenser that is switched on and active and
    /// names a tank to draw from.
    pub open spec fn dispensing(&self, idx: int) -> bool {
        &&& 0 <= idx < self.devices@.len()
        &&& self.devices@[idx].online
        &&& self.devices@[idx].data matches DeviceData::Dispenser(d)
        &&& d.active
        &&& d.connected_tank_id.is_some()
    }

    /// Whether `route` is the route of the dispenser `idx`: the tank is the
    /// first device other than the dispenser itself that has the linked id,
    /// and it is in fact a tank; the gas is the dispenser's; the target is
    /// the output tile of the dispenser's footprint. There is no route where
    /// the device is not dispensing, where no other device has the id, or
    /// where the first that has it is no tank.
    pub open spec fn is_route(&self, idx: int, route: Option<DispenserRoute>) -> bool {
        match route {
            Some(r) => {
                &&& self.dispensing(idx)
                &&& self.devices@[idx].data matches DeviceData::Dispenser(d)
                &&& self.is_first_other_with_id(idx, d.connected_tank_id.unwrap(), r.tank as int)
                &&& self.devices@[r.tank as int].data is Tank
                &&& r.gas == d.gas_type
                &&& self.is_output_tile(
                    (
                        self.devices@[idx].x,
                        self.devices@[idx].y,
                        self.devices@[idx].w,
                        self.devices@[idx].h,
                    ),
                    r.target,
                )
            },
            None => {
                self.dispensing(idx) ==> {
                    &&& self.devices@[idx].data matches DeviceData::Dispenser(d)
                    &&& forall|j: int|
                        self.is_first_other_with_id(idx, d.connected_tank_id.unwrap(), j)
                            ==> !(self.devices@[j].data is Tank)
                }
            },
        }
    }

    /// Whether the two grids have one entry for every tile.
    pub fn is_consistent(&self) -> (ok: bool)
        ensures
            ok == self.wf(),
    {
        assert(self.width * self.height <= u64::MAX) by (nonlinear_arith)
            requires
                self.width <= u32::MAX,
                self.height <= u32::MAX,
        ;
        let cells = self.width as u64 * self.height as u64;
        self.tiles.len() as u64 == cells && self.tile_atmos.len() as u64 == cells
    }

    pub fn in_bounds(&self, x: i32, y: i32) -> (inside: bool)
        ensures
            inside == in_grid(self.width as int, self.height as int, x as int, y as int),
    {
        x >= 0 && y >= 0 && (x as u32) < self.width && (y as u32) < self.height
    }

    pub fn tile(&self, x: u32, y: u32) -> (tile: Option<&Tile>)
        requires
            self.wf(),
        ensures
            tile == if in_grid(self.width as int, self.height as int, x as int, y as int) {
                Some(&self.tiles@[y * self.width + x])
            } else {
                None
            },
    {
        if x < self.width && y < self.height {
            assert(self.tiles.len() == self.tiles@.len());
            Some(&self.tiles[tile_index(x, y, self.width, self.height)])
        } else {
            None
        }
    }

    pub fn tile_type(&self, x: u32, y: u32) -> (tile_type: TileType)
        requires
            self.wf(),
        ensures
            tile_type == self.type_at(x as int, y as int),
    {
        match self.tile(x, y) {
            Some(tile) => tile.tile_type,
            None => TileType::Empty,
        }
    }

    pub fn tile_supports_atmos(tile_type: TileType) -> (b: bool)
        ensures
            b == tile_type.supports_atmos(),
    {
        match tile_type {
            TileType::Floor => true,
            TileType::Bed => true,
            TileType::DoorOpen => true,
            TileType::DoorClosed => true,
            _ => false,
        }
    }

    /// The position, in both grids, of a tile that holds an atmosphere cell.
    pub fn atmos_index(&self, x: u32, y: u32) -> (index: Option<usize>)
        requires
            self.wf(),
        ensures
            match index {
                Some(i) => {
                    &&& self.breathable_at(x as int, y as int)
                    &&& i == y * self.width + x
                    &&& i < self.width * self.height
                },
                None => !self.breathable_at(x as int, y as int),
            },
    {
        if !Self::tile_supports_atmos(self.tile_type(x, y)) {
            return None;
        }
        assert(self.tiles.len() == self.tiles@.len());
        Some(tile_index(x, y, self.width, self.height))
    }

    pub fn tile_atmos_cell(&self, x: u32, y: u32) -> (cell: Option<&TileAtmosphere<Q>>)
        requires
            self.wf(),
        ensures
            cell == if self.breathable_at(x as int, y as int) {
                Some(&self.tile_atmos@[y * self.width + x])
            } else {
                None
            },
    {
        match self.atmos_index(x, y) {
            Some(i) => Some(&self.tile_atmos[i]),
            None => None,
        }
    }

    pub fn tile_atmos_cell_mut(&mut self, x: u32, y: u32) -> (cell: Option<&mut TileAtmosphere<Q>>)
        requires
            old(self).wf(),
        ensures
            match cell {
                Some(c) => {
                    &&& old(self).breathable_at(x as int, y as int)
                    &&& *c == old(self).tile_atmos@[y * old(self).width + x]
                    &&& *final(self) == (ShipInterior {
                        tile_atmos: final(self).tile_atmos,
                        ..*old(self)
                    })
                    &&& final(self).tile_atmos@ == old(self).tile_atmos@.update(
                        y * old(self).width + x,
                        *final(c),
                    )
                },
                None => {
                    &&& !old(self).breathable_at(x as int, y as int)
                    &&& *final(self) == *old(self)
                },
            },
    {
        match self.atmos_index(x, y) {
            Some(i) => Some(&mut self.tile_atmos[i]),
            None => None,
        }
    }

    pub fn is_passable(&self, x: i32, y: i32) -> (passable: bool)
        requires
            self.wf(),
        ensures
            passable == self.type_at(x as int, y as int).passable(),
    {
        if !self.in_bounds(x, y) {
            return false;
        }
        Self::tile_is_passable(self.tile_type(x as u32, y as u32))
    }

    pub fn tile_is_passable(tile_type: TileType) -> (b: bool)
        ensures
            b == tile_type.passable(),
    {
        match tile_type {
            TileType::Floor => true,
            TileType::Bed => true,
            TileType::DoorOpen => true,
            _ => false,
        }
    }

    /// Traces the hull outline anew from the tiles.
    pub fn rebuild_hull_shape(&mut self)
        requires
            old(self).wf(),
        ensures
            final(self).hull_current(),
            *final(self) == (ShipInterior { hull_outline: final(self).hull_outline, ..*old(self) }),
    {
        self.hull_outline = hull_outline(&self.tiles, self.width, self.height);
    }

    /// Changes the type of one tile; a tile outside the grid changes nothing.
    ///
    /// A tile that becomes unbreathable loses its gas to vacuum. A tile that
    /// becomes (or stays) breathable is filled with standard air only where
    /// `cell_is_empty` says that it holds no gas; a cell that holds gas is
    /// never overwritten. The hull outline is traced anew.
    pub fn set_tile_type(
        &mut self,
        x: u32,
        y: u32,
        tile_type: TileType,
        seed: &AtmosphereSeed<Q>,
        cell_is_empty: bool,
    )
        requires
            old(self).wf(),
        ensures
            final(self).wf(),
            final(self).width == old(self).width,
            final(self).height == old(self).height,
            final(self).power == old(self).power,
            final(self).devices == old(self).devices,
            !in_grid(old(self).width as int, old(self).height as int, x as int, y as int) ==> {
                &&& final(self).tiles == old(self).tiles
                &&& final(self).tile_atmos == old(self).tile_atmos
                &&& final(self).hull_outline == old(self).hull_outline
            },
            in_grid(old(self).width as int, old(self).height as int, x as int, y as int) ==> {
                let i = y * old(self).width + x;
                &&& final(self).tiles@ == old(self).tiles@.update(i, Tile { tile_type })
                &&& final(self).tile_atmos@ == if !tile_type.supports_atmos() {
                    old(self).tile_atmos@.update(i, seed.vacuum)
                } else if cell_is_empty {
                    old(self).tile_atmos@.update(i, seed.standard_air)
                } else {
                    old(self).tile_atmos@
                }
                &&& final(self).hull_current()
            },
            old(self).airless_hold(seed.vacuum) ==> final(self).airless_hold(seed.vacuum),
            old(self).hull_current() && tile_type.is_hull() == old(self).type_at(
                x as int,
                y as int,
            ).is_hull() ==> final(self).hull_outline@ == old(self).hull_outline@,
    {
        if x < self.width && y < self.height {
            assert(self.tiles.len() == self.tiles@.len());
            let i = tile_index(x, y, self.width, self.height);
            self.tiles[i] = Tile { tile_type };
            proof {
                if tile_type.is_hull() == old(self).type_at(x as int, y as int).is_hull() {
                    lemma_outline_of_same_hull_tiles(
                        old(self).tiles@,
                        self.tiles@,
                        self.width as int,
                        self.height as int,
                    );
                }
            }
            if !Self::tile_supports_atmos(tile_type) {
                self.tile_atmos[i] = seed.vacuum;
            } else if cell_is_empty {
                self.tile_atmos[i] = seed.standard_air;
            }
            self.rebuild_hull_shape();
        }
    }

    /// The first breathable tile of row `row` among the columns from `lo` up
    /// to, not including, `hi`.
    fn scan_row(&self, row: u64, lo: u32, hi: u64) -> (found: Option<u32>)
        requires
            self.wf(),
            hi <= lo + u32::MAX,
        ensures
            match found {
                Some(tx) => self.first_breathable_in_row(row as int, lo as int, hi as int, tx as int),
                None => self.row_airless(row as int, lo as int, hi as int),
            },
    {
        if row >= self.height as u64 {
            return None;
        }
        let end: u64 = if hi < self.width as u64 {
            hi
        } else {
            self.width as u64
        };
        let mut tx: u32 = lo;
        while (tx as u64) < end
            invariant
                self.wf(),
                lo <= tx,
                end <= self.width,
                end <= hi,
                end == hi || end == self.width,
                row < self.height,
                forall|t: int| lo <= t < tx ==> !self.breathable_at(t, row as int),
            decreases end - tx,
        {
            if Self::tile_supports_atmos(self.tile_type(tx, row as u32)) {
                return Some(tx);
            }
            tx += 1;
        }
        None
    }

    /// Where a device on the rectangle `rect` (x, y, width, height) lets gas
    /// out.
    pub fn pick_device_output_tile(&self, rect: (u32, u32, u32, u32)) -> (target: Option<
        (u32, u32),
    >)
        requires
            self.wf(),
        ensures
            self.is_output_tile(rect, target),
    {
        let (x, y, w, h) = rect;
        let hi: u64 = x as u64 + w as u64;
        let front: u64 = y as u64 + h as u64;
        match self.scan_row(front, x, hi) {
            Some(tx) => {
                return Some((tx, front as u32));
            },
            None => {},
        }
        let mut ty: u32 = y;
        while (ty as u64) < front && ty < self.height
            invariant
                self.wf(),
                rect == (x, y, w, h),
                y <= ty <= front,
                hi == x + w,
                front == y + h,
                self.row_airless(front as int, x as int, hi as int),
                forall|r: int| y <= r < ty ==> self.row_airless(r, x as int, hi as int),
            decreases self.height - ty,
        {
            match self.scan_row(ty as u64, x, hi) {
                Some(tx) => {
                    return Some((tx, ty));
                },
                None => {},
            }
            ty += 1;
        }
        assert forall|r: int| y <= r <= front implies self.row_airless(r, x as int, hi as int) by {
            if r >= ty && r < front {
                assert(r >= self.height);
                assert forall|t: int| x <= t < hi implies !self.breathable_at(t, r) by {}
            }
        }
        None
    }

    /// The first device whose footprint holds tile `(x, y)`.
    pub fn device_at(&self, x: u32, y: u32) -> (found: Option<usize>)
        ensures
            match found {
                Some(i) => self.is_first_device_at(x as int, y as int, i as int),
                None => forall|j: int|
                    0 <= j < self.devices@.len() ==> !(#[trigger] self.devices@[j]).covers(
                        x as int,
                        y as int,
                    ),
            },
    {
        let n = self.devices.len();
        let mut i: usize = 0;
        while i < n
            invariant
                i <= n,
                n == self.devices@.len(),
                forall|j: int|
                    0 <= j < i ==> !(#[trigger] self.devices@[j]).covers(x as int, y as int),
            decreases n - i,
        {
            if device_contains(&self.devices[i], x, y) {
                return Some(i);
            }
            i += 1;
        }
        None
    }

    /// The first device other than `skip` that has the id `id`.
    fn find_other_with_id(&self, skip: usize, id: u64) -> (found: Option<usize>)
        ensures
            match found {
                Some(j) => self.is_first_other_with_id(skip as int, id, j as int),
                None => forall|j: int| !self.is_first_other_with_id(skip as int, id, j),
            },
    {
        let n = self.devices.len();
        let mut j: usize = 0;
        while j < n
            invariant
                j <= n,
                n == self.devices@.len(),
                forall|k: int| 0 <= k < j && k != skip ==> (#[trigger] self.devices@[k]).id != id,
            decreases n - j,
        {
            if j != skip && self.devices[j].id == id {
                return Some(j);
            }
            j += 1;
        }
        None
    }

    /// Where the dispenser at position `idx` takes its gas from and where it
    /// lets it out, looked up afresh among the devices as they stand.
    pub fn dispenser_route(&self, idx: usize) -> (route: Option<DispenserRoute>)
        requires
            self.wf(),
        ensures
            self.is_route(idx as int, route),
    {
        if idx >= self.devices.len() {
            return None;
        }
        let device = &self.devices[idx];
        if !device.online {
            return None;
        }
        match &device.data {
            DeviceData::Dispenser(data) => {
                if !data.active {
                    return None;
                }
                match data.connected_tank_id {
                    None => None,
                    Some(tank_id) => {
                        match self.find_other_with_id(idx, tank_id) {
                            None => None,
                            Some(j) => {
                                assert forall|k: int|
                                    self.is_first_other_with_id(
                                        idx as int,
                                        tank_id,
                                        k,
                                    ) implies k == j by {
                                    if k < j {
                                        assert(self.devices@[k].id != tank_id);
                                    } else if j < k {
                                        assert(self.devices@[j as int].id != tank_id);
                                    }
                                }
                                match &self.devices[j].data {
                                    DeviceData::Tank(_) => {
                                        let target = self.pick_device_output_tile(
                                            (device.x, device.y, device.w, device.h),
                                        );
                                        Some(DispenserRoute { tank: j, gas: data.gas_type, target })
                                    },
                                    _ => None,
                                }
                            },
                        }
                    },
                }
            },
            _ => None,
        }
    }
}

} // verus!
