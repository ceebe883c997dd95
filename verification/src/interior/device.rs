use vstd::prelude::*;
use crate::interior::gas::GasType;

verus! {

/// The kinds of device a ship can carry.
#[derive(Clone, Copy, Debug, PartialEq, Eq, Structural)]
pub enum DeviceType {
    Tank,
    ReactorUranium,
    Dispenser,
    NavStation,
    Transponder,
    ShipComputer,
    BedDevice,
    Toilet,
    FoodGenerator,
    RCSThruster,
    Light,
    DoorDevice,
    PowerLine,
    GasLine,
}

impl DeviceType {
    /// The name of the variant, as spelled in snapshots.
    pub open spec fn name(self) -> Seq<char> {
        match self {
            DeviceType::Tank => "Tank"@,
            DeviceType::ReactorUranium => "ReactorUranium"@,
            DeviceType::Dispenser => "Dispenser"@,
            DeviceType::NavStation => "NavStation"@,
            DeviceType::Transponder => "Transponder"@,
            DeviceType::ShipComputer => "ShipComputer"@,
            DeviceType::BedDevice => "BedDevice"@,
            DeviceType::Toilet => "Toilet"@,
            DeviceType::FoodGenerator => "FoodGenerator"@,
            DeviceType::RCSThruster => "RCSThruster"@,
            DeviceType::Light => "Light"@,
            DeviceType::DoorDevice => "DoorDevice"@,
            DeviceType::PowerLine => "PowerLine"@,
            DeviceType::GasLine => "GasLine"@,
        }
    }

    pub fn as_str(&self) -> (s: &'static str)
        ensures
            s@ == self.name(),
    {
        match self {
            DeviceType::Tank => "Tank",
            DeviceType::ReactorUranium => "ReactorUranium",
            DeviceType::Dispenser => "Dispenser",
            DeviceType::NavStation => "NavStation",
            DeviceType::Transponder => "Transponder",
            DeviceType::ShipComputer => "ShipComputer",
            DeviceType::BedDevice => "BedDevice",
            DeviceType::Toilet => "Toilet",
            DeviceType::FoodGenerator => "FoodGenerator",
            DeviceType::RCSThruster => "RCSThruster",
            DeviceType::Light => "Light",
            DeviceType::DoorDevice => "DoorDevice",
            DeviceType::PowerLine => "PowerLine",
            DeviceType::GasLine => "GasLine",
        }
    }
}

#[derive(Clone, Copy, Debug)]
pub struct TankData<Q> {
    pub capacity_kg: Q,
    pub o2_kg: Q,
    pub n2_kg: Q,
    pub co2_kg: Q,
    pub xenon_kg: Q,
}

impl<Q: Copy> TankData<Q> {
    /// The mass of a gas in the tank.
    pub open spec fn held(self, gas: GasType) -> Q {
        match gas {
            GasType::O2 => self.o2_kg,
            GasType::N2 => self.n2_kg,
            GasType::CO2 => self.co2_kg,
            GasType::Xenon => self.xenon_kg,
        }
    }

    /// The tank with the mass of a gas replaced.
    pub open spec fn holding(self, gas: GasType, mass: Q) -> Self {
        match gas {
            GasType::O2 => TankData { o2_kg: mass, ..self },
            GasType::N2 => TankData { n2_kg: mass, ..self },
            GasType::CO2 => TankData { co2_kg: mass, ..self },
            GasType::Xenon => TankData { xenon_kg: mass, ..self },
        }
    }

    /// The mass of a gas in the tank.
    pub fn mass_of(&self, gas: GasType) -> (mass: Q)
        ensures
            mass == self.held(gas),
    {
        match gas {
            GasType::O2 => self.o2_kg,
            GasType::N2 => self.n2_kg,
            GasType::CO2 => self.co2_kg,
            GasType::Xenon => self.xenon_kg,
        }
    }

    /// The mass of a gas in the tank, to be changed in place.
    pub fn mass_mut(&mut self, gas: GasType) -> (mass: &mut Q)
        ensures
            *mass == old(self).held(gas),
            *final(self) == old(self).holding(gas, *final(mass)),
    {
        match gas {
            GasType::O2 => &mut self.o2_kg,
            GasType::N2 => &mut self.n2_kg,
            GasType::CO2 => &mut self.co2_kg,
            GasType::Xenon => &mut self.xenon_kg,
        }
    }
}

#[derive(Clone, Copy, Debug)]
pub struct ReactorData<Q> {
    pub fuel_kg: Q,
    pub max_fuel_kg: Q,
    pub fuel_burn_rate_kg_per_s: Q,
    pub power_output_kw: Q,
    pub online: bool,
}

#[derive(Clone, Copy, Debug)]
pub struct DispenserData<Q> {
    pub active: bool,
    pub rate_kg_per_s: Q,
    pub gas_type: GasType,
    /// The tank this dispenser draws from, by device id. The link is looked
    /// up among the ship's devices each time it is needed.
    pub connected_tank_id: Option<u64>,
}

#[derive(Clone, Copy, Debug)]
pub struct NavStationData {
    pub online: bool,
}

#[derive(Clone, Debug)]
pub struct TransponderData {
    pub callsign: String,
    pub online: bool,
    pub dm_code: u32,
}

#[derive(Clone, Copy, Debug)]
pub struct ShipComputerData {
    pub online: bool,
}

#[derive(Clone, Copy, Debug)]
pub struct BedDeviceData {}

#[derive(Clone, Copy, Debug)]
pub struct ToiletData {}

#[derive(Clone, Copy, Debug)]
pub struct FoodGeneratorData<Q> {
    pub food_units: Q,
    pub max_food_units: Q,
    pub online: bool,
}

#[derive(Clone, Copy, Debug)]
pub struct RCSThrusterData {
    pub uses_any_gas: bool,
    pub preferred_gas: GasType,
    pub online: bool,
}

#[derive(Clone, Copy, Debug)]
pub struct LightData<Q> {
    pub intensity: Q,
    pub online: bool,
}

#[derive(Clone, Copy, Debug)]
pub struct DoorDeviceData {
    pub open: bool,
}

#[derive(Clone, Copy, Debug)]
pub struct PowerLineData {}

#[derive(Clone, Copy, Debug)]
pub struct GasLineData {}

/// The state that belongs to one kind of device.
#[derive(Clone, Debug)]
pub enum DeviceData<Q> {
    Tank(TankData<Q>),
    Reactor(ReactorData<Q>),
    Dispenser(DispenserData<Q>),
    NavStation(NavStationData),
    Transponder(TransponderData),
    ShipComputer(ShipComputerData),
    BedDevice(BedDeviceData),
    Toilet(ToiletData),
    FoodGenerator(FoodGeneratorData<Q>),
    RCSThruster(RCSThrusterData),
    Light(LightData<Q>),
    DoorDevice(DoorDeviceData),
    PowerLine(PowerLineData),
    GasLine(GasLineData),
}

/// A device installed on a rectangle of tiles.
#[derive(Clone, Debug)]
pub struct Device<Q> {
    pub id: u64,
    pub device_type: DeviceType,
    pub x: u32,
    pub y: u32,
    pub w: u32,
    pub h: u32,
    /// Positive while the device consumes power, negative while it produces.
    pub power_kw: Q,
    pub online: bool,
    pub data: DeviceData<Q>,
}

/// The tiles `(x + i, row)` for `i` below `n`.
pub open spec fn row_tiles(x: u32, row: u32, n: nat) -> Seq<(u32, u32)> {
    Seq::new(n, |i: int| ((x + i) as u32, row))
}

/// The tiles of `m` rows of `n` columns, from `(x, y)`, row by row.
pub open spec fn block_tiles(x: u32, y: u32, n: nat, m: nat) -> Seq<(u32, u32)>
    decreases m,
{
    if m == 0 {
        Seq::empty()
    } else {
        block_tiles(x, y, n, (m - 1) as nat) + row_tiles(x, (y + m - 1) as u32, n)
    }
}

/// How many of the `len` positions from `lo` lie below `limit`.
pub open spec fn clipped(lo: u32, len: u32, limit: u32) -> nat {
    if lo >= limit {
        0
    } else if lo + len <= limit {
        len as nat
    } else {
        (limit - lo) as nat
    }
}

impl<Q> Device<Q> {
    /// Whether the tile `(x, y)` lies in the device's footprint.
    pub open spec fn covers(&self, x: int, y: int) -> bool {
        self.x <= x < self.x + self.w && self.y <= y < self.y + self.h
    }

    /// Whether tile `(x, y)` is outside the device's footprint and shares a
    /// side with a tile inside it.
    pub open spec fn beside(&self, x: int, y: int) -> bool {
        &&& !self.covers(x, y)
        &&& self.covers(x - 1, y) || self.covers(x + 1, y) || self.covers(x, y - 1)
            || self.covers(x, y + 1)
    }

    /// The tiles of the device's footprint that lie in a grid of the given
    /// size, row by row.
    pub open spec fn tiles_within(&self, width: u32, height: u32) -> Seq<(u32, u32)> {
        block_tiles(
            self.x,
            self.y,
            clipped(self.x, self.w, width),
            clipped(self.y, self.h, height),
        )
    }

    /// The device after the pawn has operated it. A door flips between open
    /// and closed, a light between on and off, a dispenser between active
    /// and idle; a reactor flips between on and off only while `stocked`
    /// (it holds fuel). A light and a reactor carry their switch over to the
    /// device itself. Every other device stays as it is.
    pub open spec fn operated(self, stocked: bool) -> Device<Q> {
        match self.data {
            DeviceData::DoorDevice(d) => Device {
                data: DeviceData::DoorDevice(DoorDeviceData { open: !d.open }),
                ..self
            },
            DeviceData::Light(l) => Device {
                online: !l.online,
                data: DeviceData::Light(LightData { online: !l.online, ..l }),
                ..self
            },
            DeviceData::Reactor(r) => if stocked {
                Device {
                    online: !r.online,
                    data: DeviceData::Reactor(ReactorData { online: !r.online, ..r }),
                    ..self
                }
            } else {
                self
            },
            DeviceData::Dispenser(d) => Device {
                data: DeviceData::Dispenser(DispenserData { active: !d.active, ..d }),
                ..self
            },
            _ => self,
        }
    }

    /// The device after its reactor has burned fuel. A reactor that is
    /// `exhausted` (no fuel is left) is forced off, and the device with it;
    /// only an interaction while it holds fuel again switches it back on. A
    /// reactor with fuel left, and every other device, stays as it is.
    pub open spec fn burned(self, exhausted: bool) -> Device<Q> {
        match self.data {
            DeviceData::Reactor(r) => if exhausted {
                Device {
                    online: false,
                    data: DeviceData::Reactor(ReactorData { online: false, ..r }),
                    ..self
                }
            } else {
                self
            },
            _ => self,
        }
    }
}

/// Whether the tile `(x, y)` lies in the footprint of `device`.
pub fn device_contains<Q>(device: &Device<Q>, x: u32, y: u32) -> (inside: bool)
    ensures
        inside == device.covers(x as int, y as int),
{
    x >= device.x && y >= device.y && (x as u64) < device.x as u64 + device.w as u64 && (y as u64)
        < device.y as u64 + device.h as u64
}

impl<Q: Copy> Device<Q> {
    /// The pawn operates the device.
    pub fn operate(&mut self, stocked: bool)
        ensures
            *final(self) == old(self).operated(stocked),
    {
        match &mut self.data {
            DeviceData::DoorDevice(data) => {
                data.open = !data.open;
            },
            DeviceData::Light(data) => {
                data.online = !data.online;
                self.online = data.online;
            },
            DeviceData::Reactor(data) => {
                if stocked {
                    data.online = !data.online;
                    self.online = data.online;
                }
            },
            DeviceData::Dispenser(data) => {
                data.active = !data.active;
            },
            _ => {},
        }
    }

    /// Settles the device after its reactor has burned fuel: switches
    /// reactor and device off where the fuel is `exhausted`.
    pub fn after_burn(&mut self, exhausted: bool)
        ensures
            *final(self) == old(self).burned(exhausted),
    {
        match &mut self.data {
            DeviceData::Reactor(data) => {
                if exhausted {
                    data.online = false;
                    self.online = false;
                }
            },
            _ => {},
        }
    }
}

/// How many of the `len` positions from `lo` lie below `limit`.
fn clip(lo: u32, len: u32, limit: u32) -> (n: u32)
    ensures
        n == clipped(lo, len, limit),
        lo + n <= u32::MAX,
{
    if lo >= limit {
        0
    } else if lo as u64 + len as u64 <= limit as u64 {
        len
    } else {
        limit - lo
    }
}

/// The tiles of a device's footprint that lie in a grid of the given size.
pub fn footprint_tiles<Q>(device: &Device<Q>, width: u32, height: u32) -> (tiles: Vec<(u32, u32)>)
    ensures
        tiles@ == device.tiles_within(width, height),
{
    let columns = clip(device.x, device.w, width);
    let rows = clip(device.y, device.h, height);
    let mut tiles: Vec<(u32, u32)> = Vec::new();
    let mut r: u32 = 0;
    while r < rows
        invariant
            r <= rows,
            device.x + columns <= u32::MAX,
            device.y + rows <= u32::MAX,
            tiles@ == block_tiles(device.x, device.y, columns as nat, r as nat),
        decreases rows - r,
    {
        let ghost before = tiles@;
        let ty = device.y + r;
        let mut c: u32 = 0;
        while c < columns
            invariant
                c <= columns,
                device.x + columns <= u32::MAX,
                tiles@ == before + row_tiles(device.x, ty, c as nat),
            decreases columns - c,
        {
            tiles.push((device.x + c, ty));
            assert(tiles@ =~= before + row_tiles(device.x, ty, (c + 1) as nat));
            c += 1;
        }
        r += 1;
    }
    tiles
}

} // verus!
