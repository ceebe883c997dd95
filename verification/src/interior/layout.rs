//! The sample ship: a walled room of twelve by eight tiles with a door in
//! the bottom wall, a bed, and one device of most kinds.

use vstd::prelude::*;
use vstd::string::*;
use crate::interior::device::{
    BedDeviceData, Device, DeviceData, DeviceType, DispenserData, DoorDeviceData,
    FoodGeneratorData, LightData, NavStationData, ReactorData, ShipComputerData, TankData,
    TransponderData,
};
use crate::interior::gas::{GasType, PowerState, TileAtmosphere};
use crate::interior::hull::hull_outline;
use crate::interior::ship::{AtmosphereSeed, ShipInterior};
use crate::interior::tile::{Tile, TileType};

verus! {

pub const TEST_SHIP_WIDTH: u32 = 12;

pub const TEST_SHIP_HEIGHT: u32 = 8;

/// The quantities that the sample ship is furnished with.
#[derive(Clone, Copy, Debug)]
pub struct TestShipQuantities<Q> {
    pub air: AtmosphereSeed<Q>,
    /// The power account before the first step.
    pub power: PowerState<Q>,
    /// The draw of a device that takes no power.
    pub no_power_kw: Q,
    pub reactor_fuel_kg: Q,
    pub reactor_burn_rate_kg_per_s: Q,
    pub reactor_output_kw: Q,
    pub tank: TankData<Q>,
    pub dispenser_power_kw: Q,
    pub dispenser_rate_kg_per_s: Q,
    pub light_power_kw: Q,
    pub light_intensity: Q,
    pub transponder_power_kw: Q,
    pub nav_power_kw: Q,
    pub ship_computer_power_kw: Q,
    pub food_power_kw: Q,
    pub food_units: Q,
}

/// The type of tile `(x, y)` of the sample ship.
pub open spec fn test_tile(x: int, y: int) -> TileType {
    if x == 6 && y == 7 {
        TileType::DoorOpen
    } else if x == 0 || x == 11 || y == 0 || y == 7 {
        TileType::Wall
    } else if y == 2 && (x == 2 || x == 3) {
        TileType::Bed
    } else {
        TileType::Floor
    }
}

/// Where a device stands and how it is switched, apart from its own data.
pub open spec fn placed<Q>(
    device: Device<Q>,
    id: u64,
    device_type: DeviceType,
    rect: (u32, u32, u32, u32),
    power_kw: Q,
) -> bool {
    &&& device.id == id
    &&& device.device_type == device_type
    &&& (device.x, device.y, device.w, device.h) == rect
    &&& device.power_kw == power_kw
    &&& device.online
}

/// Whether `devices` are the ten devices of the sample ship, furnished with
/// the quantities `q`, the dispenser set to `gas`.
pub open spec fn test_devices<Q>(
    devices: Seq<Device<Q>>,
    q: TestShipQuantities<Q>,
    gas: GasType,
) -> bool {
    &&& devices.len() == 10
    &&& placed(devices[0], 1, DeviceType::ReactorUranium, (5, 2, 3, 3), q.no_power_kw)
    &&& devices[0].data == DeviceData::Reactor(
        ReactorData {
            fuel_kg: q.reactor_fuel_kg,
            max_fuel_kg: q.reactor_fuel_kg,
            fuel_burn_rate_kg_per_s: q.reactor_burn_rate_kg_per_s,
            power_output_kw: q.reactor_output_kw,
            online: true,
        },
    )
    &&& placed(devices[1], 2, DeviceType::Tank, (3, 4, 1, 1), q.no_power_kw)
    &&& devices[1].data == DeviceData::Tank(q.tank)
    &&& placed(devices[2], 3, DeviceType::Dispenser, (4, 4, 1, 1), q.dispenser_power_kw)
    &&& devices[2].data == DeviceData::Dispenser(
        DispenserData {
            active: true,
            rate_kg_per_s: q.dispenser_rate_kg_per_s,
            gas_type: gas,
            connected_tank_id: Some(2),
        },
    )
    &&& placed(devices[3], 4, DeviceType::Light, (2, 5, 1, 1), q.light_power_kw)
    &&& devices[3].data == DeviceData::Light(
        LightData { intensity: q.light_intensity, online: true },
    )
    &&& placed(devices[4], 5, DeviceType::Transponder, (8, 1, 2, 1), q.transponder_power_kw)
    &&& devices[4].data matches DeviceData::Transponder(t)
    &&& t.callsign@ == "GGW-TEST"@
    &&& t.online
    &&& t.dm_code == 4242
    &&& placed(devices[5], 6, DeviceType::NavStation, (8, 3, 2, 1), q.nav_power_kw)
    &&& devices[5].data == DeviceData::<Q>::NavStation(NavStationData { online: true })
    &&& placed(devices[6], 7, DeviceType::ShipComputer, (8, 5, 2, 1), q.ship_computer_power_kw)
    &&& devices[6].data == DeviceData::<Q>::ShipComputer(ShipComputerData { online: true })
    &&& placed(devices[7], 8, DeviceType::BedDevice, (2, 2, 2, 1), q.no_power_kw)
    &&& devices[7].data == DeviceData::<Q>::BedDevice(BedDeviceData {  })
    &&& placed(devices[8], 9, DeviceType::DoorDevice, (6, 7, 1, 1), q.no_power_kw)
    &&& devices[8].data == DeviceData::<Q>::DoorDevice(DoorDeviceData { open: true })
    &&& placed(devices[9], 10, DeviceType::FoodGenerator, (4, 2, 1, 1), q.food_power_kw)
    &&& devices[9].data == DeviceData::FoodGenerator(
        FoodGeneratorData { food_units: q.food_units, max_food_units: q.food_units, online: true },
    )
}

/// Whether `ship` is the sample ship furnished with `q`: its tiles, the air
/// in every breathable tile and vacuum in the others, its devices, and the
/// hull outline traced from the tiles.
pub open spec fn is_test_ship<Q: Copy>(
    ship: ShipInterior<Q>,
    q: TestShipQuantities<Q>,
    gas: GasType,
) -> bool {
    &&& ship.wf()
    &&& ship.hull_current()
    &&& ship.width == TEST_SHIP_WIDTH
    &&& ship.height == TEST_SHIP_HEIGHT
    &&& forall|x: int, y: int|
        0 <= x < 12 && 0 <= y < 8 ==> (#[trigger] ship.tiles@[y * 12 + x]).tile_type == test_tile(
            x,
            y,
        )
    &&& forall|x: int, y: int|
        0 <= x < 12 && 0 <= y < 8 ==> #[trigger] ship.tile_atmos@[y * 12 + x] == if test_tile(
            x,
            y,
        ).supports_atmos() {
            q.air.standard_air
        } else {
            q.air.vacuum
        }
    &&& ship.power == q.power
    &&& test_devices(ship.devices@, q, gas)
}

fn test_tile_at(x: u32, y: u32) -> (tile_type: TileType)
    ensures
        tile_type == test_tile(x as int, y as int),
{
    if x == TEST_SHIP_WIDTH / 2 && y == TEST_SHIP_HEIGHT - 1 {
        TileType::DoorOpen
    } else if x == 0 || x == TEST_SHIP_WIDTH - 1 || y == 0 || y == TEST_SHIP_HEIGHT - 1 {
        TileType::Wall
    } else if y == 2 && (x == 2 || x == 3) {
        TileType::Bed
    } else {
        TileType::Floor
    }
}

fn install<Q: Copy>(
    devices: &mut Vec<Device<Q>>,
    device_type: DeviceType,
    rect: (u32, u32, u32, u32),
    power_kw: Q,
    data: DeviceData<Q>,
)
    requires
        old(devices)@.len() < 10,
    ensures
        final(devices)@.len() == old(devices)@.len() + 1,
        forall|i: int| 0 <= i < old(devices)@.len() ==> final(devices)@[i] == old(devices)@[i],
        placed(
            final(devices)@.last(),
            (old(devices)@.len() + 1) as u64,
            device_type,
            rect,
            power_kw,
        ),
        final(devices)@.last().data == data,
{
    let id = devices.len() as u64 + 1;
    devices.push(
        Device {
            id,
            device_type,
            x: rect.0,
            y: rect.1,
            w: rect.2,
            h: rect.3,
            power_kw,
            online: true,
            data,
        },
    );
}

impl<Q: Copy> ShipInterior<Q> {
    /// Builds the sample ship.
    pub fn new_test_layout(q: &TestShipQuantities<Q>, dispenser_gas: GasType) -> (ship: Self)
        ensures
            is_test_ship(ship, *q, dispenser_gas),
    {
        let width = TEST_SHIP_WIDTH;
        let height = TEST_SHIP_HEIGHT;
        let mut tiles: Vec<Tile> = Vec::new();
        let mut tile_atmos: Vec<TileAtmosphere<Q>> = Vec::new();
        let mut y: u32 = 0;
        while y < height
            invariant
                y <= height,
                width == 12,
                height == 8,
                tiles@.len() == y * 12,
                tile_atmos@.len() == y * 12,
                forall|i: int, j: int|
                    0 <= i < 12 && 0 <= j < y ==> (#[trigger] tiles@[j * 12 + i]).tile_type
                        == test_tile(i, j),
                forall|i: int, j: int|
                    0 <= i < 12 && 0 <= j < y ==> #[trigger] tile_atmos@[j * 12 + i]
                        == if test_tile(i, j).supports_atmos() {
                        q.air.standard_air
                    } else {
                        q.air.vacuum
                    },
            decreases height - y,
        {
            let mut x: u32 = 0;
            while x < width
                invariant
                    x <= width,
                    y < height,
                    width == 12,
                    height == 8,
                    tiles@.len() == y * 12 + x,
                    tile_atmos@.len() == y * 12 + x,
                    forall|i: int, j: int|
                        0 <= i < 12 && 0 <= j < 8 && j * 12 + i < y * 12 + x ==> (
                        #[trigger] tiles@[j * 12 + i]).tile_type == test_tile(i, j),
                    forall|i: int, j: int|
                        0 <= i < 12 && 0 <= j < 8 && j * 12 + i < y * 12 + x
                            ==> #[trigger] tile_atmos@[j * 12 + i] == if test_tile(
                            i,
                            j,
                        ).supports_atmos() {
                            q.air.standard_air
                        } else {
                            q.air.vacuum
                        },
                decreases width - x,
            {
                let tile_type = test_tile_at(x, y);
                tiles.push(Tile::new(tile_type));
                if Self::tile_supports_atmos(tile_type) {
                    tile_atmos.push(q.air.standard_air);
                } else {
                    tile_atmos.push(q.air.vacuum);
                }
                x += 1;
            }
            y += 1;
        }

        let mut devices: Vec<Device<Q>> = Vec::new();
        install(
            &mut devices,
            DeviceType::ReactorUranium,
            (5, 2, 3, 3),
            q.no_power_kw,
            DeviceData::Reactor(
                ReactorData {
                    fuel_kg: q.reactor_fuel_kg,
                    max_fuel_kg: q.reactor_fuel_kg,
                    fuel_burn_rate_kg_per_s: q.reactor_burn_rate_kg_per_s,
                    power_output_kw: q.reactor_output_kw,
                    online: true,
                },
            ),
        );
        install(&mut devices, DeviceType::Tank, (3, 4, 1, 1), q.no_power_kw, DeviceData::Tank(q.tank));
        let tank_id = devices[1].id;
        install(
            &mut devices,
            DeviceType::Dispenser,
            (4, 4, 1, 1),
            q.dispenser_power_kw,
            DeviceData::Dispenser(
                DispenserData {
                    active: true,
                    rate_kg_per_s: q.dispenser_rate_kg_per_s,
                    gas_type: dispenser_gas,
                    connected_tank_id: Some(tank_id),
                },
            ),
        );
        install(
            &mut devices,
            DeviceType::Light,
            (2, 5, 1, 1),
            q.light_power_kw,
            DeviceData::Light(LightData { intensity: q.light_intensity, online: true }),
        );
        install(
            &mut devices,
            DeviceType::Transponder,
            (8, 1, 2, 1),
            q.transponder_power_kw,
            DeviceData::Transponder(
                TransponderData {
                    callsign: String::from_str("GGW-TEST"),
                    online: true,
                    dm_code: 4242,
                },
            ),
        );
        install(
            &mut devices,
            DeviceType::NavStation,
            (8, 3, 2, 1),
            q.nav_power_kw,
            DeviceData::NavStation(NavStationData { online: true }),
        );
        install(
            &mut devices,
            DeviceType::ShipComputer,
            (8, 5, 2, 1),
            q.ship_computer_power_kw,
            DeviceData::ShipComputer(ShipComputerData { online: true }),
        );
        install(
            &mut devices,
            DeviceType::BedDevice,
            (2, 2, 2, 1),
            q.no_power_kw,
            DeviceData::BedDevice(BedDeviceData {  }),
        );
        install(
            &mut devices,
            DeviceType::DoorDevice,
            (width / 2, height - 1, 1, 1),
            q.no_power_kw,
            DeviceData::DoorDevice(DoorDeviceData { open: true }),
        );
        install(
            &mut devices,
            DeviceType::FoodGenerator,
            (4, 2, 1, 1),
            q.food_power_kw,
            DeviceData::FoodGenerator(
                FoodGeneratorData {
                    food_units: q.food_units,
                    max_food_units: q.food_units,
                    online: true,
                },
            ),
        );

        let hull_outline = hull_outline(&tiles, width, height);
        Self { width, height, tiles, tile_atmos, power: q.power, devices, hull_outline }
    }
}

/// On the sample ship every tile that cannot hold gas has the vacuum cell
/// for its atmosphere.
pub proof fn lemma_test_ship_airless<Q: Copy>(
    ship: ShipInterior<Q>,
    q: TestShipQuantities<Q>,
    gas: GasType,
)
    requires
        is_test_ship(ship, q, gas),
    ensures
        ship.airless_hold(q.air.vacuum),
{
    assert forall|i: int|
        0 <= i < ship.tiles@.len() && !(#[trigger] ship.tiles@[i]).tile_type.supports_atmos()
        implies ship.tile_atmos@[i] == q.air.vacuum by {
        let x = i % 12;
        let y = i / 12;
        assert(i == y * 12 + x);
        assert(ship.tiles@[y * 12 + x].tile_type == test_tile(x, y));
        assert(ship.tile_atmos@[y * 12 + x] == if test_tile(x, y).supports_atmos() {
            q.air.standard_air
        } else {
            q.air.vacuum
        });
    }
}

/// On the sample ship the bed device takes up exactly the bed tiles, and
/// these are the two tiles `(2, 2)` and `(3, 2)`.
pub proof fn lemma_test_ship_bed<Q: Copy>(
    ship: ShipInterior<Q>,
    q: TestShipQuantities<Q>,
    gas: GasType,
)
    requires
        is_test_ship(ship, q, gas),
    ensures
        ship.devices@[7].device_type == DeviceType::BedDevice,
        forall|x: int, y: int|
            ship.devices@[7].covers(x, y) <==> #[trigger] ship.type_at(x, y) == TileType::Bed,
        forall|x: int, y: int|
            ship.devices@[7].covers(x, y) <==> y == 2 && (x == 2 || x == 3),
{
    assert forall|x: int, y: int|
        ship.devices@[7].covers(x, y) <==> #[trigger] ship.type_at(x, y) == TileType::Bed by {
        if 0 <= x < 12 && 0 <= y < 8 {
            assert(ship.tiles@[y * 12 + x].tile_type == test_tile(x, y));
        }
    }
}

/// On the sample ship every device can be reached: beside each there is a
/// tile that the pawn can stand on. The tiles in front of the nav station
/// are such tiles.
pub proof fn lemma_test_ship_devices_reachable<Q: Copy>(
    ship: ShipInterior<Q>,
    q: TestShipQuantities<Q>,
    gas: GasType,
    i: int,
)
    requires
        is_test_ship(ship, q, gas),
        0 <= i < 10,
    ensures
        exists|x: int, y: int| #[trigger]
            ship.devices@[i].beside(x, y) && ship.type_at(x, y).passable(),
        ship.devices@[5].device_type == DeviceType::NavStation,
        ship.type_at(8, 4).passable(),
        ship.type_at(9, 4).passable(),
{
    assert(ship.tiles@[4 * 12 + 8int].tile_type == test_tile(8, 4));
    assert(ship.tiles@[4 * 12 + 9int].tile_type == test_tile(9, 4));
    let (x, y): (int, int) = if i == 0 {
        (5, 5)
    } else if i == 1 {
        (3, 5)
    } else if i == 2 {
        (4, 5)
    } else if i == 3 {
        (2, 6)
    } else if i == 4 {
        (8, 2)
    } else if i == 5 {
        (8, 4)
    } else if i == 6 {
        (8, 6)
    } else if i == 7 {
        (2, 3)
    } else if i == 8 {
        (6, 6)
    } else {
        (4, 3)
    };
    assert(ship.tiles@[y * 12 + x].tile_type == test_tile(x, y));
    assert(ship.devices@[i].beside(x, y) && ship.type_at(x, y).passable());
}

} // verus!
