use ggw_world::interior::hull::{
    collect_boundary_edges, hull_outline, is_hull_tile, rectangular_hull,
};
use ggw_world::interior::tile::tile_index;
use ggw_world::interior::{
    device_contains, footprint_tiles, AtmosphereSeed, Device, DeviceData, DeviceType,
    DispenserData, GasType, NavStationData, PowerState, ShipInterior, TankData,
    TestShipQuantities, Tile, TileAtmosphere, TileType,
};

fn air() -> AtmosphereSeed<f32> {
    AtmosphereSeed {
        vacuum: TileAtmosphere::new(0.0, 0.0, 0.0, 20.0),
        standard_air: TileAtmosphere::new(0.5585, 1.8393, 0.0015, 20.0),
    }
}

fn sample_quantities() -> TestShipQuantities<f32> {
    TestShipQuantities {
        air: air(),
        power: PowerState { net_kw: 0.0, total_production_kw: 0.0, total_consumption_kw: 0.0 },
        no_power_kw: 0.0,
        reactor_fuel_kg: 100.0,
        reactor_burn_rate_kg_per_s: 0.0005,
        reactor_output_kw: 500.0,
        tank: TankData { capacity_kg: 200.0, o2_kg: 80.0, n2_kg: 100.0, co2_kg: 5.0, xenon_kg: 10.0 },
        dispenser_power_kw: 0.25,
        dispenser_rate_kg_per_s: 0.02,
        light_power_kw: 0.1,
        light_intensity: 1.0,
        transponder_power_kw: 5.0,
        nav_power_kw: 1.5,
        ship_computer_power_kw: 2.5,
        food_power_kw: 3.0,
        food_units: 5.0,
    }
}

fn sample_ship() -> ShipInterior<f32> {
    ShipInterior::new_test_layout(&sample_quantities(), GasType::O2)
}

/// A ship drawn row by row: `#` wall, `.` floor, `b` bed, `D` closed door,
/// `o` open door, anything else empty.
fn ship_from(rows: &[&str]) -> ShipInterior<f32> {
    let height = rows.len() as u32;
    let width = rows.first().map(|row| row.len()).unwrap_or(0) as u32;
    let mut tiles = Vec::new();
    let mut tile_atmos = Vec::new();
    for row in rows {
        for c in row.chars() {
            let tile_type = match c {
                '#' => TileType::Wall,
                '.' => TileType::Floor,
                'b' => TileType::Bed,
                'D' => TileType::DoorClosed,
                'o' => TileType::DoorOpen,
                _ => TileType::Empty,
            };
            tiles.push(Tile::new(tile_type));
            tile_atmos.push(match tile_type {
                TileType::Wall | TileType::Empty => air().vacuum,
                _ => air().standard_air,
            });
        }
    }
    let mut ship = ShipInterior {
        width,
        height,
        tiles,
        tile_atmos,
        power: PowerState { net_kw: 0.0, total_production_kw: 0.0, total_consumption_kw: 0.0 },
        devices: Vec::new(),
        hull_outline: Vec::new(),
    };
    assert!(ship.is_consistent());
    ship.rebuild_hull_shape();
    ship
}

fn device(id: u64, rect: (u32, u32, u32, u32), data: DeviceData<f32>) -> Device<f32> {
    Device {
        id,
        device_type: DeviceType::PowerLine,
        x: rect.0,
        y: rect.1,
        w: rect.2,
        h: rect.3,
        power_kw: 0.0,
        online: true,
        data,
    }
}

fn dispenser(id: u64, rect: (u32, u32, u32, u32), tank: Option<u64>) -> Device<f32> {
    device(
        id,
        rect,
        DeviceData::Dispenser(DispenserData {
            active: true,
            rate_kg_per_s: 0.02,
            gas_type: GasType::N2,
            connected_tank_id: tank,
        }),
    )
}

fn tank(id: u64, rect: (u32, u32, u32, u32)) -> Device<f32> {
    device(
        id,
        rect,
        DeviceData::Tank(TankData {
            capacity_kg: 10.0,
            o2_kg: 1.0,
            n2_kg: 1.0,
            co2_kg: 1.0,
            xenon_kg: 1.0,
        }),
    )
}

#[test]
fn sample_ship_tiles() {
    let ship = sample_ship();
    assert_eq!((ship.width, ship.height), (12, 8));
    assert!(ship.is_consistent());
    for y in 0..8u32 {
        for x in 0..12u32 {
            let expected = if (x, y) == (6, 7) {
                TileType::DoorOpen
            } else if x == 0 || x == 11 || y == 0 || y == 7 {
                TileType::Wall
            } else if y == 2 && (x == 2 || x == 3) {
                TileType::Bed
            } else {
                TileType::Floor
            };
            assert_eq!(ship.tile_type(x, y), expected, "tile ({}, {})", x, y);
            assert_eq!(ship.tile(x, y).map(|t| t.tile_type), Some(expected));
        }
    }
}

#[test]
fn sample_ship_air_fills_breathable_tiles_only() {
    let ship = sample_ship();
    for y in 0..8u32 {
        for x in 0..12u32 {
            let cell = ship.tile_atmos[(y * 12 + x) as usize];
            if ShipInterior::<f32>::tile_supports_atmos(ship.tile_type(x, y)) {
                assert_eq!((cell.o2_kg, cell.n2_kg, cell.co2_kg), (0.5585, 1.8393, 0.0015));
            } else {
                assert_eq!((cell.o2_kg, cell.n2_kg, cell.co2_kg), (0.0, 0.0, 0.0));
            }
            assert_eq!(cell.temp_c, 20.0);
        }
    }
}

#[test]
fn sample_ship_devices() {
    let ship = sample_ship();
    let placed: Vec<(u64, DeviceType, (u32, u32, u32, u32), f32)> = ship
        .devices
        .iter()
        .map(|d| (d.id, d.device_type, (d.x, d.y, d.w, d.h), d.power_kw))
        .collect();
    assert_eq!(
        placed,
        vec![
            (1, DeviceType::ReactorUranium, (5, 2, 3, 3), 0.0),
            (2, DeviceType::Tank, (3, 4, 1, 1), 0.0),
            (3, DeviceType::Dispenser, (4, 4, 1, 1), 0.25),
            (4, DeviceType::Light, (2, 5, 1, 1), 0.1),
            (5, DeviceType::Transponder, (8, 1, 2, 1), 5.0),
            (6, DeviceType::NavStation, (8, 3, 2, 1), 1.5),
            (7, DeviceType::ShipComputer, (8, 5, 2, 1), 2.5),
            (8, DeviceType::BedDevice, (2, 2, 2, 1), 0.0),
            (9, DeviceType::DoorDevice, (6, 7, 1, 1), 0.0),
            (10, DeviceType::FoodGenerator, (4, 2, 1, 1), 3.0),
        ]
    );
    assert!(ship.devices.iter().all(|d| d.online));
    match &ship.devices[0].data {
        DeviceData::Reactor(r) => {
            assert_eq!((r.fuel_kg, r.max_fuel_kg), (100.0, 100.0));
            assert_eq!((r.fuel_burn_rate_kg_per_s, r.power_output_kw), (0.0005, 500.0));
            assert!(r.online);
        }
        other => panic!("not a reactor: {:?}", other),
    }
    match &ship.devices[2].data {
        DeviceData::Dispenser(d) => {
            assert!(d.active);
            assert_eq!(d.rate_kg_per_s, 0.02);
            assert_eq!(d.gas_type, GasType::O2);
            assert_eq!(d.connected_tank_id, Some(2));
        }
        other => panic!("not a dispenser: {:?}", other),
    }
    match &ship.devices[4].data {
        DeviceData::Transponder(t) => {
            assert_eq!(t.callsign, "GGW-TEST");
            assert!(t.online);
            assert_eq!(t.dm_code, 4242);
        }
        other => panic!("not a transponder: {:?}", other),
    }
    match &ship.devices[9].data {
        DeviceData::FoodGenerator(f) => {
            assert_eq!((f.food_units, f.max_food_units), (5.0, 5.0));
            assert!(f.online);
        }
        other => panic!("not a food generator: {:?}", other),
    }
}

#[test]
fn sample_ship_dispenser_gas_is_as_asked() {
    let ship = ShipInterior::new_test_layout(&sample_quantities(), GasType::Xenon);
    match &ship.devices[2].data {
        DeviceData::Dispenser(d) => assert_eq!(d.gas_type, GasType::Xenon),
        other => panic!("not a dispenser: {:?}", other),
    }
}

#[test]
fn every_sample_device_has_a_passable_tile_beside_it() {
    let ship = sample_ship();
    for d in &ship.devices {
        let mut reachable = false;
        for y in 0..8i32 {
            for x in 0..12i32 {
                let inside = |x: i32, y: i32| {
                    x >= 0 && y >= 0 && device_contains(d, x as u32, y as u32)
                };
                let beside = !inside(x, y)
                    && (inside(x - 1, y) || inside(x + 1, y) || inside(x, y - 1) || inside(x, y + 1));
                if beside && ship.is_passable(x, y) {
                    reachable = true;
                }
            }
        }
        assert!(reachable, "device {} cannot be reached", d.id);
    }
}

#[test]
fn in_bounds_and_passable() {
    let ship = sample_ship();
    assert!(ship.in_bounds(0, 0));
    assert!(ship.in_bounds(11, 7));
    assert!(!ship.in_bounds(12, 0));
    assert!(!ship.in_bounds(0, 8));
    assert!(!ship.in_bounds(-1, 0));
    assert!(!ship.in_bounds(0, -1));
    assert!(!ship.in_bounds(i32::MIN, i32::MAX));
    assert!(ship.is_passable(1, 1));
    assert!(ship.is_passable(2, 2));
    assert!(ship.is_passable(6, 7));
    assert!(!ship.is_passable(0, 0));
    assert!(!ship.is_passable(-1, 3));
    assert!(!ship.is_passable(12, 3));
    let closed = ship_from(&["#D#"]);
    assert!(!closed.is_passable(1, 0));
}

#[test]
fn tiles_outside_the_grid_are_empty() {
    let ship = sample_ship();
    assert_eq!(ship.tile_type(12, 0), TileType::Empty);
    assert_eq!(ship.tile_type(0, 8), TileType::Empty);
    assert_eq!(ship.tile_type(u32::MAX, u32::MAX), TileType::Empty);
    assert!(ship.tile(12, 7).is_none());
    assert!(ship.tile_atmos_cell(12, 7).is_none());
    assert_eq!(ship.atmos_index(12, 7), None);
}

#[test]
fn atmosphere_cells_are_found_by_position() {
    let mut ship = sample_ship();
    assert_eq!(ship.atmos_index(1, 1), Some(13));
    assert_eq!(ship.atmos_index(6, 7), Some(90));
    assert_eq!(ship.atmos_index(0, 0), None);
    ship.tile_atmos[13].co2_kg = 7.0;
    assert_eq!(ship.tile_atmos_cell(1, 1).map(|c| c.co2_kg), Some(7.0));
    if let Some(cell) = ship.tile_atmos_cell_mut(2, 1) {
        cell.o2_kg = 9.0;
    }
    assert_eq!(ship.tile_atmos[14].o2_kg, 9.0);
    assert!(ship.tile_atmos_cell_mut(0, 3).is_none());
}

#[test]
fn inconsistent_grids_are_recognised() {
    let mut ship = sample_ship();
    assert!(ship.is_consistent());
    ship.tile_atmos.pop();
    assert!(!ship.is_consistent());
    let mut ship = sample_ship();
    ship.width = 13;
    assert!(!ship.is_consistent());
}

#[test]
fn set_tile_type_discards_air_of_unbreathable_tile() {
    let mut ship = sample_ship();
    ship.set_tile_type(3, 3, TileType::Wall, &air(), false);
    assert_eq!(ship.tile_type(3, 3), TileType::Wall);
    let cell = ship.tile_atmos[3 * 12 + 3];
    assert_eq!((cell.o2_kg, cell.n2_kg, cell.co2_kg, cell.temp_c), (0.0, 0.0, 0.0, 20.0));
    assert!(ship.tile_atmos_cell(3, 3).is_none());
    // its neighbours keep theirs
    assert_eq!(ship.tile_atmos[3 * 12 + 4].o2_kg, 0.5585);
}

#[test]
fn set_tile_type_seeds_air_only_in_an_empty_cell() {
    let mut ship = sample_ship();
    // a wall becomes floor: its cell holds nothing, so it is filled
    ship.set_tile_type(0, 3, TileType::Floor, &air(), true);
    assert_eq!(ship.tile_type(0, 3), TileType::Floor);
    assert_eq!(ship.tile_atmos[3 * 12].n2_kg, 1.8393);
    // a populated cell is never overwritten
    ship.tile_atmos[3 * 12 + 5].o2_kg = 0.125;
    ship.set_tile_type(5, 3, TileType::Bed, &air(), false);
    assert_eq!(ship.tile_type(5, 3), TileType::Bed);
    assert_eq!(ship.tile_atmos[3 * 12 + 5].o2_kg, 0.125);
    // a door that closes keeps its air
    ship.tile_atmos[7 * 12 + 6].co2_kg = 0.5;
    ship.set_tile_type(6, 7, TileType::DoorClosed, &air(), false);
    assert_eq!(ship.tile_atmos[7 * 12 + 6].co2_kg, 0.5);
}

#[test]
fn set_tile_type_outside_the_grid_changes_nothing() {
    let mut ship = sample_ship();
    let before = format!("{:?}", ship);
    ship.set_tile_type(12, 0, TileType::Floor, &air(), true);
    ship.set_tile_type(0, 8, TileType::Wall, &air(), true);
    ship.set_tile_type(u32::MAX, u32::MAX, TileType::Wall, &air(), false);
    assert_eq!(format!("{:?}", ship), before);
}

#[test]
fn set_tile_type_retraces_the_hull() {
    let mut ship = ship_from(&["...", "...", "..."]);
    assert_eq!(ship.hull_outline, vec![(0, 0), (3, 0), (3, 3), (0, 3)]);
    ship.set_tile_type(1, 1, TileType::Wall, &air(), false);
    assert_eq!(ship.hull_outline, vec![(1, 1), (2, 1), (2, 2), (1, 2)]);
    ship.set_tile_type(1, 1, TileType::Floor, &air(), true);
    assert_eq!(ship.hull_outline, vec![(0, 0), (3, 0), (3, 3), (0, 3)]);
}

#[test]
fn sample_ship_hull_runs_round_the_outer_wall() {
    let ship = sample_ship();
    let mut expected = Vec::new();
    for x in 0..12 {
        expected.push((x, 0));
    }
    for y in 0..8 {
        expected.push((12, y));
    }
    for x in (1..=12).rev() {
        expected.push((x, 8));
    }
    for y in (1..=8).rev() {
        expected.push((0, y));
    }
    assert_eq!(expected.len(), 40);
    assert_eq!(ship.hull_outline, expected);
}

#[test]
fn hull_of_a_single_wall_tile() {
    let tiles = vec![Tile::new(TileType::Wall)];
    assert_eq!(hull_outline(&tiles, 1, 1), vec![(0, 0), (1, 0), (1, 1), (0, 1)]);
}

#[test]
fn hull_without_hull_tiles_is_the_rectangle() {
    let tiles = vec![Tile::new(TileType::Floor); 6];
    assert_eq!(hull_outline(&tiles, 3, 2), vec![(0, 0), (3, 0), (3, 2), (0, 2)]);
    assert_eq!(hull_outline(&Vec::new(), 0, 0), vec![(0, 0), (0, 0), (0, 0), (0, 0)]);
    assert_eq!(rectangular_hull(5, 7), vec![(0, 0), (5, 0), (5, 7), (0, 7)]);
}

#[test]
fn hull_follows_the_first_loop_only() {
    // two separate wall tiles: the outline is the loop round the first
    let ship = ship_from(&["#.#"]);
    assert_eq!(ship.hull_outline, vec![(0, 0), (1, 0), (1, 1), (0, 1)]);
    // an L of three wall tiles
    let ship = ship_from(&["#.", "##"]);
    assert_eq!(
        ship.hull_outline,
        vec![(0, 0), (1, 0), (1, 1), (2, 1), (2, 2), (1, 2), (0, 2), (0, 1)]
    );
}

#[test]
fn output_tile_is_in_front_of_the_device() {
    let ship = sample_ship();
    assert_eq!(ship.pick_device_output_tile((4, 4, 1, 1)), Some((4, 5)));
    assert_eq!(ship.pick_device_output_tile((5, 2, 3, 3)), Some((5, 5)));
    // the row in front is wall but for the door
    assert_eq!(ship.pick_device_output_tile((5, 6, 3, 1)), Some((6, 7)));
}

#[test]
fn output_tile_falls_back_into_the_footprint() {
    let ship = sample_ship();
    // nothing lies in front of the door
    assert_eq!(ship.pick_device_output_tile((6, 7, 1, 1)), Some((6, 7)));
    // in front is wall; the footprint's first breathable tile is taken, row by row
    assert_eq!(ship.pick_device_output_tile((0, 5, 3, 2)), Some((1, 5)));
    assert_eq!(ship.pick_device_output_tile((10, 5, 2, 2)), Some((10, 5)));
}

#[test]
fn output_tile_may_not_exist() {
    let ship = sample_ship();
    assert_eq!(ship.pick_device_output_tile((0, 0, 1, 1)), None);
    assert_eq!(ship.pick_device_output_tile((0, 7, 6, 1)), None);
    assert_eq!(ship.pick_device_output_tile((3, 3, 0, 0)), None);
    assert_eq!(ship.pick_device_output_tile((20, 20, 2, 2)), None);
    assert_eq!(ship.pick_device_output_tile((u32::MAX, u32::MAX, u32::MAX, u32::MAX)), None);
}

#[test]
fn output_tile_of_an_empty_rectangle_is_the_tile_itself_or_none() {
    let ship = sample_ship();
    // no columns: nothing to choose from
    assert_eq!(ship.pick_device_output_tile((3, 3, 0, 1)), None);
    // no rows: the front row is the rectangle's own row
    assert_eq!(ship.pick_device_output_tile((3, 3, 2, 0)), Some((3, 3)));
}

#[test]
fn footprints() {
    let d = tank(1, (2, 3, 2, 2));
    assert!(device_contains(&d, 2, 3));
    assert!(device_contains(&d, 3, 4));
    assert!(!device_contains(&d, 4, 3));
    assert!(!device_contains(&d, 2, 5));
    assert!(!device_contains(&d, 1, 3));
    assert!(!device_contains(&d, 2, 2));
    assert_eq!(footprint_tiles(&d, 12, 8), vec![(2, 3), (3, 3), (2, 4), (3, 4)]);
    // a footprint is cut at the edge of the grid
    assert_eq!(footprint_tiles(&d, 3, 4), vec![(2, 3)]);
    assert_eq!(footprint_tiles(&d, 2, 8), Vec::<(u32, u32)>::new());
    let far = tank(2, (u32::MAX, 0, 5, 1));
    assert!(device_contains(&far, u32::MAX, 0));
    assert!(!device_contains(&far, 3, 0));
    assert_eq!(footprint_tiles(&far, u32::MAX, 1), Vec::<(u32, u32)>::new());
}

#[test]
fn device_at_finds_the_first_device_on_a_tile() {
    let mut ship = sample_ship();
    assert_eq!(ship.device_at(5, 2), Some(0));
    assert_eq!(ship.device_at(7, 4), Some(0));
    assert_eq!(ship.device_at(3, 2), Some(7));
    assert_eq!(ship.device_at(9, 3), Some(5));
    assert_eq!(ship.device_at(1, 1), None);
    assert_eq!(ship.device_at(100, 100), None);
    ship.devices.push(tank(99, (5, 2, 1, 1)));
    assert_eq!(ship.device_at(5, 2), Some(0));
    ship.devices.insert(0, tank(98, (5, 2, 1, 1)));
    assert_eq!(ship.device_at(5, 2), Some(0));
    assert_eq!(ship.device_at(6, 2), Some(1));
}

#[test]
fn dispenser_route_on_the_sample_ship() {
    let ship = sample_ship();
    let route = ship.dispenser_route(2).expect("route");
    assert_eq!(route.tank, 1);
    assert_eq!(route.gas, GasType::O2);
    assert_eq!(route.target, Some((4, 5)));
    // no other device is a dispenser
    for idx in [0usize, 1, 3, 4, 5, 6, 7, 8, 9, 10, 1000] {
        assert!(ship.dispenser_route(idx).is_none());
    }
}

#[test]
fn dispenser_route_needs_a_working_dispenser() {
    let mut ship = sample_ship();
    ship.devices[2].online = false;
    assert!(ship.dispenser_route(2).is_none());
    ship.devices[2].online = true;
    if let DeviceData::Dispenser(d) = &mut ship.devices[2].data {
        d.active = false;
    }
    assert!(ship.dispenser_route(2).is_none());
    if let DeviceData::Dispenser(d) = &mut ship.devices[2].data {
        d.active = true;
        d.connected_tank_id = None;
    }
    assert!(ship.dispenser_route(2).is_none());
}

#[test]
fn dispenser_route_looks_the_tank_up_by_id() {
    let mut ship = ship_from(&["....", "...."]);
    ship.devices = vec![dispenser(7, (0, 0, 1, 1), Some(5)), tank(4, (1, 0, 1, 1))];
    assert!(ship.dispenser_route(0).is_none());
    ship.devices.push(tank(5, (2, 0, 1, 1)));
    let route = ship.dispenser_route(0).expect("route");
    assert_eq!((route.tank, route.gas, route.target), (2, GasType::N2, Some((0, 1))));
    // the devices may be put in another order: the link still holds
    ship.devices.swap(0, 2);
    let route = ship.dispenser_route(2).expect("route");
    assert_eq!(route.tank, 0);
}

#[test]
fn dispenser_route_takes_the_first_device_with_the_id() {
    let mut ship = ship_from(&["....", "...."]);
    // the first device with id 5 is no tank, so there is no route
    ship.devices = vec![
        dispenser(7, (0, 0, 1, 1), Some(5)),
        device(5, (1, 0, 1, 1), DeviceData::NavStation(NavStationData { online: true })),
        tank(5, (2, 0, 1, 1)),
    ];
    assert!(ship.dispenser_route(0).is_none());
    ship.devices.swap(1, 2);
    assert_eq!(ship.dispenser_route(0).map(|r| r.tank), Some(1));
}

#[test]
fn dispenser_route_never_leads_to_the_dispenser_itself() {
    let mut ship = ship_from(&["....", "...."]);
    ship.devices = vec![dispenser(5, (0, 0, 1, 1), Some(5))];
    assert!(ship.dispenser_route(0).is_none());
    ship.devices.push(tank(5, (1, 0, 1, 1)));
    assert_eq!(ship.dispenser_route(0).map(|r| r.tank), Some(1));
}

#[test]
fn dispenser_route_without_target_loses_the_gas() {
    let mut ship = ship_from(&["##", "##"]);
    ship.devices = vec![dispenser(1, (0, 0, 1, 1), Some(2)), tank(2, (1, 0, 1, 1))];
    let route = ship.dispenser_route(0).expect("route");
    assert_eq!((route.tank, route.target), (1, None));
}

#[test]
fn diffusion_pairs_of_small_grids() {
    assert_eq!(ship_from(&["."]).diffusion_pairs(), vec![]);
    assert_eq!(ship_from(&[".."]).diffusion_pairs(), vec![(0, 1)]);
    assert_eq!(ship_from(&[".", "."]).diffusion_pairs(), vec![(0, 1)]);
    // right, below, below right, below left, tile by tile
    assert_eq!(
        ship_from(&["..", ".."]).diffusion_pairs(),
        vec![(0, 1), (0, 2), (0, 3), (1, 3), (1, 2), (2, 3)]
    );
    assert_eq!(
        ship_from(&["...", "..."]).diffusion_pairs(),
        vec![
            (0, 1),
            (0, 3),
            (0, 4),
            (1, 2),
            (1, 4),
            (1, 5),
            (1, 3),
            (2, 5),
            (2, 4),
            (3, 4),
            (4, 5)
        ]
    );
}

#[test]
fn diffusion_pairs_skip_unbreathable_tiles() {
    assert_eq!(ship_from(&[".#."]).diffusion_pairs(), vec![]);
    assert_eq!(ship_from(&["#.", ".#"]).diffusion_pairs(), vec![(1, 2)]);
    assert_eq!(ship_from(&["bD", " o"]).diffusion_pairs(), vec![(0, 1), (0, 3), (1, 3)]);
    assert_eq!(ship_from(&[]).diffusion_pairs(), vec![]);
}

#[test]
fn diffusion_pairs_of_the_sample_ship_meet_every_pair_once() {
    let ship = sample_ship();
    let pairs = ship.diffusion_pairs();
    assert_eq!(pairs.len(), 197);
    for y1 in 0..8i32 {
        for x1 in 0..12i32 {
            for y2 in 0..8i32 {
                for x2 in 0..12i32 {
                    let a = (y1 * 12 + x1) as usize;
                    let b = (y2 * 12 + x2) as usize;
                    let neighbours =
                        a != b && (x1 - x2).abs() <= 1 && (y1 - y2).abs() <= 1;
                    let both = ship.tile_atmos_cell(x1 as u32, y1 as u32).is_some()
                        && ship.tile_atmos_cell(x2 as u32, y2 as u32).is_some();
                    let times =
                        pairs.iter().filter(|&&p| p == (a, b) || p == (b, a)).count();
                    assert_eq!(times, if neighbours && both { 1 } else { 0 });
                }
            }
        }
    }
}

#[test]
fn gases_have_their_places_in_tank_and_cell() {
    let mut tank = TankData { capacity_kg: 9.0_f32, o2_kg: 1.0, n2_kg: 2.0, co2_kg: 3.0, xenon_kg: 4.0 };
    assert_eq!(tank.mass_of(GasType::O2), 1.0);
    assert_eq!(tank.mass_of(GasType::N2), 2.0);
    assert_eq!(tank.mass_of(GasType::CO2), 3.0);
    assert_eq!(tank.mass_of(GasType::Xenon), 4.0);
    *tank.mass_mut(GasType::Xenon) -= 1.5;
    *tank.mass_mut(GasType::N2) += 0.5;
    assert_eq!((tank.o2_kg, tank.n2_kg, tank.co2_kg, tank.xenon_kg), (1.0, 2.5, 3.0, 2.5));
    assert_eq!(tank.capacity_kg, 9.0);

    let mut cell = TileAtmosphere::new(1.0_f32, 2.0, 3.0, 20.0);
    assert_eq!(cell.mass_of(GasType::O2), Some(1.0));
    assert_eq!(cell.mass_of(GasType::N2), Some(2.0));
    assert_eq!(cell.mass_of(GasType::CO2), Some(3.0));
    assert_eq!(cell.mass_of(GasType::Xenon), None);
    if let Some(mass) = cell.mass_mut(GasType::CO2) {
        *mass = 0.25;
    }
    assert!(cell.mass_mut(GasType::Xenon).is_none());
    assert_eq!((cell.o2_kg, cell.n2_kg, cell.co2_kg, cell.temp_c), (1.0, 2.0, 0.25, 20.0));
}

#[test]
fn tile_kinds() {
    let all = [
        TileType::Empty,
        TileType::Floor,
        TileType::Wall,
        TileType::Bed,
        TileType::DoorClosed,
        TileType::DoorOpen,
    ];
    let breathable: Vec<bool> =
        all.iter().map(|&t| ShipInterior::<f32>::tile_supports_atmos(t)).collect();
    assert_eq!(breathable, vec![false, true, false, true, true, true]);
    let passable: Vec<bool> =
        all.iter().map(|&t| ShipInterior::<f32>::tile_is_passable(t)).collect();
    assert_eq!(passable, vec![false, true, false, true, false, true]);
    let hull: Vec<bool> = all.iter().map(|&t| is_hull_tile(t)).collect();
    assert_eq!(hull, vec![false, false, true, false, true, true]);
}

#[test]
fn tiles_are_stored_row_by_row() {
    assert_eq!(tile_index(0, 0, 12, 8), 0);
    assert_eq!(tile_index(11, 0, 12, 8), 11);
    assert_eq!(tile_index(0, 1, 12, 8), 12);
    assert_eq!(tile_index(5, 3, 12, 8), 41);
    assert_eq!(tile_index(11, 7, 12, 8), 95);
    assert_eq!(tile_index(0, 6, 1, 7), 6);
}

#[test]
fn boundary_edges_in_scan_order() {
    let ship = ship_from(&["#.", "##"]);
    assert_eq!(
        collect_boundary_edges(&ship.tiles, 2, 2),
        vec![
            ((0, 0), (1, 0)),
            ((1, 0), (1, 1)),
            ((0, 1), (0, 0)),
            ((1, 2), (0, 2)),
            ((0, 2), (0, 1)),
            ((1, 1), (2, 1)),
            ((2, 1), (2, 2)),
            ((2, 2), (1, 2)),
        ]
    );
    assert_eq!(collect_boundary_edges(&ship_from(&["..", ".."]).tiles, 2, 2), vec![]);
}

#[test]
fn hull_with_a_hole_is_traced_along_its_outside() {
    // a ring of wall round one floor tile: the inner loop is left alone
    let ship = ship_from(&["###", "#.#", "###"]);
    assert_eq!(
        ship.hull_outline,
        vec![
            (0, 0),
            (1, 0),
            (2, 0),
            (3, 0),
            (3, 1),
            (3, 2),
            (3, 3),
            (2, 3),
            (1, 3),
            (0, 3),
            (0, 2),
            (0, 1)
        ]
    );
}

#[test]
fn hull_that_touches_itself_at_a_corner() {
    // two wall tiles that meet at the corner (1, 1): the trace leaves that
    // corner along the first edge listed there and closes round one tile
    let ship = ship_from(&["#.", ".#"]);
    assert_eq!(ship.hull_outline, vec![(0, 0), (1, 0), (1, 1), (0, 1)]);
}
