use ggw_world::interior::{
    AtmosphereSeed, Device, DeviceData, DeviceType, DoorDeviceData, GasType, HealthState,
    InteractionEffect, InteriorCommand, InteriorWorld, LightData, NeedsState, Pawn, PawnStatus,
    PowerState, ShipInterior, TankData, TestShipQuantities, TileAtmosphere, TileType,
};

fn furnished() -> TestShipQuantities<f32> {
    TestShipQuantities {
        air: AtmosphereSeed {
            vacuum: TileAtmosphere::new(0.0, 0.0, 0.0, 20.0),
            standard_air: TileAtmosphere::new(0.5585, 1.8393, 0.0015, 20.0),
        },
        power: PowerState { net_kw: 0.0, total_production_kw: 0.0, total_consumption_kw: 0.0 },
        no_power_kw: 0.0,
        reactor_fuel_kg: 100.0,
        reactor_burn_rate_kg_per_s: 0.0005,
        reactor_output_kw: 500.0,
        tank: TankData { capacity_kg: 200.0, o2_kg: 80.0, n2_kg: 100.0, co2_kg: 5.0, xenon_kg: 10.0 },
        dispenser_power_kw: 0.25,
        dispenser_rate_kg_per_s: 0.02,
        light_power_kw: 0.1,
        light_intensity: 1.0,
        transponder_power_kw: 5.0,
        nav_power_kw: 1.5,
        ship_computer_power_kw: 2.5,
        food_power_kw: 3.0,
        food_units: 5.0,
    }
}

fn test_world() -> InteriorWorld<f32, f64> {
    InteriorWorld::new_test_ship(
        &furnished(),
        GasType::O2,
        NeedsState { hunger: 0.0, thirst: 0.0, rest: 0.0 },
        HealthState::new_default(30.0, 40.0, 25.0, 35.0),
        0.0,
        0.0,
    )
}

fn settled(effect: &InteractionEffect) -> bool {
    matches!(effect, InteractionEffect::Settled)
}

#[test]
fn test_ship_pawn_starts_awake_beside_the_bed() {
    let mut world = test_world();
    assert_eq!(world.pawn.id, 1);
    assert_eq!(world.pawn.name, "Test Pawn");
    assert_eq!((world.pawn.x, world.pawn.y), (2, 3));
    assert_eq!(world.pawn.status, PawnStatus::Awake);
    assert_eq!(world.pawn.suffocation_time, 0.0);
    assert_eq!(world.atmos_accumulator, 0.0);
    assert!(world.next_command().is_none());
}

#[test]
fn health_parts_are_named_and_full() {
    let health: HealthState<f32> = HealthState::new_default(30.0, 40.0, 25.0, 35.0);
    let parts: Vec<(&str, f32, f32, bool)> = health
        .body_parts
        .iter()
        .map(|p| (p.name.as_str(), p.hp, p.max_hp, p.vital))
        .collect();
    assert_eq!(
        parts,
        vec![
            ("Head", 30.0, 30.0, true),
            ("Torso", 40.0, 40.0, true),
            ("Left Arm", 25.0, 25.0, false),
            ("Right Arm", 25.0, 25.0, false),
            ("Left Leg", 35.0, 35.0, false),
            ("Right Leg", 35.0, 35.0, false),
        ]
    );
}

#[test]
fn commands_leave_the_queue_in_the_order_they_came() {
    let mut world = test_world();
    world.queue_command(InteriorCommand::ToggleSleep);
    world.queue_command(InteriorCommand::MovePawn { dx: 1, dy: 0 });
    world.queue_command(InteriorCommand::InteractAt { x: 4, y: 4 });
    assert!(matches!(world.next_command(), Some(InteriorCommand::ToggleSleep)));
    assert!(matches!(world.next_command(), Some(InteriorCommand::MovePawn { dx: 1, dy: 0 })));
    world.queue_command(InteriorCommand::MovePawn { dx: 0, dy: -1 });
    assert!(matches!(world.next_command(), Some(InteriorCommand::InteractAt { x: 4, y: 4 })));
    assert!(matches!(world.next_command(), Some(InteriorCommand::MovePawn { dx: 0, dy: -1 })));
    assert!(world.next_command().is_none());
    assert!(world.next_command().is_none());
}

#[test]
fn pawn_moves_onto_passable_tiles() {
    let mut world = test_world();
    world.try_move_pawn(1, 0);
    assert_eq!((world.pawn.x, world.pawn.y), (3, 3));
    world.try_move_pawn(0, -1);
    assert_eq!((world.pawn.x, world.pawn.y), (3, 2));
    world.try_move_pawn(3, 5);
    assert_eq!((world.pawn.x, world.pawn.y), (6, 7));
    world.try_move_pawn(0, 0);
    assert_eq!((world.pawn.x, world.pawn.y), (6, 7));
}

#[test]
fn pawn_stays_where_the_way_is_blocked() {
    let mut world = test_world();
    world.try_move_pawn(-2, 0);
    assert_eq!((world.pawn.x, world.pawn.y), (2, 3));
    world.try_move_pawn(0, 4);
    assert_eq!((world.pawn.x, world.pawn.y), (2, 3));
    world.try_move_pawn(-3, 0);
    assert_eq!((world.pawn.x, world.pawn.y), (2, 3));
    world.try_move_pawn(0, 100);
    assert_eq!((world.pawn.x, world.pawn.y), (2, 3));
    world.try_move_pawn(i32::MAX, i32::MAX);
    assert_eq!((world.pawn.x, world.pawn.y), (2, 3));
    world.try_move_pawn(i32::MIN, i32::MIN);
    assert_eq!((world.pawn.x, world.pawn.y), (2, 3));
    // a closed door is no way out
    world.pawn.x = 6;
    world.pawn.y = 6;
    world.ship.set_tile_type(6, 7, TileType::DoorClosed, &furnished().air, false);
    world.try_move_pawn(0, 1);
    assert_eq!((world.pawn.x, world.pawn.y), (6, 6));
}

#[test]
fn sleep_is_toggled_on_a_bed_only() {
    let mut world = test_world();
    world.toggle_sleep();
    assert_eq!(world.pawn.status, PawnStatus::Awake);
    world.pawn.x = 3;
    world.pawn.y = 2;
    world.toggle_sleep();
    assert_eq!(world.pawn.status, PawnStatus::Sleeping);
    world.toggle_sleep();
    assert_eq!(world.pawn.status, PawnStatus::Awake);
    world.pawn.status = PawnStatus::Sleeping;
    world.pawn.x = 1;
    world.pawn.y = 1;
    world.toggle_sleep();
    assert_eq!(world.pawn.status, PawnStatus::Sleeping);
}

#[test]
fn bed_interaction_needs_the_pawn_on_that_tile() {
    let mut world = test_world();
    assert!(settled(&world.interact_at(2, 2, false)));
    assert_eq!(world.pawn.status, PawnStatus::Awake);
    world.pawn.x = 3;
    world.pawn.y = 2;
    assert!(settled(&world.interact_at(2, 2, false)));
    assert_eq!(world.pawn.status, PawnStatus::Awake);
    assert!(settled(&world.interact_at(3, 2, true)));
    assert_eq!(world.pawn.status, PawnStatus::Sleeping);
    assert!(settled(&world.interact_at(3, 2, false)));
    assert_eq!(world.pawn.status, PawnStatus::Awake);
}

#[test]
fn door_interaction_flips_the_door_and_names_its_tiles() {
    let mut world = test_world();
    match world.interact_at(6, 7, false) {
        InteractionEffect::DoorMoved { tile_type, tiles } => {
            assert_eq!(tile_type, TileType::DoorClosed);
            assert_eq!(tiles, vec![(6, 7)]);
        }
        other => panic!("no door moved: {:?}", other),
    }
    assert!(matches!(world.ship.devices[8].data, DeviceData::DoorDevice(DoorDeviceData { open: false })));
    assert!(world.ship.devices[8].online);
    // the tiles are the caller's to change
    assert_eq!(world.ship.tile_type(6, 7), TileType::DoorOpen);
    match world.interact_at(6, 7, true) {
        InteractionEffect::DoorMoved { tile_type, tiles } => {
            assert_eq!(tile_type, TileType::DoorOpen);
            assert_eq!(tiles, vec![(6, 7)]);
        }
        other => panic!("no door moved: {:?}", other),
    }
    assert!(matches!(world.ship.devices[8].data, DeviceData::DoorDevice(DoorDeviceData { open: true })));
}

#[test]
fn wide_door_names_every_tile_row_by_row() {
    let mut world = test_world();
    world.ship.devices.insert(
        0,
        Device {
            id: 50,
            device_type: DeviceType::DoorDevice,
            x: 10,
            y: 6,
            w: 3,
            h: 3,
            power_kw: 0.0,
            online: true,
            data: DeviceData::DoorDevice(DoorDeviceData { open: false }),
        },
    );
    match world.interact_at(11, 7, false) {
        InteractionEffect::DoorMoved { tile_type, tiles } => {
            assert_eq!(tile_type, TileType::DoorOpen);
            assert_eq!(tiles, vec![(10, 6), (11, 6), (10, 7), (11, 7)]);
        }
        other => panic!("no door moved: {:?}", other),
    }
}

#[test]
fn light_interaction_switches_light_and_device() {
    let mut world = test_world();
    assert!(settled(&world.interact_at(2, 5, false)));
    assert!(!world.ship.devices[3].online);
    assert!(matches!(
        world.ship.devices[3].data,
        DeviceData::Light(LightData { online: false, intensity }) if intensity == 1.0
    ));
    assert!(settled(&world.interact_at(2, 5, false)));
    assert!(world.ship.devices[3].online);
    assert!(matches!(world.ship.devices[3].data, DeviceData::Light(LightData { online: true, .. })));
}

#[test]
fn reactor_interaction_needs_fuel() {
    let mut world = test_world();
    let reactor_online = |world: &InteriorWorld<f32, f64>| match &world.ship.devices[0].data {
        DeviceData::Reactor(r) => (world.ship.devices[0].online, r.online, r.fuel_kg),
        other => panic!("not a reactor: {:?}", other),
    };
    assert!(settled(&world.interact_at(6, 3, false)));
    assert_eq!(reactor_online(&world), (true, true, 100.0));
    assert!(settled(&world.interact_at(6, 3, true)));
    assert_eq!(reactor_online(&world), (false, false, 100.0));
    assert!(settled(&world.interact_at(7, 4, false)));
    assert_eq!(reactor_online(&world), (false, false, 100.0));
    assert!(settled(&world.interact_at(5, 2, true)));
    assert_eq!(reactor_online(&world), (true, true, 100.0));
}

#[test]
fn dispenser_interaction_flips_active() {
    let mut world = test_world();
    let active = |world: &InteriorWorld<f32, f64>| match &world.ship.devices[2].data {
        DeviceData::Dispenser(d) => d.active,
        other => panic!("not a dispenser: {:?}", other),
    };
    assert!(settled(&world.interact_at(4, 4, false)));
    assert!(!active(&world));
    assert!(world.ship.devices[2].online);
    assert!(world.ship.dispenser_route(2).is_none());
    assert!(settled(&world.interact_at(4, 4, true)));
    assert!(active(&world));
    assert!(world.ship.dispenser_route(2).is_some());
}

#[test]
fn food_generator_serves_a_meal_while_stocked() {
    let mut world = test_world();
    assert!(matches!(world.interact_at(4, 2, true), InteractionEffect::MealServed { device: 9 }));
    assert!(settled(&world.interact_at(4, 2, false)));
    // the food itself is the caller's to take
    match &world.ship.devices[9].data {
        DeviceData::FoodGenerator(f) => assert_eq!(f.food_units, 5.0),
        other => panic!("not a food generator: {:?}", other),
    }
}

#[test]
fn interaction_without_a_device_does_nothing() {
    let mut world = test_world();
    let before = format!("{:?}", world);
    assert!(settled(&world.interact_at(1, 1, true)));
    assert!(settled(&world.interact_at(100, 100, true)));
    assert!(settled(&world.interact_at(u32::MAX, 0, false)));
    // tank, transponder, nav station and ship computer take no interaction
    assert!(settled(&world.interact_at(3, 4, true)));
    assert!(settled(&world.interact_at(8, 1, true)));
    assert!(settled(&world.interact_at(9, 3, true)));
    assert!(settled(&world.interact_at(8, 5, true)));
    assert_eq!(format!("{:?}", world), before);
}

#[test]
fn interaction_reaches_the_first_device_on_the_tile_only() {
    let mut world = test_world();
    // a second light over the first light's tile, later in the list
    world.ship.devices.push(Device {
        id: 11,
        device_type: DeviceType::Light,
        x: 2,
        y: 5,
        w: 2,
        h: 1,
        power_kw: 0.1,
        online: true,
        data: DeviceData::Light(LightData { intensity: 0.5, online: true }),
    });
    world.interact_at(2, 5, false);
    assert!(!world.ship.devices[3].online);
    assert!(world.ship.devices[10].online);
    world.interact_at(3, 5, false);
    assert!(!world.ship.devices[3].online);
    assert!(!world.ship.devices[10].online);
}

#[test]
fn a_device_outside_the_grid_is_never_reached() {
    let mut world = test_world();
    world.ship.devices.insert(
        0,
        Device {
            id: 77,
            device_type: DeviceType::Light,
            x: 12,
            y: 0,
            w: 4,
            h: 4,
            power_kw: 0.0,
            online: true,
            data: DeviceData::Light(LightData { intensity: 1.0, online: true }),
        },
    );
    assert!(settled(&world.interact_at(13, 1, false)));
    assert!(world.ship.devices[0].online);
}

#[test]
fn apply_command_dispatches() {
    let mut world = test_world();
    assert!(settled(&world.apply_command(InteriorCommand::MovePawn { dx: 0, dy: -1 }, false)));
    assert_eq!((world.pawn.x, world.pawn.y), (2, 2));
    assert!(settled(&world.apply_command(InteriorCommand::ToggleSleep, false)));
    assert_eq!(world.pawn.status, PawnStatus::Sleeping);
    assert!(matches!(
        world.apply_command(InteriorCommand::InteractAt { x: 4, y: 2 }, true),
        InteractionEffect::MealServed { device: 9 }
    ));
    assert!(settled(&world.apply_command(InteriorCommand::InteractAt { x: 2, y: 2 }, false)));
    assert_eq!(world.pawn.status, PawnStatus::Awake);
}

#[test]
fn device_operate_on_its_own() {
    let mut door = Device::<f32> {
        id: 1,
        device_type: DeviceType::DoorDevice,
        x: 0,
        y: 0,
        w: 1,
        h: 1,
        power_kw: 0.0,
        online: false,
        data: DeviceData::DoorDevice(DoorDeviceData { open: false }),
    };
    door.operate(false);
    assert!(matches!(door.data, DeviceData::DoorDevice(DoorDeviceData { open: true })));
    assert!(!door.online);
}

#[test]
fn a_world_of_ones_own() {
    let ship: ShipInterior<f32> = ShipInterior::new_test_layout(&furnished(), GasType::N2);
    let pawn = Pawn {
        id: 9,
        name: "Second".to_string(),
        x: 5,
        y: 5,
        status: PawnStatus::Sleeping,
        needs: NeedsState { hunger: 0.5, thirst: 0.25, rest: 1.0 },
        health: HealthState::new_default(1.0, 2.0, 3.0, 4.0),
        suffocation_time: 2.0,
    };
    let mut world: InteriorWorld<f32, f64> = InteriorWorld::new(ship, pawn, 0.125);
    assert_eq!(world.pawn.id, 9);
    assert_eq!(world.pawn.needs.thirst, 0.25);
    assert_eq!(world.atmos_accumulator, 0.125);
    assert!(world.next_command().is_none());
    assert_eq!(world.ship.devices.len(), 10);
}

#[test]
fn a_spent_reactor_is_forced_off_with_its_device() {
    let mut world = test_world();
    let flags = |world: &InteriorWorld<f32, f64>| match &world.ship.devices[0].data {
        DeviceData::Reactor(r) => (world.ship.devices[0].online, r.online),
        other => panic!("not a reactor: {:?}", other),
    };
    world.ship.devices[0].after_burn(false);
    assert_eq!(flags(&world), (true, true));
    world.ship.devices[0].after_burn(true);
    assert_eq!(flags(&world), (false, false));
    // without fuel an interaction does not bring it back
    assert!(settled(&world.interact_at(6, 3, false)));
    assert_eq!(flags(&world), (false, false));
    world.ship.devices[0].after_burn(true);
    assert_eq!(flags(&world), (false, false));
    // with fuel again it does
    assert!(settled(&world.interact_at(6, 3, true)));
    assert_eq!(flags(&world), (true, true));
}

#[test]
fn only_a_reactor_is_switched_off_by_a_burn() {
    let mut world = test_world();
    let before = format!("{:?}", world.ship.devices);
    for index in 1..world.ship.devices.len() {
        world.ship.devices[index].after_burn(true);
    }
    world.ship.devices[0].after_burn(false);
    assert_eq!(format!("{:?}", world.ship.devices), before);
}
