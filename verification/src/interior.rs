//! The inside of the ship: tiles, atmosphere cells, devices and the pawn.

pub mod command;
pub mod device;
pub mod diffusion;
pub mod gas;
pub mod hull;
pub mod layout;
pub mod pawn;
pub mod ship;
pub mod tile;

pub use device::{
    device_contains, footprint_tiles, BedDeviceData, Device, DeviceData, DeviceType, DispenserData, DoorDeviceData,
    FoodGeneratorData, GasLineData, LightData, NavStationData, PowerLineData, RCSThrusterData,
    ReactorData, ShipComputerData, TankData, ToiletData, TransponderData,
};
pub use command::{InteractionEffect, InteriorCommand, InteriorWorld};
pub use gas::{GasType, PowerState, TileAtmosphere};
pub use layout::TestShipQuantities;
pub use ship::{AtmosphereSeed, DispenserRoute, ShipInterior};
pub use pawn::{BodyPart, HealthState, NeedsState, Pawn, PawnStatus};
pub use tile::{Tile, TileType};
