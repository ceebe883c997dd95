//! The crew's commands and what they do to the ship.

use std::collections::VecDeque;
use vstd::prelude::*;
use vstd::string::*;
use crate::interior::device::{footprint_tiles, DeviceData};
use crate::interior::gas::GasType;
use crate::interior::layout::{is_test_ship, TestShipQuantities};
use crate::interior::pawn::{HealthState, NeedsState, Pawn, PawnStatus};
use crate::interior::ship::ShipInterior;
use crate::interior::tile::{in_grid, TileType};

verus! {

/// What the crew can ask for.
#[derive(Clone, Copy, Debug)]
pub enum InteriorCommand {
    MovePawn { dx: i32, dy: i32 },
    ToggleSleep,
    InteractAt { x: u32, y: u32 },
}

/// What an interaction leaves for the caller to carry out on the
/// quantities.
#[derive(Clone, Debug)]
pub enum InteractionEffect {
    /// Nothing is left to do.
    Settled,
    /// A door moved; each of these tiles takes this type.
    DoorMoved { tile_type: TileType, tiles: Vec<(u32, u32)> },
    /// The food generator at this position among the devices serves a meal.
    MealServed { device: usize },
}

/// The ship's interior, its one pawn, and the commands that wait.
#[derive(Clone, Debug)]
pub struct InteriorWorld<Q, T> {
    pub ship: ShipInterior<Q>,
    pub pawn: Pawn<Q>,
    /// The commands that wait, oldest first.
    pub command_queue: VecDeque<InteriorCommand>,
    /// Simulated time not yet spent on atmosphere steps.
    pub atmos_accumulator: T,
}

impl<Q: Copy, T: Copy> InteriorWorld<Q, T> {
    /// The commands that wait, oldest first.
    pub open spec fn pending(&self) -> Seq<InteriorCommand> {
        self.command_queue@
    }

    /// Whether the pawn stands on a bed.
    pub open spec fn pawn_on_bed(&self) -> bool {
        self.ship.type_at(self.pawn.x as int, self.pawn.y as int) == TileType::Bed
    }

    /// The pawn's status after a try to toggle its sleep: toggled on a bed,
    /// unchanged anywhere else.
    pub open spec fn sleep_toggled(&self) -> PawnStatus {
        if self.pawn_on_bed() {
            self.pawn.status.toggled()
        } else {
            self.pawn.status
        }
    }

    /// Whether `self` and `other` differ at most in the pawn's status and in
    /// the devices.
    pub open spec fn same_but_status_and_devices(&self, other: &Self) -> bool {
        &&& self.pending() == other.pending()
        &&& self.atmos_accumulator == other.atmos_accumulator
        &&& self.pawn == (Pawn { status: self.pawn.status, ..other.pawn })
        &&& self.ship == (ShipInterior { devices: self.ship.devices, ..other.ship })
    }

    pub fn new(ship: ShipInterior<Q>, pawn: Pawn<Q>, atmos_accumulator: T) -> (world: Self)
        ensures
            world.ship == ship,
            world.pawn == pawn,
            world.atmos_accumulator == atmos_accumulator,
            world.pending() == Seq::<InteriorCommand>::empty(),
    {
        Self { ship, pawn, command_queue: VecDeque::new(), atmos_accumulator }
    }

    /// The sample ship with its pawn, awake beside the bed, and no command
    /// waiting.
    pub fn new_test_ship(
        q: &TestShipQuantities<Q>,
        dispenser_gas: GasType,
        needs: NeedsState<Q>,
        health: HealthState<Q>,
        suffocation_time: Q,
        atmos_accumulator: T,
    ) -> (world: Self)
        ensures
            is_test_ship(world.ship, *q, dispenser_gas),
            world.pawn.id == 1,
            world.pawn.name@ == "Test Pawn"@,
            world.pawn.x == 2,
            world.pawn.y == 3,
            world.pawn.status == PawnStatus::Awake,
            world.pawn.needs == needs,
            world.pawn.health == health,
            world.pawn.suffocation_time == suffocation_time,
            world.atmos_accumulator == atmos_accumulator,
            world.pending() == Seq::<InteriorCommand>::empty(),
    {
        let ship = ShipInterior::new_test_layout(q, dispenser_gas);
        let pawn = Pawn {
            id: 1,
            name: String::from_str("Test Pawn"),
            x: 2,
            y: 3,
            status: PawnStatus::Awake,
            needs,
            health,
            suffocation_time,
        };
        Self::new(ship, pawn, atmos_accumulator)
    }

    /// Puts a command at the end of the queue.
    pub fn queue_command(&mut self, command: InteriorCommand)
        ensures
            final(self).pending() == old(self).pending().push(command),
            final(self).ship == old(self).ship,
            final(self).pawn == old(self).pawn,
            final(self).atmos_accumulator == old(self).atmos_accumulator,
    {
        self.command_queue.push_back(command);
    }

    /// Takes the oldest waiting command off the queue.
    pub fn next_command(&mut self) -> (command: Option<InteriorCommand>)
        ensures
            final(self).ship == old(self).ship,
            final(self).pawn == old(self).pawn,
            final(self).atmos_accumulator == old(self).atmos_accumulator,
            match command {
                Some(c) => old(self).pending().len() > 0 && c == old(self).pending()[0]
                    && final(self).pending() == old(self).pending().drop_first(),
                None => old(self).pending().len() == 0 && final(self).pending() == old(
                    self,
                ).pending(),
            },
    {
        self.command_queue.pop_front()
    }

    /// The pawn after a try to move it by `(dx, dy)`: moved where the tile
    /// it would come to is passable, left where it is otherwise.
    pub open spec fn pawn_moved(&self, dx: i32, dy: i32) -> Pawn<Q> {
        if self.ship.type_at(self.pawn.x + dx, self.pawn.y + dy).passable() {
            Pawn { x: (self.pawn.x + dx) as u32, y: (self.pawn.y + dy) as u32, ..self.pawn }
        } else {
            self.pawn
        }
    }

    /// Whether the pawn stands on a tile that it can stand on.
    pub open spec fn pawn_has_footing(&self) -> bool {
        self.ship.type_at(self.pawn.x as int, self.pawn.y as int).passable()
    }

    /// Moves the pawn by `(dx, dy)` where the tile it would come to is
    /// passable; leaves it where it is otherwise.
    pub fn try_move_pawn(&mut self, dx: i32, dy: i32)
        requires
            old(self).ship.wf(),
        ensures
            *final(self) == (InteriorWorld { pawn: old(self).pawn_moved(dx, dy), ..*old(self) }),
            old(self).pawn_has_footing() ==> final(self).pawn_has_footing(),
    {
        let target_x: i64 = self.pawn.x as i64 + dx as i64;
        let target_y: i64 = self.pawn.y as i64 + dy as i64;
        if target_x < 0 || target_y < 0 || target_x >= self.ship.width as i64 || target_y
            >= self.ship.height as i64 {
            return ;
        }
        let target = self.ship.tile_type(target_x as u32, target_y as u32);
        if ShipInterior::<Q>::tile_is_passable(target) {
            self.pawn.x = target_x as u32;
            self.pawn.y = target_y as u32;
        }
    }

    /// Puts the pawn to sleep or wakes it, where it stands on a bed.
    pub fn toggle_sleep(&mut self)
        requires
            old(self).ship.wf(),
        ensures
            *final(self) == (InteriorWorld {
                pawn: Pawn { status: old(self).sleep_toggled(), ..old(self).pawn },
                ..*old(self)
            }),
    {
        let tile = self.ship.tile_type(self.pawn.x, self.pawn.y);
        if tile != TileType::Bed {
            return ;
        }
        self.pawn.status =
        match self.pawn.status {
            PawnStatus::Awake => PawnStatus::Sleeping,
            PawnStatus::Sleeping => PawnStatus::Awake,
        };
    }

    /// Whether `effect` is what operating device `i` leaves to the caller:
    /// for a door, the type its tiles take and the tiles; for a food
    /// generator that is `stocked` (it holds food), the meal; else nothing.
    pub open spec fn leaves(&self, i: int, stocked: bool, effect: InteractionEffect) -> bool {
        let device = self.ship.devices@[i];
        match device.data {
            DeviceData::DoorDevice(d) => {
                &&& effect matches InteractionEffect::DoorMoved { tile_type, tiles }
                &&& tile_type == if d.open {
                    TileType::DoorClosed
                } else {
                    TileType::DoorOpen
                }
                &&& tiles@ == device.tiles_within(self.ship.width, self.ship.height)
            },
            DeviceData::FoodGenerator(_) => if stocked {
                effect matches InteractionEffect::MealServed { device: j } && j == i
            } else {
                effect is Settled
            },
            _ => effect is Settled,
        }
    }

    /// The pawn's status after device `i`, found at tile `(x, y)`, has been
    /// operated: a bed toggles the sleep of a pawn that stands on that very
    /// tile.
    pub open spec fn status_after(&self, i: int, x: u32, y: u32) -> PawnStatus {
        if self.ship.devices@[i].data is BedDevice && self.pawn.x == x && self.pawn.y == y {
            self.sleep_toggled()
        } else {
            self.pawn.status
        }
    }

    /// Whether `after` and `effect` are what an interaction at tile
    /// `(x, y)` makes of this world. Nothing changes but the device that is
    /// operated and the pawn's status. The device is the first whose
    /// footprint holds the tile; where the tile lies outside the grid or no
    /// device stands on it, nothing changes at all.
    pub open spec fn interacted(
        &self,
        after: Self,
        x: u32,
        y: u32,
        stocked: bool,
        effect: InteractionEffect,
    ) -> bool {
        let reachable = in_grid(self.ship.width as int, self.ship.height as int, x as int, y as int);
        &&& after.same_but_status_and_devices(self)
        &&& after.ship.devices@.len() == self.ship.devices@.len()
        &&& !reachable || (forall|j: int| !self.ship.is_first_device_at(x as int, y as int, j))
            ==> {
            &&& after.pawn.status == self.pawn.status
            &&& after.ship.devices@ == self.ship.devices@
            &&& effect is Settled
        }
        &&& forall|i: int|
            reachable && #[trigger] self.ship.is_first_device_at(x as int, y as int, i) ==> {
                &&& after.ship.devices@ == self.ship.devices@.update(
                    i,
                    self.ship.devices@[i].operated(stocked),
                )
                &&& after.pawn.status == self.status_after(i, x, y)
                &&& self.leaves(i, stocked, effect)
            }
    }

    /// The pawn operates whatever device stands on tile `(x, y)`: the first
    /// whose footprint holds the tile. `stocked` says whether that device
    /// holds what it hands out (a reactor its fuel, a food generator its
    /// food). What the interaction means for the quantities is returned.
    pub fn interact_at(&mut self, x: u32, y: u32, stocked: bool) -> (effect: InteractionEffect)
        requires
            old(self).ship.wf(),
        ensures
            old(self).interacted(*final(self), x, y, stocked, effect),
    {
        if x >= self.ship.width || y >= self.ship.height {
            return InteractionEffect::Settled;
        }
        let i = match self.ship.device_at(x, y) {
            Some(i) => i,
            None => {
                return InteractionEffect::Settled;
            },
        };
        assert forall|k: int| old(self).ship.is_first_device_at(x as int, y as int, k) implies k
            == i by {
            if k < i {
                assert(!old(self).ship.devices@[k].covers(x as int, y as int));
            } else if i < k {
                assert(!old(self).ship.devices@[i as int].covers(x as int, y as int));
            }
        }
        let mut effect = InteractionEffect::Settled;
        match &self.ship.devices[i].data {
            DeviceData::BedDevice(_) => {
                if self.pawn.x == x && self.pawn.y == y {
                    self.toggle_sleep();
                }
            },
            DeviceData::DoorDevice(data) => {
                let tile_type = if data.open {
                    TileType::DoorClosed
                } else {
                    TileType::DoorOpen
                };
                let tiles = footprint_tiles(&self.ship.devices[i], self.ship.width, self.ship.height);
                effect = InteractionEffect::DoorMoved { tile_type, tiles };
            },
            DeviceData::FoodGenerator(_) => {
                if stocked {
                    effect = InteractionEffect::MealServed { device: i };
                }
            },
            _ => {},
        }
        self.ship.devices[i].operate(stocked);
        effect
    }

    /// Carries out one command. `stocked` matters to an interaction only;
    /// see `interact_at`.
    pub fn apply_command(&mut self, command: InteriorCommand, stocked: bool) -> (effect:
        InteractionEffect)
        requires
            old(self).ship.wf(),
        ensures
            final(self).ship.wf(),
            match command {
                InteriorCommand::MovePawn { dx, dy } => {
                    &&& effect is Settled
                    &&& *final(self) == (InteriorWorld {
                        pawn: old(self).pawn_moved(dx, dy),
                        ..*old(self)
                    })
                },
                InteriorCommand::ToggleSleep => {
                    &&& effect is Settled
                    &&& *final(self) == (InteriorWorld {
                        pawn: Pawn { status: old(self).sleep_toggled(), ..old(self).pawn },
                        ..*old(self)
                    })
                },
                InteriorCommand::InteractAt { x, y } => old(self).interacted(
                    *final(self),
                    x,
                    y,
                    stocked,
                    effect,
                ),
            },
    {
        match command {
            InteriorCommand::MovePawn { dx, dy } => {
                self.try_move_pawn(dx, dy);
                InteractionEffect::Settled
            },
            InteriorCommand::ToggleSleep => {
                self.toggle_sleep();
                InteractionEffect::Settled
            },
            InteriorCommand::InteractAt { x, y } => self.interact_at(x, y, stocked),
        }
    }
}

/// An interaction with a bed puts the pawn to sleep: where the pawn is
/// awake and stands on a bed tile, and the device found on that tile is a
/// bed, the interaction at that tile leaves the pawn sleeping; a second one
/// wakes it again.
pub proof fn lemma_bed_interaction_toggles_sleep<Q: Copy, T: Copy>(
    before: InteriorWorld<Q, T>,
    after: InteriorWorld<Q, T>,
    stocked: bool,
    effect: InteractionEffect,
    i: int,
)
    requires
        before.pawn_on_bed(),
        before.ship.is_first_device_at(before.pawn.x as int, before.pawn.y as int, i),
        before.ship.devices@[i].data is BedDevice,
        before.interacted(after, before.pawn.x, before.pawn.y, stocked, effect),
    ensures
        after.pawn.status == before.pawn.status.toggled(),
        before.pawn.status == PawnStatus::Awake ==> after.pawn.status == PawnStatus::Sleeping,
        after.pawn.status.toggled() == before.pawn.status,
        after.ship.devices@ == before.ship.devices@,
        effect is Settled,
{
    assert(before.ship.devices@[i].operated(stocked) == before.ship.devices@[i]);
    assert(after.ship.devices@ =~= before.ship.devices@);
}

} // verus!
