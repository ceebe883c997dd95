use vstd::prelude::*;
use crate::geometry::{HullShape, Vec2};

verus! {

/// The elements of a bound planar orbit.
#[derive(Clone, Copy, Debug)]
pub struct OrbitState<T> {
    pub semi_major_axis: T,
    pub eccentricity: T,
    pub arg_of_periapsis: T,
    pub mean_anomaly_at_epoch: T,
    pub epoch: T,
}

#[derive(Clone, Copy, Debug, PartialEq, Eq, Structural)]
pub enum BodyType {
    Ship,
    Asteroid,
    Debris,
    Missile,
}

impl BodyType {
    /// The name of the variant, as spelled in snapshots.
    pub open spec fn name(self) -> Seq<char> {
        match self {
            BodyType::Ship => "Ship"@,
            BodyType::Asteroid => "Asteroid"@,
            BodyType::Debris => "Debris"@,
            BodyType::Missile => "Missile"@,
        }
    }

    pub fn as_str(&self) -> (s: &'static str)
        ensures
            s@ == self.name(),
    {
        match self {
            BodyType::Ship => "Ship",
            BodyType::Asteroid => "Asteroid",
            BodyType::Debris => "Debris",
            BodyType::Missile => "Missile",
        }
    }
}

#[derive(Clone, Copy, Debug, PartialEq, Eq, Structural)]
pub enum ThrustType {
    Rcs,
    Chemical,
    Ion,
}

/// A free body. Its orbit is what lasts; position and velocity are what the
/// orbit gave when it was last evaluated.
#[derive(Clone, Debug)]
pub struct BodyState<T> {
    /// Zero until the world has given the body an id.
    pub id: u64,
    pub mass: T,
    pub radius: T,
    pub orbit: OrbitState<T>,
    pub position: Vec2<T>,
    pub velocity: Vec2<T>,
    pub body_type: BodyType,
    pub hull_shape: Option<HullShape<T>>,
}

} // verus!
