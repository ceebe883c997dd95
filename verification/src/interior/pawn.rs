use vstd::prelude::*;
use vstd::string::*;

verus! {

#[derive(Clone, Copy, Debug, PartialEq, Eq, Structural)]
pub enum PawnStatus {
    Awake,
    Sleeping,
}

impl PawnStatus {
    /// The name of the variant, as spelled in snapshots.
    pub open spec fn name(self) -> Seq<char> {
        match self {
            PawnStatus::Awake => "Awake"@,
            PawnStatus::Sleeping => "Sleeping"@,
        }
    }

    /// The other status.
    pub open spec fn toggled(self) -> PawnStatus {
        match self {
            PawnStatus::Awake => PawnStatus::Sleeping,
            PawnStatus::Sleeping => PawnStatus::Awake,
        }
    }

    pub fn as_str(&self) -> (s: &'static str)
        ensures
            s@ == self.name(),
    {
        match self {
            PawnStatus::Awake => "Awake",
            PawnStatus::Sleeping => "Sleeping",
        }
    }
}

/// Hunger, thirst and rest, each between zero and one.
#[derive(Clone, Copy, Debug)]
pub struct NeedsState<Q> {
    pub hunger: Q,
    pub thirst: Q,
    pub rest: Q,
}

#[derive(Clone, Debug)]
pub struct BodyPart<Q> {
    pub name: String,
    pub hp: Q,
    pub max_hp: Q,
    pub vital: bool,
}

#[derive(Clone, Debug)]
pub struct HealthState<Q> {
    pub body_parts: Vec<BodyPart<Q>>,
}

/// What a body part is, apart from its hit points.
pub open spec fn part_is<Q>(part: BodyPart<Q>, name: Seq<char>, max_hp: Q, vital: bool) -> bool {
    part.name@ == name && part.hp == max_hp && part.max_hp == max_hp && part.vital == vital
}

fn full_part<Q: Copy>(name: &str, max_hp: Q, vital: bool) -> (part: BodyPart<Q>)
    ensures
        part_is(part, name@, max_hp, vital),
{
    BodyPart { name: String::from_str(name), hp: max_hp, max_hp, vital }
}

impl<Q: Copy> HealthState<Q> {
    /// A healthy body: six parts, each at its full hit points, of which the
    /// head and the torso are vital.
    pub fn new_default(head: Q, torso: Q, arm: Q, leg: Q) -> (health: Self)
        ensures
            health.body_parts@.len() == 6,
            part_is(health.body_parts@[0], "Head"@, head, true),
            part_is(health.body_parts@[1], "Torso"@, torso, true),
            part_is(health.body_parts@[2], "Left Arm"@, arm, false),
            part_is(health.body_parts@[3], "Right Arm"@, arm, false),
            part_is(health.body_parts@[4], "Left Leg"@, leg, false),
            part_is(health.body_parts@[5], "Right Leg"@, leg, false),
    {
        let mut body_parts: Vec<BodyPart<Q>> = Vec::new();
        body_parts.push(full_part("Head", head, true));
        body_parts.push(full_part("Torso", torso, true));
        body_parts.push(full_part("Left Arm", arm, false));
        body_parts.push(full_part("Right Arm", arm, false));
        body_parts.push(full_part("Left Leg", leg, false));
        body_parts.push(full_part("Right Leg", leg, false));
        Self { body_parts }
    }
}

/// The single crew member.
#[derive(Clone, Debug)]
pub struct Pawn<Q> {
    pub id: u64,
    pub name: String,
    pub x: u32,
    pub y: u32,
    pub status: PawnStatus,
    pub needs: NeedsState<Q>,
    pub health: HealthState<Q>,
    pub suffocation_time: Q,
}

} // verus!
