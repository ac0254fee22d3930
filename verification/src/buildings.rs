use vstd::prelude::*;
use crate::actions::{RemoveSource, contains_removal};
use crate::game_message::GameMessage;

verus! {

/// The highest level a building can be raised to.
pub const BUILDING_MAX_LEVEL: usize = 4;
/// The number of kinds of buildings.
pub const BUILDING_TYPES: usize = 3;

/// The kinds of buildings the player can construct.
#[derive(Clone, Copy, Debug, PartialEq, Eq, Structural)]
pub enum BuildingType {
    /// Lets the player reroll approaching enemies and move faster.
    Watchtower,
    /// Lets the player purchase higher level spells.
    Mageguild,
    /// Adds a spell slot per level.
    Manawell,
}

impl BuildingType {
    /// The position of this kind of building in the building arrays.
    pub open spec fn spec_index(self) -> usize {
        match self {
            BuildingType::Watchtower => 0,
            BuildingType::Mageguild => 1,
            BuildingType::Manawell => 2,
        }
    }

    /// The position of this kind of building in the building arrays.
    pub fn index(&self) -> (r: usize)
        ensures
            r == self.spec_index(),
            r < BUILDING_TYPES,
    {
        match self {
            BuildingType::Watchtower => 0,
            BuildingType::Mageguild => 1,
            BuildingType::Manawell => 2,
        }
    }
}

/// A building standing in the town; it knows which kind it is.
pub struct Building {
    building_type: usize,
}

impl Building {
    #[verifier::type_invariant]
    spec fn kind_in_range(self) -> bool {
        self.building_type < BUILDING_TYPES
    }

    /// The kind of building, as a position in the building arrays.
    pub closed spec fn kind(self) -> usize {
        self.building_type
    }

    /// A building of kind `building_type`.
    pub fn new(building_type: usize) -> (r: Self)
        requires
            building_type < BUILDING_TYPES,
        ensures
            r.kind() == building_type,
    {
        Building { building_type }
    }

    /// The kind of building, as a position in the building arrays.
    pub fn building_type(&self) -> (r: usize)
        ensures
            r == self.kind(),
            r < BUILDING_TYPES,
    {
        proof {
            use_type_invariant(self);
        }
        self.building_type
    }
}

/// The state of the three buildable buildings: the level the player has
/// paid for (`target`) and the level that currently stands in the town.
pub struct Buildings {
    /// The level of each building that the player has paid for.
    pub target: [u8; BUILDING_TYPES],
    current: [u8; BUILDING_TYPES],
}

impl Buildings {
    /// The level of each building that currently stands in the town.
    pub closed spec fn current_levels(self) -> Seq<u8> {
        self.current@
    }

    /// The level of each building that the player has paid for.
    pub closed spec fn target_levels(self) -> Seq<u8> {
        self.target@
    }

    /// There are three building levels of each kind.
    pub proof fn lemma_levels_len(self)
        ensures
            self.target_levels().len() == BUILDING_TYPES,
            self.current_levels().len() == BUILDING_TYPES,
    {
    }

    /// No building paid for, none standing.
    pub fn new() -> (r: Self)
        ensures
            r.target_levels() == seq![0u8, 0u8, 0u8],
            r.current_levels() == seq![0u8, 0u8, 0u8],
    {
        Buildings { target: [0; 3], current: [0; 3] }
    }

    /// The level of building `i` that the player has paid for.
    pub fn target_level(&self, i: usize) -> (r: u8)
        requires
            i < BUILDING_TYPES,
        ensures
            r == self.target_levels()[i as int],
    {
        self.target[i]
    }

    /// Sets the level of building `i` that the player has paid for.
    pub fn set_target_level(&mut self, i: usize, level: u8)
        requires
            i < BUILDING_TYPES,
        ensures
            final(self).target_levels() == old(self).target_levels().update(i as int, level),
            final(self).current_levels() == old(self).current_levels(),
    {
        self.target[i] = level;
    }

    /// The level of building `i` that currently stands in the town.
    pub fn current_level(&self, i: usize) -> (r: u8)
        requires
            i < BUILDING_TYPES,
        ensures
            r == self.current_levels()[i as int],
    {
        self.current[i]
    }
}

/// The costs, name, description and sprite of a kind of building.
#[derive(Debug, Clone)]
pub struct BuildingInfo {
    /// The gold needed to raise the building from level `i` to level `i + 1`.
    pub level_costs: [u32; BUILDING_MAX_LEVEL],
    /// The building's name.
    pub name: &'static str,
    /// What the building does.
    pub description: &'static str,
    sprite: &'static str,
}

/// The level costs of building kind `building`; all zero for a kind that does not exist.
pub open spec fn building_costs(building: int) -> Seq<u32> {
    if building == 0 || building == 1 {
        seq![100u32, 150u32, 200u32, 200u32]
    } else if building == 2 {
        seq![250u32, 300u32, 350u32, 400u32]
    } else {
        seq![0u32, 0u32, 0u32, 0u32]
    }
}

impl BuildingInfo {
    /// The gold needed to raise the building from level `i` to level `i + 1`.
    pub closed spec fn costs(self) -> Seq<u32> {
        self.level_costs@
    }

    /// The gold needed to raise the building from level `level` to the next.
    pub fn level_cost(&self, level: usize) -> (r: u32)
        requires
            level < BUILDING_MAX_LEVEL,
        ensures
            r == self.costs()[level as int],
    {
        self.level_costs[level]
    }

    /// The building's name.
    pub closed spec fn title(self) -> Seq<char> {
        self.name@
    }

    /// What the building does.
    pub closed spec fn about(self) -> Seq<char> {
        self.description@
    }

    /// The path of the building's sprite.
    pub closed spec fn sprite_path(self) -> Seq<char> {
        self.sprite@
    }

    /// The path of the building's sprite.
    pub fn sprite(&self) -> (r: &'static str)
        ensures
            r@ == self.sprite_path(),
    {
        self.sprite
    }
}

/// The information on building kind `building`; a placeholder with no costs
/// for a kind that does not exist.
pub fn get_building_info(building: usize) -> (r: &'static BuildingInfo)
    ensures
        r.costs() == building_costs(building as int),
        building == 0 ==> r.title() == "Watchtower"@ && r.sprite_path() == "/sprites/environment/watchtower"@
            && r.about() == "Allows you to reroll approaching enemies."@,
        building == 1 ==> r.title() == "Mage's Guild"@ && r.sprite_path() == "/sprites/environment/mageguild"@
            && r.about() == "Allows you to purchase higher level spells."@,
        building == 2 ==> r.title() == "Mana Well"@ && r.sprite_path() == "/sprites/environment/manawell"@
            && r.about() == "Adds an additional spell slot per level."@,
        building > 2 ==> r.title() == "No Building"@ && r.sprite_path() == ""@
            && r.about() == "Does nothing. Should not exist"@,
{
    if building == 0 {
        &BuildingInfo {
            level_costs: [100, 150, 200, 200],
            name: "Watchtower",
            description: "Allows you to reroll approaching enemies.",
            sprite: "/sprites/environment/watchtower",
        }
    } else if building == 1 {
        &BuildingInfo {
            level_costs: [100, 150, 200, 200],
            name: "Mage's Guild",
            description: "Allows you to purchase higher level spells.",
            sprite: "/sprites/environment/mageguild",
        }
    } else if building == 2 {
        &BuildingInfo {
            level_costs: [250, 300, 350, 400],
            name: "Mana Well",
            description: "Adds an additional spell slot per level.",
            sprite: "/sprites/environment/manawell",
        }
    } else {
        &BuildingInfo {
            level_costs: [0, 0, 0, 0],
            name: "No Building",
            description: "Does nothing. Should not exist",
            sprite: "",
        }
    }
}

/// What the town has to do to match the buildings paid for.
#[derive(Clone, Copy, Debug, PartialEq, Eq, Structural)]
pub enum BuildingEvent {
    /// Building kind `.0` has to be put into the town.
    Spawn(usize),
    /// This message has to be sent.
    Message(GameMessage),
}

/// The events for building kind `i` when `target` is paid for and `current` stands.
pub open spec fn building_events_at(i: usize, target: u8, current: u8) -> Seq<BuildingEvent> {
    if target > current {
        if current == 0 {
            seq![BuildingEvent::Spawn(i), BuildingEvent::Message(GameMessage::BuildingUp(i, target))]
        } else {
            seq![BuildingEvent::Message(GameMessage::BuildingUp(i, target))]
        }
    } else if target < current {
        seq![BuildingEvent::Message(GameMessage::BuildingDown(i, target))]
    } else {
        Seq::empty()
    }
}

/// The events for the first `n` building kinds, in order.
pub open spec fn building_events(target: Seq<u8>, current: Seq<u8>, n: nat) -> Seq<BuildingEvent>
    decreases n,
{
    if n == 0 {
        Seq::empty()
    } else {
        building_events(target, current, (n - 1) as nat)
            + building_events_at((n - 1) as usize, target[n - 1], current[n - 1])
    }
}

/// A standing building whose level paid for was torn down is announced as
/// lowered to level zero by the next call of [create_buildings], and is
/// not put into the town again.
pub proof fn law_destroyed_building_is_announced(i: usize, current: u8)
    requires
        current > 0,
    ensures
        building_events_at(i, 0, current) == seq![BuildingEvent::Message(GameMessage::BuildingDown(i, 0))],
{
}

/// A building raised from nothing is put into the town once, with its
/// announcement; raising it further only announces the new level.
pub proof fn law_spawn_only_from_nothing(i: usize, target: u8, current: u8)
    ensures
        building_events_at(i, target, current).contains(BuildingEvent::Spawn(i)) <==> (current == 0 && target > 0),
{
    if current == 0 && target > 0 {
        assert(building_events_at(i, target, current)[0] == BuildingEvent::Spawn(i));
    }
}

/// Brings the standing buildings to the levels paid for: a building raised
/// from nothing is put into the town, and every change of level is announced.
pub fn create_buildings(buildings: &mut Buildings) -> (r: Vec<BuildingEvent>)
    ensures
        final(buildings).target_levels() == old(buildings).target_levels(),
        final(buildings).current_levels() == old(buildings).target_levels(),
        r@ == building_events(old(buildings).target_levels(), old(buildings).current_levels(), 3),
{
    let mut events: Vec<BuildingEvent> = Vec::new();
    let ghost old_current = buildings.current@;
    let mut i: usize = 0;
    while i < BUILDING_TYPES
        invariant
            i <= BUILDING_TYPES,
            buildings.target == old(buildings).target,
            old_current == old(buildings).current@,
            forall|j: int| 0 <= j < i ==> buildings.current@[j] == buildings.target@[j],
            forall|j: int| i <= j < 3 ==> buildings.current@[j] == old_current[j],
            events@ == building_events(buildings.target@, old_current, i as nat),
        decreases BUILDING_TYPES - i,
    {
        let t = buildings.target[i];
        let c = buildings.current[i];
        if t > c {
            if c == 0 {
                events.push(BuildingEvent::Spawn(i));
            }
            events.push(BuildingEvent::Message(GameMessage::BuildingUp(i, t)));
            buildings.current[i] = t;
        } else if t < c {
            events.push(BuildingEvent::Message(GameMessage::BuildingDown(i, t)));
            buildings.current[i] = t;
        }
        i = i + 1;
    }
    assert(buildings.current@ =~= old(buildings).target@);
    events
}

/// Tears down the building paid for of the kind of `building` when it was
/// removed because an enemy ran into it.
pub fn destroy_buildings(buildings: &mut Buildings, building: &Building, removals: &[RemoveSource])
    ensures
        final(buildings).current_levels() == old(buildings).current_levels(),
        final(buildings).target_levels() == if removals@.contains(RemoveSource::BuildingCollision) {
            old(buildings).target_levels().update(building.kind() as int, 0u8)
        } else {
            old(buildings).target_levels()
        },
{
    if contains_removal(removals, RemoveSource::BuildingCollision) {
        let kind = building.building_type();
        buildings.target[kind] = 0;
    }
}

} // verus!
