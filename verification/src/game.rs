//! The turn-based resource game: a pool of gold, wood and food, farms
//! that produce food each turn, and the menu decisions that drive it.
//!
//! The loop that prompts and prints lives outside the library; here
//! are the state transitions, each pinned down exactly: what a farm
//! costs, what it produces, and what each mining action adds.

use vstd::prelude::*;

verus! {

pub const FARM_GOLD_PRICE: u32 = 1000;

pub const FARM_WOOD_PRICE: u32 = 500;

pub const FARM_PRODUCTION: u32 = 100;

/// How much one mining action yields.
pub const MINE_YIELD: u32 = 500;

#[derive(Clone, Copy, PartialEq, Eq, Structural, Debug)]
pub enum BuildingType {
    Farm,
}

#[derive(Clone, Copy, PartialEq, Eq, Structural, Debug)]
pub enum ResourceType {
    Gold(u32),
    Wood(u32),
}

#[derive(Clone, Copy, PartialEq, Eq, Structural, Debug)]
pub enum GameAction {
    Build(BuildingType),
    Harvest,
    Mine(ResourceType),
}

/// What one action did to the game, for the caller to report.
#[derive(Clone, Copy, PartialEq, Eq, Structural, Debug)]
pub enum ActionOutcome {
    Built,
    RefusedBuild,
    Harvested,
    Mined,
}

#[derive(Clone, Copy, PartialEq, Eq, Structural, Debug)]
pub struct Resources {
    pub gold: u32,
    pub wood: u32,
    pub food: u32,
}

pub struct Game {
    pub current_turn: u32,
    pub end_turn: u32,
    pub resources: Resources,
    pub buildings: Vec<BuildingType>,
}

/// What a mining action must not overflow.
pub open spec fn mine_fits(r: Resources, resource_type: ResourceType) -> bool {
    match resource_type {
        ResourceType::Gold(amount) => r.gold + amount <= u32::MAX,
        ResourceType::Wood(amount) => r.wood + amount <= u32::MAX,
    }
}

/// What an action must not overflow.
pub open spec fn action_fits(r: Resources, action: GameAction) -> bool {
    match action {
        GameAction::Mine(resource_type) => mine_fits(r, resource_type),
        GameAction::Build(_) => true,
        GameAction::Harvest => true,
    }
}

/// The resources after one action.
pub open spec fn resources_after(r: Resources, action: GameAction) -> Resources {
    match action {
        GameAction::Build(BuildingType::Farm) => if r.gold >= FARM_GOLD_PRICE && r.wood
            >= FARM_WOOD_PRICE {
            Resources {
                gold: (r.gold - FARM_GOLD_PRICE) as u32,
                wood: (r.wood - FARM_WOOD_PRICE) as u32,
                food: r.food,
            }
        } else {
            r
        },
        GameAction::Harvest => r,
        GameAction::Mine(ResourceType::Gold(amount)) => Resources {
            gold: (r.gold + amount) as u32,
            wood: r.wood,
            food: r.food,
        },
        GameAction::Mine(ResourceType::Wood(amount)) => Resources {
            gold: r.gold,
            wood: (r.wood + amount) as u32,
            food: r.food,
        },
    }
}

impl Game {
    pub fn new(end_turn: u32) -> (g: Game)
        ensures
            g.current_turn == 0,
            g.end_turn == end_turn,
            g.resources == (Resources { gold: 0, wood: 0, food: 0 }),
            g.buildings@.len() == 0,
    {
        Game {
            current_turn: 0,
            end_turn,
            resources: Resources { gold: 0, wood: 0, food: 0 },
            buildings: Vec::new(),
        }
    }

    /// Every farm produces its food at the start of the turn; nothing
    /// else moves.
    pub fn do_start_of_turn_actions(&mut self)
        requires
            old(self).resources.food + FARM_PRODUCTION * old(self).buildings@.len() <= u32::MAX,
        ensures
            final (self).resources.food == old(self).resources.food + FARM_PRODUCTION * old(
                self,
            ).buildings@.len(),
            final (self).resources.gold == old(self).resources.gold,
            final (self).resources.wood == old(self).resources.wood,
            final (self).buildings == old(self).buildings,
            final (self).current_turn == old(self).current_turn,
            final (self).end_turn == old(self).end_turn,
    {
        let n = self.buildings.len();
        let mut i: usize = 0;
        while i < n
            invariant
                old(self).resources.food + FARM_PRODUCTION * old(self).buildings@.len()
                    <= u32::MAX,
                n == old(self).buildings@.len(),
                i <= n,
                self.buildings == old(self).buildings,
                self.current_turn == old(self).current_turn,
                self.end_turn == old(self).end_turn,
                self.resources.gold == old(self).resources.gold,
                self.resources.wood == old(self).resources.wood,
                self.resources.food == old(self).resources.food + FARM_PRODUCTION * i,
            decreases n - i,
        {
            let building = &self.buildings[i];
            match building {
                BuildingType::Farm => {
                    proof {
                        assert(FARM_PRODUCTION * (i + 1) == FARM_PRODUCTION * i
                            + FARM_PRODUCTION) by (nonlinear_arith);
                        assert(FARM_PRODUCTION * (i as int) <= FARM_PRODUCTION * (n as int)
                            - FARM_PRODUCTION) by (nonlinear_arith)
                            requires
                                0 <= i < n,
                        ;
                    }
                    self.resources.food = self.resources.food + FARM_PRODUCTION;
                },
            }
            i = i + 1;
        }
    }

    /// Dispatches one action: building deducts the farm's price and
    /// adds the farm when the resources suffice and refuses otherwise,
    /// harvesting does nothing yet, mining adds the mined amount.
    pub fn do_action(&mut self, action: GameAction) -> (r: ActionOutcome)
        requires
            action_fits(old(self).resources, action),
        ensures
            final (self).resources == resources_after(old(self).resources, action),
            final (self).current_turn == old(self).current_turn,
            final (self).end_turn == old(self).end_turn,
            final (self).buildings@ == if r == ActionOutcome::Built {
                old(self).buildings@.push(BuildingType::Farm)
            } else {
                old(self).buildings@
            },
            r == ActionOutcome::Built <==> (action matches GameAction::Build(_) && old(
                self,
            ).resources.gold >= FARM_GOLD_PRICE && old(self).resources.wood >= FARM_WOOD_PRICE),
            r == ActionOutcome::RefusedBuild <==> (action matches GameAction::Build(_) && !(old(
                self,
            ).resources.gold >= FARM_GOLD_PRICE && old(self).resources.wood >= FARM_WOOD_PRICE)),
            r == ActionOutcome::Harvested <==> action == GameAction::Harvest,
            r == ActionOutcome::Mined <==> action matches GameAction::Mine(_),
    {
        match action {
            GameAction::Build(building_type) => self.do_build_action(building_type),
            GameAction::Harvest => ActionOutcome::Harvested,
            GameAction::Mine(resource_type) => {
                self.do_mine_action(resource_type);
                ActionOutcome::Mined
            },
        }
    }

    /// Builds a farm if the price is covered; refuses otherwise.
    pub fn do_build_action(&mut self, building_type: BuildingType) -> (r: ActionOutcome)
        ensures
            final (self).resources == resources_after(
                old(self).resources,
                GameAction::Build(building_type),
            ),
            final (self).current_turn == old(self).current_turn,
            final (self).end_turn == old(self).end_turn,
            r == ActionOutcome::Built <==> (old(self).resources.gold >= FARM_GOLD_PRICE && old(
                self,
            ).resources.wood >= FARM_WOOD_PRICE),
            r == ActionOutcome::Built || r == ActionOutcome::RefusedBuild,
            final (self).buildings@ == if r == ActionOutcome::Built {
                old(self).buildings@.push(BuildingType::Farm)
            } else {
                old(self).buildings@
            },
    {
        match building_type {
            BuildingType::Farm => {
                if self.resources.gold >= FARM_GOLD_PRICE && self.resources.wood
                    >= FARM_WOOD_PRICE {
                    self.resources.gold = self.resources.gold - FARM_GOLD_PRICE;
                    self.resources.wood = self.resources.wood - FARM_WOOD_PRICE;
                    self.buildings.push(building_type);
                    ActionOutcome::Built
                } else {
                    ActionOutcome::RefusedBuild
                }
            },
        }
    }

    /// Adds the mined amount to the chosen resource.
    pub fn do_mine_action(&mut self, resource_type: ResourceType)
        requires
            mine_fits(old(self).resources, resource_type),
        ensures
            final (self).resources == resources_after(
                old(self).resources,
                GameAction::Mine(resource_type),
            ),
            final (self).buildings == old(self).buildings,
            final (self).current_turn == old(self).current_turn,
            final (self).end_turn == old(self).end_turn,
    {
        match resource_type {
            ResourceType::Gold(amount) => {
                self.resources.gold = self.resources.gold + amount;
            },
            ResourceType::Wood(amount) => {
                self.resources.wood = self.resources.wood + amount;
            },
        }
    }

    /// Whether the game is over.
    pub fn is_finished(&self) -> (r: bool)
        ensures
            r == (self.current_turn >= self.end_turn),
    {
        self.current_turn >= self.end_turn
    }

    /// One turn has been played.
    pub fn advance_turn(&mut self)
        requires
            old(self).current_turn < old(self).end_turn,
        ensures
            final (self).current_turn == old(self).current_turn + 1,
            final (self).end_turn == old(self).end_turn,
            final (self).resources == old(self).resources,
            final (self).buildings == old(self).buildings,
    {
        self.current_turn = self.current_turn + 1;
    }
}

/// The three entries of the main menu.
#[derive(Clone, Copy, PartialEq, Eq, Structural, Debug)]
pub enum MenuKind {
    Build,
    Harvest,
    Mine,
}

/// The main menu: build, harvest or mine; anything else is asked
/// again.
pub fn menu_from_choice(n: u32) -> (r: Option<MenuKind>)
    ensures
        r == (match n {
            1 => Some(MenuKind::Build),
            2 => Some(MenuKind::Harvest),
            3 => Some(MenuKind::Mine),
            _ => None::<MenuKind>,
        }),
{
    match n {
        1 => Some(MenuKind::Build),
        2 => Some(MenuKind::Harvest),
        3 => Some(MenuKind::Mine),
        _ => None,
    }
}

/// The build menu: entry 1 is the farm, anything else is asked again.
pub fn building_from_choice(n: u32) -> (r: Option<BuildingType>)
    ensures
        r == if n == 1 {
            Some(BuildingType::Farm)
        } else {
            None::<BuildingType>
        },
{
    if n == 1 {
        Some(BuildingType::Farm)
    } else {
        None
    }
}

/// The mine menu: entry 1 mines gold, entry 2 mines wood, both the
/// fixed yield; anything else is asked again.
pub fn resource_from_choice(n: u32) -> (r: Option<ResourceType>)
    ensures
        r == (match n {
            1 => Some(ResourceType::Gold(MINE_YIELD)),
            2 => Some(ResourceType::Wood(MINE_YIELD)),
            _ => None::<ResourceType>,
        }),
{
    match n {
        1 => Some(ResourceType::Gold(MINE_YIELD)),
        2 => Some(ResourceType::Wood(MINE_YIELD)),
        _ => None,
    }
}

} // verus!
