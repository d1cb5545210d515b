//! Unit classes with their stat tables, the actions of a unit, and units.

use vstd::prelude::*;
use crate::constants::{PLACEHOLDER, UNIT_DEFAULT_SIZE, UNIT_SCALE};
use crate::map::Lane;
use crate::player::{Boost, Player};
use crate::random::choose_lane;
use crate::settings::PlayerColor;

verus! {

/// How a projectile flies.
#[derive(Clone, Copy, Debug, PartialEq, Eq, Structural)]
pub enum ProjectileMode {
    /// Along an arc; the projectile sticks in the ground where it lands.
    Parabolic,
    /// Along the straight line to its destination.
    Straight,
}

/// The kinds of projectile that ranged classes launch.
#[derive(Clone, Copy, Debug, PartialEq, Eq, Structural)]
pub enum Projectile {
    Arrow,
    Harpoon,
}

impl Projectile {
    /// How this kind of projectile flies.
    pub open spec fn spec_mode(&self) -> ProjectileMode {
        match self {
            Projectile::Arrow => ProjectileMode::Parabolic,
            Projectile::Harpoon => ProjectileMode::Straight,
        }
    }

    /// How this kind of projectile flies.
    #[verifier::when_used_as_spec(spec_mode)]
    pub fn mode(&self) -> (mode: ProjectileMode)
        ensures
            mode == self.spec_mode(),
    {
        match self {
            Projectile::Arrow => ProjectileMode::Parabolic,
            Projectile::Harpoon => ProjectileMode::Straight,
        }
    }
}

/// The four kinds of action, without a target.
#[derive(Clone, Copy, Debug, PartialEq, Eq, Structural)]
pub enum ActionKind {
    Idle,
    Run,
    Attack,
    Heal,
}

/// What a unit is doing. `Attack` and `Heal` carry the identity of the
/// target, which may have left the world since the action began.
#[derive(Clone, Copy, Debug, PartialEq, Eq, Structural)]
pub enum Action {
    Idle,
    Run,
    Attack(u64),
    Heal(u64),
}

impl Default for Action {
    fn default() -> (action: Action)
        ensures
            action == Action::Idle,
    {
        Action::Idle
    }
}

impl ActionKind {
    /// The four kinds, in declaration order.
    pub fn all() -> (kinds: Vec<ActionKind>)
        ensures
            kinds@ == seq![ActionKind::Idle, ActionKind::Run, ActionKind::Attack, ActionKind::Heal],
    {
        let mut kinds: Vec<ActionKind> = Vec::new();
        kinds.push(ActionKind::Idle);
        kinds.push(ActionKind::Run);
        kinds.push(ActionKind::Attack);
        kinds.push(ActionKind::Heal);
        assert(kinds@ =~= seq![
            ActionKind::Idle,
            ActionKind::Run,
            ActionKind::Attack,
            ActionKind::Heal,
        ]);
        kinds
    }

    /// The action of this kind, aimed at the placeholder identity where the
    /// kind has a target.
    pub fn to_action(self) -> (action: Action)
        ensures
            action.spec_kind() == self,
            action.spec_target() is Some ==> action.spec_target() == Some(PLACEHOLDER),
    {
        match self {
            ActionKind::Idle => Action::Idle,
            ActionKind::Run => Action::Run,
            ActionKind::Attack => Action::Attack(PLACEHOLDER),
            ActionKind::Heal => Action::Heal(PLACEHOLDER),
        }
    }
}

impl Action {
    /// The kind of the action.
    pub open spec fn spec_kind(&self) -> ActionKind {
        match self {
            Action::Idle => ActionKind::Idle,
            Action::Run => ActionKind::Run,
            Action::Attack(_) => ActionKind::Attack,
            Action::Heal(_) => ActionKind::Heal,
        }
    }

    /// The target of an `Attack` or `Heal`.
    pub open spec fn spec_target(&self) -> Option<u64> {
        match self {
            Action::Attack(target) => Some(*target),
            Action::Heal(target) => Some(*target),
            _ => None,
        }
    }

    /// Whether a unit with this action takes part in movement: `Idle` and
    /// `Run` do, `Attack` and `Heal` hold the unit in place.
    pub open spec fn spec_is_mobile(&self) -> bool {
        *self is Idle || *self is Run
    }

    /// The kind of the action.
    #[verifier::when_used_as_spec(spec_kind)]
    pub fn kind(&self) -> (kind: ActionKind)
        ensures
            kind == self.spec_kind(),
    {
        match self {
            Action::Idle => ActionKind::Idle,
            Action::Run => ActionKind::Run,
            Action::Attack(_) => ActionKind::Attack,
            Action::Heal(_) => ActionKind::Heal,
        }
    }

    /// The target of an `Attack` or `Heal`.
    #[verifier::when_used_as_spec(spec_target)]
    pub fn target(&self) -> (target: Option<u64>)
        ensures
            target == self.spec_target(),
    {
        match self {
            Action::Attack(target) => Some(*target),
            Action::Heal(target) => Some(*target),
            _ => None,
        }
    }

    /// Whether a unit with this action takes part in movement.
    #[verifier::when_used_as_spec(spec_is_mobile)]
    pub fn is_mobile(&self) -> (mobile: bool)
        ensures
            mobile == self.spec_is_mobile(),
    {
        match self {
            Action::Idle => true,
            Action::Run => true,
            _ => false,
        }
    }
}

/// The classes of unit.
#[derive(Clone, Copy, Debug, PartialEq, Eq, Hash, Structural)]
pub enum UnitName {
    Warrior,
    Lancer,
    Archer,
    Priest,
    Hammerhead,
    Shark,
    Skull,
    Turtle,
}

impl Default for UnitName {
    fn default() -> (name: UnitName)
        ensures
            name == UnitName::Warrior,
    {
        UnitName::Warrior
    }
}

impl UnitName {
    /// Every class, in declaration order.
    pub fn all() -> (names: Vec<UnitName>)
        ensures
            names@ == seq![
                UnitName::Warrior,
                UnitName::Lancer,
                UnitName::Archer,
                UnitName::Priest,
                UnitName::Hammerhead,
                UnitName::Shark,
                UnitName::Skull,
                UnitName::Turtle,
            ],
    {
        let mut names: Vec<UnitName> = Vec::new();
        names.push(UnitName::Warrior);
        names.push(UnitName::Lancer);
        names.push(UnitName::Archer);
        names.push(UnitName::Priest);
        names.push(UnitName::Hammerhead);
        names.push(UnitName::Shark);
        names.push(UnitName::Skull);
        names.push(UnitName::Turtle);
        assert(names@ =~= seq![
            UnitName::Warrior,
            UnitName::Lancer,
            UnitName::Archer,
            UnitName::Priest,
            UnitName::Hammerhead,
            UnitName::Shark,
            UnitName::Skull,
            UnitName::Turtle,
        ]);
        names
    }

    /// The text that introduces the class to the player.
    pub open spec fn spec_description(&self) -> Seq<char> {
        match self {
            UnitName::Warrior => {
                "The warrior is a balanced front-line fighter with solid health and damage. With moderate speed and close-range attacks, warriors excel at holding the line and engaging enemies in direct combat."@
            },
            UnitName::Lancer => {
                "Lancers are swift and deadly units with. They sacrifice some durability for superior speed and reduced spawning times, making them excellent for quick strikes against enemy formations."@
            },
            UnitName::Archer => {
                "Archers have low health and damage, but shoot fast arrows at enemies at a distance. Their exceptional range allows them to harass foes from safety, though they're vulnerable in close combat."@
            },
            UnitName::Priest => {
                "Priests heal damaged units over a range. A priest cannot heal himself. These fragile support units are slow-moving and defenseless, but their powerful healing can turn the tide of battle. Priests do not attack."@
            },
            UnitName::Hammerhead => {
                "A magical sea creature that strikes with a heavy oar, as surprising as it is lethal."@
            },
            UnitName::Shark => {
                "A long-range magical predator that launches harpoons with deadly precision."@
            },
            UnitName::Skull => {
                "Skulls are fragile units used primarily as fodder or to overwhelm enemies with in huge numbers."@
            },
            UnitName::Turtle => {
                "Turtles are slow and have low damage, but are incredibly resilient. Their high armor and magic resist make them the perfect units to block a path."@
            },
        }
    }

    /// The text that introduces the class to the player.
    pub fn description(&self) -> (text: &'static str)
        ensures
            text@ == self.spec_description(),
    {
        match self {
            UnitName::Warrior => {
                "The warrior is a balanced front-line fighter with solid health and damage. With moderate speed and close-range attacks, warriors excel at holding the line and engaging enemies in direct combat."
            },
            UnitName::Lancer => {
                "Lancers are swift and deadly units with. They sacrifice some durability for superior speed and reduced spawning times, making them excellent for quick strikes against enemy formations."
            },
            UnitName::Archer => {
                "Archers have low health and damage, but shoot fast arrows at enemies at a distance. Their exceptional range allows them to harass foes from safety, though they're vulnerable in close combat."
            },
            UnitName::Priest => {
                "Priests heal damaged units over a range. A priest cannot heal himself. These fragile support units are slow-moving and defenseless, but their powerful healing can turn the tide of battle. Priests do not attack."
            },
            UnitName::Hammerhead => {
                "A magical sea creature that strikes with a heavy oar, as surprising as it is lethal."
            },
            UnitName::Shark => {
                "A long-range magical predator that launches harpoons with deadly precision."
            },
            UnitName::Skull => {
                "Skulls are fragile units used primarily as fodder or to overwhelm enemies with in huge numbers."
            },
            UnitName::Turtle => {
                "Turtles are slow and have low damage, but are incredibly resilient. Their high armor and magic resist make them the perfect units to block a path."
            },
        }
    }

    /// The letter of the key that queues a unit of this class.
    pub open spec fn spec_key(&self) -> char {
        match self {
            UnitName::Warrior => 'Z',
            UnitName::Lancer => 'X',
            UnitName::Archer => 'C',
            UnitName::Priest => 'V',
            _ => 'B',
        }
    }

    /// The letter of the key that queues a unit of this class.
    #[verifier::when_used_as_spec(spec_key)]
    pub fn key(&self) -> (letter: char)
        ensures
            letter == self.spec_key(),
    {
        match self {
            UnitName::Warrior => 'Z',
            UnitName::Lancer => 'X',
            UnitName::Archer => 'C',
            UnitName::Priest => 'V',
            _ => 'B',
        }
    }

    /// Edge of the square sprite, in world units.
    pub open spec fn spec_size(&self) -> u32 {
        match self {
            UnitName::Lancer => 320,
            UnitName::Turtle => 320,
            _ => UNIT_DEFAULT_SIZE,
        }
    }

    /// Edge of the square sprite, in world units.
    #[verifier::when_used_as_spec(spec_size)]
    pub fn size(&self) -> (edge: u32)
        ensures
            edge == self.spec_size(),
    {
        match self {
            UnitName::Lancer => 320,
            UnitName::Turtle => 320,
            _ => UNIT_DEFAULT_SIZE,
        }
    }

    /// Edge of the unit as it stands in the world, in thousandths of a world
    /// unit: the sprite edge times `UNIT_SCALE`.
    pub open spec fn spec_world_size(&self) -> i64 {
        (self.spec_size() * UNIT_SCALE) as i64
    }

    /// Edge of the unit as it stands in the world, in thousandths of a world
    /// unit.
    #[verifier::when_used_as_spec(spec_world_size)]
    pub fn world_size(&self) -> (edge: i64)
        ensures
            edge == self.spec_world_size(),
            edge == 96_000 || edge == 160_000,
    {
        (self.size() as i64) * UNIT_SCALE
    }

    /// Whether the class has an animation for actions of kind `kind`:
    /// healers heal and do not attack, all others attack and do not heal.
    pub open spec fn animates(&self, kind: ActionKind) -> bool {
        match kind {
            ActionKind::Idle => true,
            ActionKind::Run => true,
            ActionKind::Attack => *self != UnitName::Priest,
            ActionKind::Heal => *self == UnitName::Priest,
        }
    }

    /// Number of frames in the animation of an action the class can take.
    pub open spec fn spec_frames(&self, kind: ActionKind) -> u32 {
        match self {
            UnitName::Warrior => match kind {
                ActionKind::Idle => 8,
                ActionKind::Run => 6,
                _ => 8,
            },
            UnitName::Lancer => match kind {
                ActionKind::Idle => 12,
                ActionKind::Run => 6,
                _ => 9,
            },
            UnitName::Archer => match kind {
                ActionKind::Idle => 6,
                ActionKind::Run => 4,
                _ => 6,
            },
            UnitName::Priest => match kind {
                ActionKind::Idle => 6,
                ActionKind::Run => 4,
                _ => 11,
            },
            UnitName::Hammerhead => match kind {
                ActionKind::Idle => 8,
                ActionKind::Run => 6,
                _ => 6,
            },
            UnitName::Shark => match kind {
                ActionKind::Idle => 8,
                ActionKind::Run => 6,
                _ => 4,
            },
            UnitName::Skull => match kind {
                ActionKind::Idle => 8,
                ActionKind::Run => 6,
                _ => 7,
            },
            UnitName::Turtle => match kind {
                ActionKind::Idle => 10,
                ActionKind::Run => 7,
                _ => 10,
            },
        }
    }

    /// Number of frames in the animation of `action`, which must be one the
    /// class can take.
    pub fn frames(&self, action: Action) -> (count: u32)
        requires
            self.animates(action.spec_kind()),
        ensures
            count == self.spec_frames(action.spec_kind()),
            count > 0,
    {
        match self {
            UnitName::Warrior => match action {
                Action::Idle => 8,
                Action::Run => 6,
                _ => 8,
            },
            UnitName::Lancer => match action {
                Action::Idle => 12,
                Action::Run => 6,
                _ => 9,
            },
            UnitName::Archer => match action {
                Action::Idle => 6,
                Action::Run => 4,
                _ => 6,
            },
            UnitName::Priest => match action {
                Action::Idle => 6,
                Action::Run => 4,
                _ => 11,
            },
            UnitName::Hammerhead => match action {
                Action::Idle => 8,
                Action::Run => 6,
                _ => 6,
            },
            UnitName::Shark => match action {
                Action::Idle => 8,
                Action::Run => 6,
                _ => 4,
            },
            UnitName::Skull => match action {
                Action::Idle => 8,
                Action::Run => 6,
                _ => 7,
            },
            UnitName::Turtle => match action {
                Action::Idle => 10,
                Action::Run => 7,
                _ => 10,
            },
        }
    }

    /// Whether the class is one of the four that every player starts with.
    pub open spec fn spec_is_basic_unit(self) -> bool {
        self == UnitName::Warrior || self == UnitName::Lancer || self == UnitName::Archer || self
            == UnitName::Priest
    }

    /// Whether the class is one of the four that every player starts with.
    #[verifier::when_used_as_spec(spec_is_basic_unit)]
    pub fn is_basic_unit(self) -> (basic: bool)
        ensures
            basic == self.spec_is_basic_unit(),
    {
        match self {
            UnitName::Warrior => true,
            UnitName::Lancer => true,
            UnitName::Archer => true,
            UnitName::Priest => true,
            _ => false,
        }
    }

    /// Whether units of the class attack. Healers do not.
    pub open spec fn spec_can_attack(&self) -> bool {
        *self != UnitName::Priest
    }

    /// Whether units of the class attack. Healers do not.
    #[verifier::when_used_as_spec(spec_can_attack)]
    pub fn can_attack(&self) -> (attacks: bool)
        ensures
            attacks == self.spec_can_attack(),
    {
        match self {
            UnitName::Priest => false,
            _ => true,
        }
    }

    /// Whether the class acts at touching distance: every class with a range
    /// of one, and the healer.
    pub open spec fn spec_is_melee(&self) -> bool {
        self.spec_range() == 1000 || *self == UnitName::Priest
    }

    /// Whether the class acts at touching distance.
    #[verifier::when_used_as_spec(spec_is_melee)]
    pub fn is_melee(&self) -> (melee: bool)
        ensures
            melee == self.spec_is_melee(),
    {
        self.range() == 1000 || match self {
            UnitName::Priest => true,
            _ => false,
        }
    }

    /// Time needed to produce one unit of the class, in milliseconds.
    pub open spec fn spec_spawn_duration(&self) -> u64 {
        match self {
            UnitName::Warrior => 2500,
            UnitName::Lancer => 1800,
            UnitName::Archer => 3300,
            UnitName::Priest => 3400,
            UnitName::Hammerhead => 1900,
            UnitName::Shark => 3500,
            UnitName::Skull => 800,
            UnitName::Turtle => 7500,
        }
    }

    /// Time needed to produce one unit of the class, in milliseconds.
    #[verifier::when_used_as_spec(spec_spawn_duration)]
    pub fn spawn_duration(&self) -> (value: u64)
        ensures
            value == self.spec_spawn_duration(),
            0 < value <= 7500,
    {
        match self {
            UnitName::Warrior => 2500,
            UnitName::Lancer => 1800,
            UnitName::Archer => 3300,
            UnitName::Priest => 3400,
            UnitName::Hammerhead => 1900,
            UnitName::Shark => 3500,
            UnitName::Skull => 800,
            UnitName::Turtle => 7500,
        }
    }

    /// Walking speed, in world units per second.
    pub open spec fn spec_speed(&self) -> u32 {
        match self {
            UnitName::Warrior => 30,
            UnitName::Lancer => 35,
            UnitName::Archer => 25,
            UnitName::Priest => 25,
            UnitName::Hammerhead => 35,
            UnitName::Shark => 25,
            UnitName::Skull => 40,
            UnitName::Turtle => 15,
        }
    }

    /// Walking speed, in world units per second.
    #[verifier::when_used_as_spec(spec_speed)]
    pub fn speed(&self) -> (value: u32)
        ensures
            value == self.spec_speed(),
            0 < value <= 40,
    {
        match self {
            UnitName::Warrior => 30,
            UnitName::Lancer => 35,
            UnitName::Archer => 25,
            UnitName::Priest => 25,
            UnitName::Hammerhead => 35,
            UnitName::Shark => 25,
            UnitName::Skull => 40,
            UnitName::Turtle => 15,
        }
    }

    /// Reach in thousandths of `RADIUS`.
    pub open spec fn spec_range(&self) -> u32 {
        match self {
            UnitName::Warrior => 1000,
            UnitName::Lancer => 1000,
            UnitName::Archer => 3000,
            UnitName::Priest => 3000,
            UnitName::Hammerhead => 1000,
            UnitName::Shark => 3000,
            UnitName::Skull => 1000,
            UnitName::Turtle => 1000,
        }
    }

    /// Reach in thousandths of `RADIUS`.
    #[verifier::when_used_as_spec(spec_range)]
    pub fn range(&self) -> (value: u32)
        ensures
            value == self.spec_range(),
            value == 1000 || value == 3000,
    {
        match self {
            UnitName::Warrior => 1000,
            UnitName::Lancer => 1000,
            UnitName::Archer => 3000,
            UnitName::Priest => 3000,
            UnitName::Hammerhead => 1000,
            UnitName::Shark => 3000,
            UnitName::Skull => 1000,
            UnitName::Turtle => 1000,
        }
    }

    /// The projectile that the class launches, if it fights at a distance.
    pub open spec fn spec_projectile(&self) -> Option<Projectile> {
        match self {
            UnitName::Archer => Some(Projectile::Arrow),
            UnitName::Shark => Some(Projectile::Harpoon),
            _ => None,
        }
    }

    /// The projectile that the class launches, if it fights at a distance.
    #[verifier::when_used_as_spec(spec_projectile)]
    pub fn projectile(&self) -> (projectile: Option<Projectile>)
        ensures
            projectile == self.spec_projectile(),
    {
        match self {
            UnitName::Archer => Some(Projectile::Arrow),
            UnitName::Shark => Some(Projectile::Harpoon),
            _ => None,
        }
    }

    /// Health of a fresh unit, which is also the most it can have.
    pub open spec fn spec_health(&self) -> u32 {
        match self {
            UnitName::Warrior => 130,
            UnitName::Lancer => 100,
            UnitName::Archer => 60,
            UnitName::Priest => 40,
            UnitName::Hammerhead => 100,
            UnitName::Shark => 60,
            UnitName::Skull => 60,
            UnitName::Turtle => 350,
        }
    }

    /// Health of a fresh unit, which is also the most it can have.
    #[verifier::when_used_as_spec(spec_health)]
    pub fn health(&self) -> (value: u32)
        ensures
            value == self.spec_health(),
            0 < value <= 350,
    {
        match self {
            UnitName::Warrior => 130,
            UnitName::Lancer => 100,
            UnitName::Archer => 60,
            UnitName::Priest => 40,
            UnitName::Hammerhead => 100,
            UnitName::Shark => 60,
            UnitName::Skull => 60,
            UnitName::Turtle => 350,
        }
    }

    /// Physical damage of one blow. The healer's is negative: the health it gives back.
    pub open spec fn spec_physical_damage(&self) -> i32 {
        match self {
            UnitName::Warrior => 15,
            UnitName::Lancer => 15,
            UnitName::Archer => 10,
            UnitName::Priest => (-30i32) as i32,
            UnitName::Hammerhead => 0,
            UnitName::Shark => 0,
            UnitName::Skull => 8,
            UnitName::Turtle => 5,
        }
    }

    /// Physical damage of one blow. The healer's is negative: the health it gives back.
    #[verifier::when_used_as_spec(spec_physical_damage)]
    pub fn physical_damage(&self) -> (value: i32)
        ensures
            value == self.spec_physical_damage(),
    {
        match self {
            UnitName::Warrior => 15,
            UnitName::Lancer => 15,
            UnitName::Archer => 10,
            UnitName::Priest => (-30i32) as i32,
            UnitName::Hammerhead => 0,
            UnitName::Shark => 0,
            UnitName::Skull => 8,
            UnitName::Turtle => 5,
        }
    }

    /// Magic damage of one blow.
    pub open spec fn spec_magic_damage(&self) -> i32 {
        match self {
            UnitName::Warrior => 0,
            UnitName::Lancer => 0,
            UnitName::Archer => 0,
            UnitName::Priest => 0,
            UnitName::Hammerhead => 15,
            UnitName::Shark => 10,
            UnitName::Skull => 2,
            UnitName::Turtle => 5,
        }
    }

    /// Magic damage of one blow.
    #[verifier::when_used_as_spec(spec_magic_damage)]
    pub fn magic_damage(&self) -> (value: i32)
        ensures
            value == self.spec_magic_damage(),
    {
        match self {
            UnitName::Warrior => 0,
            UnitName::Lancer => 0,
            UnitName::Archer => 0,
            UnitName::Priest => 0,
            UnitName::Hammerhead => 15,
            UnitName::Shark => 10,
            UnitName::Skull => 2,
            UnitName::Turtle => 5,
        }
    }

    /// Protection against physical damage.
    pub open spec fn spec_armor(&self) -> u32 {
        match self {
            UnitName::Warrior => 5,
            UnitName::Lancer => 3,
            UnitName::Archer => 1,
            UnitName::Priest => 0,
            UnitName::Hammerhead => 3,
            UnitName::Shark => 0,
            UnitName::Skull => 0,
            UnitName::Turtle => 20,
        }
    }

    /// Protection against physical damage.
    #[verifier::when_used_as_spec(spec_armor)]
    pub fn armor(&self) -> (value: u32)
        ensures
            value == self.spec_armor(),
    {
        match self {
            UnitName::Warrior => 5,
            UnitName::Lancer => 3,
            UnitName::Archer => 1,
            UnitName::Priest => 0,
            UnitName::Hammerhead => 3,
            UnitName::Shark => 0,
            UnitName::Skull => 0,
            UnitName::Turtle => 20,
        }
    }

    /// Protection against magic damage.
    pub open spec fn spec_magic_resist(&self) -> u32 {
        match self {
            UnitName::Warrior => 3,
            UnitName::Lancer => 3,
            UnitName::Archer => 0,
            UnitName::Priest => 12,
            UnitName::Hammerhead => 7,
            UnitName::Shark => 2,
            UnitName::Skull => 0,
            UnitName::Turtle => 20,
        }
    }

    /// Protection against magic damage.
    #[verifier::when_used_as_spec(spec_magic_resist)]
    pub fn magic_resist(&self) -> (value: u32)
        ensures
            value == self.spec_magic_resist(),
    {
        match self {
            UnitName::Warrior => 3,
            UnitName::Lancer => 3,
            UnitName::Archer => 0,
            UnitName::Priest => 12,
            UnitName::Hammerhead => 7,
            UnitName::Shark => 2,
            UnitName::Skull => 0,
            UnitName::Turtle => 20,
        }
    }

    /// Armor of the target that a blow ignores.
    pub open spec fn spec_armor_pen(&self) -> u32 {
        match self {
            UnitName::Warrior => 5,
            UnitName::Lancer => 8,
            UnitName::Archer => 2,
            UnitName::Priest => 0,
            UnitName::Hammerhead => 8,
            UnitName::Shark => 5,
            UnitName::Skull => 0,
            UnitName::Turtle => 0,
        }
    }

    /// Armor of the target that a blow ignores.
    #[verifier::when_used_as_spec(spec_armor_pen)]
    pub fn armor_pen(&self) -> (value: u32)
        ensures
            value == self.spec_armor_pen(),
    {
        match self {
            UnitName::Warrior => 5,
            UnitName::Lancer => 8,
            UnitName::Archer => 2,
            UnitName::Priest => 0,
            UnitName::Hammerhead => 8,
            UnitName::Shark => 5,
            UnitName::Skull => 0,
            UnitName::Turtle => 0,
        }
    }

    /// Magic resistance of the target that a blow ignores.
    pub open spec fn spec_magic_pen(&self) -> u32 {
        match self {
            UnitName::Warrior => 0,
            UnitName::Lancer => 0,
            UnitName::Archer => 0,
            UnitName::Priest => 0,
            UnitName::Hammerhead => 8,
            UnitName::Shark => 5,
            UnitName::Skull => 0,
            UnitName::Turtle => 0,
        }
    }

    /// Magic resistance of the target that a blow ignores.
    #[verifier::when_used_as_spec(spec_magic_pen)]
    pub fn magic_pen(&self) -> (value: u32)
        ensures
            value == self.spec_magic_pen(),
    {
        match self {
            UnitName::Warrior => 0,
            UnitName::Lancer => 0,
            UnitName::Archer => 0,
            UnitName::Priest => 0,
            UnitName::Hammerhead => 8,
            UnitName::Shark => 5,
            UnitName::Skull => 0,
            UnitName::Turtle => 0,
        }
    }

    /// What one completed blow takes from the target's health: physical and
    /// magic damage together. Negative for the healer.
    pub open spec fn spec_damage(&self) -> i32 {
        (self.spec_physical_damage() + self.spec_magic_damage()) as i32
    }

    /// What one completed blow takes from the target's health.
    #[verifier::when_used_as_spec(spec_damage)]
    pub fn damage(&self) -> (value: i32)
        ensures
            value == self.spec_damage(),
            -30 <= value <= 15,
    {
        self.physical_damage() + self.magic_damage()
    }
}

/// A unit on the battlefield. Its health never exceeds that of its class.
#[derive(Clone, Copy, Debug, PartialEq, Eq, Structural)]
pub struct Unit {
    pub name: UnitName,
    pub color: PlayerColor,
    pub action: Action,
    pub health: u32,
    pub lane: Lane,
    pub on_building: Option<u64>,
}

impl Unit {
    /// The health lies between zero and the health of the class.
    pub open spec fn wf(&self) -> bool {
        self.health <= self.name.spec_health()
    }

    /// Reach of the unit in thousandths of `RADIUS`: that of its class,
    /// doubled on a building, and half as much again for an archer whose
    /// team has the longbow boost.
    pub open spec fn spec_range(&self, longbow: bool) -> u32 {
        let base = if self.on_building is Some {
            2 * self.name.spec_range()
        } else {
            self.name.spec_range() as int
        };
        if self.name == UnitName::Archer && longbow {
            (base * 3 / 2) as u32
        } else {
            base as u32
        }
    }

    /// A fresh unit of class `name` with full health and nothing to do.
    pub fn with_lane(
        name: UnitName,
        color: PlayerColor,
        lane: Lane,
        on_building: Option<u64>,
    ) -> (unit: Unit)
        ensures
            unit == (Unit {
                name,
                color,
                action: Action::Idle,
                health: name.spec_health(),
                lane,
                on_building,
            }),
            unit.wf(),
    {
        Unit { name, color, action: Action::Idle, health: name.health(), lane, on_building }
    }

    /// A fresh unit of class `name` for `player`. Without a given lane the
    /// unit gets one of the lanes of the player's direction, picked at
    /// random.
    pub fn new(name: UnitName, player: &Player, lane: Option<Lane>, on_building: Option<u64>) -> (unit:
        Unit)
        ensures
            unit.name == name,
            unit.color == player.color,
            unit.action == Action::Idle,
            unit.health == name.spec_health(),
            unit.on_building == on_building,
            lane is Some ==> unit.lane == lane->0,
            lane is None ==> player.direction.spec_lanes().contains(unit.lane),
            unit.wf(),
    {
        let lane: Lane = match lane {
            Some(lane) => lane,
            None => {
                let lanes: Vec<Lane> = player.direction.lanes();
                match choose_lane(&lanes) {
                    Some(picked) => picked,
                    None => Lane::Mid,
                }
            },
        };
        Unit::with_lane(name, player.color, lane, on_building)
    }

    /// Reach of the unit in thousandths of `RADIUS`.
    pub fn range(&self, player: &Player) -> (reach: u32)
        ensures
            reach == self.spec_range(player.boosts.spec_has(Boost::Longbow)),
            1000 <= reach <= 9000,
    {
        let base: u32 = if self.on_building.is_some() {
            2 * self.name.range()
        } else {
            self.name.range()
        };
        let archer: bool = match self.name {
            UnitName::Archer => true,
            _ => false,
        };
        if archer && player.has_boost(Boost::Longbow) {
            base * 3 / 2
        } else {
            base
        }
    }

    /// Whether the unit is missing health.
    pub fn is_hurt(&self) -> (hurt: bool)
        ensures
            hurt == (self.health < self.name.spec_health()),
    {
        self.health < self.name.health()
    }
}

} // verus!
