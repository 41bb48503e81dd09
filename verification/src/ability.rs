//! Abilities: the slots that a character's abilities are bound to, the
//! stances that they may ask for, and what they are capable of.

use vstd::prelude::*;

verus! {

/// The inputs that an ability can be bound to.
#[derive(Clone, Copy, Debug, PartialEq, Eq, Structural)]
pub enum AbilityInput {
    Guard,
    Primary,
    Secondary,
    Movement,
    Auxiliary(usize),
}

/// Where an ability comes from.
#[derive(Clone, Copy, Debug, PartialEq, Eq, Structural)]
pub enum Ability {
    ToolGuard,
    ToolPrimary,
    ToolSecondary,
    SpeciesMovement,
    MainWeaponAux(usize),
    OffWeaponAux(usize),
    Empty,
}

impl Ability {
    /// Whether the ability comes from a tool.
    pub open spec fn from_tool_spec(self) -> bool {
        match self {
            Ability::SpeciesMovement | Ability::Empty => false,
            _ => true,
        }
    }

    /// Whether the ability comes from a tool.
    pub fn is_from_tool(&self) -> (b: bool)
        ensures
            b == self.from_tool_spec(),
    {
        match self {
            Ability::ToolPrimary => true,
            Ability::ToolSecondary => true,
            Ability::MainWeaponAux(_) => true,
            Ability::OffWeaponAux(_) => true,
            Ability::ToolGuard => true,
            Ability::SpeciesMovement => false,
            Ability::Empty => false,
        }
    }
}

/// What the guard input is bound to.
#[derive(Clone, Copy, Debug, PartialEq, Eq, Structural)]
pub enum GuardAbility {
    Tool,
    Empty,
}

impl From<GuardAbility> for Ability {
    fn from(guard: GuardAbility) -> (a: Self) {
        match guard {
            GuardAbility::Tool => Ability::ToolGuard,
            GuardAbility::Empty => Ability::Empty,
        }
    }
}

impl vstd::std_specs::convert::FromSpecImpl<GuardAbility> for Ability {
    open spec fn obeys_from_spec() -> bool {
        true
    }

    open spec fn from_spec(guard: GuardAbility) -> Self {
        match guard {
            GuardAbility::Tool => Ability::ToolGuard,
            GuardAbility::Empty => Ability::Empty,
        }
    }
}

/// The place of an ability among those that a context chooses from.
#[derive(Clone, Copy, Debug, PartialEq, Eq, Structural)]
pub struct ContextualIndex(pub usize);

/// An ability, and which of its forms is meant.
#[derive(Clone, Copy, Debug, PartialEq, Eq, Structural)]
pub struct SpecifiedAbility {
    pub ability: Ability,
    pub context_index: Option<ContextualIndex>,
}

/// What the primary input is bound to.
#[derive(Clone, Copy, Debug, PartialEq, Eq, Structural)]
pub enum PrimaryAbility {
    Tool,
    Empty,
}

impl From<PrimaryAbility> for Ability {
    fn from(primary: PrimaryAbility) -> (a: Self) {
        match primary {
            PrimaryAbility::Tool => Ability::ToolPrimary,
            PrimaryAbility::Empty => Ability::Empty,
        }
    }
}

impl vstd::std_specs::convert::FromSpecImpl<PrimaryAbility> for Ability {
    open spec fn obeys_from_spec() -> bool {
        true
    }

    open spec fn from_spec(primary: PrimaryAbility) -> Self {
        match primary {
            PrimaryAbility::Tool => Ability::ToolPrimary,
            PrimaryAbility::Empty => Ability::Empty,
        }
    }
}

/// What the secondary input is bound to.
#[derive(Clone, Copy, Debug, PartialEq, Eq, Structural)]
pub enum SecondaryAbility {
    Tool,
    Empty,
}

impl From<SecondaryAbility> for Ability {
    fn from(secondary: SecondaryAbility) -> (a: Self) {
        match secondary {
            SecondaryAbility::Tool => Ability::ToolSecondary,
            SecondaryAbility::Empty => Ability::Empty,
        }
    }
}

impl vstd::std_specs::convert::FromSpecImpl<SecondaryAbility> for Ability {
    open spec fn obeys_from_spec() -> bool {
        true
    }

    open spec fn from_spec(secondary: SecondaryAbility) -> Self {
        match secondary {
            SecondaryAbility::Tool => Ability::ToolSecondary,
            SecondaryAbility::Empty => Ability::Empty,
        }
    }
}

/// What the movement input is bound to.
#[derive(Clone, Copy, Debug, PartialEq, Eq, Structural)]
pub enum MovementAbility {
    Species,
    Empty,
}

impl From<MovementAbility> for Ability {
    fn from(movement: MovementAbility) -> (a: Self) {
        match movement {
            MovementAbility::Species => Ability::SpeciesMovement,
            MovementAbility::Empty => Ability::Empty,
        }
    }
}

impl vstd::std_specs::convert::FromSpecImpl<MovementAbility> for Ability {
    open spec fn obeys_from_spec() -> bool {
        true
    }

    open spec fn from_spec(movement: MovementAbility) -> Self {
        match movement {
            MovementAbility::Species => Ability::SpeciesMovement,
            MovementAbility::Empty => Ability::Empty,
        }
    }
}

/// What an auxiliary input is bound to.
#[derive(Clone, Copy, Debug, PartialEq, Eq, Structural)]
pub enum AuxiliaryAbility {
    MainWeapon(usize),
    OffWeapon(usize),
    Empty,
}

impl From<AuxiliaryAbility> for Ability {
    fn from(auxiliary: AuxiliaryAbility) -> (a: Self) {
        match auxiliary {
            AuxiliaryAbility::MainWeapon(i) => Ability::MainWeaponAux(i),
            AuxiliaryAbility::OffWeapon(i) => Ability::OffWeaponAux(i),
            AuxiliaryAbility::Empty => Ability::Empty,
        }
    }
}

impl vstd::std_specs::convert::FromSpecImpl<AuxiliaryAbility> for Ability {
    open spec fn obeys_from_spec() -> bool {
        true
    }

    open spec fn from_spec(auxiliary: AuxiliaryAbility) -> Self {
        match auxiliary {
            AuxiliaryAbility::MainWeapon(i) => Ability::MainWeaponAux(i),
            AuxiliaryAbility::OffWeapon(i) => Ability::OffWeaponAux(i),
            AuxiliaryAbility::Empty => Ability::Empty,
        }
    }
}

/// The stages that an ability goes through.
#[derive(Clone, Copy, Debug, Hash, PartialEq, Eq, Structural)]
pub enum StageSection {
    Buildup,
    Recover,
    Charge,
    Movement,
    Action,
}

/// A lighter form of character state to pass around as needed for frontend
/// purposes.
#[derive(Clone, Copy, Debug, Hash, PartialEq, Eq, Structural)]
pub enum CharacterAbilityType {
    BasicMelee(StageSection),
    BasicRanged,
    Boost,
    ChargedMelee(StageSection),
    ChargedRanged,
    DashMelee(StageSection),
    BasicBlock,
    ComboMelee(StageSection, u32),
    ComboMelee2(StageSection),
    FinisherMelee(StageSection),
    DiveMelee(StageSection),
    RiposteMelee(StageSection),
    RapidMelee(StageSection),
    LeapMelee(StageSection),
    LeapShockwave(StageSection),
    Music(StageSection),
    Shockwave,
    BasicBeam,
    RepeaterRanged,
    BasicAura,
    SelfBuff,
    Other,
}

/// The stances of the sword.
#[derive(Clone, Copy, Debug, Hash, PartialEq, Eq, Structural)]
pub enum SwordStance {
    Crippling,
    Cleaving,
    Defensive,
    Heavy,
    Agile,
}

/// The stance that a character is in.
#[derive(Clone, Copy, Debug, Hash, PartialEq, Eq, Structural)]
pub enum Stance {
    Neutral,
    Sword(SwordStance),
}

impl Default for Stance {
    fn default() -> (s: Self)
        ensures
            s == Stance::Neutral,
    {
        Stance::Neutral
    }
}

impl Stance {
    /// The name of the ability that stands for the stance.
    pub open spec fn pseudo_ability_id_spec(self) -> Seq<char> {
        match self {
            Stance::Sword(SwordStance::Heavy) => "veloren.core.pseudo_abilities.sword.heavy_stance"@,
            Stance::Sword(SwordStance::Agile) => "veloren.core.pseudo_abilities.sword.agile_stance"@,
            Stance::Sword(SwordStance::Defensive) => "veloren.core.pseudo_abilities.sword.defensive_stance"@,
            Stance::Sword(SwordStance::Crippling) => "veloren.core.pseudo_abilities.sword.crippling_stance"@,
            Stance::Sword(SwordStance::Cleaving) => "veloren.core.pseudo_abilities.sword.cleaving_stance"@,
            Stance::Neutral => "veloren.core.pseudo_abilities.no_stance"@,
        }
    }

    /// The name of the ability that stands for the stance.
    pub fn pseudo_ability_id(&self) -> (id: &'static str)
        ensures
            id@ == self.pseudo_ability_id_spec(),
    {
        match self {
            Stance::Sword(SwordStance::Heavy) => "veloren.core.pseudo_abilities.sword.heavy_stance",
            Stance::Sword(SwordStance::Agile) => "veloren.core.pseudo_abilities.sword.agile_stance",
            Stance::Sword(SwordStance::Defensive) => "veloren.core.pseudo_abilities.sword.defensive_stance",
            Stance::Sword(SwordStance::Crippling) => "veloren.core.pseudo_abilities.sword.crippling_stance",
            Stance::Sword(SwordStance::Cleaving) => "veloren.core.pseudo_abilities.sword.cleaving_stance",
            Stance::Neutral => "veloren.core.pseudo_abilities.no_stance",
        }
    }
}

/// What an ability is capable of, as a set of flags.
#[derive(Clone, Copy, Debug, PartialEq, Eq, Structural)]
pub struct Capability {
    pub bits: u8,
}

impl Capability {
    pub const PLACEHOLDER: u8 = 0b0000_0001;

    /// Blocking can interrupt the ability at any point.
    pub const BLOCK_INTERRUPT: u8 = 0b0000_0010;

    /// While it builds up, the ability counts as a block.
    pub const BLOCKS: u8 = 0b0000_0100;

    /// In the ability, an entity receives half as much poise damage.
    pub const POISE_RESISTANT: u8 = 0b0000_1000;

    /// In the ability, an entity receives half as much knockback.
    pub const KNOCKBACK_RESISTANT: u8 = 0b0001_0000;

    /// While it builds up, the ability parries melee attacks.
    pub const PARRIES: u8 = 0b0010_0000;

    /// No capabilities.
    pub fn empty() -> (c: Self)
        ensures
            c.bits == 0,
    {
        Capability { bits: 0 }
    }

    /// Whether all the flags of `flags` are set.
    pub fn contains(&self, flags: u8) -> (b: bool)
        ensures
            b == (self.bits & flags == flags),
    {
        self.bits & flags == flags
    }
}

impl Default for Capability {
    fn default() -> (c: Self)
        ensures
            c.bits == 0,
    {
        Capability { bits: 0 }
    }
}

/// What happens when an ability is first activated.
#[derive(Clone, Copy, Debug, PartialEq, Eq, Structural)]
pub enum AbilityInitEvent {
    EnterStance(Stance),
}

/// What an ability requires.
#[derive(Clone, Copy, Debug, PartialEq, Eq, Structural)]
pub struct AbilityRequirements {
    pub stance: Option<Stance>,
}

impl Default for AbilityRequirements {
    fn default() -> (r: Self)
        ensures
            r.stance.is_none(),
    {
        AbilityRequirements { stance: None }
    }
}

impl AbilityRequirements {
    /// Whether a character in the stance `stance` meets the requirements:
    /// they ask for no stance, or for the one that the character is in.
    pub fn requirements_met(&self, stance: Option<&Stance>) -> (met: bool)
        ensures
            met == match self.stance {
                Some(required) => match stance {
                    Some(s) => required == *s,
                    None => false,
                },
                None => true,
            },
    {
        match self.stance {
            Some(required) => match stance {
                Some(s) => required == *s,
                None => false,
            },
            None => true,
        }
    }
}

/// What is known of an ability besides what it does.
#[derive(Clone, Copy, Debug, PartialEq, Eq, Structural)]
pub struct AbilityMeta {
    pub capabilities: Capability,
    /// This is an event that gets emitted when the ability is first
    /// activated.
    pub init_event: Option<AbilityInitEvent>,
    pub requirements: AbilityRequirements,
}

impl Default for AbilityMeta {
    fn default() -> (m: Self)
        ensures
            m.capabilities.bits == 0,
            m.init_event.is_none(),
            m.requirements.stance.is_none(),
    {
        AbilityMeta {
            capabilities: Capability { bits: 0 },
            init_event: None,
            requirements: AbilityRequirements { stance: None },
        }
    }
}

} // verus!
