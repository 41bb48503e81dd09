//! Skills: what a character can learn, in which group, at what cost.
//!
//! Which skills make up a group, how far a skill can be raised and what it
//! presupposes is content that is read from files when the game starts; here
//! it comes as a [`SkillTables`] value.

use vstd::prelude::*;

verus! {

/// The kinds of tool.
#[derive(Clone, Copy, Debug, Hash, PartialEq, Eq, Structural)]
pub enum ToolKind {
    Sword,
    Axe,
    Hammer,
    Bow,
    Staff,
    Sceptre,
    Dagger,
    Shield,
    Spear,
    Blowgun,
    Debug,
    Farming,
    Pick,
    Natural,
    Empty,
}

/// What a skill changes, for the description of the skill.
///
/// `Number(-25)` says that some value is reduced by 25 percent, `Number(15)`
/// that one is increased by 15 percent.
#[derive(Clone, Copy, Debug, PartialEq, Eq, Structural)]
pub enum BoostValue {
    Number(i16),
    NonDescriptive,
}

impl From<i16> for BoostValue {
    fn from(number: i16) -> (b: Self) {
        BoostValue::Number(number)
    }
}

impl vstd::std_specs::convert::FromSpecImpl<i16> for BoostValue {
    open spec fn obeys_from_spec() -> bool {
        true
    }

    open spec fn from_spec(number: i16) -> Self {
        BoostValue::Number(number)
    }
}

/// Returns the value which corresponds to the boost given by a skill.
pub trait Boost: Sized {
    /// The boost given by the skill.
    spec fn boost_spec(self) -> BoostValue;

    fn boost(self) -> (b: BoostValue)
        ensures
            b == self.boost_spec(),
    ;
}

/// What can go wrong when a skill is looked up.
#[derive(Clone, Copy, Debug, PartialEq, Eq, Structural)]
pub enum SkillError {
    MissingSkill,
}

/// The increase of health that the skill `HealthIncrease` gives, in percent.
pub const HEALTH_INCREASE_BOOST: i16 = 5;

/// The increase of energy that the skill `EnergyIncrease` gives, in percent.
pub const ENERGY_INCREASE_BOOST: i16 = 5;

/// Skills of the sword.
#[derive(Clone, Copy, Debug, Hash, PartialEq, Eq, Structural)]
pub enum SwordSkill {
    InterruptingAttacks,
    TsCombo,
    TsDamage,
    TsRegen,
    TsSpeed,
    DCost,
    DDrain,
    DDamage,
    DScaling,
    DSpeed,
    DInfinite,
    UnlockSpin,
    SDamage,
    SSpeed,
    SCost,
    SSpins,
}

impl SwordSkill {
    /// The place of the skill among the skills of its tree.
    pub open spec fn index_spec(self) -> u8 {
        match self {
            SwordSkill::InterruptingAttacks => 0,
            SwordSkill::TsCombo => 1,
            SwordSkill::TsDamage => 2,
            SwordSkill::TsRegen => 3,
            SwordSkill::TsSpeed => 4,
            SwordSkill::DCost => 5,
            SwordSkill::DDrain => 6,
            SwordSkill::DDamage => 7,
            SwordSkill::DScaling => 8,
            SwordSkill::DSpeed => 9,
            SwordSkill::DInfinite => 10,
            SwordSkill::UnlockSpin => 11,
            SwordSkill::SDamage => 12,
            SwordSkill::SSpeed => 13,
            SwordSkill::SCost => 14,
            SwordSkill::SSpins => 15,
        }
    }

    /// The place of the skill among the skills of its tree.
    pub fn index(self) -> (i: u8)
        ensures
            i == self.index_spec(),
    {
        match self {
            SwordSkill::InterruptingAttacks => 0,
            SwordSkill::TsCombo => 1,
            SwordSkill::TsDamage => 2,
            SwordSkill::TsRegen => 3,
            SwordSkill::TsSpeed => 4,
            SwordSkill::DCost => 5,
            SwordSkill::DDrain => 6,
            SwordSkill::DDamage => 7,
            SwordSkill::DScaling => 8,
            SwordSkill::DSpeed => 9,
            SwordSkill::DInfinite => 10,
            SwordSkill::UnlockSpin => 11,
            SwordSkill::SDamage => 12,
            SwordSkill::SSpeed => 13,
            SwordSkill::SCost => 14,
            SwordSkill::SSpins => 15,
        }
    }
}

impl Boost for SwordSkill {
    open spec fn boost_spec(self) -> BoostValue {
        match self {
            SwordSkill::InterruptingAttacks => BoostValue::NonDescriptive,
            SwordSkill::TsCombo => BoostValue::NonDescriptive,
            SwordSkill::TsDamage => BoostValue::NonDescriptive,
            SwordSkill::TsRegen => BoostValue::NonDescriptive,
            SwordSkill::TsSpeed => BoostValue::NonDescriptive,
            SwordSkill::DCost => BoostValue::Number((-25i16)),
            SwordSkill::DDrain => BoostValue::Number((-25i16)),
            SwordSkill::DDamage => BoostValue::Number(20i16),
            SwordSkill::DScaling => BoostValue::Number(20i16),
            SwordSkill::DSpeed => BoostValue::Number(15i16),
            SwordSkill::DInfinite => BoostValue::NonDescriptive,
            SwordSkill::UnlockSpin => BoostValue::NonDescriptive,
            SwordSkill::SDamage => BoostValue::Number(40i16),
            SwordSkill::SSpeed => BoostValue::Number((-20i16)),
            SwordSkill::SCost => BoostValue::Number((-25i16)),
            SwordSkill::SSpins => BoostValue::NonDescriptive,
        }
    }

    fn boost(self) -> (b: BoostValue) {
        match self {
            SwordSkill::InterruptingAttacks => BoostValue::NonDescriptive,
            SwordSkill::TsCombo => BoostValue::NonDescriptive,
            SwordSkill::TsDamage => BoostValue::NonDescriptive,
            SwordSkill::TsRegen => BoostValue::NonDescriptive,
            SwordSkill::TsSpeed => BoostValue::NonDescriptive,
            SwordSkill::DCost => BoostValue::Number(-25),
            SwordSkill::DDrain => BoostValue::Number(-25),
            SwordSkill::DDamage => BoostValue::Number(20),
            SwordSkill::DScaling => BoostValue::Number(20),
            SwordSkill::DSpeed => BoostValue::Number(15),
            SwordSkill::DInfinite => BoostValue::NonDescriptive,
            SwordSkill::UnlockSpin => BoostValue::NonDescriptive,
            SwordSkill::SDamage => BoostValue::Number(40),
            SwordSkill::SSpeed => BoostValue::Number(-20),
            SwordSkill::SCost => BoostValue::Number(-25),
            SwordSkill::SSpins => BoostValue::NonDescriptive,
        }
    }
}

/// Skills of the axe.
#[derive(Clone, Copy, Debug, Hash, PartialEq, Eq, Structural)]
pub enum AxeSkill {
    DsCombo,
    DsDamage,
    DsSpeed,
    DsRegen,
    SInfinite,
    SHelicopter,
    SDamage,
    SSpeed,
    SCost,
    UnlockLeap,
    LDamage,
    LKnockback,
    LCost,
    LDistance,
}

impl AxeSkill {
    /// The place of the skill among the skills of its tree.
    pub open spec fn index_spec(self) -> u8 {
        match self {
            AxeSkill::DsCombo => 0,
            AxeSkill::DsDamage => 1,
            AxeSkill::DsSpeed => 2,
            AxeSkill::DsRegen => 3,
            AxeSkill::SInfinite => 4,
            AxeSkill::SHelicopter => 5,
            AxeSkill::SDamage => 6,
            AxeSkill::SSpeed => 7,
            AxeSkill::SCost => 8,
            AxeSkill::UnlockLeap => 9,
            AxeSkill::LDamage => 10,
            AxeSkill::LKnockback => 11,
            AxeSkill::LCost => 12,
            AxeSkill::LDistance => 13,
        }
    }

    /// The place of the skill among the skills of its tree.
    pub fn index(self) -> (i: u8)
        ensures
            i == self.index_spec(),
    {
        match self {
            AxeSkill::DsCombo => 0,
            AxeSkill::DsDamage => 1,
            AxeSkill::DsSpeed => 2,
            AxeSkill::DsRegen => 3,
            AxeSkill::SInfinite => 4,
            AxeSkill::SHelicopter => 5,
            AxeSkill::SDamage => 6,
            AxeSkill::SSpeed => 7,
            AxeSkill::SCost => 8,
            AxeSkill::UnlockLeap => 9,
            AxeSkill::LDamage => 10,
            AxeSkill::LKnockback => 11,
            AxeSkill::LCost => 12,
            AxeSkill::LDistance => 13,
        }
    }
}

impl Boost for AxeSkill {
    open spec fn boost_spec(self) -> BoostValue {
        match self {
            AxeSkill::DsCombo => BoostValue::NonDescriptive,
            AxeSkill::DsDamage => BoostValue::NonDescriptive,
            AxeSkill::DsSpeed => BoostValue::NonDescriptive,
            AxeSkill::DsRegen => BoostValue::NonDescriptive,
            AxeSkill::SInfinite => BoostValue::NonDescriptive,
            AxeSkill::SHelicopter => BoostValue::NonDescriptive,
            AxeSkill::SDamage => BoostValue::Number(30i16),
            AxeSkill::SSpeed => BoostValue::Number((-20i16)),
            AxeSkill::SCost => BoostValue::Number((-25i16)),
            AxeSkill::UnlockLeap => BoostValue::NonDescriptive,
            AxeSkill::LDamage => BoostValue::Number(35i16),
            AxeSkill::LKnockback => BoostValue::Number(40i16),
            AxeSkill::LCost => BoostValue::Number((-25i16)),
            AxeSkill::LDistance => BoostValue::Number(20i16),
        }
    }

    fn boost(self) -> (b: BoostValue) {
        match self {
            AxeSkill::DsCombo => BoostValue::NonDescriptive,
            AxeSkill::DsDamage => BoostValue::NonDescriptive,
            AxeSkill::DsSpeed => BoostValue::NonDescriptive,
            AxeSkill::DsRegen => BoostValue::NonDescriptive,
            AxeSkill::SInfinite => BoostValue::NonDescriptive,
            AxeSkill::SHelicopter => BoostValue::NonDescriptive,
            AxeSkill::SDamage => BoostValue::Number(30),
            AxeSkill::SSpeed => BoostValue::Number(-20),
            AxeSkill::SCost => BoostValue::Number(-25),
            AxeSkill::UnlockLeap => BoostValue::NonDescriptive,
            AxeSkill::LDamage => BoostValue::Number(35),
            AxeSkill::LKnockback => BoostValue::Number(40),
            AxeSkill::LCost => BoostValue::Number(-25),
            AxeSkill::LDistance => BoostValue::Number(20),
        }
    }
}

/// Skills of the hammer.
#[derive(Clone, Copy, Debug, Hash, PartialEq, Eq, Structural)]
pub enum HammerSkill {
    SsKnockback,
    SsDamage,
    SsSpeed,
    SsRegen,
    CDamage,
    CKnockback,
    CDrain,
    CSpeed,
    UnlockLeap,
    LDamage,
    LCost,
    LDistance,
    LKnockback,
    LRange,
}

impl HammerSkill {
    /// The place of the skill among the skills of its tree.
    pub open spec fn index_spec(self) -> u8 {
        match self {
            HammerSkill::SsKnockback => 0,
            HammerSkill::SsDamage => 1,
            HammerSkill::SsSpeed => 2,
            HammerSkill::SsRegen => 3,
            HammerSkill::CDamage => 4,
            HammerSkill::CKnockback => 5,
            HammerSkill::CDrain => 6,
            HammerSkill::CSpeed => 7,
            HammerSkill::UnlockLeap => 8,
            HammerSkill::LDamage => 9,
            HammerSkill::LCost => 10,
            HammerSkill::LDistance => 11,
            HammerSkill::LKnockback => 12,
            HammerSkill::LRange => 13,
        }
    }

    /// The place of the skill among the skills of its tree.
    pub fn index(self) -> (i: u8)
        ensures
            i == self.index_spec(),
    {
        match self {
            HammerSkill::SsKnockback => 0,
            HammerSkill::SsDamage => 1,
            HammerSkill::SsSpeed => 2,
            HammerSkill::SsRegen => 3,
            HammerSkill::CDamage => 4,
            HammerSkill::CKnockback => 5,
            HammerSkill::CDrain => 6,
            HammerSkill::CSpeed => 7,
            HammerSkill::UnlockLeap => 8,
            HammerSkill::LDamage => 9,
            HammerSkill::LCost => 10,
            HammerSkill::LDistance => 11,
            HammerSkill::LKnockback => 12,
            HammerSkill::LRange => 13,
        }
    }
}

impl Boost for HammerSkill {
    open spec fn boost_spec(self) -> BoostValue {
        match self {
            HammerSkill::SsKnockback => BoostValue::Number(50i16),
            HammerSkill::SsDamage => BoostValue::NonDescriptive,
            HammerSkill::SsSpeed => BoostValue::NonDescriptive,
            HammerSkill::SsRegen => BoostValue::NonDescriptive,
            HammerSkill::CDamage => BoostValue::Number(25i16),
            HammerSkill::CKnockback => BoostValue::Number(50i16),
            HammerSkill::CDrain => BoostValue::Number((-25i16)),
            HammerSkill::CSpeed => BoostValue::Number(25i16),
            HammerSkill::UnlockLeap => BoostValue::NonDescriptive,
            HammerSkill::LDamage => BoostValue::Number(40i16),
            HammerSkill::LCost => BoostValue::Number((-25i16)),
            HammerSkill::LDistance => BoostValue::Number(25i16),
            HammerSkill::LKnockback => BoostValue::Number(50i16),
            HammerSkill::LRange => BoostValue::Number(1i16),
        }
    }

    fn boost(self) -> (b: BoostValue) {
        match self {
            HammerSkill::SsKnockback => BoostValue::Number(50),
            HammerSkill::SsDamage => BoostValue::NonDescriptive,
            HammerSkill::SsSpeed => BoostValue::NonDescriptive,
            HammerSkill::SsRegen => BoostValue::NonDescriptive,
            HammerSkill::CDamage => BoostValue::Number(25),
            HammerSkill::CKnockback => BoostValue::Number(50),
            HammerSkill::CDrain => BoostValue::Number(-25),
            HammerSkill::CSpeed => BoostValue::Number(25),
            HammerSkill::UnlockLeap => BoostValue::NonDescriptive,
            HammerSkill::LDamage => BoostValue::Number(40),
            HammerSkill::LCost => BoostValue::Number(-25),
            HammerSkill::LDistance => BoostValue::Number(25),
            HammerSkill::LKnockback => BoostValue::Number(50),
            HammerSkill::LRange => BoostValue::Number(1),
        }
    }
}

/// Skills of the bow.
#[derive(Clone, Copy, Debug, Hash, PartialEq, Eq, Structural)]
pub enum BowSkill {
    ProjSpeed,
    CDamage,
    CRegen,
    CKnockback,
    CSpeed,
    CMove,
    RDamage,
    RCost,
    RSpeed,
    UnlockShotgun,
    SDamage,
    SCost,
    SArrows,
    SSpread,
}

impl BowSkill {
    /// The place of the skill among the skills of its tree.
    pub open spec fn index_spec(self) -> u8 {
        match self {
            BowSkill::ProjSpeed => 0,
            BowSkill::CDamage => 1,
            BowSkill::CRegen => 2,
            BowSkill::CKnockback => 3,
            BowSkill::CSpeed => 4,
            BowSkill::CMove => 5,
            BowSkill::RDamage => 6,
            BowSkill::RCost => 7,
            BowSkill::RSpeed => 8,
            BowSkill::UnlockShotgun => 9,
            BowSkill::SDamage => 10,
            BowSkill::SCost => 11,
            BowSkill::SArrows => 12,
            BowSkill::SSpread => 13,
        }
    }

    /// The place of the skill among the skills of its tree.
    pub fn index(self) -> (i: u8)
        ensures
            i == self.index_spec(),
    {
        match self {
            BowSkill::ProjSpeed => 0,
            BowSkill::CDamage => 1,
            BowSkill::CRegen => 2,
            BowSkill::CKnockback => 3,
            BowSkill::CSpeed => 4,
            BowSkill::CMove => 5,
            BowSkill::RDamage => 6,
            BowSkill::RCost => 7,
            BowSkill::RSpeed => 8,
            BowSkill::UnlockShotgun => 9,
            BowSkill::SDamage => 10,
            BowSkill::SCost => 11,
            BowSkill::SArrows => 12,
            BowSkill::SSpread => 13,
        }
    }
}

impl Boost for BowSkill {
    open spec fn boost_spec(self) -> BoostValue {
        match self {
            BowSkill::ProjSpeed => BoostValue::Number(20i16),
            BowSkill::CDamage => BoostValue::Number(20i16),
            BowSkill::CRegen => BoostValue::Number(20i16),
            BowSkill::CKnockback => BoostValue::Number(20i16),
            BowSkill::CSpeed => BoostValue::Number(10i16),
            BowSkill::CMove => BoostValue::Number(10i16),
            BowSkill::RDamage => BoostValue::Number(20i16),
            BowSkill::RCost => BoostValue::Number((-20i16)),
            BowSkill::RSpeed => BoostValue::Number(20i16),
            BowSkill::UnlockShotgun => BoostValue::NonDescriptive,
            BowSkill::SDamage => BoostValue::Number(20i16),
            BowSkill::SCost => BoostValue::Number((-20i16)),
            BowSkill::SArrows => BoostValue::Number(1i16),
            BowSkill::SSpread => BoostValue::Number((-20i16)),
        }
    }

    fn boost(self) -> (b: BoostValue) {
        match self {
            BowSkill::ProjSpeed => BoostValue::Number(20),
            BowSkill::CDamage => BoostValue::Number(20),
            BowSkill::CRegen => BoostValue::Number(20),
            BowSkill::CKnockback => BoostValue::Number(20),
            BowSkill::CSpeed => BoostValue::Number(10),
            BowSkill::CMove => BoostValue::Number(10),
            BowSkill::RDamage => BoostValue::Number(20),
            BowSkill::RCost => BoostValue::Number(-20),
            BowSkill::RSpeed => BoostValue::Number(20),
            BowSkill::UnlockShotgun => BoostValue::NonDescriptive,
            BowSkill::SDamage => BoostValue::Number(20),
            BowSkill::SCost => BoostValue::Number(-20),
            BowSkill::SArrows => BoostValue::Number(1),
            BowSkill::SSpread => BoostValue::Number(-20),
        }
    }
}

/// Skills of the staff.
#[derive(Clone, Copy, Debug, Hash, PartialEq, Eq, Structural)]
pub enum StaffSkill {
    BDamage,
    BRegen,
    BRadius,
    FDamage,
    FRange,
    FDrain,
    FVelocity,
    UnlockShockwave,
    SDamage,
    SKnockback,
    SRange,
    SCost,
}

impl StaffSkill {
    /// The place of the skill among the skills of its tree.
    pub open spec fn index_spec(self) -> u8 {
        match self {
            StaffSkill::BDamage => 0,
            StaffSkill::BRegen => 1,
            StaffSkill::BRadius => 2,
            StaffSkill::FDamage => 3,
            StaffSkill::FRange => 4,
            StaffSkill::FDrain => 5,
            StaffSkill::FVelocity => 6,
            StaffSkill::UnlockShockwave => 7,
            StaffSkill::SDamage => 8,
            StaffSkill::SKnockback => 9,
            StaffSkill::SRange => 10,
            StaffSkill::SCost => 11,
        }
    }

    /// The place of the skill among the skills of its tree.
    pub fn index(self) -> (i: u8)
        ensures
            i == self.index_spec(),
    {
        match self {
            StaffSkill::BDamage => 0,
            StaffSkill::BRegen => 1,
            StaffSkill::BRadius => 2,
            StaffSkill::FDamage => 3,
            StaffSkill::FRange => 4,
            StaffSkill::FDrain => 5,
            StaffSkill::FVelocity => 6,
            StaffSkill::UnlockShockwave => 7,
            StaffSkill::SDamage => 8,
            StaffSkill::SKnockback => 9,
            StaffSkill::SRange => 10,
            StaffSkill::SCost => 11,
        }
    }
}

impl Boost for StaffSkill {
    open spec fn boost_spec(self) -> BoostValue {
        match self {
            StaffSkill::BDamage => BoostValue::Number(20i16),
            StaffSkill::BRegen => BoostValue::Number(20i16),
            StaffSkill::BRadius => BoostValue::Number(15i16),
            StaffSkill::FDamage => BoostValue::Number(30i16),
            StaffSkill::FRange => BoostValue::Number(25i16),
            StaffSkill::FDrain => BoostValue::Number((-20i16)),
            StaffSkill::FVelocity => BoostValue::Number(25i16),
            StaffSkill::UnlockShockwave => BoostValue::NonDescriptive,
            StaffSkill::SDamage => BoostValue::Number(30i16),
            StaffSkill::SKnockback => BoostValue::Number(30i16),
            StaffSkill::SRange => BoostValue::Number(20i16),
            StaffSkill::SCost => BoostValue::Number((-20i16)),
        }
    }

    fn boost(self) -> (b: BoostValue) {
        match self {
            StaffSkill::BDamage => BoostValue::Number(20),
            StaffSkill::BRegen => BoostValue::Number(20),
            StaffSkill::BRadius => BoostValue::Number(15),
            StaffSkill::FDamage => BoostValue::Number(30),
            StaffSkill::FRange => BoostValue::Number(25),
            StaffSkill::FDrain => BoostValue::Number(-20),
            StaffSkill::FVelocity => BoostValue::Number(25),
            StaffSkill::UnlockShockwave => BoostValue::NonDescriptive,
            StaffSkill::SDamage => BoostValue::Number(30),
            StaffSkill::SKnockback => BoostValue::Number(30),
            StaffSkill::SRange => BoostValue::Number(20),
            StaffSkill::SCost => BoostValue::Number(-20),
        }
    }
}

/// Skills of the sceptre.
#[derive(Clone, Copy, Debug, Hash, PartialEq, Eq, Structural)]
pub enum SceptreSkill {
    LDamage,
    LRange,
    LLifesteal,
    LRegen,
    HHeal,
    HRange,
    HDuration,
    HCost,
    UnlockAura,
    AStrength,
    ADuration,
    ARange,
    ACost,
}

impl SceptreSkill {
    /// The place of the skill among the skills of its tree.
    pub open spec fn index_spec(self) -> u8 {
        match self {
            SceptreSkill::LDamage => 0,
            SceptreSkill::LRange => 1,
            SceptreSkill::LLifesteal => 2,
            SceptreSkill::LRegen => 3,
            SceptreSkill::HHeal => 4,
            SceptreSkill::HRange => 5,
            SceptreSkill::HDuration => 6,
            SceptreSkill::HCost => 7,
            SceptreSkill::UnlockAura => 8,
            SceptreSkill::AStrength => 9,
            SceptreSkill::ADuration => 10,
            SceptreSkill::ARange => 11,
            SceptreSkill::ACost => 12,
        }
    }

    /// The place of the skill among the skills of its tree.
    pub fn index(self) -> (i: u8)
        ensures
            i == self.index_spec(),
    {
        match self {
            SceptreSkill::LDamage => 0,
            SceptreSkill::LRange => 1,
            SceptreSkill::LLifesteal => 2,
            SceptreSkill::LRegen => 3,
            SceptreSkill::HHeal => 4,
            SceptreSkill::HRange => 5,
            SceptreSkill::HDuration => 6,
            SceptreSkill::HCost => 7,
            SceptreSkill::UnlockAura => 8,
            SceptreSkill::AStrength => 9,
            SceptreSkill::ADuration => 10,
            SceptreSkill::ARange => 11,
            SceptreSkill::ACost => 12,
        }
    }
}

impl Boost for SceptreSkill {
    open spec fn boost_spec(self) -> BoostValue {
        match self {
            SceptreSkill::LDamage => BoostValue::Number(20i16),
            SceptreSkill::LRange => BoostValue::Number(20i16),
            SceptreSkill::LLifesteal => BoostValue::Number(15i16),
            SceptreSkill::LRegen => BoostValue::Number(20i16),
            SceptreSkill::HHeal => BoostValue::Number(20i16),
            SceptreSkill::HRange => BoostValue::Number(20i16),
            SceptreSkill::HDuration => BoostValue::Number(20i16),
            SceptreSkill::HCost => BoostValue::Number((-20i16)),
            SceptreSkill::UnlockAura => BoostValue::NonDescriptive,
            SceptreSkill::AStrength => BoostValue::Number(15i16),
            SceptreSkill::ADuration => BoostValue::Number(20i16),
            SceptreSkill::ARange => BoostValue::Number(25i16),
            SceptreSkill::ACost => BoostValue::Number((-15i16)),
        }
    }

    fn boost(self) -> (b: BoostValue) {
        match self {
            SceptreSkill::LDamage => BoostValue::Number(20),
            SceptreSkill::LRange => BoostValue::Number(20),
            SceptreSkill::LLifesteal => BoostValue::Number(15),
            SceptreSkill::LRegen => BoostValue::Number(20),
            SceptreSkill::HHeal => BoostValue::Number(20),
            SceptreSkill::HRange => BoostValue::Number(20),
            SceptreSkill::HDuration => BoostValue::Number(20),
            SceptreSkill::HCost => BoostValue::Number(-20),
            SceptreSkill::UnlockAura => BoostValue::NonDescriptive,
            SceptreSkill::AStrength => BoostValue::Number(15),
            SceptreSkill::ADuration => BoostValue::Number(20),
            SceptreSkill::ARange => BoostValue::Number(25),
            SceptreSkill::ACost => BoostValue::Number(-15),
        }
    }
}

/// Skills of every character.
#[derive(Clone, Copy, Debug, Hash, PartialEq, Eq, Structural)]
pub enum GeneralSkill {
    HealthIncrease,
    EnergyIncrease,
}

impl GeneralSkill {
    /// The place of the skill among the skills of its tree.
    pub open spec fn index_spec(self) -> u8 {
        match self {
            GeneralSkill::HealthIncrease => 0,
            GeneralSkill::EnergyIncrease => 1,
        }
    }

    /// The place of the skill among the skills of its tree.
    pub fn index(self) -> (i: u8)
        ensures
            i == self.index_spec(),
    {
        match self {
            GeneralSkill::HealthIncrease => 0,
            GeneralSkill::EnergyIncrease => 1,
        }
    }
}

impl Boost for GeneralSkill {
    open spec fn boost_spec(self) -> BoostValue {
        match self {
            GeneralSkill::HealthIncrease => BoostValue::Number(HEALTH_INCREASE_BOOST),
            GeneralSkill::EnergyIncrease => BoostValue::Number(ENERGY_INCREASE_BOOST),
        }
    }

    fn boost(self) -> (b: BoostValue) {
        match self {
            GeneralSkill::HealthIncrease => BoostValue::Number(HEALTH_INCREASE_BOOST),
            GeneralSkill::EnergyIncrease => BoostValue::Number(ENERGY_INCREASE_BOOST),
        }
    }
}

/// Skills of rolling.
#[derive(Clone, Copy, Debug, Hash, PartialEq, Eq, Structural)]
pub enum RollSkill {
    Cost,
    Strength,
    Duration,
}

impl RollSkill {
    /// The place of the skill among the skills of its tree.
    pub open spec fn index_spec(self) -> u8 {
        match self {
            RollSkill::Cost => 0,
            RollSkill::Strength => 1,
            RollSkill::Duration => 2,
        }
    }

    /// The place of the skill among the skills of its tree.
    pub fn index(self) -> (i: u8)
        ensures
            i == self.index_spec(),
    {
        match self {
            RollSkill::Cost => 0,
            RollSkill::Strength => 1,
            RollSkill::Duration => 2,
        }
    }
}

impl Boost for RollSkill {
    open spec fn boost_spec(self) -> BoostValue {
        match self {
            RollSkill::Cost => BoostValue::Number((-10i16)),
            RollSkill::Strength => BoostValue::Number(10i16),
            RollSkill::Duration => BoostValue::Number(10i16),
        }
    }

    fn boost(self) -> (b: BoostValue) {
        match self {
            RollSkill::Cost => BoostValue::Number(-10),
            RollSkill::Strength => BoostValue::Number(10),
            RollSkill::Duration => BoostValue::Number(10),
        }
    }
}

/// Skills of climbing.
#[derive(Clone, Copy, Debug, Hash, PartialEq, Eq, Structural)]
pub enum ClimbSkill {
    Cost,
    Speed,
}

impl ClimbSkill {
    /// The place of the skill among the skills of its tree.
    pub open spec fn index_spec(self) -> u8 {
        match self {
            ClimbSkill::Cost => 0,
            ClimbSkill::Speed => 1,
        }
    }

    /// The place of the skill among the skills of its tree.
    pub fn index(self) -> (i: u8)
        ensures
            i == self.index_spec(),
    {
        match self {
            ClimbSkill::Cost => 0,
            ClimbSkill::Speed => 1,
        }
    }
}

impl Boost for ClimbSkill {
    open spec fn boost_spec(self) -> BoostValue {
        match self {
            ClimbSkill::Cost => BoostValue::Number((-20i16)),
            ClimbSkill::Speed => BoostValue::Number(20i16),
        }
    }

    fn boost(self) -> (b: BoostValue) {
        match self {
            ClimbSkill::Cost => BoostValue::Number(-20),
            ClimbSkill::Speed => BoostValue::Number(20),
        }
    }
}

/// Skills of swimming.
#[derive(Clone, Copy, Debug, Hash, PartialEq, Eq, Structural)]
pub enum SwimSkill {
    Speed,
}

impl SwimSkill {
    /// The place of the skill among the skills of its tree.
    pub open spec fn index_spec(self) -> u8 {
        match self {
            SwimSkill::Speed => 0,
        }
    }

    /// The place of the skill among the skills of its tree.
    pub fn index(self) -> (i: u8)
        ensures
            i == self.index_spec(),
    {
        match self {
            SwimSkill::Speed => 0,
        }
    }
}

impl Boost for SwimSkill {
    open spec fn boost_spec(self) -> BoostValue {
        match self {
            SwimSkill::Speed => BoostValue::Number(25i16),
        }
    }

    fn boost(self) -> (b: BoostValue) {
        match self {
            SwimSkill::Speed => BoostValue::Number(25),
        }
    }
}

/// Skills of mining.
#[derive(Clone, Copy, Debug, Hash, PartialEq, Eq, Structural)]
pub enum MiningSkill {
    Speed,
    OreGain,
    GemGain,
}

impl MiningSkill {
    /// The place of the skill among the skills of its tree.
    pub open spec fn index_spec(self) -> u8 {
        match self {
            MiningSkill::Speed => 0,
            MiningSkill::OreGain => 1,
            MiningSkill::GemGain => 2,
        }
    }

    /// The place of the skill among the skills of its tree.
    pub fn index(self) -> (i: u8)
        ensures
            i == self.index_spec(),
    {
        match self {
            MiningSkill::Speed => 0,
            MiningSkill::OreGain => 1,
            MiningSkill::GemGain => 2,
        }
    }
}

impl Boost for MiningSkill {
    open spec fn boost_spec(self) -> BoostValue {
        match self {
            MiningSkill::Speed => BoostValue::Number(10i16),
            MiningSkill::OreGain => BoostValue::Number(5i16),
            MiningSkill::GemGain => BoostValue::Number(5i16),
        }
    }

    fn boost(self) -> (b: BoostValue) {
        match self {
            MiningSkill::Speed => BoostValue::Number(10),
            MiningSkill::OreGain => BoostValue::Number(5),
            MiningSkill::GemGain => BoostValue::Number(5),
        }
    }
}

/// The groups of skills: the one that every character has, and one for each
/// kind of tool.
#[derive(Clone, Copy, Debug, Hash, PartialEq, Eq, Structural)]
pub enum SkillGroupKind {
    General,
    Weapon(ToolKind),
}

impl ToolKind {
    /// The place of the kind among the kinds of tool.
    pub open spec fn index_spec(self) -> u8 {
        match self {
            ToolKind::Sword => 0,
            ToolKind::Axe => 1,
            ToolKind::Hammer => 2,
            ToolKind::Bow => 3,
            ToolKind::Staff => 4,
            ToolKind::Sceptre => 5,
            ToolKind::Dagger => 6,
            ToolKind::Shield => 7,
            ToolKind::Spear => 8,
            ToolKind::Blowgun => 9,
            ToolKind::Debug => 10,
            ToolKind::Farming => 11,
            ToolKind::Pick => 12,
            ToolKind::Natural => 13,
            ToolKind::Empty => 14,
        }
    }

    /// The place of the kind among the kinds of tool.
    pub fn index(self) -> (i: u8)
        ensures
            i == self.index_spec(),
    {
        match self {
            ToolKind::Sword => 0,
            ToolKind::Axe => 1,
            ToolKind::Hammer => 2,
            ToolKind::Bow => 3,
            ToolKind::Staff => 4,
            ToolKind::Sceptre => 5,
            ToolKind::Dagger => 6,
            ToolKind::Shield => 7,
            ToolKind::Spear => 8,
            ToolKind::Blowgun => 9,
            ToolKind::Debug => 10,
            ToolKind::Farming => 11,
            ToolKind::Pick => 12,
            ToolKind::Natural => 13,
            ToolKind::Empty => 14,
        }
    }
}

impl SkillGroupKind {
    /// The place of the group among the groups: 0 for the general group, and
    /// from 1 for those of the tools.
    pub open spec fn index_spec(self) -> u8 {
        match self {
            SkillGroupKind::General => 0,
            SkillGroupKind::Weapon(tool) => (tool.index_spec() + 1) as u8,
        }
    }

    /// The place of the group among the groups.
    pub fn index(self) -> (i: u8)
        ensures
            i == self.index_spec(),
    {
        match self {
            SkillGroupKind::General => 0,
            SkillGroupKind::Weapon(tool) => tool.index() + 1,
        }
    }
}

/// A skill that a character can unlock.
#[derive(Clone, Copy, Debug, Hash, PartialEq, Eq, Structural)]
pub enum Skill {
    General(GeneralSkill),
    Sword(SwordSkill),
    Axe(AxeSkill),
    Hammer(HammerSkill),
    Bow(BowSkill),
    Staff(StaffSkill),
    Sceptre(SceptreSkill),
    UnlockGroup(SkillGroupKind),
    Roll(RollSkill),
    Climb(ClimbSkill),
    Swim(SwimSkill),
    Pick(MiningSkill),
}

impl Boost for Skill {
    open spec fn boost_spec(self) -> BoostValue {
        match self {
            Skill::General(s) => s.boost_spec(),
            Skill::Sword(s) => s.boost_spec(),
            Skill::Axe(s) => s.boost_spec(),
            Skill::Hammer(s) => s.boost_spec(),
            Skill::Bow(s) => s.boost_spec(),
            Skill::Staff(s) => s.boost_spec(),
            Skill::Sceptre(s) => s.boost_spec(),
            Skill::UnlockGroup(_) => BoostValue::NonDescriptive,
            Skill::Roll(s) => s.boost_spec(),
            Skill::Climb(s) => s.boost_spec(),
            Skill::Swim(s) => s.boost_spec(),
            Skill::Pick(s) => s.boost_spec(),
        }
    }

    fn boost(self) -> (b: BoostValue) {
        match self {
            Skill::General(s) => s.boost(),
            Skill::Sword(s) => s.boost(),
            Skill::Axe(s) => s.boost(),
            Skill::Hammer(s) => s.boost(),
            Skill::Bow(s) => s.boost(),
            Skill::Staff(s) => s.boost(),
            Skill::Sceptre(s) => s.boost(),
            Skill::UnlockGroup(_) => BoostValue::NonDescriptive,
            Skill::Roll(s) => s.boost(),
            Skill::Climb(s) => s.boost(),
            Skill::Swim(s) => s.boost(),
            Skill::Pick(s) => s.boost(),
        }
    }
}

impl Skill {
    /// The number that stands for a skill where skills are stored: the
    /// number of its tree and its place in the tree.
    pub open spec fn code_spec(self) -> (u8, u8) {
        match self {
            Skill::General(s) => (0u8, s.index_spec()),
            Skill::Sword(s) => (1u8, s.index_spec()),
            Skill::Axe(s) => (2u8, s.index_spec()),
            Skill::Hammer(s) => (3u8, s.index_spec()),
            Skill::Bow(s) => (4u8, s.index_spec()),
            Skill::Staff(s) => (5u8, s.index_spec()),
            Skill::Sceptre(s) => (6u8, s.index_spec()),
            Skill::UnlockGroup(s) => (7u8, s.index_spec()),
            Skill::Roll(s) => (8u8, s.index_spec()),
            Skill::Climb(s) => (9u8, s.index_spec()),
            Skill::Swim(s) => (10u8, s.index_spec()),
            Skill::Pick(s) => (11u8, s.index_spec()),
        }
    }

    /// The number that stands for a skill where skills are stored.
    pub fn code(&self) -> (c: (u8, u8))
        ensures
            c == self.code_spec(),
    {
        match *self {
            Skill::General(s) => (0u8, s.index()),
            Skill::Sword(s) => (1u8, s.index()),
            Skill::Axe(s) => (2u8, s.index()),
            Skill::Hammer(s) => (3u8, s.index()),
            Skill::Bow(s) => (4u8, s.index()),
            Skill::Staff(s) => (5u8, s.index()),
            Skill::Sceptre(s) => (6u8, s.index()),
            Skill::UnlockGroup(s) => (7u8, s.index()),
            Skill::Roll(s) => (8u8, s.index()),
            Skill::Climb(s) => (9u8, s.index()),
            Skill::Swim(s) => (10u8, s.index()),
            Skill::Pick(s) => (11u8, s.index()),
        }
    }

    /// Different skills have different numbers.
    pub proof fn lemma_code_is_injective(a: Skill, b: Skill)
        requires
            a.code_spec() == b.code_spec(),
        ensures
            a == b,
    {
    }
}

/// The content that skills are read from: which skills make up each group,
/// how far each skill can be raised, and what each skill presupposes. Where
/// a list names something twice, the first entry counts.
pub struct SkillTables {
    /// The skills of each group.
    pub groups: Vec<(SkillGroupKind, Vec<Skill>)>,
    /// The highest level of each skill; `None` for a skill without levels.
    pub max_levels: Vec<(Skill, Option<u16>)>,
    /// For each skill, the skills that must be unlocked before it, each with
    /// the level that it must have reached.
    pub prerequisites: Vec<(Skill, Vec<(Skill, Option<u16>)>)>,
}

/// The place of the first group of `groups` that holds `skill`.
pub open spec fn first_group_with(groups: Seq<(SkillGroupKind, Vec<Skill>)>, skill: Skill) -> Option<
    int,
>
    decreases groups.len(),
{
    if groups.len() == 0 {
        None
    } else {
        match first_group_with(groups.drop_last(), skill) {
            Some(i) => Some(i),
            None => if groups.last().1@.contains(skill) {
                Some(groups.len() - 1)
            } else {
                None
            },
        }
    }
}

/// The place of the first entry of `list` for `skill`.
pub open spec fn first_level_of(list: Seq<(Skill, Option<u16>)>, skill: Skill) -> Option<int>
    decreases list.len(),
{
    if list.len() == 0 {
        None
    } else {
        match first_level_of(list.drop_last(), skill) {
            Some(i) => Some(i),
            None => if list.last().0 == skill {
                Some(list.len() - 1)
            } else {
                None
            },
        }
    }
}

/// The place of the first entry of `list` for `skill`.
pub open spec fn first_prerequisites_of(
    list: Seq<(Skill, Vec<(Skill, Option<u16>)>)>,
    skill: Skill,
) -> Option<int>
    decreases list.len(),
{
    if list.len() == 0 {
        None
    } else {
        match first_prerequisites_of(list.drop_last(), skill) {
            Some(i) => Some(i),
            None => if list.last().0 == skill {
                Some(list.len() - 1)
            } else {
                None
            },
        }
    }
}

/// The place of the first entry of `groups` for the group `kind`.
pub open spec fn first_group_of(groups: Seq<(SkillGroupKind, Vec<Skill>)>, kind: SkillGroupKind) -> Option<
    int,
>
    decreases groups.len(),
{
    if groups.len() == 0 {
        None
    } else {
        match first_group_of(groups.drop_last(), kind) {
            Some(i) => Some(i),
            None => if groups.last().0 == kind {
                Some(groups.len() - 1)
            } else {
                None
            },
        }
    }
}

/// What it costs to raise a skill to the level `level`, in skill points: the
/// level; one point for a skill without levels.
pub open spec fn skill_cost_spec(level: Option<u16>) -> u16 {
    match level {
        Some(l) => l,
        None => 1,
    }
}

/// What it costs to unlock a skill altogether: the costs of all its levels
/// up to `max_level`; one point for a skill without levels.
pub open spec fn full_cost_spec(max_level: Option<u16>) -> int {
    match max_level {
        Some(m) => m * (m + 1) / 2,
        None => 1,
    }
}

/// What it costs to unlock the first `n` of `skills` altogether.
pub open spec fn total_cost_upto(tables: SkillTables, skills: Seq<Skill>, n: int) -> int
    decreases n,
{
    if n <= 0 {
        0
    } else {
        total_cost_upto(tables, skills, n - 1) + full_cost_spec(
            tables.max_level_spec(skills[n - 1]),
        )
    }
}

impl SkillTables {
    /// The highest level of `skill`: `None` for a skill without levels, and
    /// for one that the tables do not name.
    pub open spec fn max_level_spec(self, skill: Skill) -> Option<u16> {
        match first_level_of(self.max_levels@, skill) {
            Some(i) => self.max_levels@[i].1,
            None => None,
        }
    }

    /// The group that `skill` belongs to.
    pub open spec fn group_of_spec(self, skill: Skill) -> Option<SkillGroupKind> {
        match first_group_with(self.groups@, skill) {
            Some(i) => Some(self.groups@[i].0),
            None => None,
        }
    }

    /// What `skill` presupposes: nothing, where the tables do not name it.
    pub open spec fn prerequisites_spec(self, skill: Skill) -> Seq<(Skill, Option<u16>)> {
        match first_prerequisites_of(self.prerequisites@, skill) {
            Some(i) => self.prerequisites@[i].1@,
            None => Seq::empty(),
        }
    }

    /// What it costs to unlock all skills of the group `kind`, in skill
    /// points, as far as a `u16` holds it; 0 for a group that the tables do
    /// not name.
    pub open spec fn total_cost_spec(self, kind: SkillGroupKind) -> u16 {
        match first_group_of(self.groups@, kind) {
            Some(i) => {
                let total = total_cost_upto(
                    self,
                    self.groups@[i].1@,
                    self.groups@[i].1@.len() as int,
                );
                if total > u16::MAX {
                    u16::MAX
                } else {
                    total as u16
                }
            },
            None => 0,
        }
    }

    /// Tables that name nothing.
    pub fn new() -> (t: Self)
        ensures
            t.groups@.len() == 0,
            t.max_levels@.len() == 0,
            t.prerequisites@.len() == 0,
    {
        SkillTables { groups: Vec::new(), max_levels: Vec::new(), prerequisites: Vec::new() }
    }
}

/// What it costs to unlock any number of skills is not negative.
pub proof fn lemma_total_cost_is_nat(tables: SkillTables, skills: Seq<Skill>, n: int)
    ensures
        total_cost_upto(tables, skills, n) >= 0,
    decreases n,
{
    if n > 0 {
        lemma_total_cost_is_nat(tables, skills, n - 1);
        let m = tables.max_level_spec(skills[n - 1]);
        if let Some(m) = m {
            assert(m * (m + 1) >= 0) by (nonlinear_arith)
                requires
                    m >= 0,
            ;
        }
    }
}

/// Whether `list` holds `skill`.
pub fn holds_skill(list: &Vec<Skill>, skill: Skill) -> (b: bool)
    ensures
        b == list@.contains(skill),
{
    let mut i: usize = 0;
    while i < list.len()
        invariant
            i <= list.len(),
            forall|j: int| 0 <= j < i ==> list@[j] != skill,
        decreases list.len() - i,
    {
        if list[i] == skill {
            return true;
        }
        i = i + 1;
    }
    false
}

impl Skill {
    /// Returns the skills that must be unlocked before this one, each with
    /// the level that it must have reached. Only the direct ones are named.
    pub fn prerequisite_skills(&self, tables: &SkillTables) -> (r: Vec<(Skill, Option<u16>)>)
        ensures
            r@ == tables.prerequisites_spec(*self),
    {
        let mut i: usize = 0;
        while i < tables.prerequisites.len()
            invariant
                i <= tables.prerequisites.len(),
                first_prerequisites_of(tables.prerequisites@.take(i as int), *self).is_none(),
            decreases tables.prerequisites.len() - i,
        {
            proof {
                assert(tables.prerequisites@.take(i + 1).drop_last() == tables.prerequisites@.take(
                    i as int,
                ));
            }
            if tables.prerequisites[i].0 == *self {
                proof {
                    assert(first_prerequisites_of(tables.prerequisites@.take(i + 1), *self) == Some(i as int));
                    lemma_first_prerequisites_extends(
                        tables.prerequisites@,
                        *self,
                        i + 1,
                        tables.prerequisites@.len() as int,
                    );
                    assert(tables.prerequisites@.take(tables.prerequisites@.len() as int) == tables.prerequisites@);
                }
                let list = &tables.prerequisites[i].1;
                let mut out: Vec<(Skill, Option<u16>)> = Vec::new();
                let mut j: usize = 0;
                while j < list.len()
                    invariant
                        j <= list.len(),
                        out@ == list@.take(j as int),
                    decreases list.len() - j,
                {
                    out.push(list[j]);
                    assert(list@.take(j + 1) == list@.take(j as int).push(list@[j as int]));
                    j = j + 1;
                }
                assert(list@.take(list@.len() as int) == list@);
                return out;
            }
            i = i + 1;
        }
        assert(tables.prerequisites@.take(tables.prerequisites@.len() as int)
            == tables.prerequisites@);
        Vec::new()
    }

    /// Returns the cost in skill points of unlocking a particular skill.
    pub fn skill_cost(&self, level: Option<u16>) -> (cost: u16)
        ensures
            cost == skill_cost_spec(level),
    {
        match level {
            Some(l) => l,
            None => 1,
        }
    }

    /// Returns the maximum level a skill can reach, returns None if the skill
    /// doesn't level.
    pub fn max_level(&self, tables: &SkillTables) -> (r: Option<u16>)
        ensures
            r == tables.max_level_spec(*self),
    {
        let mut i: usize = 0;
        while i < tables.max_levels.len()
            invariant
                i <= tables.max_levels.len(),
                first_level_of(tables.max_levels@.take(i as int), *self).is_none(),
            decreases tables.max_levels.len() - i,
        {
            proof {
                assert(tables.max_levels@.take(i + 1).drop_last() == tables.max_levels@.take(
                    i as int,
                ));
            }
            if tables.max_levels[i].0 == *self {
                proof {
                    assert(first_level_of(tables.max_levels@.take(i + 1), *self) == Some(i as int));
                    lemma_first_level_extends(
                        tables.max_levels@,
                        *self,
                        i + 1,
                        tables.max_levels@.len() as int,
                    );
                    assert(tables.max_levels@.take(tables.max_levels@.len() as int) == tables.max_levels@);
                }
                return tables.max_levels[i].1;
            }
            i = i + 1;
        }
        assert(tables.max_levels@.take(tables.max_levels@.len() as int) == tables.max_levels@);
        None
    }

    /// Returns the skill group type for a skill from the skill group
    /// definitions.
    pub fn skill_group_kind(&self, tables: &SkillTables) -> (r: Option<SkillGroupKind>)
        ensures
            r == tables.group_of_spec(*self),
    {
        let mut i: usize = 0;
        while i < tables.groups.len()
            invariant
                i <= tables.groups.len(),
                first_group_with(tables.groups@.take(i as int), *self).is_none(),
            decreases tables.groups.len() - i,
        {
            proof {
                assert(tables.groups@.take(i + 1).drop_last() == tables.groups@.take(i as int));
            }
            if holds_skill(&tables.groups[i].1, *self) {
                proof {
                    assert(first_group_with(tables.groups@.take(i + 1), *self) == Some(i as int));
                    lemma_first_group_with_extends(
                        tables.groups@,
                        *self,
                        i + 1,
                        tables.groups@.len() as int,
                    );
                    assert(tables.groups@.take(tables.groups@.len() as int) == tables.groups@);
                }
                return Some(tables.groups[i].0);
            }
            i = i + 1;
        }
        assert(tables.groups@.take(tables.groups@.len() as int) == tables.groups@);
        None
    }
}

/// What is found first in the beginning of a list is found first in all of
/// it.
pub proof fn lemma_first_level_extends(list: Seq<(Skill, Option<u16>)>, skill: Skill, n: int, m: int)
    requires
        0 <= n <= m <= list.len(),
        first_level_of(list.take(n), skill).is_some(),
    ensures
        first_level_of(list.take(m), skill) == first_level_of(list.take(n), skill),
    decreases m - n,
{
    if n < m {
        lemma_first_level_extends(list, skill, n, m - 1);
        assert(list.take(m).drop_last() == list.take(m - 1));
    }
}

/// What is found first in the beginning of a list is found first in all of
/// it.
pub proof fn lemma_first_prerequisites_extends(
    list: Seq<(Skill, Vec<(Skill, Option<u16>)>)>,
    skill: Skill,
    n: int,
    m: int,
)
    requires
        0 <= n <= m <= list.len(),
        first_prerequisites_of(list.take(n), skill).is_some(),
    ensures
        first_prerequisites_of(list.take(m), skill) == first_prerequisites_of(list.take(n), skill),
    decreases m - n,
{
    if n < m {
        lemma_first_prerequisites_extends(list, skill, n, m - 1);
        assert(list.take(m).drop_last() == list.take(m - 1));
    }
}

/// What is found first in the beginning of a list is found first in all of
/// it.
pub proof fn lemma_first_group_with_extends(
    list: Seq<(SkillGroupKind, Vec<Skill>)>,
    skill: Skill,
    n: int,
    m: int,
)
    requires
        0 <= n <= m <= list.len(),
        first_group_with(list.take(n), skill).is_some(),
    ensures
        first_group_with(list.take(m), skill) == first_group_with(list.take(n), skill),
    decreases m - n,
{
    if n < m {
        lemma_first_group_with_extends(list, skill, n, m - 1);
        assert(list.take(m).drop_last() == list.take(m - 1));
    }
}

/// What is found first in the beginning of a list is found first in all of
/// it.
pub proof fn lemma_first_group_of_extends(
    list: Seq<(SkillGroupKind, Vec<Skill>)>,
    kind: SkillGroupKind,
    n: int,
    m: int,
)
    requires
        0 <= n <= m <= list.len(),
        first_group_of(list.take(n), kind).is_some(),
    ensures
        first_group_of(list.take(m), kind) == first_group_of(list.take(n), kind),
    decreases m - n,
{
    if n < m {
        lemma_first_group_of_extends(list, kind, n, m - 1);
        assert(list.take(m).drop_last() == list.take(m - 1));
    }
}

impl SkillGroupKind {
    /// Gets the total amount of skill points that can be spent in a
    /// particular skill group.
    pub fn total_skill_point_cost(self, tables: &SkillTables) -> (cost: u16)
        ensures
            cost == tables.total_cost_spec(self),
    {
        let mut i: usize = 0;
        while i < tables.groups.len()
            invariant
                i <= tables.groups.len(),
                first_group_of(tables.groups@.take(i as int), self).is_none(),
            decreases tables.groups.len() - i,
        {
            proof {
                assert(tables.groups@.take(i + 1).drop_last() == tables.groups@.take(i as int));
            }
            if tables.groups[i].0 == self {
                proof {
                    assert(first_group_of(tables.groups@.take(i + 1), self) == Some(i as int));
                    lemma_first_group_of_extends(
                        tables.groups@,
                        self,
                        i + 1,
                        tables.groups@.len() as int,
                    );
                    assert(tables.groups@.take(tables.groups@.len() as int) == tables.groups@);
                }
                let skills = &tables.groups[i].1;
                let mut total: u64 = 0;
                let mut j: usize = 0;
                while j < skills.len()
                    invariant
                        j <= skills.len(),
                        total == (if total_cost_upto(*tables, skills@, j as int) > u16::MAX {
                            u16::MAX as int
                        } else {
                            total_cost_upto(*tables, skills@, j as int)
                        }),
                    decreases skills.len() - j,
                {
                    proof {
                        lemma_total_cost_is_nat(*tables, skills@, j as int);
                    }
                    let full: u64 = match skills[j].max_level(tables) {
                        Some(m) => {
                            assert(m * (m + 1) <= 65535 * 65536) by (nonlinear_arith)
                                requires
                                    0 <= m <= 65535,
                            ;
                            (m as u64) * (m as u64 + 1) / 2
                        },
                        None => 1,
                    };
                    total = total + full;
                    if total > u16::MAX as u64 {
                        total = u16::MAX as u64;
                    }
                    j = j + 1;
                }
                return total as u16;
            }
            i = i + 1;
        }
        assert(tables.groups@.take(tables.groups@.len() as int) == tables.groups@);
        0
    }
}

/// A group of skills that has been unlocked by a player. Each skill group
/// has independent exp and skill points which are used to unlock skills in
/// that skill group.
#[derive(Clone, Copy, Debug, Hash, PartialEq, Eq, Structural)]
pub struct SkillGroup {
    pub skill_group_kind: SkillGroupKind,
    pub exp: u16,
    pub available_sp: u16,
    pub earned_sp: u16,
}

impl SkillGroup {
    /// A group without experience or skill points.
    pub fn new(skill_group_kind: SkillGroupKind) -> (g: SkillGroup)
        ensures
            g == (SkillGroup { skill_group_kind, exp: 0, available_sp: 0, earned_sp: 0 }),
    {
        SkillGroup { skill_group_kind, exp: 0, available_sp: 0, earned_sp: 0 }
    }
}

/// The levels of the skills that a player has unlocked: a
/// `hashbrown::HashMap` from the number of a skill to its level.
#[verifier::external_body]
pub struct SkillLevels {
    map: hashbrown::HashMap<(u8, u8), Option<u16>>,
}

/// What the levels hold: the level stored under the number of each skill.
pub uninterp spec fn level_entries(t: SkillLevels) -> Map<(u8, u8), Option<u16>>;

/// `HashMap::new`: no skills.
#[verifier::external_body]
pub(crate) fn levels_new() -> (table: SkillLevels)
    ensures
        level_entries(table) =~= Map::empty(),
{
    SkillLevels { map: hashbrown::HashMap::new() }
}

/// `HashMap::len`: the number of skills, of which there are finitely many.
#[verifier::external_body]
pub(crate) fn levels_len(t: &SkillLevels) -> (n: usize)
    ensures
        crate::ids::is_count_of(n as int, level_entries(*t).dom()),
{
    t.map.len()
}

/// `HashMap::get`: the level stored under `key`, if there is one.
#[verifier::external_body]
pub(crate) fn levels_get(t: &SkillLevels, key: (u8, u8)) -> (r: Option<Option<u16>>)
    ensures
        r == (if level_entries(*t).dom().contains(key) {
            Some(level_entries(*t)[key])
        } else {
            None
        }),
{
    t.map.get(&key).copied()
}

/// `HashMap::insert`: afterwards `level` is stored under `key`, and every
/// other key holds what it held.
#[verifier::external_body]
pub(crate) fn levels_insert(t: &mut SkillLevels, key: (u8, u8), level: Option<u16>)
    ensures
        level_entries(*final(t)) == level_entries(*old(t)).insert(key, level),
{
    t.map.insert(key, level);
}

/// `HashMap::remove`: afterwards nothing is stored under `key`, and every
/// other key holds what it held.
#[verifier::external_body]
pub(crate) fn levels_remove(t: &mut SkillLevels, key: (u8, u8))
    ensures
        level_entries(*final(t)) == level_entries(*old(t)).remove(key),
{
    t.map.remove(&key);
}

impl SkillLevels {
    /// The level stored for `skill`, if the skill is unlocked.
    pub open spec fn level_spec(&self, skill: Skill) -> Option<Option<u16>> {
        if level_entries(*self).dom().contains(skill.code_spec()) {
            Some(level_entries(*self)[skill.code_spec()])
        } else {
            None
        }
    }

    /// The number of unlocked skills.
    pub fn len(&self) -> (n: usize)
        ensures
            level_entries(*self).dom().finite(),
            n == level_entries(*self).dom().len(),
    {
        levels_len(self)
    }

    /// The level stored for `skill`, if the skill is unlocked.
    pub fn get(&self, skill: &Skill) -> (r: Option<Option<u16>>)
        ensures
            r == self.level_spec(*skill),
    {
        levels_get(self, skill.code())
    }
}

/// What came of the attempt to unlock a skill.
#[derive(Clone, Copy, Debug, PartialEq, Eq, Structural)]
pub enum UnlockOutcome {
    /// The skill was unlocked, or raised by a level, and paid for.
    Unlocked,
    /// The skill belongs to no group.
    NoSkillGroup,
    /// The skill has reached its highest level already.
    AtMaxLevel,
    /// The player does not have the group that the skill belongs to.
    GroupLocked,
    /// The player lacks a skill that the skill presupposes.
    PrerequisitesNotMet,
    /// The player has too few skill points in the group.
    InsufficientSp,
}

/// What came of the attempt to refund a skill.
#[derive(Clone, Copy, Debug, PartialEq, Eq, Structural)]
pub enum RefundOutcome {
    /// The skill was lowered by a level, or removed, and its cost returned.
    Refunded,
    /// The player does not have the skill.
    MissingSkill,
    /// The skill belongs to no group.
    NoSkillGroup,
    /// The player does not have the group that the skill belongs to.
    GroupLocked,
}

/// Contains all of a player's skill groups and skills. Provides methods for
/// manipulating assigned skills and skill groups including unlocking skills,
/// refunding skills etc.
pub struct SkillSet {
    pub skill_groups: Vec<SkillGroup>,
    pub skills: SkillLevels,
    pub modify_health: bool,
    pub modify_energy: bool,
}

/// The place of the first group of kind `kind` among `groups`.
pub open spec fn first_of_kind(groups: Seq<SkillGroup>, kind: SkillGroupKind) -> Option<int>
    decreases groups.len(),
{
    if groups.len() == 0 {
        None
    } else {
        match first_of_kind(groups.drop_last(), kind) {
            Some(i) => Some(i),
            None => if groups.last().skill_group_kind == kind {
                Some(groups.len() - 1)
            } else {
                None
            },
        }
    }
}

/// What is found first in the beginning of a list is found first in all of
/// it, and lies in the list.
pub proof fn lemma_first_of_kind_extends(groups: Seq<SkillGroup>, kind: SkillGroupKind, n: int, m: int)
    requires
        0 <= n <= m <= groups.len(),
    ensures
        first_of_kind(groups.take(n), kind) matches Some(i) ==> 0 <= i < n && groups[i].skill_group_kind
            == kind && first_of_kind(groups.take(m), kind) == Some(i),
    decreases m,
{
    if n > 0 {
        lemma_first_of_kind_extends(groups, kind, n - 1, n - 1);
        assert(groups.take(n).drop_last() == groups.take(n - 1));
    }
    if n < m {
        lemma_first_of_kind_extends(groups, kind, n, m - 1);
        assert(groups.take(m).drop_last() == groups.take(m - 1));
    }
}

/// The groups `groups` with the skill points `sp` available in the group at
/// place `i`.
pub open spec fn with_available_sp(groups: Seq<SkillGroup>, i: int, sp: u16) -> Seq<SkillGroup> {
    groups.update(i, SkillGroup { available_sp: sp, ..groups[i] })
}

/// The groups `groups` with a fresh group of kind `kind` at the end, unless
/// there is one of that kind.
pub open spec fn with_group(groups: Seq<SkillGroup>, kind: SkillGroupKind) -> Seq<SkillGroup> {
    if first_of_kind(groups, kind).is_some() {
        groups
    } else {
        groups.push(SkillGroup { skill_group_kind: kind, exp: 0, available_sp: 0, earned_sp: 0 })
    }
}

/// A sum of skill points, as far as a `u16` holds it.
pub open spec fn saturating_sum(a: u16, b: u16) -> u16 {
    if a + b > u16::MAX {
        u16::MAX
    } else {
        (a + b) as u16
    }
}

/// A difference of skill points, at least 0.
pub open spec fn saturating_diff(a: u16, b: u16) -> u16 {
    if a < b {
        0
    } else {
        (a - b) as u16
    }
}

impl Default for SkillSet {
    /// Instantiate a new skill set with the default skill groups with no
    /// unlocked skills in them - used when adding a skill set to a new player.
    fn default() -> (s: Self)
        ensures
            s.skill_groups@ == seq![
                SkillGroup {
                    skill_group_kind: SkillGroupKind::General,
                    exp: 0,
                    available_sp: 0,
                    earned_sp: 0,
                },
                SkillGroup {
                    skill_group_kind: SkillGroupKind::Weapon(ToolKind::Pick),
                    exp: 0,
                    available_sp: 0,
                    earned_sp: 0,
                },
            ],
            level_entries(s.skills) == Map::<(u8, u8), Option<u16>>::empty(),
            !s.modify_health,
            !s.modify_energy,
    {
        let mut skill_groups: Vec<SkillGroup> = Vec::new();
        skill_groups.push(SkillGroup::new(SkillGroupKind::General));
        skill_groups.push(SkillGroup::new(SkillGroupKind::Weapon(ToolKind::Pick)));
        SkillSet { skill_groups, skills: levels_new(), modify_health: false, modify_energy: false }
    }
}

impl SkillSet {
    /// The level that `skill` would have after it is unlocked once more: one
    /// above its level, as far as a `u16` holds it; level 1 for a skill with
    /// levels that is not unlocked yet; none for a skill without levels.
    pub open spec fn next_level_spec(&self, skill: Skill, tables: SkillTables) -> Option<u16> {
        match self.skills.level_spec(skill) {
            Some(level) => match level {
                Some(l) => Some(saturating_sum(l, 1)),
                None => None,
            },
            None => match tables.max_level_spec(skill) {
                Some(_) => Some(1u16),
                None => None,
            },
        }
    }

    /// Whether the `n` first of the skills that `skill` presupposes are
    /// unlocked, each at the level that is asked for or above. A skill
    /// without levels is at no level, which is below every level.
    pub open spec fn prerequisites_met_upto(&self, required: Seq<(Skill, Option<u16>)>, n: int) -> bool
        decreases n,
    {
        if n <= 0 {
            true
        } else {
            self.prerequisites_met_upto(required, n - 1) && (match self.skills.level_spec(
                required[n - 1].0,
            ) {
                Some(have) => level_at_least(have, required[n - 1].1),
                None => false,
            })
        }
    }

    /// What comes of the attempt to unlock `skill`.
    pub open spec fn unlock_outcome(&self, skill: Skill, tables: SkillTables) -> UnlockOutcome {
        match tables.group_of_spec(skill) {
            None => UnlockOutcome::NoSkillGroup,
            Some(kind) => if self.skills.level_spec(skill) == Some(tables.max_level_spec(skill)) {
                UnlockOutcome::AtMaxLevel
            } else {
                match first_of_kind(self.skill_groups@, kind) {
                    None => UnlockOutcome::GroupLocked,
                    Some(i) => {
                        let required = tables.prerequisites_spec(skill);
                        if !self.prerequisites_met_upto(required, required.len() as int) {
                            UnlockOutcome::PrerequisitesNotMet
                        } else if self.skill_groups@[i].available_sp < skill_cost_spec(
                            self.next_level_spec(skill, tables),
                        ) {
                            UnlockOutcome::InsufficientSp
                        } else {
                            UnlockOutcome::Unlocked
                        }
                    },
                }
            },
        }
    }

    /// What comes of the attempt to refund `skill`.
    pub open spec fn refund_outcome(&self, skill: Skill, tables: SkillTables) -> RefundOutcome {
        match self.skills.level_spec(skill) {
            None => RefundOutcome::MissingSkill,
            Some(_) => match tables.group_of_spec(skill) {
                None => RefundOutcome::NoSkillGroup,
                Some(kind) => match first_of_kind(self.skill_groups@, kind) {
                    None => RefundOutcome::GroupLocked,
                    Some(_) => RefundOutcome::Refunded,
                },
            },
        }
    }

    /// The place of the first group of kind `kind`.
    pub fn group_index(&self, kind: SkillGroupKind) -> (r: Option<usize>)
        ensures
            match r {
                Some(i) => first_of_kind(self.skill_groups@, kind) == Some(i as int) && i
                    < self.skill_groups@.len() && self.skill_groups@[i as int].skill_group_kind
                    == kind,
                None => first_of_kind(self.skill_groups@, kind).is_none(),
            },
    {
        let mut i: usize = 0;
        while i < self.skill_groups.len()
            invariant
                i <= self.skill_groups.len(),
                first_of_kind(self.skill_groups@.take(i as int), kind).is_none(),
            decreases self.skill_groups.len() - i,
        {
            proof {
                assert(self.skill_groups@.take(i + 1).drop_last() == self.skill_groups@.take(
                    i as int,
                ));
            }
            if self.skill_groups[i].skill_group_kind == kind {
                proof {
                    assert(first_of_kind(self.skill_groups@.take(i + 1), kind) == Some(i as int));
                    lemma_first_of_kind_extends(
                        self.skill_groups@,
                        kind,
                        i + 1,
                        self.skill_groups@.len() as int,
                    );
                    assert(self.skill_groups@.take(self.skill_groups@.len() as int)
                        == self.skill_groups@);
                }
                return Some(i);
            }
            i = i + 1;
        }
        assert(self.skill_groups@.take(self.skill_groups@.len() as int) == self.skill_groups@);
        None
    }

    /// Unlocks a skill group for a player. It starts with 0 exp and 0 skill
    /// points. A group that the player has already is left as it is.
    /// Returns whether the group was unlocked.
    pub fn unlock_skill_group(&mut self, skill_group_kind: SkillGroupKind) -> (unlocked: bool)
        ensures
            unlocked == first_of_kind(old(self).skill_groups@, skill_group_kind).is_none(),
            final(self).skill_groups@ == with_group(old(self).skill_groups@, skill_group_kind),
            final(self).skills == old(self).skills,
            final(self).modify_health == old(self).modify_health,
            final(self).modify_energy == old(self).modify_energy,
    {
        if !self.contains_skill_group(skill_group_kind) {
            self.skill_groups.push(SkillGroup::new(skill_group_kind));
            true
        } else {
            false
        }
    }

    /// Unlocks a skill for a player, assuming they have the relevant skill
    /// group unlocked and available SP in that skill group. Where the skill
    /// cannot be unlocked nothing changes, and the outcome says why.
    pub fn unlock_skill(&mut self, skill: Skill, tables: &SkillTables) -> (outcome: UnlockOutcome)
        ensures
            outcome == old(self).unlock_outcome(skill, *tables),
            outcome != UnlockOutcome::Unlocked ==> *final(self) == *old(self),
            outcome == UnlockOutcome::Unlocked ==> {
                let kind = tables.group_of_spec(skill).unwrap();
                let i = first_of_kind(old(self).skill_groups@, kind).unwrap();
                let next = old(self).next_level_spec(skill, *tables);
                let paid = with_available_sp(
                    old(self).skill_groups@,
                    i,
                    (old(self).skill_groups@[i].available_sp - skill_cost_spec(next)) as u16,
                );
                &&& final(self).skill_groups@ == (match skill {
                    Skill::UnlockGroup(group) => with_group(paid, group),
                    _ => paid,
                })
                &&& level_entries(final(self).skills) == level_entries(old(self).skills).insert(
                    skill.code_spec(),
                    next,
                )
                &&& final(self).modify_health == (old(self).modify_health || skill
                    == Skill::General(GeneralSkill::HealthIncrease))
                &&& final(self).modify_energy == (old(self).modify_energy || skill
                    == Skill::General(GeneralSkill::EnergyIncrease))
            },
    {
        let kind = match skill.skill_group_kind(tables) {
            Some(kind) => kind,
            None => {
                return UnlockOutcome::NoSkillGroup;
            },
        };
        let next_level = self.next_skill_level(skill, tables);
        let prerequisites_met = self.prerequisites_met(skill, tables);
        let at_max = match self.skills.get(&skill) {
            Some(level) => level_eq(level, skill.max_level(tables)),
            None => false,
        };
        if at_max {
            return UnlockOutcome::AtMaxLevel;
        }
        let i = match self.group_index(kind) {
            Some(i) => i,
            None => {
                return UnlockOutcome::GroupLocked;
            },
        };
        if !prerequisites_met {
            return UnlockOutcome::PrerequisitesNotMet;
        }
        let cost = skill.skill_cost(next_level);
        if self.skill_groups[i].available_sp < cost {
            return UnlockOutcome::InsufficientSp;
        }
        let left: u16 = self.skill_groups[i].available_sp - cost;
        let mut group = self.skill_groups[i];
        group.available_sp = left;
        self.skill_groups.set(i, group);
        match skill {
            Skill::UnlockGroup(group) => {
                self.unlock_skill_group(group);
            },
            _ => {},
        }
        if skill == Skill::General(GeneralSkill::HealthIncrease) {
            self.modify_health = true;
        }
        if skill == Skill::General(GeneralSkill::EnergyIncrease) {
            self.modify_energy = true;
        }
        levels_insert(&mut self.skills, skill.code(), next_level);
        UnlockOutcome::Unlocked
    }

    /// Removes a skill from a player, or lowers it by a level, and refunds
    /// what the level cost in the relevant skill group. Where the skill
    /// cannot be refunded nothing changes, and the outcome says why.
    pub fn refund_skill(&mut self, skill: Skill, tables: &SkillTables) -> (outcome: RefundOutcome)
        ensures
            outcome == old(self).refund_outcome(skill, *tables),
            outcome != RefundOutcome::Refunded ==> *final(self) == *old(self),
            final(self).modify_health == old(self).modify_health,
            final(self).modify_energy == old(self).modify_energy,
            outcome == RefundOutcome::Refunded ==> {
                let kind = tables.group_of_spec(skill).unwrap();
                let i = first_of_kind(old(self).skill_groups@, kind).unwrap();
                let level = old(self).skills.level_spec(skill).unwrap();
                &&& final(self).skill_groups@ == with_available_sp(
                    old(self).skill_groups@,
                    i,
                    saturating_sum(old(self).skill_groups@[i].available_sp, skill_cost_spec(level)),
                )
                &&& level_entries(final(self).skills) == (match level {
                    Some(l) => if l > 1 {
                        level_entries(old(self).skills).insert(
                            skill.code_spec(),
                            Some((l - 1) as u16),
                        )
                    } else {
                        level_entries(old(self).skills).remove(skill.code_spec())
                    },
                    None => level_entries(old(self).skills).remove(skill.code_spec()),
                })
            },
    {
        let level = match self.skills.get(&skill) {
            Some(level) => level,
            None => {
                return RefundOutcome::MissingSkill;
            },
        };
        let kind = match skill.skill_group_kind(tables) {
            Some(kind) => kind,
            None => {
                return RefundOutcome::NoSkillGroup;
            },
        };
        let i = match self.group_index(kind) {
            Some(i) => i,
            None => {
                return RefundOutcome::GroupLocked;
            },
        };
        let mut group = self.skill_groups[i];
        group.available_sp = add_sp(group.available_sp, skill.skill_cost(level));
        self.skill_groups.set(i, group);
        match level {
            Some(l) => {
                if l > 1 {
                    levels_insert(&mut self.skills, skill.code(), Some(l - 1));
                } else {
                    levels_remove(&mut self.skills, skill.code());
                }
            },
            None => {
                levels_remove(&mut self.skills, skill.code());
            },
        }
        RefundOutcome::Refunded
    }

    /// Adds skill points to a skill group as long as the player has that
    /// skill group type. Returns whether the player has it.
    pub fn add_skill_points(&mut self, skill_group_kind: SkillGroupKind, number_of_skill_points: u16) -> (found:
        bool)
        ensures
            found == first_of_kind(old(self).skill_groups@, skill_group_kind).is_some(),
            final(self).skills == old(self).skills,
            final(self).modify_health == old(self).modify_health,
            final(self).modify_energy == old(self).modify_energy,
            final(self).skill_groups@ == (match first_of_kind(
                old(self).skill_groups@,
                skill_group_kind,
            ) {
                Some(i) => old(self).skill_groups@.update(
                    i,
                    SkillGroup {
                        available_sp: saturating_sum(
                            old(self).skill_groups@[i].available_sp,
                            number_of_skill_points,
                        ),
                        earned_sp: saturating_sum(
                            old(self).skill_groups@[i].earned_sp,
                            number_of_skill_points,
                        ),
                        ..old(self).skill_groups@[i]
                    },
                ),
                None => old(self).skill_groups@,
            }),
    {
        match self.group_index(skill_group_kind) {
            Some(i) => {
                let mut group = self.skill_groups[i];
                group.available_sp = add_sp(group.available_sp, number_of_skill_points);
                group.earned_sp = add_sp(group.earned_sp, number_of_skill_points);
                self.skill_groups.set(i, group);
                true
            },
            None => false,
        }
    }

    /// Adds a skill point while subtracting the necessary amount of
    /// experience, `sp_cost`. Returns whether the player has the group.
    pub fn earn_skill_point(&mut self, skill_group_kind: SkillGroupKind, sp_cost: u16) -> (found: bool)
        ensures
            found == first_of_kind(old(self).skill_groups@, skill_group_kind).is_some(),
            final(self).skills == old(self).skills,
            final(self).modify_health == old(self).modify_health,
            final(self).modify_energy == old(self).modify_energy,
            final(self).skill_groups@ == (match first_of_kind(
                old(self).skill_groups@,
                skill_group_kind,
            ) {
                Some(i) => old(self).skill_groups@.update(
                    i,
                    SkillGroup {
                        skill_group_kind: old(self).skill_groups@[i].skill_group_kind,
                        exp: saturating_diff(old(self).skill_groups@[i].exp, sp_cost),
                        available_sp: saturating_sum(old(self).skill_groups@[i].available_sp, 1),
                        earned_sp: saturating_sum(old(self).skill_groups@[i].earned_sp, 1),
                    },
                ),
                None => old(self).skill_groups@,
            }),
    {
        match self.group_index(skill_group_kind) {
            Some(i) => {
                let mut group = self.skill_groups[i];
                group.exp = if group.exp < sp_cost {
                    0
                } else {
                    group.exp - sp_cost
                };
                group.available_sp = add_sp(group.available_sp, 1);
                group.earned_sp = add_sp(group.earned_sp, 1);
                self.skill_groups.set(i, group);
                true
            },
            None => false,
        }
    }

    /// Checks if the skill set of an entity contains a particular skill group
    /// type.
    pub fn contains_skill_group(&self, skill_group_kind: SkillGroupKind) -> (b: bool)
        ensures
            b == first_of_kind(self.skill_groups@, skill_group_kind).is_some(),
    {
        self.group_index(skill_group_kind).is_some()
    }

    /// Adds/subtracts experience to the skill group within an entity's skill
    /// set, wrapping around at the ends of the range of a `u16`. Returns
    /// whether the player has the group.
    pub fn change_experience(&mut self, skill_group_kind: SkillGroupKind, amount: i32) -> (found: bool)
        ensures
            found == first_of_kind(old(self).skill_groups@, skill_group_kind).is_some(),
            final(self).skills == old(self).skills,
            final(self).modify_health == old(self).modify_health,
            final(self).modify_energy == old(self).modify_energy,
            final(self).skill_groups@ == (match first_of_kind(
                old(self).skill_groups@,
                skill_group_kind,
            ) {
                Some(i) => old(self).skill_groups@.update(
                    i,
                    SkillGroup {
                        exp: ((old(self).skill_groups@[i].exp + amount) % 0x1_0000) as u16,
                        ..old(self).skill_groups@[i]
                    },
                ),
                None => old(self).skill_groups@,
            }),
    {
        match self.group_index(skill_group_kind) {
            Some(i) => {
                let mut group = self.skill_groups[i];
                let sum: i64 = group.exp as i64 + amount as i64;
                let wrapped: i64 = if sum >= 0 {
                    sum % 0x1_0000
                } else {
                    let back: i64 = (-sum) % 0x1_0000;
                    if back == 0 {
                        0
                    } else {
                        0x1_0000 - back
                    }
                };
                group.exp = wrapped as u16;
                self.skill_groups.set(i, group);
                true
            },
            None => false,
        }
    }

    /// Checks that the skill set contains all prerequisite skills for a
    /// particular skill.
    pub fn prerequisites_met(&self, skill: Skill, tables: &SkillTables) -> (b: bool)
        ensures
            b == self.prerequisites_met_upto(
                tables.prerequisites_spec(skill),
                tables.prerequisites_spec(skill).len() as int,
            ),
    {
        let required = skill.prerequisite_skills(tables);
        let mut i: usize = 0;
        while i < required.len()
            invariant
                i <= required.len(),
                required@ == tables.prerequisites_spec(skill),
                self.prerequisites_met_upto(required@, i as int),
            decreases required.len() - i,
        {
            let (s, l) = required[i];
            let met = match self.skills.get(&s) {
                Some(have) => level_ge(have, l),
                None => false,
            };
            if !met {
                proof {
                    lemma_unmet_stays_unmet(*self, required@, i + 1, required@.len() as int);
                }
                return false;
            }
            i = i + 1;
        }
        true
    }

    /// Gets the available points for a particular skill group.
    pub fn available_sp(&self, skill_group: SkillGroupKind) -> (sp: u16)
        ensures
            sp == match first_of_kind(self.skill_groups@, skill_group) {
                Some(i) => self.skill_groups@[i].available_sp,
                None => 0,
            },
    {
        match self.group_index(skill_group) {
            Some(i) => self.skill_groups[i].available_sp,
            None => 0,
        }
    }

    /// Gets the total earned points for a particular skill group.
    pub fn earned_sp(&self, skill_group: SkillGroupKind) -> (sp: u16)
        ensures
            sp == match first_of_kind(self.skill_groups@, skill_group) {
                Some(i) => self.skill_groups@[i].earned_sp,
                None => 0,
            },
    {
        match self.group_index(skill_group) {
            Some(i) => self.skill_groups[i].earned_sp,
            None => 0,
        }
    }

    /// Gets the available experience for a particular skill group.
    pub fn experience(&self, skill_group: SkillGroupKind) -> (exp: u16)
        ensures
            exp == match first_of_kind(self.skill_groups@, skill_group) {
                Some(i) => self.skill_groups@[i].exp,
                None => 0,
            },
    {
        match self.group_index(skill_group) {
            Some(i) => self.skill_groups[i].exp,
            None => 0,
        }
    }

    /// Gets skill point cost to purchase skill of next level.
    pub fn skill_cost(&self, skill: Skill, tables: &SkillTables) -> (cost: u16)
        ensures
            cost == skill_cost_spec(self.next_level_spec(skill, *tables)),
    {
        let next_level = self.next_skill_level(skill, tables);
        skill.skill_cost(next_level)
    }

    /// Checks if player has sufficient skill points to purchase a skill.
    pub fn sufficient_skill_points(&self, skill: Skill, tables: &SkillTables) -> (b: bool)
        ensures
            b == match tables.group_of_spec(skill) {
                Some(kind) => match first_of_kind(self.skill_groups@, kind) {
                    Some(i) => self.skill_groups@[i].available_sp >= skill_cost_spec(
                        self.next_level_spec(skill, *tables),
                    ),
                    None => false,
                },
                None => false,
            },
    {
        match skill.skill_group_kind(tables) {
            Some(kind) => match self.group_index(kind) {
                Some(i) => {
                    let needed_sp = self.skill_cost(skill, tables);
                    self.skill_groups[i].available_sp >= needed_sp
                },
                None => false,
            },
            None => false,
        }
    }

    /// Whether the group `group` has points to spend and skills left to
    /// spend them on.
    pub open spec fn can_spend(group: SkillGroup, tables: SkillTables) -> bool {
        group.available_sp > 0 && saturating_diff(group.earned_sp, group.available_sp)
            < tables.total_cost_spec(group.skill_group_kind)
    }

    /// Checks if the player has available SP to spend.
    pub fn has_available_sp(&self, tables: &SkillTables) -> (b: bool)
        ensures
            b == exists|i: int|
                0 <= i < self.skill_groups@.len() && Self::can_spend(
                    #[trigger] self.skill_groups@[i],
                    *tables,
                ),
    {
        let mut i: usize = 0;
        while i < self.skill_groups.len()
            invariant
                i <= self.skill_groups.len(),
                forall|j: int| 0 <= j < i ==> !Self::can_spend(#[trigger] self.skill_groups@[j], *tables),
            decreases self.skill_groups.len() - i,
        {
            let sg = self.skill_groups[i];
            let spent: u16 = if sg.earned_sp < sg.available_sp {
                0
            } else {
                sg.earned_sp - sg.available_sp
            };
            if sg.available_sp > 0 && spent < sg.skill_group_kind.total_skill_point_cost(tables) {
                return true;
            }
            i = i + 1;
        }
        false
    }

    /// Checks if the skill is at max level in a skill set.
    pub fn is_at_max_level(&self, skill: Skill, tables: &SkillTables) -> (b: bool)
        ensures
            b == (self.skills.level_spec(skill) == Some(tables.max_level_spec(skill))),
    {
        match self.skills.get(&skill) {
            Some(level) => level_eq(level, skill.max_level(tables)),
            None => false,
        }
    }

    /// Checks if skill set contains a skill.
    pub fn has_skill(&self, skill: Skill) -> (b: bool)
        ensures
            b == self.skills.level_spec(skill).is_some(),
    {
        self.skills.get(&skill).is_some()
    }

    /// Returns the level of the skill.
    pub fn skill_level(&self, skill: Skill) -> (r: Result<Option<u16>, SkillError>)
        ensures
            r == (match self.skills.level_spec(skill) {
                Some(level) => Ok::<Option<u16>, SkillError>(level),
                None => Err::<Option<u16>, SkillError>(SkillError::MissingSkill),
            }),
    {
        match self.skills.get(&skill) {
            Some(level) => Ok(level),
            None => Err(SkillError::MissingSkill),
        }
    }

    /// Returns the level of the skill or passed value as default.
    pub fn skill_level_or(&self, skill: Skill, default: u16) -> (level: u16)
        ensures
            level == match self.skills.level_spec(skill) {
                Some(Some(l)) => l,
                _ => default,
            },
    {
        match self.skills.get(&skill) {
            Some(Some(level)) => level,
            _ => default,
        }
    }

    /// Checks the next level of a skill.
    pub fn next_skill_level(&self, skill: Skill, tables: &SkillTables) -> (r: Option<u16>)
        ensures
            r == self.next_level_spec(skill, *tables),
    {
        match self.skills.get(&skill) {
            Some(level) => match level {
                Some(l) => Some(add_sp(l, 1)),
                None => None,
            },
            None => match skill.max_level(tables) {
                Some(_) => Some(1),
                None => None,
            },
        }
    }
}

/// Whether the level `have` is the level `want` or above. No level is below
/// every level.
pub open spec fn level_at_least(have: Option<u16>, want: Option<u16>) -> bool {
    match (have, want) {
        (_, None) => true,
        (None, Some(_)) => false,
        (Some(h), Some(w)) => h >= w,
    }
}

/// Whether the level `have` is the level `want` or above.
pub fn level_ge(have: Option<u16>, want: Option<u16>) -> (b: bool)
    ensures
        b == level_at_least(have, want),
{
    match want {
        None => true,
        Some(w) => match have {
            None => false,
            Some(h) => h >= w,
        },
    }
}

/// Whether two levels are the same.
pub fn level_eq(a: Option<u16>, b: Option<u16>) -> (same: bool)
    ensures
        same == (a == b),
{
    match a {
        Some(x) => match b {
            Some(y) => x == y,
            None => false,
        },
        None => b.is_none(),
    }
}

/// A sum of skill points, as far as a `u16` holds it.
pub fn add_sp(a: u16, b: u16) -> (sum: u16)
    ensures
        sum == saturating_sum(a, b),
{
    if a as u32 + b as u32 > u16::MAX as u32 {
        u16::MAX
    } else {
        a + b
    }
}

/// Once a prerequisite is not met, the prerequisites are not met.
pub proof fn lemma_unmet_stays_unmet(s: SkillSet, required: Seq<(Skill, Option<u16>)>, n: int, m: int)
    requires
        0 <= n <= m,
        !s.prerequisites_met_upto(required, n),
    ensures
        !s.prerequisites_met_upto(required, m),
    decreases m - n,
{
    if n < m {
        lemma_unmet_stays_unmet(s, required, n, m - 1);
    }
}

} // verus!
