use rtsim::ability::Ability;
use rtsim::ability::AbilityMeta;
use rtsim::ability::AbilityRequirements;
use rtsim::ability::AuxiliaryAbility;
use rtsim::ability::Capability;
use rtsim::ability::GuardAbility;
use rtsim::ability::Stance;
use rtsim::ability::SwordStance;
use rtsim::comp::Attribute;
use rtsim::comp::AttackSource;
use rtsim::comp::CellData;
use rtsim::comp::MatCell;
use rtsim::comp::Material;
use rtsim::comp::MirrorX;
use rtsim::comp::PetState;
use rtsim::comp::ShockwaveDodgeable;
use rtsim::skills::AxeSkill;
use rtsim::skills::Boost;
use rtsim::skills::BoostValue;
use rtsim::skills::GeneralSkill;
use rtsim::skills::Skill;
use rtsim::skills::SkillGroup;
use rtsim::skills::SkillGroupKind;
use rtsim::skills::SkillTables;
use rtsim::skills::SwordSkill;
use rtsim::skills::ToolKind;

#[test]
fn met_cell_size() {
    assert_eq!(5, std::mem::size_of::<MatCell>());
    assert_eq!(1, std::mem::align_of::<MatCell>());
}

#[test]
fn mat_cell_filled() {
    assert!(!MatCell::default_non_filled().is_filled());
    assert!(MatCell::Mat(Material::Hair).is_filled());
    assert!(MatCell::Normal(CellData { r: 1, g: 2, b: 3, attr: 0 }).is_filled());
}

#[test]
fn ability_from_tool() {
    assert!(Ability::ToolPrimary.is_from_tool());
    assert!(Ability::ToolGuard.is_from_tool());
    assert!(Ability::MainWeaponAux(3).is_from_tool());
    assert!(!Ability::SpeciesMovement.is_from_tool());
    assert!(!Ability::Empty.is_from_tool());
    assert_eq!(Ability::from(GuardAbility::Tool), Ability::ToolGuard);
    assert_eq!(Ability::from(AuxiliaryAbility::OffWeapon(2)), Ability::OffWeaponAux(2));
}

#[test]
fn requirements_and_stances() {
    let none = AbilityRequirements::default();
    assert!(none.requirements_met(None));
    assert!(none.requirements_met(Some(&Stance::Sword(SwordStance::Heavy))));
    let heavy = AbilityRequirements { stance: Some(Stance::Sword(SwordStance::Heavy)) };
    assert!(!heavy.requirements_met(None));
    assert!(!heavy.requirements_met(Some(&Stance::Sword(SwordStance::Agile))));
    assert!(heavy.requirements_met(Some(&Stance::Sword(SwordStance::Heavy))));
    assert_eq!(
        Stance::Sword(SwordStance::Cleaving).pseudo_ability_id(),
        "veloren.core.pseudo_abilities.sword.cleaving_stance"
    );
    assert_eq!(Stance::default().pseudo_ability_id(), "veloren.core.pseudo_abilities.no_stance");
    let meta = AbilityMeta::default();
    assert!(!meta.capabilities.contains(Capability::BLOCKS));
    let c = Capability { bits: Capability::BLOCKS | Capability::PARRIES };
    assert!(c.contains(Capability::PARRIES));
    assert!(!c.contains(Capability::POISE_RESISTANT));
}

#[test]
fn pets_and_shockwaves() {
    assert!(!PetState::default().get_state());
    assert!(PetState { stay: true }.get_state());
    assert_eq!(ShockwaveDodgeable::Roll.to_attack_source(), AttackSource::AirShockwave);
    assert_eq!(ShockwaveDodgeable::Jump.to_attack_source(), AttackSource::GroundShockwave);
    assert_eq!(ShockwaveDodgeable::No.to_attack_source(), AttackSource::UndodgeableShockwave);
}

#[test]
fn attribute_bits_round_trip() {
    assert_eq!(MirrorX::bits(), 1);
    assert_eq!(MirrorX(true).into_bits(), 1);
    assert_eq!(MirrorX::from_bits(1), Ok(MirrorX(true)));
    assert_eq!(MirrorX::from_bits(0), Ok(MirrorX(false)));
    assert_eq!(MirrorX::from_bits(7), Ok(MirrorX(false)));
    assert_eq!(MirrorX(false).into_bits(), 0);
}

#[test]
fn skill_boosts() {
    assert_eq!(Skill::Sword(SwordSkill::DCost).boost(), BoostValue::Number(-25));
    assert_eq!(Skill::Sword(SwordSkill::SDamage).boost(), BoostValue::Number(40));
    assert_eq!(Skill::Axe(AxeSkill::UnlockLeap).boost(), BoostValue::NonDescriptive);
    assert_eq!(Skill::General(GeneralSkill::HealthIncrease).boost(), BoostValue::Number(5));
    assert_eq!(
        Skill::UnlockGroup(SkillGroupKind::Weapon(ToolKind::Bow)).boost(),
        BoostValue::NonDescriptive
    );
    assert_eq!(BoostValue::from(7), BoostValue::Number(7));
}

fn tables() -> SkillTables {
    let mut t = SkillTables::new();
    t.groups.push((
        SkillGroupKind::General,
        vec![
            Skill::General(GeneralSkill::HealthIncrease),
            Skill::General(GeneralSkill::EnergyIncrease),
        ],
    ));
    t.groups.push((
        SkillGroupKind::Weapon(ToolKind::Axe),
        vec![Skill::Axe(AxeSkill::UnlockLeap), Skill::Axe(AxeSkill::LDamage)],
    ));
    t.max_levels.push((Skill::General(GeneralSkill::HealthIncrease), Some(10)));
    t.max_levels.push((Skill::Axe(AxeSkill::LDamage), Some(2)));
    t.prerequisites
        .push((Skill::Axe(AxeSkill::LDamage), vec![(Skill::Axe(AxeSkill::UnlockLeap), None)]));
    t
}

#[test]
fn skill_lookups() {
    let t = tables();
    let leap = Skill::Axe(AxeSkill::UnlockLeap);
    let damage = Skill::Axe(AxeSkill::LDamage);
    assert_eq!(leap.skill_group_kind(&t), Some(SkillGroupKind::Weapon(ToolKind::Axe)));
    assert_eq!(Skill::Sword(SwordSkill::TsCombo).skill_group_kind(&t), None);
    assert_eq!(leap.max_level(&t), None);
    assert_eq!(damage.max_level(&t), Some(2));
    assert_eq!(damage.prerequisite_skills(&t), vec![(leap, None)]);
    assert_eq!(leap.prerequisite_skills(&t), vec![]);
    assert_eq!(leap.skill_cost(None), 1);
    assert_eq!(leap.skill_cost(Some(4)), 4);
    assert_ne!(leap.code(), damage.code());
}

#[test]
fn skill_group_totals() {
    let t = tables();
    // One point for the leap, 1 + 2 for the two levels of its damage.
    assert_eq!(SkillGroupKind::Weapon(ToolKind::Axe).total_skill_point_cost(&t), 4);
    // 1 + 2 + ... + 10 for health, one point for energy.
    assert_eq!(SkillGroupKind::General.total_skill_point_cost(&t), 56);
    assert_eq!(SkillGroupKind::Weapon(ToolKind::Bow).total_skill_point_cost(&t), 0);
    let g = SkillGroup::new(SkillGroupKind::General);
    assert_eq!(g.exp, 0);
    assert_eq!(g.available_sp, 0);
    assert_eq!(g.earned_sp, 0);
}
