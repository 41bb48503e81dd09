use rtsim::skills::AxeSkill;
use rtsim::skills::GeneralSkill;
use rtsim::skills::RefundOutcome;
use rtsim::skills::Skill;
use rtsim::skills::SkillError;
use rtsim::skills::SkillGroup;
use rtsim::skills::SkillGroupKind;
use rtsim::skills::SkillSet;
use rtsim::skills::SkillTables;
use rtsim::skills::SwordSkill;
use rtsim::skills::ToolKind;
use rtsim::skills::UnlockOutcome;

/// The part of the game's skill trees that the skills of these tests belong
/// to.
fn tables() -> SkillTables {
    let mut t = SkillTables::new();
    t.groups.push((
        SkillGroupKind::General,
        vec![
            Skill::General(GeneralSkill::HealthIncrease),
            Skill::General(GeneralSkill::EnergyIncrease),
            Skill::UnlockGroup(SkillGroupKind::Weapon(ToolKind::Sword)),
        ],
    ));
    t.groups.push((
        SkillGroupKind::Weapon(ToolKind::Axe),
        vec![
            Skill::Axe(AxeSkill::UnlockLeap),
            Skill::Axe(AxeSkill::DsCombo),
            Skill::Axe(AxeSkill::LDamage),
        ],
    ));
    t.max_levels.push((Skill::General(GeneralSkill::HealthIncrease), Some(10)));
    t.max_levels.push((Skill::Axe(AxeSkill::LDamage), Some(2)));
    t.prerequisites
        .push((Skill::Axe(AxeSkill::LDamage), vec![(Skill::Axe(AxeSkill::UnlockLeap), None)]));
    t
}

#[test]
fn test_refund_skill() {
    let t = tables();
    let mut skillset = SkillSet::default();
    skillset.unlock_skill_group(SkillGroupKind::Weapon(ToolKind::Axe));
    skillset.add_skill_points(SkillGroupKind::Weapon(ToolKind::Axe), 1);
    skillset.unlock_skill(Skill::Axe(AxeSkill::UnlockLeap), &t);

    assert_eq!(skillset.skill_groups[2].available_sp, 0);
    assert_eq!(skillset.skills.len(), 1);
    assert!(skillset.has_skill(Skill::Axe(AxeSkill::UnlockLeap)));

    skillset.refund_skill(Skill::Axe(AxeSkill::UnlockLeap), &t);

    assert_eq!(skillset.skill_groups[2].available_sp, 1);
    assert_eq!(skillset.skills.get(&Skill::Axe(AxeSkill::UnlockLeap)), None);
}

#[test]
fn test_unlock_skillgroup() {
    let mut skillset = SkillSet::default();
    skillset.unlock_skill_group(SkillGroupKind::Weapon(ToolKind::Axe));

    assert_eq!(skillset.skill_groups.len(), 3);
    assert_eq!(
        skillset.skill_groups[2],
        SkillGroup::new(SkillGroupKind::Weapon(ToolKind::Axe))
    );
}

#[test]
fn test_unlock_skill() {
    let t = tables();
    let mut skillset = SkillSet::default();

    skillset.unlock_skill_group(SkillGroupKind::Weapon(ToolKind::Axe));
    skillset.add_skill_points(SkillGroupKind::Weapon(ToolKind::Axe), 1);

    assert_eq!(skillset.skill_groups[2].available_sp, 1);
    assert_eq!(skillset.skills.len(), 0);

    // Try unlocking a skill with enough skill points
    skillset.unlock_skill(Skill::Axe(AxeSkill::UnlockLeap), &t);

    assert_eq!(skillset.skill_groups[2].available_sp, 0);
    assert_eq!(skillset.skills.len(), 1);
    assert!(skillset.has_skill(Skill::Axe(AxeSkill::UnlockLeap)));

    // Try unlocking a skill without enough skill points
    skillset.unlock_skill(Skill::Axe(AxeSkill::DsCombo), &t);

    assert_eq!(skillset.skills.len(), 1);
    assert_eq!(skillset.skills.get(&Skill::Axe(AxeSkill::DsCombo)), None);
}

#[test]
fn test_add_skill_points() {
    let mut skillset = SkillSet::default();
    skillset.unlock_skill_group(SkillGroupKind::Weapon(ToolKind::Axe));
    skillset.add_skill_points(SkillGroupKind::Weapon(ToolKind::Axe), 1);

    assert_eq!(skillset.skill_groups[2].available_sp, 1);
}

#[test]
fn unlocking_reports_why_it_fails() {
    let t = tables();
    let leap = Skill::Axe(AxeSkill::UnlockLeap);
    let damage = Skill::Axe(AxeSkill::LDamage);
    let axe = SkillGroupKind::Weapon(ToolKind::Axe);
    let mut s = SkillSet::default();
    assert_eq!(s.unlock_skill(Skill::Sword(SwordSkill::TsCombo), &t), UnlockOutcome::NoSkillGroup);
    assert_eq!(s.unlock_skill(leap, &t), UnlockOutcome::GroupLocked);
    assert!(s.unlock_skill_group(axe));
    // A group that is unlocked already is left alone.
    assert!(!s.unlock_skill_group(axe));
    assert_eq!(s.skill_groups.len(), 3);
    assert_eq!(s.unlock_skill(damage, &t), UnlockOutcome::PrerequisitesNotMet);
    assert_eq!(s.unlock_skill(leap, &t), UnlockOutcome::InsufficientSp);
    assert!(s.add_skill_points(axe, 10));
    assert!(!s.add_skill_points(SkillGroupKind::Weapon(ToolKind::Bow), 10));
    assert!(s.sufficient_skill_points(leap, &t));
    assert_eq!(s.unlock_skill(leap, &t), UnlockOutcome::Unlocked);
    // A skill without levels is at its highest level once it is unlocked.
    assert!(s.is_at_max_level(leap, &t));
    assert_eq!(s.unlock_skill(leap, &t), UnlockOutcome::AtMaxLevel);
    // Levels cost what they count.
    assert_eq!(s.skill_cost(damage, &t), 1);
    assert_eq!(s.unlock_skill(damage, &t), UnlockOutcome::Unlocked);
    assert_eq!(s.skill_level(damage), Ok(Some(1)));
    assert_eq!(s.skill_cost(damage, &t), 2);
    assert_eq!(s.unlock_skill(damage, &t), UnlockOutcome::Unlocked);
    assert_eq!(s.skill_level_or(damage, 0), 2);
    assert_eq!(s.unlock_skill(damage, &t), UnlockOutcome::AtMaxLevel);
    assert_eq!(s.available_sp(axe), 10 - 1 - 1 - 2);
    assert_eq!(s.earned_sp(axe), 10);
    assert!(s.prerequisites_met(damage, &t));
    assert!(s.has_available_sp(&t));
    assert_eq!(s.skills.len(), 2);
}

#[test]
fn refunding_reports_why_it_fails() {
    let t = tables();
    let damage = Skill::Axe(AxeSkill::LDamage);
    let leap = Skill::Axe(AxeSkill::UnlockLeap);
    let axe = SkillGroupKind::Weapon(ToolKind::Axe);
    let mut s = SkillSet::default();
    assert_eq!(s.refund_skill(leap, &t), RefundOutcome::MissingSkill);
    assert_eq!(s.skill_level(leap), Err(SkillError::MissingSkill));
    assert_eq!(s.skill_level_or(leap, 7), 7);
    s.unlock_skill_group(axe);
    s.add_skill_points(axe, 4);
    s.unlock_skill(leap, &t);
    s.unlock_skill(damage, &t);
    s.unlock_skill(damage, &t);
    assert_eq!(s.available_sp(axe), 0);
    // A level at a time, and each for what it cost.
    assert_eq!(s.refund_skill(damage, &t), RefundOutcome::Refunded);
    assert_eq!(s.skill_level(damage), Ok(Some(1)));
    assert_eq!(s.available_sp(axe), 2);
    assert_eq!(s.refund_skill(damage, &t), RefundOutcome::Refunded);
    assert!(!s.has_skill(damage));
    assert_eq!(s.available_sp(axe), 3);
    assert_eq!(s.refund_skill(damage, &t), RefundOutcome::MissingSkill);
    assert_eq!(s.earned_sp(axe), 4);
}

#[test]
fn general_skills_and_groups() {
    let t = tables();
    let mut s = SkillSet::default();
    assert!(!s.has_available_sp(&t));
    s.add_skill_points(SkillGroupKind::General, 3);
    assert!(s.has_available_sp(&t));
    assert_eq!(
        s.unlock_skill(Skill::General(GeneralSkill::HealthIncrease), &t),
        UnlockOutcome::Unlocked
    );
    assert!(s.modify_health && !s.modify_energy);
    assert_eq!(
        s.unlock_skill(Skill::General(GeneralSkill::EnergyIncrease), &t),
        UnlockOutcome::Unlocked
    );
    assert!(s.modify_energy);
    // Unlocking the skill of a group brings the group.
    let sword = SkillGroupKind::Weapon(ToolKind::Sword);
    assert!(!s.contains_skill_group(sword));
    assert_eq!(s.unlock_skill(Skill::UnlockGroup(sword), &t), UnlockOutcome::Unlocked);
    assert!(s.contains_skill_group(sword));
    assert_eq!(s.available_sp(SkillGroupKind::General), 0);
    assert!(!s.has_available_sp(&t));
}

#[test]
fn experience_and_points() {
    let mut s = SkillSet::default();
    let general = SkillGroupKind::General;
    assert!(s.change_experience(general, 100));
    assert_eq!(s.experience(general), 100);
    assert!(s.change_experience(general, -30));
    assert_eq!(s.experience(general), 70);
    // Experience wraps around, as a 16 bit number does.
    assert!(s.change_experience(general, -71));
    assert_eq!(s.experience(general), 65535);
    assert!(s.change_experience(general, 2));
    assert_eq!(s.experience(general), 1);
    assert!(!s.change_experience(SkillGroupKind::Weapon(ToolKind::Bow), 5));
    assert!(s.change_experience(general, 99));
    assert!(s.earn_skill_point(general, 70));
    assert_eq!(s.experience(general), 30);
    assert_eq!(s.available_sp(general), 1);
    assert_eq!(s.earned_sp(general), 1);
    assert!(s.earn_skill_point(general, 70));
    assert_eq!(s.experience(general), 0);
    assert!(!s.earn_skill_point(SkillGroupKind::Weapon(ToolKind::Bow), 70));
    // Points do not overflow.
    s.add_skill_points(general, u16::MAX);
    assert_eq!(s.available_sp(general), u16::MAX);
    assert_eq!(s.experience(SkillGroupKind::Weapon(ToolKind::Bow)), 0);
}
