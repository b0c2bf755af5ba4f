use chat_core::config::Config;
use chat_core::consts::{
    PERM_BAN, PERM_MANAGE_CHANNELS, PERM_READ, PERM_WRITE,
};
use chat_core::perm::{calculate_permissions, contains_id, has_perm, perm_apply, perm_apply_iter};
use chat_core::types::Attribute;
use std::collections::HashMap;

fn role(id: usize, pos: usize, allow: u8, deny: u8) -> Attribute {
    Attribute { allow, deny, id, name: format!("role{}", id), pos, unassignable: false }
}

fn table() -> Vec<Attribute> {
    vec![
        role(1, 0, PERM_READ | PERM_WRITE, 0),
        role(2, 0, PERM_READ, 0),
        role(5, 1, PERM_MANAGE_CHANNELS, PERM_WRITE),
        role(3, 2, PERM_WRITE | PERM_BAN, PERM_MANAGE_CHANNELS),
        role(4, 3, 0, 0),
    ]
}

#[test]
fn perm_apply_grants_and_then_denies() {
    let mut mask = 0b0000_0101;
    perm_apply(&mut mask, (0b0000_0011, 0b0000_0100));
    assert_eq!(mask, 0b0000_0011);
    let mut mask = 0b1111_1111;
    perm_apply(&mut mask, (0, 0));
    assert_eq!(mask, 0b1111_1111);
    let mut mask = 0;
    perm_apply(&mut mask, (0b0110, 0b0010));
    assert_eq!(mask, 0b0100);
}

#[test]
fn perm_apply_iter_folds_in_order() {
    let mut mask = 0;
    let pairs = vec![(3u8, 0u8), (32, 2), (10, 32)];
    perm_apply_iter(&mut mask, &mut pairs.into_iter());
    assert_eq!(mask, 11);
    let mut mask = 7;
    perm_apply_iter(&mut mask, &mut Vec::<(u8, u8)>::new().into_iter());
    assert_eq!(mask, 7);
}

#[test]
fn later_roles_override_earlier_ones() {
    let mut mask = 0;
    perm_apply_iter(&mut mask, &mut vec![(0u8, 2u8), (2, 0)].into_iter());
    assert_eq!(mask, 2);
    let mut mask = 0;
    perm_apply_iter(&mut mask, &mut vec![(2u8, 0u8), (0, 2)].into_iter());
    assert_eq!(mask, 0);
}

#[test]
fn has_perm_tests_all_bits_and_lets_the_owner_pass() {
    let config = Config::standard();
    assert!(has_perm(&config, 2, PERM_READ | PERM_WRITE, PERM_READ));
    assert!(!has_perm(&config, 2, PERM_READ, PERM_WRITE));
    assert!(!has_perm(&config, 2, PERM_READ, PERM_READ | PERM_WRITE));
    assert!(has_perm(&config, 1, 0, PERM_BAN));
    assert!(has_perm(&config, 2, 0, 0));
}

#[test]
fn base_mask_of_a_human_and_a_bot() {
    let roles = table();
    assert_eq!(calculate_permissions(&roles, false, &[], None), PERM_READ | PERM_WRITE);
    assert_eq!(calculate_permissions(&roles, true, &[], None), PERM_READ);
}

#[test]
fn roles_fold_by_position_not_by_the_order_of_the_list() {
    let roles = table();
    let expected = PERM_READ | PERM_WRITE | PERM_BAN;
    assert_eq!(calculate_permissions(&roles, false, &[3, 5], None), expected);
    assert_eq!(calculate_permissions(&roles, false, &[5, 3], None), expected);
    assert_eq!(
        calculate_permissions(&roles, false, &[5], None),
        PERM_READ | PERM_MANAGE_CHANNELS
    );
}

#[test]
fn a_role_without_masks_changes_nothing() {
    let roles = table();
    for list in [vec![], vec![3], vec![5], vec![3, 5]] {
        let mut more = list.clone();
        more.push(4);
        for bot in [false, true] {
            assert_eq!(
                calculate_permissions(&roles, bot, &more, None),
                calculate_permissions(&roles, bot, &list, None)
            );
        }
    }
}

#[test]
fn an_override_applies_after_the_roles() {
    let roles = table();
    let base = calculate_permissions(&roles, false, &[3], None);
    let mut overrides = HashMap::new();
    overrides.insert(3usize, (PERM_MANAGE_CHANNELS, PERM_READ));
    let inside = calculate_permissions(&roles, false, &[3], Some(&overrides));
    assert_eq!(inside, (base | PERM_MANAGE_CHANNELS) & !PERM_READ);
    assert_eq!(inside, PERM_WRITE | PERM_BAN | PERM_MANAGE_CHANNELS);
}

#[test]
fn overrides_of_roles_that_the_user_lacks_do_not_apply() {
    let roles = table();
    let mut overrides = HashMap::new();
    overrides.insert(5usize, (0u8, PERM_READ));
    assert_eq!(
        calculate_permissions(&roles, false, &[3], Some(&overrides)),
        calculate_permissions(&roles, false, &[3], None)
    );
}

#[test]
fn overrides_of_both_system_roles_apply_to_everybody() {
    let roles = table();
    let mut overrides = HashMap::new();
    overrides.insert(2usize, (0u8, PERM_WRITE));
    assert_eq!(calculate_permissions(&roles, false, &[], Some(&overrides)), PERM_READ);
    let mut overrides = HashMap::new();
    overrides.insert(1usize, (PERM_BAN, 0u8));
    assert_eq!(calculate_permissions(&roles, true, &[], Some(&overrides)), PERM_READ | PERM_BAN);
}

#[test]
fn overrides_apply_in_the_order_of_the_positions() {
    let roles = table();
    let mut overrides = HashMap::new();
    overrides.insert(3usize, (PERM_MANAGE_CHANNELS, 0u8));
    overrides.insert(5usize, (0u8, PERM_MANAGE_CHANNELS));
    let mask = calculate_permissions(&roles, false, &[3, 5], Some(&overrides));
    assert_eq!(mask & PERM_MANAGE_CHANNELS, PERM_MANAGE_CHANNELS);
}

#[test]
fn an_override_for_a_role_that_does_not_exist_is_ignored() {
    let roles = table();
    let mut overrides = HashMap::new();
    overrides.insert(99usize, (0u8, 255u8));
    assert_eq!(
        calculate_permissions(&roles, false, &[99], Some(&overrides)),
        PERM_READ | PERM_WRITE
    );
}

#[test]
fn contains_id_finds_ids() {
    assert!(contains_id(&[3, 4, 5], 4));
    assert!(!contains_id(&[3, 4, 5], 6));
    assert!(!contains_id(&[], 0));
}
