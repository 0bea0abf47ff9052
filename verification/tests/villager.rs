use outbound::item::Item;
use outbound::villager::{Health, Villager, MAX_HEALTH};

#[test]
fn item_new_keeps_tag_and_position() {
    let item = Item::new("stone".to_string(), (3, -7));
    assert_eq!(item.id, "stone");
    assert_eq!(item.position, (3, -7));
}

#[test]
fn items_are_equal_iff_tag_and_position_match() {
    let a = Item::new("tree".to_string(), (1, 2));
    assert!(a.same_as(&Item::new("tree".to_string(), (1, 2))));
    assert!(!a.same_as(&Item::new("wood".to_string(), (1, 2))));
    assert!(!a.same_as(&Item::new("tree".to_string(), (2, 1))));
    assert_eq!(a, Item::new("tree".to_string(), (1, 2)));
    assert_ne!(a, Item::new("tree".to_string(), (1, 3)));
    assert_eq!(a.clone(), a);
}

#[test]
fn health_new_holds_the_amount() {
    assert_eq!(Health::new(42).check(), Some(42));
    assert_eq!(Health::new(0).check(), Some(0));
    assert_eq!(Health::new(100).check(), Some(100));
}

#[test]
fn health_default_is_full() {
    assert_eq!(Health::default().check(), Some(MAX_HEALTH));
    assert_eq!(MAX_HEALTH, 100);
}

#[test]
fn replenish_adds_up_to_the_maximum() {
    let mut health = Health::new(40);
    health.replenish(25);
    assert_eq!(health.check(), Some(65));
    health.replenish(35);
    assert_eq!(health.check(), Some(100));
    health.replenish(1);
    assert_eq!(health.check(), Some(100));
    health.replenish(255);
    assert_eq!(health.check(), Some(100));
}

#[test]
fn replenish_by_nothing_changes_nothing() {
    let mut health = Health::new(7);
    health.replenish(0);
    assert_eq!(health.check(), Some(7));
}

#[test]
fn sap_takes_away() {
    let mut health = Health::new(40);
    health.sap(15);
    assert_eq!(health.check(), Some(25));
}

#[test]
fn sap_of_all_that_is_left_leaves_zero_and_alive() {
    let mut health = Health::new(40);
    health.sap(40);
    assert_eq!(health.check(), Some(0));
}

#[test]
fn sap_of_more_than_is_left_kills() {
    let mut health = Health::new(40);
    health.sap(41);
    assert_eq!(health.check(), None);
}

#[test]
fn the_dead_stay_dead() {
    let mut health = Health::new(0);
    health.sap(1);
    assert_eq!(health.check(), None);
    health.replenish(50);
    assert_eq!(health.check(), None);
    health.sap(0);
    assert_eq!(health.check(), None);
}

#[test]
fn health_clone_is_equal() {
    let mut health = Health::new(12);
    assert_eq!(health.clone(), health);
    health.sap(100);
    assert_eq!(health.clone(), health);
}

#[test]
fn villager_new_is_healthy_with_empty_hands() {
    let villager = Villager::new((4, 9));
    assert_eq!(villager.position, (4, 9));
    assert_eq!(villager.health.check(), Some(100));
    assert!(villager.inventory.is_empty());
    assert!(villager.is_alive());
}

#[test]
fn villager_default_stands_on_the_origin() {
    let villager = Villager::default();
    assert_eq!(villager.position, (0, 0));
    assert_eq!(villager.health.check(), Some(100));
    assert!(villager.inventory.is_empty());
    assert_eq!(villager, Villager::new((0, 0)));
}

#[test]
fn villager_is_alive_until_health_is_gone() {
    let mut villager = Villager::new((0, 0));
    villager.health.sap(100);
    assert!(villager.is_alive());
    villager.health.sap(1);
    assert!(!villager.is_alive());
}

#[test]
fn villager_clone_is_equal() {
    let mut villager = Villager::new((2, 3));
    villager.inventory.push("wood".to_string());
    villager.health.sap(30);
    assert_eq!(villager.clone(), villager);
}
