use outbound::actions::VillageState;
use outbound::generate_goal_state;
use outbound::goals::{missing, one_more, CollectBerries, CollectStone, CollectWood, Goal, TARGET_COUNT};
use outbound::item::Item;
use outbound::villager::Villager;

fn carrying(tags: &[&str]) -> VillageState {
    let mut villager = Villager::new((3, 4));
    for tag in tags {
        villager.inventory.push(tag.to_string());
    }
    VillageState::new(villager, vec![Item::new("tree".to_string(), (1, 1))])
}

#[test]
fn target_is_ten() {
    assert_eq!(TARGET_COUNT, 10);
}

#[test]
fn priority_is_what_is_missing_of_the_own_tag() {
    let state = carrying(&["wood", "stone", "wood", "berry", "wood"]);
    assert_eq!(CollectWood {}.priority(&state), 7);
    assert_eq!(CollectStone {}.priority(&state), 9);
    assert_eq!(CollectBerries {}.priority(&state), 9);
    let empty = carrying(&[]);
    assert_eq!(CollectWood {}.priority(&empty), 10);
    assert_eq!(CollectStone {}.priority(&empty), 10);
    assert_eq!(CollectBerries {}.priority(&empty), 10);
}

#[test]
fn priority_falls_by_one_with_each_entry_and_ends_at_or_below_zero() {
    let mut state = carrying(&[]);
    let mut last = CollectStone {}.priority(&state);
    assert_eq!(last, 10);
    for _ in 0..10 {
        state.villager.inventory.push("stone".to_string());
        let now = CollectStone {}.priority(&state);
        assert_eq!(now, last - 1);
        last = now;
    }
    assert_eq!(last, 0);
    state.villager.inventory.push("stone".to_string());
    assert_eq!(CollectStone {}.priority(&state), -1);
    state.villager.inventory.push("wood".to_string());
    assert_eq!(CollectStone {}.priority(&state), -1);
}

#[test]
fn missing_counts_whole_tags_only() {
    let inventory = vec!["wood".to_string(), "woods".to_string(), "woo".to_string()];
    assert_eq!(missing(&inventory, "wood"), 9);
    assert_eq!(missing(&inventory, "stone"), 10);
    assert_eq!(missing(&vec!["x".to_string(); 25], "x"), -15);
}

#[test]
fn goal_state_is_the_state_with_one_more() {
    let state = carrying(&["stone"]);
    let goal = CollectWood {}.goal_state(state.clone());
    assert_eq!(goal.villager.inventory, vec!["stone".to_string(), "wood".to_string()]);
    assert_eq!(goal.items, state.items);
    assert_eq!(goal.villager.position, state.villager.position);
    assert_eq!(goal.villager.health, state.villager.health);
    let goal = CollectStone {}.goal_state(state.clone());
    assert_eq!(goal.villager.inventory, vec!["stone".to_string(), "stone".to_string()]);
    let goal = CollectBerries {}.goal_state(state.clone());
    assert_eq!(goal.villager.inventory, vec!["stone".to_string(), "berry".to_string()]);
}

#[test]
fn goal_state_is_never_goal_equal_to_where_it_starts() {
    let state = carrying(&["wood", "wood"]);
    assert!(!state.compare(&CollectWood {}.goal_state(state.clone())));
}

#[test]
fn one_more_adds_at_the_end() {
    let state = carrying(&["a", "b"]);
    let more = one_more(state, "c");
    assert_eq!(more.villager.inventory, vec!["a".to_string(), "b".to_string(), "c".to_string()]);
}

#[test]
fn generate_goal_state_adds_five_entries() {
    let state = carrying(&["berry"]);
    let goal = generate_goal_state(&state);
    assert_eq!(
        goal.villager.inventory,
        vec![
            "berry".to_string(),
            "wood".to_string(),
            "stone".to_string(),
            "berry".to_string(),
            "wood".to_string(),
            "wood".to_string(),
        ]
    );
    assert_eq!(goal.items, state.items);
    assert_eq!(goal.villager.position, state.villager.position);
    assert_eq!(goal.villager.health, state.villager.health);
    assert_eq!(state.villager.inventory, vec!["berry".to_string()]);
}
