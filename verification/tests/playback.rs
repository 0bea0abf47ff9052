use outbound::actions::{
    ChopTreeAction, MoveAction, MoveToNearestItemAction, PickUpItemAction, VillageState,
    VillagerActionEnum,
};
use outbound::goals::{CollectWood, Goal};
use outbound::goap::plan;
use outbound::item::Item;
use outbound::playback::{arrived, crow_flight, neighbours, Playback, Progress};
use outbound::villager::Villager;

fn item(id: &str, x: i64, y: i64) -> Item {
    Item::new(id.to_string(), (x, y))
}

fn state_at(x: i64, y: i64, items: Vec<Item>) -> VillageState {
    VillageState::new(Villager::new((x, y)), items)
}

fn walk(id: &str) -> VillagerActionEnum {
    VillagerActionEnum::MoveToNearestItemAction(MoveToNearestItemAction {
        target_item_id: id.to_string(),
    })
}

#[test]
fn neighbours_are_the_cell_and_the_eight_around_it() {
    let edges = neighbours(&(5, -3));
    let cells: Vec<(i64, i64)> = edges.iter().map(|e| e.0).collect();
    assert_eq!(
        cells,
        vec![(4, -4), (4, -3), (4, -2), (5, -4), (5, -3), (5, -2), (6, -4), (6, -3), (6, -2)]
    );
    assert!(edges.iter().all(|e| e.1 == 1));
}

#[test]
fn neighbours_stop_at_the_ends_of_the_integers() {
    let cells: Vec<(i64, i64)> = neighbours(&(i64::MIN, i64::MAX)).iter().map(|e| e.0).collect();
    assert_eq!(
        cells,
        vec![
            (i64::MIN, i64::MAX - 1),
            (i64::MIN, i64::MAX),
            (i64::MIN + 1, i64::MAX - 1),
            (i64::MIN + 1, i64::MAX),
        ]
    );
    let cells: Vec<(i64, i64)> = neighbours(&(i64::MAX, 0)).iter().map(|e| e.0).collect();
    assert_eq!(
        cells,
        vec![
            (i64::MAX - 1, -1),
            (i64::MAX - 1, 0),
            (i64::MAX - 1, 1),
            (i64::MAX, -1),
            (i64::MAX, 0),
            (i64::MAX, 1),
        ]
    );
}

#[test]
fn crow_flight_is_the_distance_rounded_down() {
    assert_eq!(crow_flight(&(0, 0), &(3, 4)), 5);
    assert_eq!(crow_flight(&(3, 4), &(0, 0)), 5);
    assert_eq!(crow_flight(&(1, 1), &(2, 2)), 1);
    assert_eq!(crow_flight(&(7, 7), &(7, 7)), 0);
    assert_eq!(crow_flight(&(0, 0), &(150, 150)), 212);
    assert_eq!(crow_flight(&(i64::MIN, 0), &(i64::MAX, 0)), u64::MAX as u128);
    assert_eq!(crow_flight(&(i64::MIN, i64::MIN), &(i64::MAX, i64::MAX)), u64::MAX as u128);
}

#[test]
fn arrived_is_equality_of_cells() {
    assert!(arrived(&(2, 3), &(2, 3)));
    assert!(!arrived(&(2, 3), &(3, 2)));
    assert!(!arrived(&(2, 3), &(2, 4)));
}

#[test]
fn playback_of_nothing_is_finished() {
    let mut playback = Playback::new(state_at(1, 1, vec![]), vec![]);
    assert!(playback.is_finished());
    assert_eq!(playback.tick(), Progress::Finished);
    assert_eq!(playback.state(), &state_at(1, 1, vec![]));
}

#[test]
fn playback_takes_plain_actions_one_per_tick() {
    let start = state_at(0, 0, vec![item("tree", 0, 0)]);
    let plan = vec![
        VillagerActionEnum::ChopTreeAction(ChopTreeAction { item: item("tree", 0, 0) }),
        VillagerActionEnum::PickUpItemAction(PickUpItemAction { item: item("wood", 0, 0) }),
        VillagerActionEnum::MoveAction(MoveAction { delta_x: 2, delta_y: 3 }),
    ];
    let mut playback = Playback::new(start, plan);
    assert!(!playback.is_finished());
    assert_eq!(playback.tick(), Progress::Acted);
    assert_eq!(playback.state().items, vec![item("wood", 0, 0)]);
    assert_eq!(playback.tick(), Progress::Acted);
    assert!(playback.state().items.is_empty());
    assert_eq!(playback.state().villager.inventory, vec!["wood".to_string()]);
    assert_eq!(playback.tick(), Progress::Acted);
    assert_eq!(playback.state().villager.position, (2, 3));
    assert!(playback.is_finished());
    assert_eq!(playback.tick(), Progress::Finished);
    assert_eq!(playback.tick(), Progress::Finished);
}

#[test]
fn playback_refuses_what_may_not_be_taken() {
    let start = state_at(0, 0, vec![item("tree", 5, 5)]);
    let plan = vec![VillagerActionEnum::ChopTreeAction(ChopTreeAction { item: item("tree", 5, 5) })];
    let mut playback = Playback::new(start.clone(), plan);
    assert_eq!(playback.tick(), Progress::Refused);
    assert_eq!(playback.state(), &start);
    assert!(!playback.is_finished());
    assert_eq!(playback.tick(), Progress::Refused);
    let mut playback = Playback::new(state_at(0, 0, vec![]), vec![walk("tree")]);
    assert_eq!(playback.tick(), Progress::Refused);
}

#[test]
fn playback_walks_cell_by_cell() {
    let start = state_at(2, 9, vec![item("tree", 7, 6)]);
    let mut playback = Playback::new(start.clone(), vec![walk("tree")]);
    assert_eq!(playback.tick(), Progress::Routed);
    assert_eq!(playback.state(), &start);
    assert!(!playback.is_finished());
    let mut here = (2, 9);
    let mut steps = 0;
    loop {
        match playback.tick() {
            Progress::Stepped => {
                let there = playback.state().villager.position;
                assert!((there.0 - here.0).abs() <= 1);
                assert!((there.1 - here.1).abs() <= 1);
                assert_eq!(playback.state().items, start.items);
                here = there;
                steps += 1;
            }
            Progress::Finished => break,
            other => panic!("{:?}", other),
        }
        assert!(steps < 1000);
    }
    assert_eq!(here, (7, 6));
    // the first step stays on the start, five more are needed at the least
    assert!(steps >= 6);
    assert!(playback.is_finished());
}

#[test]
fn playback_of_a_plan_reaches_its_goal() {
    let start = state_at(0, 0, vec![item("stone", 3, 1), item("tree", 4, 7), item("tree", 9, 9)]);
    let goals: Vec<Box<dyn Goal>> = vec![Box::new(CollectWood {})];
    let wanted = CollectWood {}.goal_state(start.clone());
    let actions = plan(start.clone(), &goals).unwrap().unwrap();
    let mut playback = Playback::new(start, actions);
    let mut ticks = 0;
    while !playback.is_finished() {
        assert_ne!(playback.tick(), Progress::Refused);
        ticks += 1;
        assert!(ticks < 1000);
    }
    assert!(playback.state().compare(&wanted));
    assert_eq!(playback.state().villager.position, (4, 7));
    assert_eq!(playback.state().items, vec![item("stone", 3, 1), item("tree", 9, 9)]);
}
