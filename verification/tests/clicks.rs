use tavern_core::bar::CustomerSlotMarker;
use tavern_core::camera::MoveCameraTo;
use tavern_core::clicks::{handle_bar_interactible_click, handle_interactible_click};
use tavern_core::drink::Drink;
use tavern_core::geometry::{Point, Point3};
use tavern_core::hover::InteractibleBundle;
use tavern_core::interact::{remove_value_from_vec, ActionSet, InteractibleAction};
use tavern_core::stats::DrinkInHand;

fn barrels() -> Vec<InteractibleAction> {
    InteractibleAction::get_barrels()
}

#[test]
fn get_barrels_lists_one_barrel_for_each_drink() {
    assert_eq!(
        barrels(),
        vec![
            InteractibleAction::Barrel(Drink::Beer),
            InteractibleAction::Barrel(Drink::Wine),
            InteractibleAction::Barrel(Drink::Whiskey),
        ]
    );
}

#[test]
fn remove_value_from_vec_puts_the_last_in_place_of_the_first_match() {
    let mut actions = vec![
        InteractibleAction::Bar,
        InteractibleAction::ExitBar,
        InteractibleAction::Barrel(Drink::Beer),
        InteractibleAction::ExitBar,
        InteractibleAction::_None,
    ];
    remove_value_from_vec(InteractibleAction::ExitBar, &mut actions);
    assert_eq!(
        actions,
        vec![
            InteractibleAction::Bar,
            InteractibleAction::_None,
            InteractibleAction::Barrel(Drink::Beer),
            InteractibleAction::ExitBar,
        ]
    );
    remove_value_from_vec(InteractibleAction::ExitBar, &mut actions);
    assert_eq!(
        actions,
        vec![InteractibleAction::Bar, InteractibleAction::_None, InteractibleAction::Barrel(Drink::Beer)]
    );
}

#[test]
fn action_set_behaves_as_a_set() {
    let mut set = ActionSet::new();
    assert!(!set.contains(InteractibleAction::Bar));
    set.insert(InteractibleAction::Bar);
    set.insert(InteractibleAction::Bar);
    set.insert(InteractibleAction::ExitBar);
    assert!(set.contains(InteractibleAction::Bar));
    assert_eq!(set.0.len(), 2);
    set.remove(InteractibleAction::Bar);
    assert!(!set.contains(InteractibleAction::Bar));
    assert!(set.contains(InteractibleAction::ExitBar));
    set.remove(InteractibleAction::Bar);
    assert_eq!(set.0.len(), 1);
    let mut twice = ActionSet(vec![InteractibleAction::Bar, InteractibleAction::Bar]);
    twice.remove(InteractibleAction::Bar);
    assert!(twice.0.is_empty());
}

struct Desk {
    target: MoveCameraTo,
    active: ActionSet,
    ignored: ActionSet,
    hand: DrinkInHand,
}

fn zoomed_out() -> Desk {
    let mut active = ActionSet::new();
    active.insert(InteractibleAction::Bar);
    for barrel in barrels() {
        active.insert(barrel);
    }
    let mut ignored = ActionSet::new();
    for barrel in barrels() {
        ignored.insert(barrel);
    }
    Desk { target: MoveCameraTo(None), active, ignored, hand: DrinkInHand(None) }
}

fn click(desk: &mut Desk, action: InteractibleAction) {
    handle_interactible_click(
        action,
        &mut desk.target,
        &mut desk.active,
        &mut desk.ignored,
        &mut desk.hand,
    );
}

#[test]
fn click_on_the_bar_enters_it() {
    let mut desk = zoomed_out();
    click(&mut desk, InteractibleAction::Bar);
    assert_eq!(desk.target, MoveCameraTo(Some(Point { x: 0, y: -630_000 })));
    assert!(!desk.active.contains(InteractibleAction::Bar));
    assert!(desk.active.contains(InteractibleAction::ExitBar));
    for barrel in barrels() {
        assert!(!desk.ignored.contains(barrel));
    }
}

#[test]
fn click_on_the_way_out_leaves_the_bar() {
    let mut desk = zoomed_out();
    click(&mut desk, InteractibleAction::Bar);
    click(&mut desk, InteractibleAction::ExitBar);
    assert_eq!(desk.target, MoveCameraTo(Some(Point { x: 0, y: 0 })));
    assert!(desk.active.contains(InteractibleAction::Bar));
    assert!(!desk.active.contains(InteractibleAction::ExitBar));
    for barrel in barrels() {
        assert!(desk.ignored.contains(barrel));
    }
    assert_eq!(desk.ignored.0.len(), 3);
}

#[test]
fn click_on_a_barrel_takes_its_drink_in_place_of_any_other() {
    let mut desk = zoomed_out();
    click(&mut desk, InteractibleAction::Barrel(Drink::Beer));
    assert_eq!(desk.hand, DrinkInHand(Some(Drink::Beer)));
    click(&mut desk, InteractibleAction::Barrel(Drink::Whiskey));
    assert_eq!(desk.hand, DrinkInHand(Some(Drink::Whiskey)));
    assert_eq!(desk.target, MoveCameraTo(None));
    desk.active.insert(InteractibleAction::_None);
    click(&mut desk, InteractibleAction::_None);
    click(&mut desk, InteractibleAction::Customer(CustomerSlotMarker::Left));
    assert_eq!(desk.hand, DrinkInHand(Some(Drink::Whiskey)));
    assert_eq!(desk.target, MoveCameraTo(None));
    assert_eq!(desk.active.0.len(), 5);
    assert_eq!(desk.ignored.0.len(), 3);
}

#[test]
fn clicks_on_scenery_are_used_up_and_customers_keep_theirs() {
    let place = Point3 { x: 0, y: 0, z: 0 };
    let mut things = vec![
        InteractibleBundle::new(InteractibleAction::Barrel(Drink::Wine), place, 1, 1),
        InteractibleBundle::new(InteractibleAction::Customer(CustomerSlotMarker::Right), place, 1, 1),
        InteractibleBundle::new(InteractibleAction::Bar, place, 1, 1),
    ];
    things[0].clicked = true;
    things[1].clicked = true;
    let mut desk = zoomed_out();
    handle_bar_interactible_click(
        &mut things,
        &mut desk.target,
        &mut desk.active,
        &mut desk.ignored,
        &mut desk.hand,
    );
    assert!(!things[0].clicked);
    assert!(things[1].clicked);
    assert!(!things[2].clicked);
    assert_eq!(desk.hand, DrinkInHand(Some(Drink::Wine)));
    assert!(desk.active.contains(InteractibleAction::Bar));
    assert_eq!(desk.target, MoveCameraTo(None));
    handle_bar_interactible_click(
        &mut things,
        &mut desk.target,
        &mut desk.active,
        &mut desk.ignored,
        &mut desk.hand,
    );
    assert_eq!(desk.hand, DrinkInHand(Some(Drink::Wine)));
}
