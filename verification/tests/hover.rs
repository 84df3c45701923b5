use tavern_core::bar::CustomerSlotMarker;
use tavern_core::drink::Drink;
use tavern_core::geometry::{Point, Point3};
use tavern_core::hover::{find_hovered, interactibles_system, InteractibleBundle};
use tavern_core::interact::{ActionSet, InteractibleAction, InteractionSpriteColors, Rgb};

fn thing(action: InteractibleAction, x: i32, y: i32, z: i32, width: u32, height: u32) -> InteractibleBundle {
    InteractibleBundle::new(action, Point3 { x, y, z }, width, height)
}

fn set_of(actions: &[InteractibleAction]) -> ActionSet {
    let mut set = ActionSet::new();
    for action in actions {
        set.insert(*action);
    }
    set
}

fn normal() -> Rgb {
    Rgb { r: 1000, g: 1000, b: 1000 }
}

fn highlight() -> Rgb {
    Rgb { r: 1300, g: 1300, b: 1300 }
}

#[test]
fn default_colors() {
    let colors = InteractionSpriteColors::default();
    assert_eq!(colors.normal, normal());
    assert_eq!(colors.highlight, highlight());
}

#[test]
fn rectangle_meets_the_unit_square_around_the_pointer() {
    let barrel = thing(InteractibleAction::Barrel(Drink::Beer), 0, 0, 0, 100_000, 50_000);
    assert!(barrel.is_hit(Point { x: 0, y: 0 }));
    assert!(barrel.is_hit(Point { x: 50_000, y: 25_000 }));
    assert!(barrel.is_hit(Point { x: 50_499, y: 0 }));
    assert!(!barrel.is_hit(Point { x: 50_500, y: 0 }));
    assert!(barrel.is_hit(Point { x: -50_499, y: -25_499 }));
    assert!(!barrel.is_hit(Point { x: 0, y: -25_500 }));
    assert!(!barrel.is_hit(Point { x: 0, y: 25_500 }));
}

#[test]
fn customer_is_anchored_at_its_base() {
    let customer =
        thing(InteractibleAction::Customer(CustomerSlotMarker::Left), 0, 0, 0, 100_000, 200_000);
    assert!(customer.is_hit(Point { x: 0, y: 100_000 }));
    assert!(customer.is_hit(Point { x: 0, y: 199_000 }));
    assert!(customer.is_hit(Point { x: 0, y: 0 }));
    assert!(!customer.is_hit(Point { x: 0, y: -1_000 }));
    assert!(!customer.is_hit(Point { x: 0, y: 201_000 }));
    let barrel = thing(InteractibleAction::Barrel(Drink::Beer), 0, 0, 0, 100_000, 200_000);
    assert!(barrel.is_hit(Point { x: 0, y: -99_000 }));
    assert!(!barrel.is_hit(Point { x: 0, y: 101_000 }));
}

#[test]
fn only_the_thing_in_front_is_lit_and_clicked() {
    let mut things = vec![
        thing(InteractibleAction::ExitBar, 0, 0, -10_000, 1_000_000, 1_000_000),
        thing(InteractibleAction::Barrel(Drink::Wine), 0, 0, 13_000, 100_000, 100_000),
        thing(InteractibleAction::Bar, 0, 0, 10_000, 500_000, 500_000),
    ];
    things[0].color = highlight();
    things[2].clicked = true;
    let active = set_of(&[
        InteractibleAction::ExitBar,
        InteractibleAction::Bar,
        InteractibleAction::Barrel(Drink::Wine),
    ]);
    let ignored = ActionSet::new();
    interactibles_system(&mut things, Some(Point { x: 0, y: 0 }), true, &active, &ignored);
    assert_eq!(things[1].color, highlight());
    assert!(things[1].clicked);
    assert_eq!(things[0].color, normal());
    assert!(!things[0].clicked);
    assert_eq!(things[2].color, normal());
    assert!(!things[2].clicked);
}

#[test]
fn hover_without_press_does_not_click() {
    let mut things = vec![thing(InteractibleAction::Bar, 0, 0, 1, 10_000, 10_000)];
    let active = set_of(&[InteractibleAction::Bar]);
    interactibles_system(&mut things, Some(Point { x: 0, y: 0 }), false, &active, &ActionSet::new());
    assert_eq!(things[0].color, highlight());
    assert!(!things[0].clicked);
}

#[test]
fn inactive_thing_in_front_still_hides_what_is_behind() {
    let mut things = vec![
        thing(InteractibleAction::ExitBar, 0, 0, 1_000, 1_000_000, 1_000_000),
        thing(InteractibleAction::Bar, 0, 0, 2_000, 500_000, 500_000),
    ];
    let active = set_of(&[InteractibleAction::ExitBar]);
    interactibles_system(&mut things, Some(Point { x: 0, y: 0 }), true, &active, &ActionSet::new());
    assert_eq!(things[0].color, normal());
    assert!(!things[0].clicked);
    assert_eq!(things[1].color, normal());
    assert!(!things[1].clicked);
}

#[test]
fn ignored_thing_lets_the_pointer_through() {
    let mut things = vec![
        thing(InteractibleAction::ExitBar, 0, 0, 1_000, 1_000_000, 1_000_000),
        thing(InteractibleAction::Barrel(Drink::Beer), 0, 0, 2_000, 500_000, 500_000),
    ];
    let active = set_of(&[InteractibleAction::ExitBar, InteractibleAction::Barrel(Drink::Beer)]);
    let ignored = set_of(&[InteractibleAction::Barrel(Drink::Beer)]);
    assert_eq!(find_hovered(&things, &ignored, Point { x: 0, y: 0 }), Some(0));
    interactibles_system(&mut things, Some(Point { x: 0, y: 0 }), true, &active, &ignored);
    assert_eq!(things[0].color, highlight());
    assert!(things[0].clicked);
    assert_eq!(things[1].color, normal());
    assert!(!things[1].clicked);
}

#[test]
fn pointer_outside_the_viewport_resets_everything() {
    let mut things = vec![
        thing(InteractibleAction::ExitBar, 0, 0, 1_000, 1_000_000, 1_000_000),
        thing(InteractibleAction::Bar, 0, 0, 2_000, 500_000, 500_000),
    ];
    things[0].color = highlight();
    things[1].color = highlight();
    things[1].clicked = true;
    let active = set_of(&[InteractibleAction::ExitBar, InteractibleAction::Bar]);
    interactibles_system(&mut things, None, true, &active, &ActionSet::new());
    for thing in &things {
        assert_eq!(thing.color, normal());
        assert!(!thing.clicked);
    }
}

#[test]
fn equal_stacking_order_prefers_the_first_in_the_list() {
    let things = vec![
        thing(InteractibleAction::Bar, 0, 0, 5, 10_000, 10_000),
        thing(InteractibleAction::ExitBar, 0, 0, 5, 10_000, 10_000),
    ];
    assert_eq!(find_hovered(&things, &ActionSet::new(), Point { x: 0, y: 0 }), Some(0));
    assert_eq!(find_hovered(&things, &ActionSet::new(), Point { x: 50_000, y: 0 }), None);
}

#[test]
fn a_click_is_read_once() {
    let mut bar = thing(InteractibleAction::Bar, 0, 0, 5, 10_000, 10_000);
    bar.clicked = true;
    assert!(bar.take_click());
    assert!(!bar.take_click());
    assert!(!bar.clicked);
}
