use tavern_core::bar::{Bar, CustomerSlotMarker};
use tavern_core::customer::{
    customers_system, Customer, CustomerState, BAR_CUSTOMER_HIDDEN_Y, BAR_CUSTOMER_TARGET_Y,
};
use tavern_core::drink::Drink;
use tavern_core::interact::{InteractibleAction, Rgb};
use tavern_core::stats::{CustomersStats, DrinkInHand, PlayerStats};
use tavern_core::timer::Timer;

fn waiting_customer(drink: Drink, wait: u64) -> Customer {
    let mut customer = Customer::new("Jane", drink, CustomerSlotMarker::Left, 100_000, 300_000);
    let mut hand = DrinkInHand(None);
    let mut stats = PlayerStats::new();
    assert!(!customer.step(700, wait, &mut hand, &mut stats));
    assert_eq!(customer.state, CustomerState::Waiting(Timer::new(wait)));
    assert_eq!(customer.body.translation.y, -1_400_000 + 700 * 810);
    customer
}

#[test]
fn new_customer_slides_in_from_its_entry_point() {
    let customer = Customer::new("John", Drink::Beer, CustomerSlotMarker::Right, 10, 20);
    assert_eq!(customer.name, "John");
    assert_eq!(customer.state, CustomerState::Spawning);
    assert_eq!(customer.drink, Drink::Beer);
    assert_eq!(customer.slot, CustomerSlotMarker::Right);
    assert_eq!(customer.body.action, InteractibleAction::Customer(CustomerSlotMarker::Right));
    assert_eq!(customer.body.translation.x, 700_000);
    assert_eq!(customer.body.translation.y, BAR_CUSTOMER_HIDDEN_Y);
    assert_eq!(customer.body.translation.z, 1_000);
    assert_eq!((customer.body.width, customer.body.height), (10, 20));
    assert!(!customer.body.clicked);
}

#[test]
fn spawning_customer_slides_at_fixed_speed_and_stops_at_the_bar() {
    let mut customer = Customer::new("John", Drink::Beer, CustomerSlotMarker::Left, 10, 20);
    let mut hand = DrinkInHand(Some(Drink::Beer));
    let mut stats = PlayerStats::new();
    customer.body.clicked = true;
    assert!(!customer.step(100, 3000, &mut hand, &mut stats));
    assert_eq!(customer.state, CustomerState::Spawning);
    assert_eq!(customer.body.translation.y, -1_400_000 + 81_000);
    assert!(!customer.body.clicked);
    assert_eq!(hand, DrinkInHand(Some(Drink::Beer)));
    assert!(!customer.step(578, 3000, &mut hand, &mut stats));
    assert_eq!(customer.state, CustomerState::Spawning);
    assert_eq!(customer.body.translation.y, -1_400_000 + 678 * 810);
    assert!(!customer.step(1, 3000, &mut hand, &mut stats));
    assert_eq!(customer.state, CustomerState::Spawning);
    assert_eq!(customer.body.translation.y, -850_010);
    assert!(!customer.step(1, 3000, &mut hand, &mut stats));
    assert_eq!(customer.state, CustomerState::Waiting(Timer::new(3000)));
    // it stays where the slide has taken it, a little above the bar
    assert_eq!(customer.body.translation.y, -849_200);
    assert_eq!(stats, PlayerStats::new());
}

#[test]
fn spawning_customer_that_passes_the_bar_keeps_its_height() {
    let mut customer = Customer::new("John", Drink::Beer, CustomerSlotMarker::Left, 10, 20);
    customer.body.translation.y = -900_000;
    let mut hand = DrinkInHand(None);
    let mut stats = PlayerStats::new();
    assert!(!customer.step(100, 3000, &mut hand, &mut stats));
    assert_eq!(customer.state, CustomerState::Waiting(Timer::new(3000)));
    assert_eq!(customer.body.translation.y, -819_000);
    let mut exact = Customer::new("John", Drink::Beer, CustomerSlotMarker::Left, 10, 20);
    exact.body.translation.y = BAR_CUSTOMER_TARGET_Y - 810;
    assert!(!exact.step(1, 3000, &mut hand, &mut stats));
    assert_eq!(exact.state, CustomerState::Waiting(Timer::new(3000)));
    assert_eq!(exact.body.translation.y, BAR_CUSTOMER_TARGET_Y);
}

#[test]
fn slide_fits_up_to_the_largest_height() {
    let mut customer = Customer::new("John", Drink::Beer, CustomerSlotMarker::Left, 10, 20);
    assert!(customer.fits_slide(0));
    assert!(customer.fits_slide(1_000_000));
    // 1_400_000 + 2_147_483_647 = 810 * 2_652_942 + 627
    assert!(customer.fits_slide(2_652_942));
    assert!(!customer.fits_slide(2_652_943));
    assert!(!customer.fits_slide(u64::MAX));
    let mut hand = DrinkInHand(None);
    let mut stats = PlayerStats::new();
    assert!(!customer.step(2_652_942, 5, &mut hand, &mut stats));
    assert_eq!(customer.state, CustomerState::Waiting(Timer::new(5)));
    assert_eq!(customer.body.translation.y, i32::MAX - 627);
    // only a customer who slides in can rise too high
    assert!(customer.fits_slide(u64::MAX));
    customer.state = CustomerState::Leaving;
    assert!(customer.fits_slide(u64::MAX));
}

#[test]
fn order_mismatch_then_match() {
    let mut customer = waiting_customer(Drink::Wine, 3000);
    let mut stats = PlayerStats::new();
    let mut hand = DrinkInHand(Some(Drink::Beer));
    customer.body.clicked = true;
    assert!(!customer.step(16, 3000, &mut hand, &mut stats));
    assert!(matches!(customer.state, CustomerState::Waiting(_)));
    assert_eq!(hand, DrinkInHand(Some(Drink::Beer)));
    assert_eq!(stats.streak, 0);
    assert_eq!(stats.money_halves, 0);
    assert!(!customer.body.clicked);

    hand = DrinkInHand(Some(Drink::Wine));
    customer.body.clicked = true;
    assert!(!customer.step(16, 3000, &mut hand, &mut stats));
    assert_eq!(customer.state, CustomerState::Drinking(Timer::new(1000)));
    assert_eq!(hand, DrinkInHand(None));
    assert_eq!(stats.streak, 1);
    assert_eq!(stats.highest_streak, 1);
    assert_eq!(stats.reputation_progress, 1);
    // the price of wine, once, in half coins
    assert_eq!(stats.money_halves, 2 * 6);
    assert_eq!(customer.body.translation.y, BAR_CUSTOMER_TARGET_Y);
    assert_eq!(customer.body.colors.normal, Rgb { r: 600, g: 1000, b: 600 });
    assert_eq!(customer.body.colors.highlight, Rgb { r: 900, g: 1300, b: 900 });
}

#[test]
fn click_with_empty_hands_changes_nothing() {
    let mut customer = waiting_customer(Drink::Wine, 3000);
    let mut stats = PlayerStats::new();
    let mut hand = DrinkInHand(None);
    customer.body.clicked = true;
    customer.step(10, 3000, &mut hand, &mut stats);
    assert!(matches!(customer.state, CustomerState::Waiting(_)));
    assert_eq!(hand, DrinkInHand(None));
    assert_eq!(stats, PlayerStats::new());
}

#[test]
fn right_drink_without_a_click_is_not_served() {
    let mut customer = waiting_customer(Drink::Wine, 3000);
    let mut stats = PlayerStats::new();
    let mut hand = DrinkInHand(Some(Drink::Wine));
    customer.step(10, 3000, &mut hand, &mut stats);
    assert!(matches!(customer.state, CustomerState::Waiting(_)));
    assert_eq!(hand, DrinkInHand(Some(Drink::Wine)));
}

#[test]
fn patience_expiry_resets_the_streak() {
    let mut customer = waiting_customer(Drink::Wine, 3000);
    let mut stats = PlayerStats::new();
    stats.streak = 3;
    stats.highest_streak = 5;
    stats.reputation_progress = 9;
    stats.money_halves = 40;
    let mut hand = DrinkInHand(None);
    assert!(!customer.step(2999, 3000, &mut hand, &mut stats));
    assert!(matches!(customer.state, CustomerState::Waiting(_)));
    assert_eq!(stats.streak, 3);
    assert!(!customer.step(2, 3000, &mut hand, &mut stats));
    assert_eq!(customer.state, CustomerState::Leaving);
    assert_eq!(stats.streak, 0);
    assert_eq!(stats.highest_streak, 5);
    assert_eq!(stats.money_halves, 40);
    assert_eq!(stats.reputation_progress, 9);
}

#[test]
fn expiry_wins_over_a_click_in_the_same_tick() {
    let mut customer = waiting_customer(Drink::Wine, 3000);
    let mut stats = PlayerStats::new();
    let mut hand = DrinkInHand(Some(Drink::Wine));
    customer.body.clicked = true;
    customer.step(3000, 3000, &mut hand, &mut stats);
    assert_eq!(customer.state, CustomerState::Leaving);
    assert_eq!(hand, DrinkInHand(Some(Drink::Wine)));
    assert_eq!(stats.streak, 0);
    assert_eq!(stats.money_halves, 0);
    assert!(!customer.body.clicked);
}

#[test]
fn waiting_customer_reddens() {
    let mut customer = waiting_customer(Drink::Wine, 3000);
    let mut stats = PlayerStats::new();
    let mut hand = DrinkInHand(None);
    customer.step(1000, 3000, &mut hand, &mut stats);
    assert_eq!(customer.body.colors.normal, Rgb { r: 1000, g: 1000, b: 1000 });
    customer.step(500, 3000, &mut hand, &mut stats);
    assert_eq!(customer.body.colors.normal, Rgb { r: 1000, g: 666, b: 666 });
    assert_eq!(customer.body.colors.highlight, Rgb { r: 1300, g: 866, b: 866 });
}

#[test]
fn drinking_customer_leaves_when_done_and_takes_no_clicks() {
    let mut customer = waiting_customer(Drink::Beer, 3000);
    let mut stats = PlayerStats::new();
    let mut hand = DrinkInHand(Some(Drink::Beer));
    customer.body.clicked = true;
    customer.step(1, 3000, &mut hand, &mut stats);
    assert_eq!(customer.state, CustomerState::Drinking(Timer::new(1000)));
    hand = DrinkInHand(Some(Drink::Beer));
    customer.body.clicked = true;
    assert!(!customer.step(999, 3000, &mut hand, &mut stats));
    assert!(matches!(customer.state, CustomerState::Drinking(_)));
    assert_eq!(hand, DrinkInHand(Some(Drink::Beer)));
    assert_eq!(stats.streak, 1);
    assert!(!customer.body.clicked);
    assert!(!customer.step(1, 3000, &mut hand, &mut stats));
    assert_eq!(customer.state, CustomerState::Leaving);
    assert_eq!(stats.streak, 1);
}

#[test]
fn leaving_customer_is_gone_past_the_threshold() {
    let mut customer = waiting_customer(Drink::Beer, 0);
    let mut stats = PlayerStats::new();
    let mut hand = DrinkInHand(None);
    customer.step(0, 0, &mut hand, &mut stats);
    assert_eq!(customer.state, CustomerState::Leaving);
    customer.body.translation.y = BAR_CUSTOMER_TARGET_Y;
    assert!(!customer.step(100, 0, &mut hand, &mut stats));
    assert_eq!(customer.body.translation.y, -850_000 - 81_000);
    assert!(!customer.step(579, 0, &mut hand, &mut stats));
    assert_eq!(customer.body.translation.y, -850_000 - 679 * 810);
    assert!(customer.step(1, 0, &mut hand, &mut stats));
    assert_eq!(customer.state, CustomerState::Leaving);
}

#[test]
fn leaving_customer_survives_the_largest_tick() {
    let mut customer = waiting_customer(Drink::Beer, 0);
    let mut stats = PlayerStats::new();
    let mut hand = DrinkInHand(None);
    customer.step(0, 0, &mut hand, &mut stats);
    assert!(customer.step(u64::MAX, 0, &mut hand, &mut stats));
}

#[test]
fn departed_customer_frees_its_slot() {
    let mut leaving = waiting_customer(Drink::Beer, 0);
    leaving.state = CustomerState::Leaving;
    leaving.body.translation.y = BAR_CUSTOMER_HIDDEN_Y + 100;
    let mut staying = Customer::new("Jill", Drink::Wine, CustomerSlotMarker::Right, 1, 1);
    staying.body.clicked = true;
    let mut customers = vec![leaving, staying];
    let mut bar = Bar::default();
    bar.customer_slots.left.spawned = true;
    bar.customer_slots.right.spawned = true;
    let mut hand = DrinkInHand(None);
    let mut stats = PlayerStats::new();
    customers_system(&mut customers, 1, &CustomersStats::new(), &mut bar, &mut hand, &mut stats);
    assert_eq!(customers.len(), 1);
    assert_eq!(customers[0].name, "Jill");
    assert_eq!(customers[0].body.translation.y, BAR_CUSTOMER_HIDDEN_Y + 810);
    assert!(!customers[0].body.clicked);
    assert!(!bar.customer_slots.left.spawned);
    assert!(!bar.customer_slots.left.is_full());
    assert!(bar.customer_slots.right.spawned);
}

#[test]
fn customers_are_served_in_the_order_of_the_list() {
    let mut first = waiting_customer(Drink::Beer, 3000);
    first.body.clicked = true;
    let mut second = waiting_customer(Drink::Beer, 3000);
    second.slot = CustomerSlotMarker::Middle;
    second.body.action = InteractibleAction::Customer(CustomerSlotMarker::Middle);
    second.body.clicked = true;
    let mut customers = vec![first, second];
    let mut bar = Bar::default();
    bar.customer_slots.left.spawned = true;
    bar.customer_slots.middle.spawned = true;
    let mut hand = DrinkInHand(Some(Drink::Beer));
    let mut stats = PlayerStats::new();
    customers_system(&mut customers, 1, &CustomersStats::new(), &mut bar, &mut hand, &mut stats);
    assert!(matches!(customers[0].state, CustomerState::Drinking(_)));
    assert!(matches!(customers[1].state, CustomerState::Waiting(_)));
    assert_eq!(hand, DrinkInHand(None));
    assert_eq!(stats.streak, 1);
}
