use tavern_core::drink::Drink;
use tavern_core::stats::{CustomersStats, PlayerStats};

fn stats_with_streak(streak: u32) -> PlayerStats {
    let mut stats = PlayerStats::new();
    stats.streak = streak;
    stats.highest_streak = streak;
    stats.reputation_progress = streak;
    stats
}

fn reward(drink: Drink, streak: u32) -> u128 {
    let mut stats = stats_with_streak(streak);
    let before = stats.money_halves;
    stats.record_served(drink);
    assert_eq!(stats.streak, streak + 1);
    stats.money_halves - before
}

#[test]
fn prices_are_fixed() {
    assert_eq!(Drink::Beer.get_price(), 4);
    assert_eq!(Drink::Wine.get_price(), 6);
    assert_eq!(Drink::Whiskey.get_price(), 10);
}

#[test]
fn reward_is_price_times_half_the_streak_but_at_least_the_price() {
    // in half coins: price * max(2, streak)
    assert_eq!(reward(Drink::Wine, 0), 12);
    assert_eq!(reward(Drink::Wine, 1), 12);
    assert_eq!(reward(Drink::Wine, 2), 12);
    assert_eq!(reward(Drink::Wine, 3), 18);
    assert_eq!(reward(Drink::Wine, 4), 24);
    assert_eq!(reward(Drink::Beer, 3), 12);
    assert_eq!(reward(Drink::Whiskey, 7), 70);
}

#[test]
fn money_in_coins_keeps_the_half() {
    let mut stats = stats_with_streak(3);
    stats.record_served(Drink::Beer);
    assert_eq!(stats.money_coins(), (6, false));
    let mut stats = stats_with_streak(3);
    stats.record_served(Drink::Whiskey);
    assert_eq!(stats.money_coins(), (15, false));
    stats.money_halves = 7;
    assert_eq!(stats.money_coins(), (3, true));
}

#[test]
fn served_orders_raise_streak_and_highest_streak() {
    let mut stats = PlayerStats::new();
    stats.record_served(Drink::Beer);
    stats.record_served(Drink::Beer);
    assert_eq!(stats.streak, 2);
    assert_eq!(stats.highest_streak, 2);
    assert_eq!(stats.reputation_progress, 2);
    assert_eq!(stats.money_halves, 16);
    stats.record_lost();
    assert_eq!(stats.streak, 0);
    assert_eq!(stats.highest_streak, 2);
    assert_eq!(stats.money_halves, 16);
    stats.record_served(Drink::Wine);
    assert_eq!(stats.streak, 1);
    assert_eq!(stats.highest_streak, 2);
}

#[test]
fn new_ledger_is_empty() {
    let stats = PlayerStats::new();
    assert_eq!(stats.money_halves, 0);
    assert_eq!(stats.streak, 0);
    assert_eq!(stats.highest_streak, 0);
    assert_eq!(stats.reputation_level, 0);
    assert_eq!(stats.reputation_progress, 0);
    assert_eq!(stats.reputation_progress_max, 10);
}

#[test]
fn standard_customer_settings() {
    let stats = CustomersStats::new();
    assert_eq!(stats.customers_wait_duration, 3000);
    assert_eq!(stats.customers_spawn_gap_start, 0);
    assert_eq!(stats.customers_spawn_gap_end, 3);
}

#[test]
fn drinks_have_labels_and_barrels() {
    assert_eq!(Drink::Beer.label(), "Beer");
    assert_eq!(Drink::Wine.label(), "Wine");
    assert_eq!(Drink::Whiskey.label(), "Whiskey");
    let barrels = Drink::iterator();
    assert_eq!(barrels.len(), 3);
    assert_eq!(barrels[0].0, Drink::Beer);
    assert_eq!((barrels[0].1.x, barrels[0].1.y, barrels[0].1.z), (750_000, -615_000, 14_000));
    assert_eq!(barrels[1].0, Drink::Wine);
    assert_eq!((barrels[1].1.x, barrels[1].1.y, barrels[1].1.z), (400_000, -615_000, 13_000));
    assert_eq!(barrels[2].0, Drink::Whiskey);
    assert_eq!((barrels[2].1.x, barrels[2].1.y, barrels[2].1.z), (50_000, -615_000, 12_000));
}

#[test]
fn ledger_with_money_and_nothing_served_takes_an_order() {
    let mut stats = PlayerStats::new();
    stats.money_halves = 20;
    stats.record_served(Drink::Beer);
    assert_eq!(stats.money_halves, 28);
    assert_eq!(stats.streak, 1);
    assert_eq!(stats.highest_streak, 1);
}

#[test]
fn longest_streak_rises_only_with_a_streak_above_it() {
    let mut stats = PlayerStats::new();
    stats.highest_streak = 2;
    stats.record_served(Drink::Beer);
    stats.record_served(Drink::Beer);
    assert_eq!((stats.streak, stats.highest_streak), (2, 2));
    stats.record_served(Drink::Beer);
    assert_eq!((stats.streak, stats.highest_streak), (3, 3));
}

#[test]
fn room_for_orders_ends_with_the_counters() {
    let mut stats = PlayerStats::new();
    assert!(stats.room_for(0));
    assert!(stats.room_for(3));
    assert!(stats.room_for(u32::MAX as usize));
    assert!(!stats.room_for(u32::MAX as usize + 1));
    stats.streak = u32::MAX - 2;
    assert!(stats.room_for(2));
    assert!(!stats.room_for(3));
    stats.streak = 0;
    stats.reputation_progress = u32::MAX;
    assert!(stats.room_for(0));
    assert!(!stats.room_for(1));
    stats.reputation_progress = 0;
    stats.money_halves = u128::MAX - 2 * 42_949_672_950;
    assert!(stats.room_for(2));
    assert!(!stats.room_for(3));
    stats.money_halves = u128::MAX;
    assert!(stats.room_for(0));
    assert!(!stats.room_for(1));
}
