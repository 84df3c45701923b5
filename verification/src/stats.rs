//! The player's ledger and the settings that govern the customers.
//!
//! Money is counted in half coins, so that the reward for a served order,
//! the drink's price times the larger of one and half the streak, is a whole
//! number for every streak.

use vstd::prelude::*;
use crate::drink::Drink;

verus! {

/// The largest reward, in half coins, that one served order can bring.
pub open spec fn max_reward_halves() -> int {
    10 * 0xffff_ffffint
}

/// The reward for a served order in half coins: twice the drink's price
/// times the larger of one and half the streak before the order.
pub open spec fn reward_halves(drink: Drink, streak: u32) -> int {
    drink.price() * (if streak >= 2 { streak as int } else { 2 })
}

/// Money, streaks and reputation.
#[derive(Clone, Copy, Debug, PartialEq, Eq, Structural)]
pub struct PlayerStats {
    /// The money earned, in half coins.
    pub money_halves: u128,
    /// Orders served in a row since an order was last lost.
    pub streak: u32,
    /// The longest streak so far.
    pub highest_streak: u32,
    pub reputation_level: u32,
    /// One point for each customer served.
    pub reputation_progress: u32,
    pub reputation_progress_max: u32,
}

impl PlayerStats {
    /// No streak is longer than the longest.
    pub open spec fn wf(self) -> bool {
        self.streak <= self.highest_streak
    }

    /// Whether the counters can take one more served order of `drink`.
    pub open spec fn can_serve(self, drink: Drink) -> bool {
        &&& self.streak < u32::MAX
        &&& self.reputation_progress < u32::MAX
        &&& self.money_halves + reward_halves(drink, self.streak) <= u128::MAX
    }

    /// Whether the counters can take `orders` more served orders, whatever
    /// is ordered.
    pub open spec fn has_room_for(self, orders: nat) -> bool {
        &&& self.streak + orders <= u32::MAX
        &&& self.reputation_progress + orders <= u32::MAX
        &&& self.money_halves + orders * max_reward_halves() <= u128::MAX
    }

    /// An empty ledger.
    pub open spec fn empty() -> PlayerStats {
        PlayerStats {
            money_halves: 0,
            streak: 0,
            highest_streak: 0,
            reputation_level: 0,
            reputation_progress: 0,
            reputation_progress_max: 10,
        }
    }

    /// The ledger after an order of `drink` was served.
    pub open spec fn served(self, drink: Drink) -> PlayerStats {
        PlayerStats {
            money_halves: (self.money_halves + reward_halves(drink, self.streak)) as u128,
            streak: (self.streak + 1) as u32,
            highest_streak: if self.streak + 1 > self.highest_streak {
                (self.streak + 1) as u32
            } else {
                self.highest_streak
            },
            reputation_progress: (self.reputation_progress + 1) as u32,
            ..self
        }
    }

    /// The ledger after a customer left without the order.
    pub open spec fn lost(self) -> PlayerStats {
        PlayerStats { streak: 0, ..self }
    }

    /// Whole coins earned, the half coin that may be left over apart.
    pub open spec fn spec_money_coins(self) -> (u128, bool) {
        (self.money_halves / 2, self.money_halves % 2 == 1)
    }

    pub fn new() -> (stats: PlayerStats)
        ensures
            stats == PlayerStats::empty(),
            stats.wf(),
    {
        PlayerStats {
            money_halves: 0,
            streak: 0,
            highest_streak: 0,
            reputation_level: 0,
            reputation_progress: 0,
            reputation_progress_max: 10,
        }
    }

    /// Whether the counters can take `orders` more served orders.
    pub fn room_for(&self, orders: usize) -> (ok: bool)
        ensures
            ok == self.has_room_for(orders as nat),
    {
        let wide: u128 = orders as u128;
        assert(wide * 42_949_672_950 <= 0xffff_ffff_ffff_ffff * 42_949_672_950)
            by (nonlinear_arith)
            requires
                wide <= 0xffff_ffff_ffff_ffff,
        ;
        assert(wide * 42_949_672_950 == orders as nat * max_reward_halves());
        wide <= (u32::MAX - self.streak) as u128 && wide <= (u32::MAX
            - self.reputation_progress) as u128 && self.money_halves <= u128::MAX - wide
            * 42_949_672_950
    }

    /// Books a served order: the reward, one more in the streak, the longest
    /// streak raised where this one passes it, one point of reputation.
    pub fn record_served(&mut self, drink: Drink)
        requires
            old(self).can_serve(drink),
        ensures
            *final(self) == old(self).served(drink),
            final(self).streak == old(self).streak + 1,
            final(self).money_halves - old(self).money_halves == reward_halves(
                drink,
                old(self).streak,
            ),
            final(self).highest_streak >= old(self).highest_streak,
            final(self).highest_streak > old(self).highest_streak ==> final(self).highest_streak
                == final(self).streak,
            old(self).wf() ==> final(self).wf(),
    {
        let factor: u128 = if self.streak >= 2 {
            self.streak as u128
        } else {
            2
        };
        let price: u128 = drink.get_price() as u128;
        assert(price * factor == reward_halves(drink, self.streak));
        self.money_halves = self.money_halves + price * factor;
        self.streak = self.streak + 1;
        if self.streak > self.highest_streak {
            self.highest_streak = self.streak;
        }
        self.reputation_progress = self.reputation_progress + 1;
    }

    /// Books a lost order: the streak starts again at zero, nothing else
    /// changes.
    pub fn record_lost(&mut self)
        ensures
            *final(self) == old(self).lost(),
            final(self).streak == 0,
            old(self).wf() ==> final(self).wf(),
    {
        self.streak = 0;
    }

    /// The money in whole coins, and whether half a coin is left over.
    pub fn money_coins(&self) -> (coins: (u128, bool))
        ensures
            coins == self.spec_money_coins(),
            2 * coins.0 + (if coins.1 { 1int } else { 0int }) == self.money_halves,
    {
        (self.money_halves / 2, self.money_halves % 2 == 1)
    }
}

/// A ledger with room for some orders can take the next one, whatever is
/// ordered, and has room for one order fewer after it.
pub proof fn lemma_served_keeps_room(stats: PlayerStats, drink: Drink, orders: nat)
    requires
        stats.has_room_for(orders),
        orders >= 1,
    ensures
        stats.can_serve(drink),
        stats.served(drink).has_room_for((orders - 1) as nat),
        0 < reward_halves(drink, stats.streak) <= max_reward_halves(),
        stats.served(drink).streak == stats.streak + 1,
        stats.served(drink).reputation_progress == stats.reputation_progress + 1,
        stats.served(drink).highest_streak >= stats.highest_streak,
        stats.served(drink).money_halves == stats.money_halves + reward_halves(
            drink,
            stats.streak,
        ),
        stats.wf() ==> stats.served(drink).wf(),
{
    let factor: int = if stats.streak >= 2 {
        stats.streak as int
    } else {
        2
    };
    let price: int = drink.price() as int;
    assert(0 < price * factor <= 10 * 0xffff_ffff) by (nonlinear_arith)
        requires
            0 < price <= 10,
            0 < factor <= 0xffff_ffff,
    ;
    assert((orders - 1) * max_reward_halves() + max_reward_halves() == orders
        * max_reward_halves()) by (nonlinear_arith);
    assert((orders - 1) * max_reward_halves() >= 0) by (nonlinear_arith)
        requires
            orders >= 1,
    ;
}

/// The reward grows with the streak: for an even streak it is twice the
/// price times the larger of one and half the streak, and for every streak
/// it is the price times the larger of two and the streak.
pub proof fn lemma_reward_formula(drink: Drink, streak: u32)
    ensures
        streak % 2 == 0 ==> reward_halves(drink, streak) == 2 * (drink.price() * (if streak / 2
            >= 1 {
            streak as int / 2
        } else {
            1
        })),
        streak <= 2 ==> reward_halves(drink, streak) == 2 * drink.price(),
        streak >= 2 ==> reward_halves(drink, streak) == drink.price() * streak,
{
    let price: int = drink.price() as int;
    if streak % 2 == 0 && streak >= 2 {
        let half: int = streak as int / 2;
        assert(price * (2 * half) == 2 * (price * half)) by (nonlinear_arith);
    }
}

/// How long customers wait and how often new ones come.
#[derive(Clone, Copy, Debug, PartialEq, Eq, Structural)]
pub struct CustomersStats {
    /// Milliseconds for which a customer waits for the order.
    pub customers_wait_duration: u64,
    /// The fewest whole seconds between two arrivals.
    pub customers_spawn_gap_start: u64,
    /// The bound, in whole seconds, under which the time between two
    /// arrivals stays.
    pub customers_spawn_gap_end: u64,
}

/// Seconds above which a gap between arrivals cannot be counted in
/// milliseconds.
pub const MAX_GAP_SECONDS: u64 = 18_446_744_073_709_551;

impl CustomersStats {
    /// The range of gaps holds at least one value, and each of them can be
    /// counted in milliseconds.
    pub open spec fn wf(self) -> bool {
        &&& self.customers_spawn_gap_start < self.customers_spawn_gap_end
        &&& self.customers_spawn_gap_end <= MAX_GAP_SECONDS
    }

    pub open spec fn standard() -> CustomersStats {
        CustomersStats {
            customers_wait_duration: 3000,
            customers_spawn_gap_start: 0,
            customers_spawn_gap_end: 3,
        }
    }

    /// Three seconds of patience, and up to three seconds between arrivals.
    pub fn new() -> (stats: CustomersStats)
        ensures
            stats == CustomersStats::standard(),
            stats.wf(),
    {
        CustomersStats {
            customers_wait_duration: 3000,
            customers_spawn_gap_start: 0,
            customers_spawn_gap_end: 3,
        }
    }
}

/// The one drink that the player carries, if any.
#[derive(Clone, Copy, Debug, PartialEq, Eq, Structural)]
pub struct DrinkInHand(pub Option<Drink>);

} // verus!
