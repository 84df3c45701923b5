//! The life of a customer: sliding in, waiting, drinking, sliding out.

use vstd::prelude::*;
use crate::bar::{Bar, CustomerSlotMarker};
use crate::drink::Drink;
use crate::geometry::Point3;
use crate::hover::InteractibleBundle;
use crate::interact::{InteractibleAction, InteractionSpriteColors, Rgb};
use crate::seating::{lemma_consistent_update, lemma_consistent_without, slots_consistent};
use crate::stats::{lemma_served_keeps_room, CustomersStats, DrinkInHand, PlayerStats};
use crate::timer::Timer;

verus! {

/// Height at which a customer stands at the bar.
pub const BAR_CUSTOMER_TARGET_Y: i32 = -850_000;

/// Height under which a customer is out of sight.
pub const BAR_CUSTOMER_HIDDEN_Y: i32 = -1_400_000;

/// How far a customer slides in one millisecond.
pub const CUSTOMER_SLIDE_SPEED: u32 = 810;

/// Milliseconds that a customer takes to drink.
pub const CUSTOMER_DRINKING_DURATION: u64 = 1000;

/// Where a customer stands in its life. The states follow one another in
/// this order; a customer whose patience runs out goes from `Waiting`
/// straight to `Leaving`.
#[derive(Clone, Copy, Debug, PartialEq, Eq, Structural)]
pub enum CustomerState {
    /// Sliding up to the bar.
    Spawning,
    /// At the bar, until the order comes or the timer runs out.
    Waiting(Timer),
    /// Served, until the timer runs out.
    Drinking(Timer),
    /// Sliding away.
    Leaving,
}

impl CustomerState {
    /// How far along its life a customer in this state is.
    pub open spec fn rank(self) -> int {
        match self {
            CustomerState::Spawning => 0,
            CustomerState::Waiting(_) => 1,
            CustomerState::Drinking(_) => 2,
            CustomerState::Leaving => 3,
        }
    }
}

/// A customer at one of the bar's places.
#[derive(Clone, Copy, Debug, PartialEq, Eq)]
pub struct Customer {
    pub name: &'static str,
    pub state: CustomerState,
    /// The drink that the customer orders.
    pub drink: Drink,
    /// The place at the bar that the customer holds.
    pub slot: CustomerSlotMarker,
    /// What the pointer meets of the customer.
    pub body: InteractibleBundle,
}

/// What one tick makes of a customer and of what it shares with the others.
pub struct Step {
    pub customer: Customer,
    pub hand: DrinkInHand,
    pub stats: PlayerStats,
    /// Whether the customer has slid out of sight and is gone.
    pub departed: bool,
}

/// The colours of a waiting customer: the less patience is left, the redder.
pub open spec fn waiting_colors(timer: Timer) -> InteractionSpriteColors {
    InteractionSpriteColors {
        normal: Rgb {
            r: 1000,
            g: timer.spec_scaled_left(1000) as u16,
            b: timer.spec_scaled_left(1000) as u16,
        },
        highlight: Rgb {
            r: 1300,
            g: timer.spec_scaled_left(1300) as u16,
            b: timer.spec_scaled_left(1300) as u16,
        },
    }
}

/// The colours of a customer who got the order.
pub open spec fn served_colors() -> InteractionSpriteColors {
    InteractionSpriteColors {
        normal: Rgb { r: 600, g: 1000, b: 600 },
        highlight: Rgb { r: 900, g: 1300, b: 900 },
    }
}

impl Customer {
    /// The customer is what the pointer meets at its place.
    pub open spec fn wf(self) -> bool {
        self.body.action == InteractibleAction::Customer(self.slot)
    }

    /// A customer as it enters: sliding in from the entry point of its
    /// place, in plain colours, not clicked.
    pub open spec fn entering(
        name: &'static str,
        drink: Drink,
        slot: CustomerSlotMarker,
        width: u32,
        height: u32,
    ) -> Customer {
        Customer {
            name,
            state: CustomerState::Spawning,
            drink,
            slot,
            body: InteractibleBundle {
                action: InteractibleAction::Customer(slot),
                translation: slot.spawn_point(),
                width,
                height,
                colors: InteractionSpriteColors::plain(),
                color: InteractionSpriteColors::plain().normal,
                clicked: false,
            },
        }
    }

    pub open spec fn at_height(self, y: i32) -> Customer {
        Customer {
            body: InteractibleBundle {
                translation: Point3 { y, ..self.body.translation },
                ..self.body
            },
            ..self
        }
    }

    pub open spec fn in_colors(self, colors: InteractionSpriteColors) -> Customer {
        Customer { body: InteractibleBundle { colors, ..self.body }, ..self }
    }

    pub open spec fn in_state(self, state: CustomerState) -> Customer {
        Customer { state, ..self }
    }

    pub open spec fn unclicked(self) -> Customer {
        Customer { body: self.body.unclicked(), ..self }
    }

    /// Whether a click on the waiting customer serves the order: the drink
    /// in hand is the one ordered.
    pub open spec fn takes(self, hand: DrinkInHand) -> bool {
        self.body.clicked && hand.0 == Some(self.drink)
    }

    /// Whether the height that a tick of `dt` milliseconds takes the
    /// customer to can be held: only a customer who slides in can rise too
    /// high.
    pub open spec fn can_slide(self, dt: u64) -> bool {
        self.state is Spawning ==> self.body.translation.y + CUSTOMER_SLIDE_SPEED * dt
            <= i32::MAX
    }

    /// The customer, the hand and the ledger after a tick of `dt`
    /// milliseconds. `wait` is the patience, in milliseconds, of a customer
    /// who reaches the bar.
    ///
    /// A customer who slides in rises by the speed times `dt`, and waits as
    /// soon as it has reached or passed the height of the bar; it stays at
    /// the height that it has come to. A customer who slides out is gone as
    /// soon as it has reached or passed the hidden height.
    ///
    /// A click is used up by the tick, whatever the state. Only a waiting
    /// customer whose patience has not run out in this very tick reacts to
    /// it, and only if the drink in hand is the one ordered; any other drink
    /// stays in hand.
    pub open spec fn stepped(self, dt: u64, wait: u64, hand: DrinkInHand, stats: PlayerStats)
        -> Step {
        let rest = self.unclicked();
        match self.state {
            CustomerState::Spawning => {
                let slid = rest.at_height(
                    (self.body.translation.y + CUSTOMER_SLIDE_SPEED * dt) as i32,
                );
                if self.body.translation.y + CUSTOMER_SLIDE_SPEED * dt >= BAR_CUSTOMER_TARGET_Y {
                    Step {
                        customer: slid.in_state(CustomerState::Waiting(Timer::fresh(wait))),
                        hand,
                        stats,
                        departed: false,
                    }
                } else {
                    Step { customer: slid, hand, stats, departed: false }
                }
            },
            CustomerState::Waiting(timer) => {
                let tinted = rest.in_colors(waiting_colors(timer));
                if timer.ticked(dt).just_finished {
                    Step {
                        customer: tinted.in_state(CustomerState::Leaving),
                        hand,
                        stats: stats.lost(),
                        departed: false,
                    }
                } else if self.takes(hand) {
                    Step {
                        customer: rest.at_height(BAR_CUSTOMER_TARGET_Y).in_colors(
                            served_colors(),
                        ).in_state(
                            CustomerState::Drinking(Timer::fresh(CUSTOMER_DRINKING_DURATION)),
                        ),
                        hand: DrinkInHand(None),
                        stats: stats.served(self.drink),
                        departed: false,
                    }
                } else {
                    Step {
                        customer: tinted.in_state(CustomerState::Waiting(timer.ticked(dt))),
                        hand,
                        stats,
                        departed: false,
                    }
                }
            },
            CustomerState::Drinking(timer) => {
                if timer.ticked(dt).just_finished {
                    Step {
                        customer: rest.in_state(CustomerState::Leaving),
                        hand,
                        stats,
                        departed: false,
                    }
                } else {
                    Step {
                        customer: rest.in_state(CustomerState::Drinking(timer.ticked(dt))),
                        hand,
                        stats,
                        departed: false,
                    }
                }
            },
            CustomerState::Leaving => {
                if self.body.translation.y - CUSTOMER_SLIDE_SPEED * dt <= BAR_CUSTOMER_HIDDEN_Y {
                    Step { customer: rest, hand, stats, departed: true }
                } else {
                    Step {
                        customer: rest.at_height(
                            (self.body.translation.y - CUSTOMER_SLIDE_SPEED * dt) as i32,
                        ),
                        hand,
                        stats,
                        departed: false,
                    }
                }
            },
        }
    }

    /// A customer who enters at the given place, ordering `drink`. `width`
    /// and `height` are those of its image as drawn.
    pub fn new(name: &'static str, drink: Drink, slot: CustomerSlotMarker, width: u32, height: u32)
        -> (customer: Customer)
        ensures
            customer == Customer::entering(name, drink, slot, width, height),
            customer.wf(),
    {
        let colors = InteractionSpriteColors::default();
        Customer {
            name,
            state: CustomerState::Spawning,
            drink,
            slot,
            body: InteractibleBundle {
                action: InteractibleAction::Customer(slot),
                translation: slot.get_spawn_point(),
                width,
                height,
                colors,
                color: colors.normal,
                clicked: false,
            },
        }
    }

    /// Whether a tick of `dt` milliseconds takes the customer to a height
    /// that can be held.
    pub fn fits_slide(&self, dt: u64) -> (ok: bool)
        ensures
            ok == self.can_slide(dt),
    {
        assert(0 <= CUSTOMER_SLIDE_SPEED * dt <= 810 * 0xffff_ffff_ffff_ffff) by (nonlinear_arith)
            requires
                CUSTOMER_SLIDE_SPEED == 810,
                0 <= dt <= 0xffff_ffff_ffff_ffff,
        ;
        match self.state {
            CustomerState::Spawning => (self.body.translation.y as i128) + (
            CUSTOMER_SLIDE_SPEED as i128) * (dt as i128) <= 0x7fff_ffff,
            _ => true,
        }
    }

    /// Advances the customer by one tick of `dt` milliseconds, and says
    /// whether it has gone out of sight: then its place is to be given back.
    pub fn step(
        &mut self,
        dt: u64,
        wait: u64,
        drink_in_hand: &mut DrinkInHand,
        player_stats: &mut PlayerStats,
    ) -> (departed: bool)
        requires
            old(self).can_slide(dt),
            old(player_stats).has_room_for(1),
        ensures
            *final(self) == old(self).stepped(
                dt,
                wait,
                *old(drink_in_hand),
                *old(player_stats),
            ).customer,
            *final(drink_in_hand) == old(self).stepped(
                dt,
                wait,
                *old(drink_in_hand),
                *old(player_stats),
            ).hand,
            *final(player_stats) == old(self).stepped(
                dt,
                wait,
                *old(drink_in_hand),
                *old(player_stats),
            ).stats,
            departed == old(self).stepped(
                dt,
                wait,
                *old(drink_in_hand),
                *old(player_stats),
            ).departed,
            old(player_stats).wf() ==> final(player_stats).wf(),
    {
        let clicked = self.body.take_click();
        let slide: i128 = (CUSTOMER_SLIDE_SPEED as i128) * (dt as i128);
        assert(slide == CUSTOMER_SLIDE_SPEED * dt) by (nonlinear_arith)
            requires
                slide == (CUSTOMER_SLIDE_SPEED as i128) * (dt as i128),
                0 <= dt <= u64::MAX,
        ;
        match self.state {
            CustomerState::Spawning => {
                let moved: i128 = (self.body.translation.y as i128) + slide;
                self.body.translation.y = moved as i32;
                if moved >= BAR_CUSTOMER_TARGET_Y as i128 {
                    self.state = CustomerState::Waiting(Timer::new(wait));
                }
                false
            },
            CustomerState::Waiting(timer) => {
                let mut timer = timer;
                let pale: u16 = timer.scaled_left(1000);
                let bright: u16 = timer.scaled_left(1300);
                self.body.colors = InteractionSpriteColors {
                    normal: Rgb { r: 1000, g: pale, b: pale },
                    highlight: Rgb { r: 1300, g: bright, b: bright },
                };
                if timer.tick(dt) {
                    player_stats.record_lost();
                    self.state = CustomerState::Leaving;
                } else {
                    let matched = clicked && match drink_in_hand.0 {
                        Some(drink) => drink == self.drink,
                        None => false,
                    };
                    if matched {
                        drink_in_hand.0 = None;
                        self.body.translation.y = BAR_CUSTOMER_TARGET_Y;
                        self.body.colors = InteractionSpriteColors {
                            normal: Rgb { r: 600, g: 1000, b: 600 },
                            highlight: Rgb { r: 900, g: 1300, b: 900 },
                        };
                        self.state = CustomerState::Drinking(
                            Timer::new(CUSTOMER_DRINKING_DURATION),
                        );
                        proof {
                            lemma_served_keeps_room(*player_stats, self.drink, 1);
                        }
                        player_stats.record_served(self.drink);
                    } else {
                        self.state = CustomerState::Waiting(timer);
                    }
                }
                false
            },
            CustomerState::Drinking(timer) => {
                let mut timer = timer;
                if timer.tick(dt) {
                    self.state = CustomerState::Leaving;
                } else {
                    self.state = CustomerState::Drinking(timer);
                }
                false
            },
            CustomerState::Leaving => {
                let moved: i128 = (self.body.translation.y as i128) - slide;
                if moved <= BAR_CUSTOMER_HIDDEN_Y as i128 {
                    true
                } else {
                    self.body.translation.y = moved as i32;
                    false
                }
            },
        }
    }
}

/// What one tick makes of all the customers and of what they share.
pub struct Round {
    /// The customers who are still there, in their old order.
    pub customers: Seq<Customer>,
    pub hand: DrinkInHand,
    pub stats: PlayerStats,
    pub bar: Bar,
}

/// The outcome of a tick for the first `n` of `customers`, taken one after
/// the other: each is stepped with the hand and the ledger as the one before
/// left them; one who has gone gives its place back to the bar, the others
/// stay.
pub open spec fn round_of(
    customers: Seq<Customer>,
    n: int,
    dt: u64,
    wait: u64,
    hand: DrinkInHand,
    stats: PlayerStats,
    bar: Bar,
) -> Round
    decreases n,
{
    if n <= 0 {
        Round { customers: Seq::empty(), hand, stats, bar }
    } else {
        let before = round_of(customers, n - 1, dt, wait, hand, stats, bar);
        let step = customers[n - 1].stepped(dt, wait, before.hand, before.stats);
        Round {
            customers: if step.departed {
                before.customers
            } else {
                before.customers.push(step.customer)
            },
            hand: step.hand,
            stats: step.stats,
            bar: if step.departed {
                before.bar.without(customers[n - 1].slot)
            } else {
                before.bar
            },
        }
    }
}

/// Advances every customer by one tick of `dt` milliseconds, in the order of
/// the list. Customers who have slid out of sight leave the list, and their
/// places at the bar are free again.
pub fn customers_system(
    customers: &mut Vec<Customer>,
    dt: u64,
    customers_stats: &CustomersStats,
    bar: &mut Bar,
    drink_in_hand: &mut DrinkInHand,
    player_stats: &mut PlayerStats,
)
    requires
        forall|i: int|
            0 <= i < old(customers)@.len() ==> (#[trigger] old(customers)@[i]).can_slide(dt),
        old(player_stats).has_room_for(old(customers)@.len()),
    ensures
        final(customers)@ == round_of(
            old(customers)@,
            old(customers)@.len() as int,
            dt,
            customers_stats.customers_wait_duration,
            *old(drink_in_hand),
            *old(player_stats),
            *old(bar),
        ).customers,
        *final(drink_in_hand) == round_of(
            old(customers)@,
            old(customers)@.len() as int,
            dt,
            customers_stats.customers_wait_duration,
            *old(drink_in_hand),
            *old(player_stats),
            *old(bar),
        ).hand,
        *final(player_stats) == round_of(
            old(customers)@,
            old(customers)@.len() as int,
            dt,
            customers_stats.customers_wait_duration,
            *old(drink_in_hand),
            *old(player_stats),
            *old(bar),
        ).stats,
        *final(bar) == round_of(
            old(customers)@,
            old(customers)@.len() as int,
            dt,
            customers_stats.customers_wait_duration,
            *old(drink_in_hand),
            *old(player_stats),
            *old(bar),
        ).bar,
        old(player_stats).wf() ==> final(player_stats).wf(),
        final(player_stats).highest_streak >= old(player_stats).highest_streak,
        final(customers)@.len() <= old(customers)@.len(),
        forall|k: int| 0 <= k < final(customers)@.len() ==> !final(customers)@[k].body.clicked,
        slots_consistent(*old(bar), old(customers)@) ==> slots_consistent(
            *final(bar),
            final(customers)@,
        ),
{
    let wait = customers_stats.customers_wait_duration;
    let ghost all = customers@;
    let ghost hand0 = *drink_in_hand;
    let ghost stats0 = *player_stats;
    let ghost bar0 = *bar;
    let ghost consistent = slots_consistent(bar0, all);
    let mut kept: Vec<Customer> = Vec::new();
    let mut at: usize = 0;
    while at < customers.len()
        invariant
            0 <= at <= customers.len(),
            customers@ == all,
            kept@ == round_of(all, at as int, dt, wait, hand0, stats0, bar0).customers,
            *drink_in_hand == round_of(all, at as int, dt, wait, hand0, stats0, bar0).hand,
            *player_stats == round_of(all, at as int, dt, wait, hand0, stats0, bar0).stats,
            *bar == round_of(all, at as int, dt, wait, hand0, stats0, bar0).bar,
            stats0.wf() ==> player_stats.wf(),
            player_stats.has_room_for((all.len() - at) as nat),
            forall|i: int| 0 <= i < all.len() ==> (#[trigger] all[i]).can_slide(dt),
            player_stats.highest_streak >= stats0.highest_streak,
            kept@.len() <= at,
            forall|k: int| 0 <= k < kept@.len() ==> !kept@[k].body.clicked,
            consistent == slots_consistent(bar0, all),
            consistent ==> slots_consistent(*bar, kept@ + all.subrange(at as int, all.len() as int)),
        decreases customers.len() - at,
    {
        let mut customer = customers[at];
        let ghost before_step = customer;
        let ghost stats_before = *player_stats;
        let ghost hand_before = *drink_in_hand;
        let ghost bar_before = *bar;
        let ghost kept_before = kept@;
        proof {
            lemma_step_ledger(
                customer,
                dt,
                wait,
                hand_before,
                stats_before,
                (all.len() - at) as nat,
            );
        }
        let departed = customer.step(dt, wait, drink_in_hand, player_stats);
        if departed {
            bar.remove_customer(&customer.slot);
        } else {
            kept.push(customer);
        }
        proof {
            lemma_step_order(before_step, dt, wait, hand_before, stats_before);
            if consistent {
                let rest_before = all.subrange(at as int, all.len() as int);
                let rest_after = all.subrange(at as int + 1, all.len() as int);
                let list_before = kept_before + rest_before;
                let list_after = kept@ + rest_after;
                let place = kept_before.len() as int;
                assert(rest_before[0] == before_step);
                assert(list_before[place] == before_step);
                if departed {
                    lemma_consistent_without(bar_before, list_before, place);
                    assert(list_after =~= list_before.remove(place));
                } else {
                    lemma_consistent_update(bar_before, list_before, place, customer);
                    assert(list_after =~= list_before.update(place, customer));
                }
            }
        }
        at = at + 1;
    }
    proof {
        assert(kept@ + all.subrange(at as int, all.len() as int) =~= kept@);
    }
    *customers = kept;
}

/// What a tick can do to the ledger through one customer.
///
/// The streak grows by exactly one where the order is served, falls to
/// exactly zero where the patience runs out, and stays as it is otherwise.
/// The longest streak never falls, and rises only where a served order
/// takes the streak above it. The money grows by the reward on a served
/// order and not at all otherwise, and at most one customer is counted as
/// served. A ledger with room for some orders has room for one fewer
/// afterwards.
pub proof fn lemma_step_ledger(
    customer: Customer,
    dt: u64,
    wait: u64,
    hand: DrinkInHand,
    stats: PlayerStats,
    orders: nat,
)
    requires
        stats.has_room_for(orders),
        orders >= 1,
    ensures
        ({
            let step = customer.stepped(dt, wait, hand, stats);
            let expired = customer.state is Waiting && customer.state->Waiting_0.ticked(
                dt,
            ).just_finished;
            let served = customer.state is Waiting && !expired && customer.takes(hand);
            &&& stats.wf() ==> step.stats.wf()
            &&& step.stats.has_room_for((orders - 1) as nat)
            &&& step.stats.highest_streak > stats.highest_streak ==> served
                && step.stats.highest_streak == step.stats.streak
            &&& served ==> step.stats == stats.served(customer.drink) && step.stats.streak
                == stats.streak + 1 && step.stats.money_halves == stats.money_halves
                + crate::stats::reward_halves(customer.drink, stats.streak) && step.hand.0 is None
                && step.customer.state is Drinking
            &&& expired ==> step.stats == stats.lost() && step.stats.streak == 0 && step.hand
                == hand && step.customer.state is Leaving
            &&& !served && !expired ==> step.stats == stats && step.hand == hand
            &&& step.stats.highest_streak >= stats.highest_streak
            &&& step.stats.reputation_progress <= stats.reputation_progress + 1
            &&& step.stats.money_halves >= stats.money_halves
        }),
{
    lemma_served_keeps_room(stats, customer.drink, orders);
    assert((orders - 1) * crate::stats::max_reward_halves() <= orders
        * crate::stats::max_reward_halves()) by (nonlinear_arith)
        requires
            orders >= 1,
    ;
}

/// With one customer in the room, a tick does to the hand, the ledger and
/// the bar what it does through that customer: the customer stays, as the
/// tick has left it, or is gone and has given its place back.
pub proof fn lemma_round_of_one(
    customer: Customer,
    dt: u64,
    wait: u64,
    hand: DrinkInHand,
    stats: PlayerStats,
    bar: Bar,
)
    ensures
        ({
            let step = customer.stepped(dt, wait, hand, stats);
            round_of(seq![customer], 1, dt, wait, hand, stats, bar) == (Round {
                customers: if step.departed {
                    Seq::empty()
                } else {
                    seq![step.customer]
                },
                hand: step.hand,
                stats: step.stats,
                bar: if step.departed {
                    bar.without(customer.slot)
                } else {
                    bar
                },
            })
        }),
{
    let all = seq![customer];
    assert(all[0] == customer);
    let before = round_of(all, 0, dt, wait, hand, stats, bar);
    assert(before == (Round { customers: Seq::empty(), hand, stats, bar }));
    let step = customer.stepped(dt, wait, hand, stats);
    assert(Seq::<Customer>::empty().push(step.customer) =~= seq![step.customer]);
    assert(round_of(all, 1, dt, wait, hand, stats, bar).stats == step.stats);
}

/// A customer who slides out either is gone, once it has reached or passed
/// the hidden height, or has slid on by the speed times the tick; neither
/// the hand nor the ledger changes.
pub proof fn lemma_step_leaving(
    customer: Customer,
    dt: u64,
    wait: u64,
    hand: DrinkInHand,
    stats: PlayerStats,
)
    requires
        customer.state is Leaving,
    ensures
        ({
            let step = customer.stepped(dt, wait, hand, stats);
            let height = customer.body.translation.y - CUSTOMER_SLIDE_SPEED * dt;
            &&& step.departed <==> height <= BAR_CUSTOMER_HIDDEN_Y
            &&& !step.departed ==> step.customer.state is Leaving
                && step.customer.body.translation.y == height
            &&& step.hand == hand
            &&& step.stats == stats
        }),
{
    assert(CUSTOMER_SLIDE_SPEED * dt >= 0) by (nonlinear_arith)
        requires
            CUSTOMER_SLIDE_SPEED == 810,
            dt >= 0,
    ;
}

/// A customer who slides in rises by the speed times the tick and stays at
/// that height; it waits, with all its patience, as soon as it has reached
/// or passed the height of the bar, and slides on otherwise. Neither the
/// hand nor the ledger changes.
pub proof fn lemma_step_spawning(
    customer: Customer,
    dt: u64,
    wait: u64,
    hand: DrinkInHand,
    stats: PlayerStats,
)
    requires
        customer.state is Spawning,
        customer.can_slide(dt),
    ensures
        ({
            let step = customer.stepped(dt, wait, hand, stats);
            let height = customer.body.translation.y + CUSTOMER_SLIDE_SPEED * dt;
            &&& step.customer.body.translation.y == height
            &&& height >= BAR_CUSTOMER_TARGET_Y ==> step.customer.state == CustomerState::Waiting(
                Timer::fresh(wait),
            )
            &&& height < BAR_CUSTOMER_TARGET_Y ==> step.customer.state is Spawning
            &&& !step.departed
            &&& step.hand == hand
            &&& step.stats == stats
        }),
{
    assert(CUSTOMER_SLIDE_SPEED * dt >= 0) by (nonlinear_arith)
        requires
            CUSTOMER_SLIDE_SPEED == 810,
            dt >= 0,
    ;
}

/// Without a click nothing is served: a tick over customers of whom none is
/// clicked leaves the hand, the money, the longest streak and the count of
/// customers served as they are. The streak stays or, where a customer's
/// patience runs out, falls to zero.
pub proof fn lemma_round_without_clicks(
    customers: Seq<Customer>,
    n: int,
    dt: u64,
    wait: u64,
    hand: DrinkInHand,
    stats: PlayerStats,
    bar: Bar,
)
    requires
        n <= customers.len(),
        forall|i: int| 0 <= i < n ==> !(#[trigger] customers[i]).body.clicked,
    ensures
        ({
            let round = round_of(customers, n, dt, wait, hand, stats, bar);
            &&& round.hand == hand
            &&& round.stats == stats || round.stats == stats.lost()
        }),
    decreases n,
{
    if n > 0 {
        lemma_round_without_clicks(customers, n - 1, dt, wait, hand, stats, bar);
        assert(!customers[n - 1].body.clicked);
    }
}

/// A customer goes through its states in order and never back. One tick
/// takes it at most one state further, but for the waiting customer whose
/// patience runs out: that one leaves without drinking. Only a waiting
/// customer can come to drink, so no customer is served twice.
pub proof fn lemma_step_order(
    customer: Customer,
    dt: u64,
    wait: u64,
    hand: DrinkInHand,
    stats: PlayerStats,
)
    ensures
        ({
            let after = customer.stepped(dt, wait, hand, stats).customer;
            &&& after.state.rank() >= customer.state.rank()
            &&& after.state.rank() <= customer.state.rank() + 1 || (customer.state is Waiting
                && after.state is Leaving)
            &&& after.state is Drinking && !(customer.state is Drinking) ==> customer.state
                is Waiting && customer.takes(hand)
            &&& customer.stepped(dt, wait, hand, stats).departed ==> customer.state is Leaving
            &&& after.slot == customer.slot
            &&& after.drink == customer.drink
            &&& !after.body.clicked
            &&& customer.wf() ==> after.wf()
        }),
{
}

/// A drink that the waiting customer did not order stays in hand, and the
/// customer goes on waiting; so does a customer who is clicked with empty
/// hands.
pub proof fn lemma_wrong_drink_is_kept(
    customer: Customer,
    dt: u64,
    wait: u64,
    hand: DrinkInHand,
    stats: PlayerStats,
)
    requires
        customer.state is Waiting,
        !customer.state->Waiting_0.ticked(dt).just_finished,
        hand.0 != Some(customer.drink),
    ensures
        customer.stepped(dt, wait, hand, stats).hand == hand,
        customer.stepped(dt, wait, hand, stats).stats == stats,
        customer.stepped(dt, wait, hand, stats).customer.state == CustomerState::Waiting(
            customer.state->Waiting_0.ticked(dt),
        ),
{
}

} // verus!
