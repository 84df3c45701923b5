//! The bar and its three places for customers.

use vstd::prelude::*;
use rand::rngs::ThreadRng;
use crate::chance::{choose_barrel, choose_name, gen_range, shuffle_slots};
use crate::customer::{Customer, BAR_CUSTOMER_HIDDEN_Y};
use crate::drink::Drink;
use crate::geometry::Point3;
use crate::hover::InteractibleBundle;
use crate::interact::InteractibleAction;
use crate::seating::{lemma_consistent_admitted, lemma_consistent_seated, slots_consistent};
use crate::stats::CustomersStats;
use crate::timer::Timer;

verus! {

/// One of the three places at the bar.
#[derive(Clone, Copy, Debug, PartialEq, Eq, Structural, Hash)]
pub enum CustomerSlotMarker {
    Left,
    Middle,
    Right,
}

impl CustomerSlotMarker {
    /// Where a customer of this place enters: out of sight, under its place
    /// at the bar.
    pub open spec fn spawn_point(self) -> Point3 {
        match self {
            CustomerSlotMarker::Left => Point3 { x: -700_000i32, y: BAR_CUSTOMER_HIDDEN_Y, z: 3000 },
            CustomerSlotMarker::Middle => Point3 { x: 0, y: BAR_CUSTOMER_HIDDEN_Y, z: 2000 },
            CustomerSlotMarker::Right => Point3 { x: 700_000, y: BAR_CUSTOMER_HIDDEN_Y, z: 1000 },
        }
    }

    pub fn get_spawn_point(&self) -> (point: Point3)
        ensures
            point == self.spawn_point(),
    {
        match self {
            CustomerSlotMarker::Left => Point3 { x: -700_000, y: BAR_CUSTOMER_HIDDEN_Y, z: 3000 },
            CustomerSlotMarker::Middle => Point3 { x: 0, y: BAR_CUSTOMER_HIDDEN_Y, z: 2000 },
            CustomerSlotMarker::Right => Point3 { x: 700_000, y: BAR_CUSTOMER_HIDDEN_Y, z: 1000 },
        }
    }
}

/// One place at the bar.
#[derive(Clone, Copy, Debug, PartialEq, Eq)]
pub struct CustomerSlot {
    /// A customer who was promised the place and has not entered yet.
    pub customer: Option<Customer>,
    /// Whether a customer who entered holds the place.
    pub spawned: bool,
}

impl CustomerSlot {
    pub open spec fn vacant() -> CustomerSlot {
        CustomerSlot { customer: None, spawned: false }
    }

    /// A place is full when it is promised or held.
    pub open spec fn spec_is_full(self) -> bool {
        self.customer is Some || self.spawned
    }

    pub fn is_full(&self) -> (full: bool)
        ensures
            full == self.spec_is_full(),
    {
        self.customer.is_some() || self.spawned
    }
}

/// The three places.
#[derive(Clone, Copy, Debug, PartialEq, Eq)]
pub struct BarCustomerSlots {
    pub left: CustomerSlot,
    pub middle: CustomerSlot,
    pub right: CustomerSlot,
}

impl BarCustomerSlots {
    pub open spec fn slot(self, marker: CustomerSlotMarker) -> CustomerSlot {
        match marker {
            CustomerSlotMarker::Left => self.left,
            CustomerSlotMarker::Middle => self.middle,
            CustomerSlotMarker::Right => self.right,
        }
    }

    pub open spec fn with_slot(self, marker: CustomerSlotMarker, slot: CustomerSlot)
        -> BarCustomerSlots {
        match marker {
            CustomerSlotMarker::Left => BarCustomerSlots { left: slot, ..self },
            CustomerSlotMarker::Middle => BarCustomerSlots { middle: slot, ..self },
            CustomerSlotMarker::Right => BarCustomerSlots { right: slot, ..self },
        }
    }

    pub open spec fn spec_is_full(self) -> bool {
        self.left.spec_is_full() && self.middle.spec_is_full() && self.right.spec_is_full()
    }

    pub fn is_full(&self) -> (full: bool)
        ensures
            full == self.spec_is_full(),
    {
        self.left.is_full() && self.middle.is_full() && self.right.is_full()
    }

    /// The first place in `order` that is not full.
    pub fn first_empty_slot(&self, order: &Vec<CustomerSlotMarker>) -> (found: Option<
        CustomerSlotMarker,
    >)
        ensures
            found is None <==> forall|i: int|
                0 <= i < order@.len() ==> self.slot(#[trigger] order@[i]).spec_is_full(),
            found is Some ==> exists|i: int|
                {
                    &&& 0 <= i < order@.len()
                    &&& #[trigger] order@[i] == found->0
                    &&& !self.slot(found->0).spec_is_full()
                    &&& forall|j: int|
                        0 <= j < i ==> self.slot(#[trigger] order@[j]).spec_is_full()
                },
    {
        let mut at: usize = 0;
        while at < order.len()
            invariant
                0 <= at <= order.len(),
                forall|j: int| 0 <= j < at ==> self.slot(#[trigger] order@[j]).spec_is_full(),
            decreases order.len() - at,
        {
            let marker = order[at];
            if !self.get(marker).is_full() {
                assert(order@[at as int] == marker);
                return Some(marker);
            }
            at = at + 1;
        }
        None
    }

    /// Tries the three places in an order left to chance and returns the
    /// first that is not full: a place that is promised or held is never
    /// returned, and none is returned only when all three are full.
    pub fn get_random_empty_slot(&self, rng: &mut ThreadRng) -> (found: Option<
        CustomerSlotMarker,
    >)
        ensures
            found is Some ==> !self.slot(found->0).spec_is_full(),
            found is None <==> self.spec_is_full(),
    {
        let mut order: Vec<CustomerSlotMarker> = vec![
            CustomerSlotMarker::Left,
            CustomerSlotMarker::Middle,
            CustomerSlotMarker::Right,
        ];
        let ghost sorted = order@;
        shuffle_slots(&mut order, rng);
        proof {
            sorted.to_multiset_ensures();
            order@.to_multiset_ensures();
            assert(sorted[0] == CustomerSlotMarker::Left);
            assert(sorted[1] == CustomerSlotMarker::Middle);
            assert(sorted[2] == CustomerSlotMarker::Right);
            assert(sorted.contains(CustomerSlotMarker::Left));
            assert(sorted.contains(CustomerSlotMarker::Middle));
            assert(sorted.contains(CustomerSlotMarker::Right));
            assert(order@.to_multiset().count(CustomerSlotMarker::Left) > 0);
            assert(order@.to_multiset().count(CustomerSlotMarker::Middle) > 0);
            assert(order@.to_multiset().count(CustomerSlotMarker::Right) > 0);
            assert(order@.contains(CustomerSlotMarker::Left));
            assert(order@.contains(CustomerSlotMarker::Middle));
            assert(order@.contains(CustomerSlotMarker::Right));
        }
        let found = self.first_empty_slot(&order);
        proof {
            if found is None {
                assert(self.left == self.slot(CustomerSlotMarker::Left));
                assert(self.middle == self.slot(CustomerSlotMarker::Middle));
                assert(self.right == self.slot(CustomerSlotMarker::Right));
            }
        }
        found
    }

    pub fn get(&self, marker: CustomerSlotMarker) -> (slot: CustomerSlot)
        ensures
            slot == self.slot(marker),
    {
        match marker {
            CustomerSlotMarker::Left => self.left,
            CustomerSlotMarker::Middle => self.middle,
            CustomerSlotMarker::Right => self.right,
        }
    }

    pub fn set(&mut self, marker: CustomerSlotMarker, slot: CustomerSlot)
        ensures
            *final(self) == old(self).with_slot(marker, slot),
    {
        match marker {
            CustomerSlotMarker::Left => {
                self.left = slot;
            },
            CustomerSlotMarker::Middle => {
                self.middle = slot;
            },
            CustomerSlotMarker::Right => {
                self.right = slot;
            },
        }
    }
}

/// The bar: its places, and the timer that brings the next customer.
#[derive(Clone, Copy, Debug, PartialEq, Eq)]
pub struct Bar {
    pub customer_slots: BarCustomerSlots,
    pub customer_spawn_timer: Timer,
}

impl Bar {
    /// A bar with three vacant places, whose first customer comes after one
    /// second.
    pub open spec fn opening() -> Bar {
        Bar {
            customer_slots: BarCustomerSlots {
                left: CustomerSlot::vacant(),
                middle: CustomerSlot::vacant(),
                right: CustomerSlot::vacant(),
            },
            customer_spawn_timer: Timer::fresh(1000),
        }
    }

    /// The bar after the customer who held the place `marker` has gone.
    pub open spec fn without(self, marker: CustomerSlotMarker) -> Bar {
        Bar {
            customer_slots: self.customer_slots.with_slot(
                marker,
                CustomerSlot { spawned: false, ..self.customer_slots.slot(marker) },
            ),
            ..self
        }
    }

    /// The bar after `customer` was promised the place `slot`, if there is
    /// one, and the timer was set anew to `gap_seconds`.
    pub open spec fn admitted(
        self,
        slot: Option<CustomerSlotMarker>,
        customer: Customer,
        gap_seconds: u64,
    ) -> Bar {
        Bar {
            customer_slots: match slot {
                Some(marker) => self.customer_slots.with_slot(
                    marker,
                    CustomerSlot { customer: Some(customer), ..self.customer_slots.slot(marker) },
                ),
                None => self.customer_slots,
            },
            customer_spawn_timer: Timer::fresh((gap_seconds * 1000) as u64),
        }
    }

    /// The bar after its timer alone has moved on by `dt` milliseconds.
    pub open spec fn awaiting(self, dt: u64) -> Bar {
        Bar { customer_spawn_timer: self.customer_spawn_timer.ticked(dt), ..self }
    }

    /// Whether a customer who was promised the place `marker` can enter.
    pub open spec fn seats(self, marker: CustomerSlotMarker) -> bool {
        self.customer_slots.slot(marker).customer is Some && !self.customer_slots.slot(
            marker,
        ).spawned
    }

    /// The customer who enters at the place `marker`: the one who was
    /// promised it, bound to the place and set at its entry point.
    pub open spec fn newcomer(self, marker: CustomerSlotMarker) -> Customer {
        let promised = self.customer_slots.slot(marker).customer->0;
        Customer {
            slot: marker,
            body: InteractibleBundle {
                action: InteractibleAction::Customer(marker),
                translation: marker.spawn_point(),
                ..promised.body
            },
            ..promised
        }
    }

    /// The bar after the customer who was promised the place `marker`, if
    /// there is one, has entered.
    pub open spec fn seated(self, marker: CustomerSlotMarker) -> Bar {
        if self.seats(marker) {
            Bar {
                customer_slots: self.customer_slots.with_slot(
                    marker,
                    CustomerSlot { customer: None, spawned: true },
                ),
                ..self
            }
        } else {
            self
        }
    }

    /// The customers in the room after the one who was promised the place
    /// `marker`, if there is one, has entered.
    pub open spec fn joined(self, customers: Seq<Customer>, marker: CustomerSlotMarker) -> Seq<
        Customer,
    > {
        if self.seats(marker) {
            customers.push(self.newcomer(marker))
        } else {
            customers
        }
    }

    /// Promises `customer` the place `slot`, if one is given, and sets the
    /// timer anew: the next customer comes after `gap_seconds`.
    pub fn reserve(&mut self, slot: Option<CustomerSlotMarker>, customer: Customer, gap_seconds: u64)
        requires
            gap_seconds <= crate::stats::MAX_GAP_SECONDS,
        ensures
            *final(self) == old(self).admitted(slot, customer, gap_seconds),
    {
        match slot {
            Some(marker) => {
                let mut place = self.customer_slots.get(marker);
                place.customer = Some(customer);
                self.customer_slots.set(marker, place);
            },
            None => {},
        }
        self.customer_spawn_timer.reset();
        self.customer_spawn_timer.set_duration(gap_seconds * 1000);
    }

    /// Lets the customer who was promised the place `marker` enter, if
    /// there is one and the place is not held.
    pub fn spawn_in_slot(&mut self, customers: &mut Vec<Customer>, marker: CustomerSlotMarker)
        ensures
            *final(self) == old(self).seated(marker),
            final(customers)@ == old(self).joined(old(customers)@, marker),
            slots_consistent(*old(self), old(customers)@) ==> slots_consistent(
                *final(self),
                final(customers)@,
            ),
    {
        let place = self.customer_slots.get(marker);
        match place.customer {
            Some(promised) => {
                if !place.spawned {
                    let mut customer = promised;
                    customer.slot = marker;
                    customer.body.action = InteractibleAction::Customer(marker);
                    customer.body.translation = marker.get_spawn_point();
                    proof {
                        if slots_consistent(*self, customers@) {
                            lemma_consistent_seated(*self, customers@, marker);
                        }
                    }
                    customers.push(customer);
                    self.customer_slots.set(marker, CustomerSlot { customer: None, spawned: true });
                }
            },
            None => {},
        }
    }

    /// Gives back the place of a customer who has gone.
    pub fn remove_customer(&mut self, slot_marker: &CustomerSlotMarker)
        ensures
            *final(self) == old(self).without(*slot_marker),
    {
        match slot_marker {
            CustomerSlotMarker::Left => {
                self.customer_slots.left.spawned = false;
            },
            CustomerSlotMarker::Middle => {
                self.customer_slots.middle.spawned = false;
            },
            CustomerSlotMarker::Right => {
                self.customer_slots.right.spawned = false;
            },
        }
    }
}

impl Default for Bar {
    fn default() -> (bar: Self)
        ensures
            bar == Bar::opening(),
    {
        Bar {
            customer_slots: BarCustomerSlots {
                left: CustomerSlot { customer: None, spawned: false },
                middle: CustomerSlot { customer: None, spawned: false },
                right: CustomerSlot { customer: None, spawned: false },
            },
            customer_spawn_timer: Timer::new(1000),
        }
    }
}

/// The names that customers go by.
pub open spec fn customer_name_list() -> Seq<&'static str> {
    seq!["John", "Jane", "Jack", "Jill", "James", "Jenny", "Jasper", "Jade", "Jared", "Jasmine"]
}

pub fn customer_names() -> (names: Vec<&'static str>)
    ensures
        names@ == customer_name_list(),
{
    let names = vec![
        "John",
        "Jane",
        "Jack",
        "Jill",
        "James",
        "Jenny",
        "Jasper",
        "Jade",
        "Jared",
        "Jasmine",
    ];
    assert(names@ =~= customer_name_list());
    names
}

/// A customer for the place `slot`, with a name and an order left to
/// chance: each is one of those on offer. `width` and `height` are those of
/// the customer's image as drawn.
pub fn generate_random_customer(
    rng: &mut ThreadRng,
    slot: CustomerSlotMarker,
    width: u32,
    height: u32,
) -> (customer: Customer)
    ensures
        customer == Customer::entering(customer.name, customer.drink, slot, width, height),
        customer_name_list().contains(customer.name),
        customer.wf(),
{
    let names = customer_names();
    assert(customer_name_list()[0] == "John");
    let name: &'static str = match choose_name(&names, rng) {
        Some(picked) => picked,
        None => "John",
    };
    let drink = match choose_barrel(Drink::iterator(), rng) {
        Some(picked) => picked.0,
        None => Drink::Beer,
    };
    Customer::new(name, drink, slot, width, height)
}

/// What one tick of the door can make of the bar.
///
/// A bar whose places are all full stays as it is. Otherwise its timer runs;
/// when it runs out, some place that is not full is promised to a customer
/// who is about to enter, and the timer is set anew to some number of seconds
/// from the configured range.
pub open spec fn door_allows(
    before: Bar,
    after: Bar,
    dt: u64,
    customers_stats: CustomersStats,
    width: u32,
    height: u32,
) -> bool {
    if before.customer_slots.spec_is_full() {
        after == before
    } else if !before.customer_spawn_timer.ticked(dt).just_finished {
        after == before.awaiting(dt)
    } else {
        exists|slot: CustomerSlotMarker, customer: Customer, gap: u64|
            {
                &&& !before.customer_slots.slot(slot).spec_is_full()
                &&& customer == Customer::entering(
                    customer.name,
                    customer.drink,
                    slot,
                    width,
                    height,
                )
                &&& customer_name_list().contains(customer.name)
                &&& customers_stats.customers_spawn_gap_start <= gap
                    < customers_stats.customers_spawn_gap_end
                &&& after == #[trigger] before.admitted(Some(slot), customer, gap)
            }
    }
}

/// One tick of the bar's door.
///
/// While a place is free, the timer runs. When it runs out, a place that is
/// not full is picked by chance and promised to a new customer, and the
/// timer is set anew to a number of seconds drawn from the configured range.
/// A bar whose places are all full is left as it is.
pub fn spawn_customer(
    bar: &mut Bar,
    dt: u64,
    customers_stats: &CustomersStats,
    width: u32,
    height: u32,
)
    requires
        customers_stats.wf(),
    ensures
        door_allows(*old(bar), *final(bar), dt, *customers_stats, width, height),
        forall|customers: Seq<Customer>| #[trigger]
            slots_consistent(*old(bar), customers) ==> slots_consistent(*final(bar), customers),
{
    if !bar.customer_slots.is_full() {
        if bar.customer_spawn_timer.tick(dt) {
            let mut rng = rand::thread_rng();
            let found = bar.customer_slots.get_random_empty_slot(&mut rng);
            let slot = match found {
                Some(marker) => marker,
                None => CustomerSlotMarker::Left,
            };
            let customer = generate_random_customer(&mut rng, slot, width, height);
            let gap = gen_range(
                &mut rng,
                customers_stats.customers_spawn_gap_start,
                customers_stats.customers_spawn_gap_end,
            );
            let ghost ticked = *bar;
            bar.reserve(found, customer, gap);
            proof {
                assert(*bar == old(bar).admitted(Some(slot), customer, gap));
                assert forall|customers: Seq<Customer>| #[trigger]
                    slots_consistent(*old(bar), customers) implies slots_consistent(
                    *bar,
                    customers,
                ) by {
                    lemma_consistent_admitted(*old(bar), customers, slot, customer, gap);
                }
            }
        }
    }
}

/// Lets every customer who was promised a place enter: the left place
/// first, then the middle one, then the right one.
pub fn spawn_customers_in_slots(bar: &mut Bar, customers: &mut Vec<Customer>)
    ensures
        *final(bar) == old(bar).seated(CustomerSlotMarker::Left).seated(
            CustomerSlotMarker::Middle,
        ).seated(CustomerSlotMarker::Right),
        final(customers)@ == old(bar).seated(CustomerSlotMarker::Left).seated(
            CustomerSlotMarker::Middle,
        ).joined(
            old(bar).seated(CustomerSlotMarker::Left).joined(
                old(bar).joined(old(customers)@, CustomerSlotMarker::Left),
                CustomerSlotMarker::Middle,
            ),
            CustomerSlotMarker::Right,
        ),
        forall|marker: CustomerSlotMarker| !final(bar).seats(marker),
        slots_consistent(*old(bar), old(customers)@) ==> slots_consistent(
            *final(bar),
            final(customers)@,
        ),
{
    bar.spawn_in_slot(customers, CustomerSlotMarker::Left);
    bar.spawn_in_slot(customers, CustomerSlotMarker::Middle);
    bar.spawn_in_slot(customers, CustomerSlotMarker::Right);
}

} // verus!
