//! The agreement between the bar and the customers in the room: no place
//! is held twice, and what keeps it so.

use vstd::prelude::*;
use crate::bar::{Bar, CustomerSlotMarker};
use crate::customer::Customer;

verus! {

/// Whether the bar and the customers in the room agree.
///
/// No two customers hold the same place. The place of each customer in the
/// room is marked as held. A place that is promised to a customer who has
/// not entered yet is not held by another.
pub open spec fn slots_consistent(bar: Bar, customers: Seq<Customer>) -> bool {
    &&& forall|i: int, j: int|
        0 <= i < j < customers.len() ==> customers[i].slot != customers[j].slot
    &&& forall|i: int|
        0 <= i < customers.len() ==> (#[trigger] customers[i]).wf() && bar.customer_slots.slot(
            customers[i].slot,
        ).spawned
    &&& forall|marker: CustomerSlotMarker|
        (#[trigger] bar.customer_slots.slot(marker)).customer is Some
            ==> !bar.customer_slots.slot(marker).spawned
}

/// When a customer goes and its place is given back, the bar and the
/// customers who stay still agree.
pub proof fn lemma_consistent_without(bar: Bar, customers: Seq<Customer>, gone: int)
    requires
        slots_consistent(bar, customers),
        0 <= gone < customers.len(),
    ensures
        slots_consistent(bar.without(customers[gone].slot), customers.remove(gone)),
{
    let rest = customers.remove(gone);
    let after = bar.without(customers[gone].slot);
    assert forall|i: int| 0 <= i < rest.len() implies rest[i] == customers[if i < gone {
        i
    } else {
        i + 1
    }] by {}
    assert forall|i: int, j: int| 0 <= i < j < rest.len() implies rest[i].slot
        != rest[j].slot by {
        let from_i = if i < gone { i } else { i + 1 };
        let from_j = if j < gone { j } else { j + 1 };
        assert(rest[i] == customers[from_i]);
        assert(rest[j] == customers[from_j]);
    }
    assert forall|i: int| 0 <= i < rest.len() implies (#[trigger] rest[i]).wf()
        && after.customer_slots.slot(rest[i].slot).spawned by {
        let from_i = if i < gone { i } else { i + 1 };
        assert(rest[i] == customers[from_i]);
        assert(customers[from_i].wf());
        if from_i < gone {
            assert(customers[from_i].slot != customers[gone].slot);
        } else {
            assert(customers[gone].slot != customers[from_i].slot);
        }
    }
    assert forall|marker: CustomerSlotMarker|
        (#[trigger] after.customer_slots.slot(marker)).customer is Some
            implies !after.customer_slots.slot(marker).spawned by {
        assert(bar.customer_slots.slot(marker).customer is Some);
    }
}

/// When a customer changes but keeps its place, the bar and the customers
/// still agree.
pub proof fn lemma_consistent_update(
    bar: Bar,
    customers: Seq<Customer>,
    at: int,
    customer: Customer,
)
    requires
        slots_consistent(bar, customers),
        0 <= at < customers.len(),
        customer.wf(),
        customer.slot == customers[at].slot,
    ensures
        slots_consistent(bar, customers.update(at, customer)),
{
    let after = customers.update(at, customer);
    assert forall|i: int| 0 <= i < after.len() implies (#[trigger] after[i]).wf()
        && after[i].slot == customers[i].slot && bar.customer_slots.slot(
        after[i].slot,
    ).spawned by {
        assert(customers[i].wf());
    }
    assert forall|i: int, j: int| 0 <= i < j < after.len() implies after[i].slot
        != after[j].slot by {
        assert(after[i].slot == customers[i].slot);
        assert(after[j].slot == customers[j].slot);
    }
}

/// A place that is not full can be promised: the bar and the customers in
/// the room then still agree.
pub proof fn lemma_consistent_admitted(
    bar: Bar,
    customers: Seq<Customer>,
    slot: CustomerSlotMarker,
    customer: Customer,
    gap_seconds: u64,
)
    requires
        slots_consistent(bar, customers),
        !bar.customer_slots.slot(slot).spec_is_full(),
    ensures
        slots_consistent(bar.admitted(Some(slot), customer, gap_seconds), customers),
        slots_consistent(bar.admitted(None, customer, gap_seconds), customers),
{
    let after = bar.admitted(Some(slot), customer, gap_seconds);
    assert forall|i: int| 0 <= i < customers.len() implies (#[trigger] customers[i]).wf()
        && after.customer_slots.slot(customers[i].slot).spawned by {
        assert(bar.customer_slots.slot(customers[i].slot).spawned);
    }
    assert forall|marker: CustomerSlotMarker|
        (#[trigger] after.customer_slots.slot(marker)).customer is Some
            implies !after.customer_slots.slot(marker).spawned by {
        if marker != slot {
            assert(bar.customer_slots.slot(marker).customer is Some);
        }
    }
    let idle = bar.admitted(None, customer, gap_seconds);
    assert forall|i: int| 0 <= i < customers.len() implies (#[trigger] customers[i]).wf()
        && idle.customer_slots.slot(customers[i].slot).spawned by {
        assert(bar.customer_slots.slot(customers[i].slot).spawned);
    }
    assert forall|marker: CustomerSlotMarker|
        (#[trigger] idle.customer_slots.slot(marker)).customer is Some
            implies !idle.customer_slots.slot(marker).spawned by {
        assert(bar.customer_slots.slot(marker).customer is Some);
    }
}

/// When the customer who was promised a place enters, the bar and the
/// customers in the room still agree: the newcomer holds a place that none
/// of the others holds.
pub proof fn lemma_consistent_seated(bar: Bar, customers: Seq<Customer>, marker: CustomerSlotMarker)
    requires
        slots_consistent(bar, customers),
    ensures
        slots_consistent(bar.seated(marker), bar.joined(customers, marker)),
        bar.seats(marker) ==> forall|i: int|
            0 <= i < customers.len() ==> (#[trigger] customers[i]).slot != marker,
{
    if bar.seats(marker) {
        let after = bar.seated(marker);
        let room = bar.joined(customers, marker);
        assert forall|i: int| 0 <= i < customers.len() implies (#[trigger] customers[i]).slot
            != marker by {
            assert(customers[i].wf());
            assert(bar.customer_slots.slot(customers[i].slot).spawned);
        }
        assert forall|i: int| 0 <= i < room.len() implies (#[trigger] room[i]).wf()
            && after.customer_slots.slot(room[i].slot).spawned by {
            if i < customers.len() {
                assert(room[i] == customers[i]);
                assert(customers[i].wf());
                assert(customers[i].slot != marker);
            }
        }
        assert forall|i: int, j: int| 0 <= i < j < room.len() implies room[i].slot
            != room[j].slot by {
            assert(room[i] == customers[i]);
            assert(customers[i].slot != marker);
            if j < customers.len() {
                assert(room[j] == customers[j]);
            }
        }
        assert forall|other: CustomerSlotMarker|
            (#[trigger] after.customer_slots.slot(other)).customer is Some
                implies !after.customer_slots.slot(other).spawned by {
            if other != marker {
                assert(bar.customer_slots.slot(other).customer is Some);
            }
        }
    }
}

/// While the bar and the customers agree, at most three customers are in
/// the room: one for each place.
pub proof fn lemma_at_most_three(bar: Bar, customers: Seq<Customer>)
    requires
        slots_consistent(bar, customers),
    ensures
        customers.len() <= 3,
{
    if customers.len() > 3 {
        assert(customers[0].slot != customers[1].slot);
        assert(customers[0].slot != customers[2].slot);
        assert(customers[0].slot != customers[3].slot);
        assert(customers[1].slot != customers[2].slot);
        assert(customers[1].slot != customers[3].slot);
        assert(customers[2].slot != customers[3].slot);
    }
}

} // verus!
