//! What can be clicked: the actions that a click can mean, the colours of a
//! thing at rest and under the pointer, and sets of actions.

use vstd::prelude::*;
use crate::bar::CustomerSlotMarker;
use crate::drink::Drink;

verus! {

/// What a click on a thing means.
#[derive(Clone, Copy, Debug, PartialEq, Eq, Structural, Hash)]
pub enum InteractibleAction {
    /// The bar counter, seen from afar: a click moves the view to the bar.
    Bar,
    /// The background behind the bar: a click moves the view back.
    ExitBar,
    /// A barrel: a click takes its drink in hand.
    Barrel(Drink),
    /// The customer at a place of the bar: a click offers the drink in hand.
    Customer(CustomerSlotMarker),
    _None,
}

impl InteractibleAction {
    pub open spec fn barrels() -> Seq<InteractibleAction> {
        seq![
            InteractibleAction::Barrel(Drink::Beer),
            InteractibleAction::Barrel(Drink::Wine),
            InteractibleAction::Barrel(Drink::Whiskey),
        ]
    }

    pub open spec fn is_barrel(self) -> bool {
        self is Barrel
    }

    pub open spec fn is_customer(self) -> bool {
        self is Customer
    }

    /// The three barrels, one for each drink.
    pub fn get_barrels() -> (barrels: Vec<InteractibleAction>)
        ensures
            barrels@ == InteractibleAction::barrels(),
    {
        let barrels = vec![
            InteractibleAction::Barrel(Drink::Beer),
            InteractibleAction::Barrel(Drink::Wine),
            InteractibleAction::Barrel(Drink::Whiskey),
        ];
        assert(barrels@ =~= InteractibleAction::barrels());
        barrels
    }
}

/// A colour, each channel in thousandths: 1000 leaves a sprite as it is
/// drawn, more brightens it.
#[derive(Clone, Copy, Debug, PartialEq, Eq, Structural, Hash)]
pub struct Rgb {
    pub r: u16,
    pub g: u16,
    pub b: u16,
}

/// The colour of a thing at rest and its colour under the pointer.
#[derive(Clone, Copy, Debug, PartialEq, Eq, Structural, Hash)]
pub struct InteractionSpriteColors {
    pub normal: Rgb,
    pub highlight: Rgb,
}

impl InteractionSpriteColors {
    /// Untinted at rest, brightened by three tenths under the pointer.
    pub open spec fn plain() -> InteractionSpriteColors {
        InteractionSpriteColors {
            normal: Rgb { r: 1000, g: 1000, b: 1000 },
            highlight: Rgb { r: 1300, g: 1300, b: 1300 },
        }
    }
}

impl Default for InteractionSpriteColors {
    fn default() -> (colors: Self)
        ensures
            colors == InteractionSpriteColors::plain(),
    {
        InteractionSpriteColors {
            normal: Rgb { r: 1000, g: 1000, b: 1000 },
            highlight: Rgb { r: 1300, g: 1300, b: 1300 },
        }
    }
}

/// Position of the first occurrence of `value` in `items`; the length of
/// `items` where there is none.
pub open spec fn first_index_of(items: Seq<InteractibleAction>, value: InteractibleAction) -> int
    decreases items.len(),
{
    if items.len() == 0 {
        0
    } else if items[0] == value {
        0
    } else {
        1 + first_index_of(items.subrange(1, items.len() as int), value)
    }
}

/// `first_index_of` finds the first occurrence, and only where there is
/// one does it stay under the length.
pub proof fn lemma_first_index_of(items: Seq<InteractibleAction>, value: InteractibleAction)
    ensures
        0 <= first_index_of(items, value) <= items.len(),
        first_index_of(items, value) < items.len() <==> items.contains(value),
        first_index_of(items, value) < items.len() ==> items[first_index_of(items, value)]
            == value,
        forall|k: int| 0 <= k < first_index_of(items, value) ==> items[k] != value,
    decreases items.len(),
{
    if items.len() == 0 {
    } else if items[0] == value {
    } else {
        let rest = items.subrange(1, items.len() as int);
        lemma_first_index_of(rest, value);
        let at = first_index_of(rest, value);
        assert forall|k: int| 0 <= k < 1 + at implies items[k] != value by {
            if k > 0 {
                assert(rest[k - 1] == items[k]);
            }
        }
        if at < rest.len() {
            assert(rest[at] == items[at + 1]);
        } else {
            assert forall|k: int| 0 <= k < items.len() implies items[k] != value by {
                if k > 0 {
                    assert(rest[k - 1] == items[k]);
                }
            }
        }
    }
}

/// Takes the first occurrence of `value_to_remove` out of `vec`, and puts
/// the last element in its place.
pub fn remove_value_from_vec(value_to_remove: InteractibleAction, vec: &mut Vec<InteractibleAction>)
    requires
        old(vec)@.contains(value_to_remove),
    ensures
        final(vec)@ == old(vec)@.update(
            first_index_of(old(vec)@, value_to_remove),
            old(vec)@.last(),
        ).drop_last(),
        final(vec)@.len() == old(vec)@.len() - 1,
        forall|other: InteractibleAction|
            other != value_to_remove ==> (final(vec)@.contains(other) <==> old(vec)@.contains(
                other,
            )),
{
    proof {
        lemma_first_index_of(vec@, value_to_remove);
    }
    let ghost before = vec@;
    let mut at: usize = 0;
    while vec[at] != value_to_remove
        invariant
            vec@ == before,
            0 <= at < vec.len(),
            at <= first_index_of(before, value_to_remove) < before.len(),
            before[first_index_of(before, value_to_remove)] == value_to_remove,
        decreases vec.len() - at,
    {
        at = at + 1;
    }
    vec.swap_remove(at);
    proof {
        let after = vec@;
        assert forall|other: InteractibleAction| other != value_to_remove implies (after.contains(
            other,
        ) <==> before.contains(other)) by {
            if after.contains(other) {
                let k = choose|k: int| 0 <= k < after.len() && after[k] == other;
                if k == at {
                    assert(before[before.len() - 1] == other);
                } else {
                    assert(before[k] == other);
                }
            }
            if before.contains(other) {
                let k = choose|k: int| 0 <= k < before.len() && before[k] == other;
                if k == before.len() - 1 {
                    assert(k != at);
                    assert(after[at as int] == other);
                } else {
                    assert(after[k] == other);
                }
            }
        }
    }
}

/// A set of actions, kept as a list.
#[derive(Debug)]
pub struct ActionSet(pub Vec<InteractibleAction>);

impl View for ActionSet {
    type V = Set<InteractibleAction>;

    /// The actions that occur in the list.
    open spec fn view(&self) -> Set<InteractibleAction> {
        Set::new(|action: InteractibleAction| self.0@.contains(action))
    }
}

impl ActionSet {
    pub fn new() -> (set: ActionSet)
        ensures
            set@ == Set::<InteractibleAction>::empty(),
    {
        let set = ActionSet(Vec::new());
        assert(set@ =~= Set::<InteractibleAction>::empty());
        set
    }

    pub fn contains(&self, action: InteractibleAction) -> (found: bool)
        ensures
            found == self@.contains(action),
    {
        let mut at: usize = 0;
        while at < self.0.len()
            invariant
                0 <= at <= self.0.len(),
                forall|k: int| 0 <= k < at ==> self.0@[k] != action,
            decreases self.0.len() - at,
        {
            if self.0[at] == action {
                return true;
            }
            at = at + 1;
        }
        false
    }

    /// Adds `action`; a set that holds it already stays as it is.
    pub fn insert(&mut self, action: InteractibleAction)
        ensures
            final(self)@ == old(self)@.insert(action),
    {
        if !self.contains(action) {
            let ghost before = self.0@;
            self.0.push(action);
            assert forall|other: InteractibleAction|
                self.0@.contains(other) <==> (other == action || before.contains(other)) by {
                if self.0@.contains(other) {
                    let k = choose|k: int| 0 <= k < self.0@.len() && self.0@[k] == other;
                    if k < before.len() {
                        assert(before[k] == other);
                    }
                }
                if before.contains(other) {
                    let k = choose|k: int| 0 <= k < before.len() && before[k] == other;
                    assert(self.0@[k] == other);
                }
                if other == action {
                    assert(self.0@[before.len() as int] == other);
                }
            }
        }
        assert(self@ =~= old(self)@.insert(action));
    }

    /// Takes `action` out; a set that does not hold it stays as it is.
    pub fn remove(&mut self, action: InteractibleAction)
        ensures
            final(self)@ == old(self)@.remove(action),
    {
        while self.contains(action)
            invariant
                forall|other: InteractibleAction|
                    other != action ==> (self.0@.contains(other) <==> old(self).0@.contains(
                        other,
                    )),
            decreases self.0@.len(),
        {
            remove_value_from_vec(action, &mut self.0);
        }
        assert(self@ =~= old(self)@.remove(action));
    }
}

} // verus!
