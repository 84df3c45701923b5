//! The drinks on offer, their prices and the barrels they are drawn from.

use vstd::prelude::*;
use crate::geometry::Point3;

verus! {

/// A drink that the tavern serves.
#[derive(Clone, Copy, Debug, PartialEq, Eq, Structural, Hash)]
pub enum Drink {
    Beer,
    Wine,
    Whiskey,
}

impl Drink {
    /// The price of one serving, in coins.
    pub open spec fn price(self) -> nat {
        match self {
            Drink::Beer => 4,
            Drink::Wine => 6,
            Drink::Whiskey => 10,
        }
    }

    /// Where the barrel of this drink stands, in thousandths of a world unit;
    /// `z` is its stacking order.
    pub open spec fn barrel_place(self) -> Point3 {
        match self {
            Drink::Beer => Point3 { x: 750_000, y: -615_000i32, z: 14_000 },
            Drink::Wine => Point3 { x: 400_000, y: -615_000i32, z: 13_000 },
            Drink::Whiskey => Point3 { x: 50_000, y: -615_000i32, z: 12_000 },
        }
    }

    /// The three drinks in the order in which their barrels are set up.
    pub open spec fn all() -> Seq<Drink> {
        seq![Drink::Beer, Drink::Wine, Drink::Whiskey]
    }

    pub fn get_price(&self) -> (coins: u32)
        ensures
            coins == self.price(),
    {
        match self {
            Drink::Beer => 4,
            Drink::Wine => 6,
            Drink::Whiskey => 10,
        }
    }

    /// Every drink, each with the place of its barrel.
    pub fn iterator() -> (barrels: Vec<(Drink, Point3)>)
        ensures
            barrels@.len() == 3,
            forall|i: int|
                0 <= i < 3 ==> #[trigger] barrels@[i] == (
                    Drink::all()[i],
                    Drink::all()[i].barrel_place(),
                ),
    {
        vec![
            (Drink::Beer, Point3 { x: 750_000, y: -615_000, z: 14_000 }),
            (Drink::Wine, Point3 { x: 400_000, y: -615_000, z: 13_000 }),
            (Drink::Whiskey, Point3 { x: 50_000, y: -615_000, z: 12_000 }),
        ]
    }

    /// The drink's name as shown to the player.
    pub fn label(&self) -> (text: &'static str)
        ensures
            text@ == (match *self {
                Drink::Beer => "Beer"@,
                Drink::Wine => "Wine"@,
                Drink::Whiskey => "Whiskey"@,
            }),
    {
        match self {
            Drink::Beer => "Beer",
            Drink::Wine => "Wine",
            Drink::Whiskey => "Whiskey",
        }
    }
}

} // verus!
