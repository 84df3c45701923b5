//! The whole room, and the order in which one tick goes through it: the
//! pointer first, then the clicks, then the customers, then the door, then
//! the view.

use vstd::prelude::*;
use crate::bar::{
    door_allows, spawn_customer, spawn_customers_in_slots, Bar, CustomerSlotMarker,
};
use crate::camera::{
    all_fit, attached, camera_after, lemma_masks_fit_after, move_camera_system, target_after,
    BoundMask, CameraBound, MoveCameraTo,
};
use crate::clicks::{
    bar_view, clicks_allowed, clicks_applied, handle_bar_interactible_click, lemma_clicks_aim,
    lemma_one_click_allowed, room_view, Controls,
};
use crate::customer::{customers_system, round_of, Customer};
use crate::drink::Drink;
use crate::geometry::{Point, Point3};
use crate::hover::{
    interactibles_system, is_highlighted, lemma_hovered_unique, InteractibleBundle,
};
use crate::interact::{ActionSet, InteractibleAction};
use crate::seating::{lemma_at_most_three, slots_consistent};
use crate::stats::{CustomersStats, DrinkInHand, PlayerStats};

verus! {

/// The room as the rules see it.
pub struct Scene {
    /// The things that stay: background, counter, barrels.
    pub scenery: Seq<InteractibleBundle>,
    /// The customers in the room.
    pub customers: Seq<Customer>,
    pub bar: Bar,
    pub controls: Controls,
    pub stats: PlayerStats,
    /// Where the view is.
    pub camera: Point,
    /// The masks beside the view.
    pub masks: Seq<BoundMask>,
    /// How long customers wait and how often new ones come.
    pub customers_stats: CustomersStats,
    /// Width and height of a customer's image as drawn.
    pub customer_size: (u32, u32),
}

impl Scene {
    /// Everything that the pointer can meet: the scenery, then the
    /// customers.
    pub open spec fn things(self) -> Seq<InteractibleBundle> {
        self.scenery + Seq::new(self.customers.len(), |i: int| self.customers[i].body)
    }

    /// Whether the pass with the pointer lights up thing `i` of `things`.
    pub open spec fn lights(self, cursor: Option<Point>, i: int) -> bool {
        is_highlighted(self.things(), self.controls.active, self.controls.ignored, cursor, i)
    }

    /// The room after the pass with the pointer.
    pub open spec fn pointed(self, cursor: Option<Point>, pressed: bool) -> Scene {
        Scene {
            scenery: Seq::new(
                self.scenery.len(),
                |i: int| self.scenery[i].resolved(self.lights(cursor, i), pressed),
            ),
            customers: Seq::new(
                self.customers.len(),
                |i: int|
                    Customer {
                        body: self.customers[i].body.resolved(
                            self.lights(cursor, self.scenery.len() + i),
                            pressed,
                        ),
                        ..self.customers[i]
                    },
            ),
            ..self
        }
    }

    /// The room after the clicks on the scenery were dealt with.
    pub open spec fn clicked(self) -> Scene {
        Scene {
            scenery: Seq::new(
                self.scenery.len(),
                |i: int|
                    if self.scenery[i].action.is_customer() {
                        self.scenery[i]
                    } else {
                        self.scenery[i].unclicked()
                    },
            ),
            controls: clicks_applied(self.scenery, self.scenery.len() as int, self.controls),
            ..self
        }
    }

    /// The room after every customer has lived through `dt` milliseconds.
    pub open spec fn served(self, dt: u64, wait: u64) -> Scene {
        let round = round_of(
            self.customers,
            self.customers.len() as int,
            dt,
            wait,
            self.controls.hand,
            self.stats,
            self.bar,
        );
        Scene {
            customers: round.customers,
            controls: Controls { hand: round.hand, ..self.controls },
            stats: round.stats,
            bar: round.bar,
            ..self
        }
    }

    /// The room after the customers who were promised a place have
    /// entered.
    pub open spec fn seated(self) -> Scene {
        let first = self.bar.seated(CustomerSlotMarker::Left);
        let second = first.seated(CustomerSlotMarker::Middle);
        Scene {
            bar: second.seated(CustomerSlotMarker::Right),
            customers: second.joined(
                first.joined(
                    self.bar.joined(self.customers, CustomerSlotMarker::Left),
                    CustomerSlotMarker::Middle,
                ),
                CustomerSlotMarker::Right,
            ),
            ..self
        }
    }

    /// The room after the view has moved for `dt` milliseconds, and the
    /// masks with it.
    pub open spec fn panned(self, dt: u64) -> Scene {
        let camera = camera_after(self.camera, self.controls.target, dt);
        Scene {
            camera,
            controls: Controls {
                target: target_after(self.camera, self.controls.target, dt),
                ..self.controls
            },
            masks: Seq::new(
                self.masks.len(),
                |i: int|
                    BoundMask {
                        bound: self.masks[i].bound,
                        translation: self.masks[i].bound.spec_follow(camera),
                    },
            ),
            ..self
        }
    }

    /// Whether the places of the masks can be held wherever a tick can take
    /// the view: where it is, where it is going, and where a click can send
    /// it.
    pub open spec fn masks_fit(self) -> bool {
        &&& all_fit(self.masks, self.camera)
        &&& all_fit(self.masks, bar_view())
        &&& all_fit(self.masks, room_view())
        &&& self.controls.target.0 is Some ==> all_fit(self.masks, self.controls.target.0->0)
    }

    /// What holds of the room at every tick: the bar and the customers
    /// agree, so no two customers hold one place; no streak is longer than
    /// the longest; the bar and the way out of it do not both take clicks;
    /// every mask stands at its offset from the view.
    pub open spec fn wf(self) -> bool {
        &&& slots_consistent(self.bar, self.customers)
        &&& self.stats.wf()
        &&& self.controls.wf()
        &&& attached(self.masks, self.camera)
    }
}

/// The room.
#[derive(Debug)]
pub struct Tavern {
    pub scenery: Vec<InteractibleBundle>,
    pub customers: Vec<Customer>,
    pub bar: Bar,
    pub active_interactibles: ActionSet,
    pub ignored_interactibles: ActionSet,
    pub drink_in_hand: DrinkInHand,
    pub player_stats: PlayerStats,
    pub customers_stats: CustomersStats,
    pub camera: Point,
    pub move_camera_to: MoveCameraTo,
    /// The masks beside the view.
    pub camera_bounds: Vec<BoundMask>,
    /// Width of a customer's image as drawn.
    pub customer_width: u32,
    /// Height of a customer's image as drawn.
    pub customer_height: u32,
}

impl View for Tavern {
    type V = Scene;

    open spec fn view(&self) -> Scene {
        Scene {
            scenery: self.scenery@,
            customers: self.customers@,
            bar: self.bar,
            controls: Controls {
                active: self.active_interactibles@,
                ignored: self.ignored_interactibles@,
                hand: self.drink_in_hand,
                target: self.move_camera_to,
            },
            stats: self.player_stats,
            camera: self.camera,
            masks: self.camera_bounds@,
            customers_stats: self.customers_stats,
            customer_size: (self.customer_width, self.customer_height),
        }
    }
}

/// A mask at the given offset from the view, with the view on the whole
/// room.
pub open spec fn opening_mask(x: i32, y: i32) -> BoundMask {
    BoundMask {
        bound: CameraBound(Point { x, y }),
        translation: CameraBound(Point { x, y }).spec_follow(room_view()),
    }
}

/// The four masks: under, over, left of and right of the view.
pub open spec fn opening_masks() -> Seq<BoundMask> {
    seq![
        opening_mask(0, -1_080_000i32),
        opening_mask(0, 1_080_000),
        opening_mask(-1_920_000i32, 0),
        opening_mask(1_920_000, 0),
    ]
}

/// The scenery of the room: the background, which is the way out of the
/// bar, the counter, and the three barrels. Each pair gives the width and
/// the height of an image as drawn.
pub open spec fn opening_scenery(background: (u32, u32), counter: (u32, u32), barrel: (u32, u32))
    -> Seq<InteractibleBundle> {
    seq![
        InteractibleBundle::plain(
            InteractibleAction::ExitBar,
            Point3 { x: 0, y: 0, z: -10_000i32 },
            background.0,
            background.1,
        ),
        InteractibleBundle::plain(
            InteractibleAction::Bar,
            Point3 { x: 0, y: -733_000i32, z: 10_000 },
            counter.0,
            counter.1,
        ),
        InteractibleBundle::plain(
            InteractibleAction::Barrel(Drink::Beer),
            Drink::Beer.barrel_place(),
            barrel.0,
            barrel.1,
        ),
        InteractibleBundle::plain(
            InteractibleAction::Barrel(Drink::Wine),
            Drink::Wine.barrel_place(),
            barrel.0,
            barrel.1,
        ),
        InteractibleBundle::plain(
            InteractibleAction::Barrel(Drink::Whiskey),
            Drink::Whiskey.barrel_place(),
            barrel.0,
            barrel.1,
        ),
    ]
}

/// The actions that take clicks when the room opens: the customers of the
/// three places and the three barrels.
pub open spec fn opening_active() -> Set<InteractibleAction> {
    Set::<InteractibleAction>::empty().insert(
        InteractibleAction::Customer(CustomerSlotMarker::Left),
    ).insert(InteractibleAction::Customer(CustomerSlotMarker::Middle)).insert(
        InteractibleAction::Customer(CustomerSlotMarker::Right),
    ).insert(InteractibleAction::Barrel(Drink::Beer)).insert(
        InteractibleAction::Barrel(Drink::Wine),
    ).insert(InteractibleAction::Barrel(Drink::Whiskey))
}

impl Tavern {
    /// Whether the numbers leave room for a tick of `dt` milliseconds:
    /// every customer in the room may be served in it, the list of all
    /// things fits, no customer slides higher than a height can be, and the
    /// places of the masks can be held.
    pub open spec fn has_room(self, dt: u64) -> bool {
        &&& self.player_stats.has_room_for(self.customers@.len())
        &&& self.scenery@.len() + self.customers@.len() <= usize::MAX
        &&& forall|i: int|
            0 <= i < self.customers@.len() ==> (#[trigger] self.customers@[i]).can_slide(dt)
        &&& self@.masks_fit()
    }

    /// Whether the numbers leave room for a tick of `dt` milliseconds.
    pub fn can_tick(&self, dt: u64) -> (ok: bool)
        ensures
            ok == self.has_room(dt),
    {
        if !self.player_stats.room_for(self.customers.len()) {
            return false;
        }
        if self.customers.len() > usize::MAX - self.scenery.len() {
            return false;
        }
        let mut at: usize = 0;
        while at < self.customers.len()
            invariant
                0 <= at <= self.customers.len(),
                forall|i: int| 0 <= i < at ==> (#[trigger] self.customers@[i]).can_slide(dt),
            decreases self.customers.len() - at,
        {
            if !self.customers[at].fits_slide(dt) {
                return false;
            }
            at = at + 1;
        }
        at = 0;
        while at < self.camera_bounds.len()
            invariant
                0 <= at <= self.camera_bounds.len(),
                forall|i: int|
                    0 <= i < at ==> {
                        &&& (#[trigger] self.camera_bounds@[i]).bound.fits(self.camera)
                        &&& self.camera_bounds@[i].bound.fits(bar_view())
                        &&& self.camera_bounds@[i].bound.fits(room_view())
                        &&& self.move_camera_to.0 is Some ==> self.camera_bounds@[i].bound.fits(
                            self.move_camera_to.0->0,
                        )
                    },
            decreases self.camera_bounds.len() - at,
        {
            let bound = self.camera_bounds[at].bound;
            let aimed = match self.move_camera_to.0 {
                Some(target) => bound.check_fits(target),
                None => true,
            };
            if !(bound.check_fits(self.camera) && bound.check_fits(Point { x: 0, y: -630_000 })
                && bound.check_fits(Point { x: 0, y: 0 }) && aimed) {
                return false;
            }
            at = at + 1;
        }
        true
    }

    /// The room as it opens: no customer, nothing in hand, an empty ledger,
    /// the view on the whole room. Customers and barrels take clicks, and
    /// nothing is ignored.
    pub fn new(
        background: (u32, u32),
        counter: (u32, u32),
        barrel: (u32, u32),
        customer: (u32, u32),
        customers_stats: CustomersStats,
    ) -> (tavern: Tavern)
        ensures
            tavern@ == (Scene {
                scenery: opening_scenery(background, counter, barrel),
                customers: Seq::empty(),
                bar: Bar::opening(),
                controls: Controls {
                    active: opening_active(),
                    ignored: Set::empty(),
                    hand: DrinkInHand(None),
                    target: MoveCameraTo(None),
                },
                stats: PlayerStats::empty(),
                camera: Point { x: 0, y: 0 },
                masks: opening_masks(),
                customers_stats,
                customer_size: customer,
            }),
            tavern.customers_stats == customers_stats,
            tavern.customer_width == customer.0,
            tavern.customer_height == customer.1,
            tavern@.wf(),
            forall|dt: u64| tavern.has_room(dt),
    {
        let mut scenery: Vec<InteractibleBundle> = Vec::new();
        scenery.push(
            InteractibleBundle::new(
                InteractibleAction::ExitBar,
                Point3 { x: 0, y: 0, z: -10_000 },
                background.0,
                background.1,
            ),
        );
        scenery.push(
            InteractibleBundle::new(
                InteractibleAction::Bar,
                Point3 { x: 0, y: -733_000, z: 10_000 },
                counter.0,
                counter.1,
            ),
        );
        let barrels = Drink::iterator();
        let mut at: usize = 0;
        while at < 3
            invariant
                0 <= at <= 3,
                barrels@.len() == 3,
                forall|i: int|
                    0 <= i < 3 ==> #[trigger] barrels@[i] == (
                        Drink::all()[i],
                        Drink::all()[i].barrel_place(),
                    ),
                scenery@ =~= opening_scenery(background, counter, barrel).subrange(0, 2 + at),
            decreases 3 - at,
        {
            let (drink, place) = barrels[at];
            scenery.push(
                InteractibleBundle::new(InteractibleAction::Barrel(drink), place, barrel.0, barrel.1),
            );
            at = at + 1;
        }
        assert(scenery@ =~= opening_scenery(background, counter, barrel));
        let mut active = ActionSet::new();
        active.insert(InteractibleAction::Customer(CustomerSlotMarker::Left));
        active.insert(InteractibleAction::Customer(CustomerSlotMarker::Middle));
        active.insert(InteractibleAction::Customer(CustomerSlotMarker::Right));
        active.insert(InteractibleAction::Barrel(Drink::Beer));
        active.insert(InteractibleAction::Barrel(Drink::Wine));
        active.insert(InteractibleAction::Barrel(Drink::Whiskey));
        let origin = Point { x: 0, y: 0 };
        let under = CameraBound(Point { x: 0, y: -1_080_000 });
        let over = CameraBound(Point { x: 0, y: 1_080_000 });
        let left = CameraBound(Point { x: -1_920_000, y: 0 });
        let right = CameraBound(Point { x: 1_920_000, y: 0 });
        let mut camera_bounds: Vec<BoundMask> = Vec::new();
        camera_bounds.push(BoundMask { bound: under, translation: under.follow(origin) });
        camera_bounds.push(BoundMask { bound: over, translation: over.follow(origin) });
        camera_bounds.push(BoundMask { bound: left, translation: left.follow(origin) });
        camera_bounds.push(BoundMask { bound: right, translation: right.follow(origin) });
        assert(camera_bounds@ =~= opening_masks());
        Tavern {
            scenery,
            customers: Vec::new(),
            bar: Bar::default(),
            active_interactibles: active,
            ignored_interactibles: ActionSet::new(),
            drink_in_hand: DrinkInHand(None),
            player_stats: PlayerStats::new(),
            customers_stats,
            camera: origin,
            move_camera_to: MoveCameraTo(None),
            camera_bounds,
            customer_width: customer.0,
            customer_height: customer.1,
        }
    }

    /// The pass with the pointer over the scenery and the customers
    /// together: the one thing under the pointer is lit up and, on a press,
    /// marked as clicked; all others are drawn at rest and lose their marks.
    pub fn resolve_pointer(&mut self, cursor: Option<Point>, just_pressed: bool)
        requires
            old(self).scenery@.len() + old(self).customers@.len() <= usize::MAX,
        ensures
            final(self)@ == old(self)@.pointed(cursor, just_pressed),
            final(self).customers_stats == old(self).customers_stats,
            final(self).customer_width == old(self).customer_width,
            final(self).customer_height == old(self).customer_height,
            old(self)@.wf() ==> final(self)@.wf(),
            old(self)@.controls.wf() ==> clicks_allowed(
                final(self).scenery@,
                final(self).scenery@.len() as int,
                final(self)@.controls,
            ),
    {
        let ghost before = self@;
        let fixed = self.scenery.len();
        let mut things: Vec<InteractibleBundle> = Vec::new();
        let mut at: usize = 0;
        while at < self.scenery.len()
            invariant
                0 <= at <= self.scenery.len(),
                self@ == before,
                things@ =~= before.scenery.subrange(0, at as int),
            decreases self.scenery.len() - at,
        {
            things.push(self.scenery[at]);
            at = at + 1;
        }
        at = 0;
        while at < self.customers.len()
            invariant
                0 <= at <= self.customers.len(),
                self@ == before,
                fixed == before.scenery.len(),
                fixed + before.customers.len() <= usize::MAX,
                things@ =~= before.scenery + Seq::new(
                    at as nat,
                    |i: int| before.customers[i].body,
                ),
            decreases self.customers.len() - at,
        {
            things.push(self.customers[at].body);
            at = at + 1;
        }
        assert(things@ =~= before.things());
        interactibles_system(
            &mut things,
            cursor,
            just_pressed,
            &self.active_interactibles,
            &self.ignored_interactibles,
        );
        at = 0;
        while at < fixed
            invariant
                0 <= at <= fixed,
                fixed == before.scenery.len(),
                things@.len() == before.things().len(),
                self.scenery@.len() == fixed,
                forall|i: int|
                    0 <= i < at ==> #[trigger] self.scenery@[i] == before.pointed(
                        cursor,
                        just_pressed,
                    ).scenery[i],
                forall|i: int|
                    0 <= i < things@.len() ==> #[trigger] things@[i] == before.things()[i].resolved(
                        before.lights(cursor, i),
                        just_pressed,
                    ),
                self@ == (Scene { scenery: self.scenery@, ..before }),
                self.customers_stats == old(self).customers_stats,
                self.customer_width == old(self).customer_width,
                self.customer_height == old(self).customer_height,
            decreases fixed - at,
        {
            assert(before.things()[at as int] == before.scenery[at as int]);
            self.scenery[at] = things[at];
            at = at + 1;
        }
        assert(self.scenery@ =~= before.pointed(cursor, just_pressed).scenery);
        at = 0;
        while at < self.customers.len()
            invariant
                0 <= at <= self.customers.len(),
                fixed == before.scenery.len(),
                things@.len() == before.things().len(),
                self.customers@.len() == before.customers.len(),
                fixed + before.customers.len() <= usize::MAX,
                forall|i: int|
                    0 <= i < at ==> #[trigger] self.customers@[i] == before.pointed(
                        cursor,
                        just_pressed,
                    ).customers[i],
                forall|i: int| at <= i < before.customers.len() ==> self.customers@[i] == before.customers[i],
                forall|i: int|
                    0 <= i < things@.len() ==> #[trigger] things@[i] == before.things()[i].resolved(
                        before.lights(cursor, i),
                        just_pressed,
                    ),
                self@ == (Scene {
                    scenery: before.pointed(cursor, just_pressed).scenery,
                    customers: self.customers@,
                    ..before
                }),
                self.customers_stats == old(self).customers_stats,
                self.customer_width == old(self).customer_width,
                self.customer_height == old(self).customer_height,
            decreases self.customers.len() - at,
        {
            assert(before.things()[fixed + at] == before.customers[at as int].body);
            let mut customer = self.customers[at];
            customer.body = things[fixed + at];
            self.customers[at] = customer;
            at = at + 1;
        }
        assert(self.customers@ =~= before.pointed(cursor, just_pressed).customers);
        proof {
            if before.wf() {
                lemma_pointed_keeps_wf(before, cursor, just_pressed);
            }
            if before.controls.wf() {
                lemma_pointed_allows_clicks(before, cursor, just_pressed);
            }
        }
    }

    /// Deals with the clicks on the scenery. Every click must be one that
    /// the controls can take, as the clicks of a pass with the pointer are.
    pub fn consume_clicks(&mut self)
        requires
            clicks_allowed(
                old(self).scenery@,
                old(self).scenery@.len() as int,
                old(self)@.controls,
            ),
        ensures
            final(self)@ == old(self)@.clicked(),
            final(self).customers_stats == old(self).customers_stats,
            final(self).customer_width == old(self).customer_width,
            final(self).customer_height == old(self).customer_height,
            old(self)@.wf() ==> final(self)@.wf(),
            old(self)@.masks_fit() ==> final(self)@.masks_fit(),
    {
        proof {
            lemma_clicks_aim(self.scenery@, self.scenery@.len() as int, self@.controls);
        }
        handle_bar_interactible_click(
            &mut self.scenery,
            &mut self.move_camera_to,
            &mut self.active_interactibles,
            &mut self.ignored_interactibles,
            &mut self.drink_in_hand,
        );
        assert(self.scenery@ =~= old(self)@.clicked().scenery);
    }

    /// Lets every customer live through `dt` milliseconds.
    pub fn advance_customers(&mut self, dt: u64)
        requires
            forall|i: int|
                0 <= i < old(self).customers@.len() ==> (#[trigger] old(
                    self,
                ).customers@[i]).can_slide(dt),
            old(self).player_stats.has_room_for(old(self).customers@.len()),
        ensures
            final(self)@ == old(self)@.served(dt, old(self).customers_stats.customers_wait_duration),
            final(self).customers_stats == old(self).customers_stats,
            final(self).customer_width == old(self).customer_width,
            final(self).customer_height == old(self).customer_height,
            old(self)@.wf() ==> final(self)@.wf(),
            final(self).player_stats.highest_streak >= old(self).player_stats.highest_streak,
            final(self).customers@.len() <= old(self).customers@.len(),
    {
        customers_system(
            &mut self.customers,
            dt,
            &self.customers_stats,
            &mut self.bar,
            &mut self.drink_in_hand,
            &mut self.player_stats,
        );
    }

    /// One tick of the door: a new customer may be promised a place, and
    /// whoever was promised one enters.
    pub fn receive_customers(&mut self, dt: u64)
        requires
            old(self).customers_stats.wf(),
        ensures
            exists|bar: Bar|
                {
                    &&& #[trigger] door_allows(
                        old(self).bar,
                        bar,
                        dt,
                        old(self).customers_stats,
                        old(self).customer_width,
                        old(self).customer_height,
                    )
                    &&& final(self)@ == (Scene { bar, ..old(self)@ }).seated()
                },
            final(self).customers_stats == old(self).customers_stats,
            final(self).customer_width == old(self).customer_width,
            final(self).customer_height == old(self).customer_height,
            old(self)@.wf() ==> final(self)@.wf(),
    {
        spawn_customer(
            &mut self.bar,
            dt,
            &self.customers_stats,
            self.customer_width,
            self.customer_height,
        );
        let ghost bar = self.bar;
        assert(door_allows(
            old(self).bar,
            bar,
            dt,
            old(self).customers_stats,
            old(self).customer_width,
            old(self).customer_height,
        ));
        spawn_customers_in_slots(&mut self.bar, &mut self.customers);
        assert(self@ == (Scene { bar, ..old(self)@ }).seated());
    }

    /// Moves the view for `dt` milliseconds, and the masks with it: after
    /// it every mask stands at its offset from the view.
    pub fn move_camera(&mut self, dt: u64)
        requires
            all_fit(
                old(self).camera_bounds@,
                camera_after(old(self).camera, old(self).move_camera_to, dt),
            ),
        ensures
            final(self)@ == old(self)@.panned(dt),
            final(self).customers_stats == old(self).customers_stats,
            final(self).customer_width == old(self).customer_width,
            final(self).customer_height == old(self).customer_height,
            attached(final(self).camera_bounds@, final(self).camera),
            old(self)@.wf() ==> final(self)@.wf(),
    {
        move_camera_system(
            &mut self.camera,
            &mut self.move_camera_to,
            &mut self.camera_bounds,
            dt,
        );
        assert(self.camera_bounds@ =~= old(self)@.panned(dt).masks);
    }

    /// One tick of `dt` milliseconds: the pass with the pointer, the clicks
    /// on the scenery, the customers, the door, the view, in this order.
    pub fn tick(&mut self, dt: u64, cursor: Option<Point>, just_pressed: bool)
        requires
            old(self)@.wf(),
            old(self).has_room(dt),
            old(self).customers_stats.wf(),
        ensures
            exists|bar: Bar|
                {
                    &&& #[trigger] door_allows(
                        old(self)@.pointed(cursor, just_pressed).clicked().served(
                            dt,
                            old(self).customers_stats.customers_wait_duration,
                        ).bar,
                        bar,
                        dt,
                        old(self).customers_stats,
                        old(self).customer_width,
                        old(self).customer_height,
                    )
                    &&& final(self)@ == (Scene {
                        bar,
                        ..old(self)@.pointed(cursor, just_pressed).clicked().served(
                            dt,
                            old(self).customers_stats.customers_wait_duration,
                        )
                    }).seated().panned(dt)
                },
            final(self).customers_stats == old(self).customers_stats,
            final(self).customer_width == old(self).customer_width,
            final(self).customer_height == old(self).customer_height,
            final(self)@.wf(),
            final(self).customers@.len() <= 3,
            final(self).scenery@.len() == old(self).scenery@.len(),
            final(self).player_stats.highest_streak >= old(self).player_stats.highest_streak,
            forall|i: int|
                #![trigger final(self).scenery@[i]]
                0 <= i < final(self).scenery@.len() && !final(self).scenery@[i].action.is_customer()
                    ==> !final(self).scenery@[i].clicked,
    {
        self.resolve_pointer(cursor, just_pressed);
        assert(self@.masks_fit());
        assert forall|i: int| 0 <= i < self.customers@.len() implies (
        #[trigger] self.customers@[i]).can_slide(dt) by {
            assert(old(self).customers@[i].can_slide(dt));
        }
        self.consume_clicks();
        self.advance_customers(dt);
        self.receive_customers(dt);
        assert(self@.masks_fit());
        proof {
            lemma_masks_fit_after(self.camera_bounds@, self.camera, self.move_camera_to, dt);
        }
        self.move_camera(dt);
        proof {
            lemma_at_most_three(self.bar, self.customers@);
        }
    }
}

/// The pass with the pointer changes colours and marks only: the bar and
/// the customers still agree after it.
pub proof fn lemma_pointed_keeps_wf(scene: Scene, cursor: Option<Point>, pressed: bool)
    requires
        scene.wf(),
    ensures
        scene.pointed(cursor, pressed).wf(),
{
    let after = scene.pointed(cursor, pressed);
    assert forall|i: int| 0 <= i < after.customers.len() implies (#[trigger] after.customers[i]).wf()
        && after.customers[i].slot == scene.customers[i].slot && after.bar.customer_slots.slot(
        after.customers[i].slot,
    ).spawned by {
        assert(scene.customers[i].wf());
    }
    assert forall|i: int, j: int| 0 <= i < j < after.customers.len() implies after.customers[i].slot
        != after.customers[j].slot by {
        assert(after.customers[i].slot == scene.customers[i].slot);
        assert(after.customers[j].slot == scene.customers[j].slot);
    }
}

/// After a pass with the pointer the clicks on the scenery can be carried
/// out: at most one thing carries a click, and its action is active.
pub proof fn lemma_pointed_allows_clicks(scene: Scene, cursor: Option<Point>, pressed: bool)
    requires
        scene.controls.wf(),
    ensures
        clicks_allowed(
            scene.pointed(cursor, pressed).scenery,
            scene.scenery.len() as int,
            scene.controls,
        ),
{
    let after = scene.pointed(cursor, pressed).scenery;
    let at = if exists|i: int| 0 <= i < scene.scenery.len() && #[trigger] scene.lights(cursor, i) {
        choose|i: int| 0 <= i < scene.scenery.len() && #[trigger] scene.lights(cursor, i)
    } else {
        -1
    };
    if cursor is Some {
        lemma_hovered_unique(scene.things(), scene.controls.ignored, cursor->0);
    }
    assert forall|j: int| 0 <= j < scene.scenery.len() && j != at implies !((
    #[trigger] after[j]).clicked && !after[j].action.is_customer()) by {
        if after[j].clicked {
            assert(scene.lights(cursor, j));
            assert(scene.lights(cursor, at));
        }
    }
    if 0 <= at < scene.scenery.len() && after[at].clicked {
        assert(scene.lights(cursor, at));
        assert(scene.things()[at] == scene.scenery[at]);
        assert(scene.controls.active.contains(after[at].action));
    }
    lemma_one_click_allowed(after, scene.scenery.len() as int, scene.controls, at);
}

} // verus!
