//! What a click on the bar, on the background or on a barrel does.

use vstd::prelude::*;
use crate::camera::MoveCameraTo;
use crate::drink::Drink;
use crate::geometry::Point;
use crate::hover::InteractibleBundle;
use crate::interact::{ActionSet, InteractibleAction};
use crate::stats::DrinkInHand;

verus! {

/// The point from which the view shows the bar's inside.
pub open spec fn bar_view() -> Point {
    Point { x: 0, y: -630_000i32 }
}

/// The point from which the view shows the whole room.
pub open spec fn room_view() -> Point {
    Point { x: 0, y: 0 }
}

/// What clicks act on.
pub struct Controls {
    /// The actions that take clicks.
    pub active: Set<InteractibleAction>,
    /// The actions whose things the pointer passes through.
    pub ignored: Set<InteractibleAction>,
    pub hand: DrinkInHand,
    pub target: MoveCameraTo,
}

impl Controls {
    /// Whether the bar and the way out of it both take clicks, which they
    /// never should.
    pub open spec fn torn(self) -> bool {
        self.active.contains(InteractibleAction::Bar) && self.active.contains(
            InteractibleAction::ExitBar,
        )
    }

    /// Whether the barrels are all ignored.
    pub open spec fn barrels_ignored(self) -> bool {
        &&& self.ignored.contains(InteractibleAction::Barrel(Drink::Beer))
        &&& self.ignored.contains(InteractibleAction::Barrel(Drink::Wine))
        &&& self.ignored.contains(InteractibleAction::Barrel(Drink::Whiskey))
    }

    /// What holds of the controls at every tick: the bar and the way out of
    /// it do not both take clicks, and while the bar takes clicks, seen
    /// from afar, the barrels are ignored.
    pub open spec fn wf(self) -> bool {
        &&& !self.torn()
        &&& self.active.contains(InteractibleAction::Bar) ==> self.barrels_ignored()
    }

    /// Whether a click on a thing with the given action can be carried out:
    /// what the click takes out of a set is in it. The action is active,
    /// and for the bar the barrels are ignored. Clicks on customers are not
    /// dealt with here, so nothing is asked of them.
    pub open spec fn takes(self, action: InteractibleAction) -> bool {
        match action {
            InteractibleAction::Customer(_) => true,
            InteractibleAction::Bar => self.active.contains(action) && self.barrels_ignored(),
            _ => self.active.contains(action),
        }
    }

    /// The controls after a click on a thing with the given action.
    ///
    /// A click on the bar sends the view into the bar, lets the barrels be
    /// met by the pointer, and swaps the bar for the way out among the
    /// active actions. A click on the way out undoes all that. A click on a
    /// barrel takes its drink in hand, in place of any other. Clicks on
    /// customers are not dealt with here.
    pub open spec fn clicked_on(self, action: InteractibleAction) -> Controls {
        match action {
            InteractibleAction::Bar => Controls {
                active: self.active.remove(InteractibleAction::Bar).insert(
                    InteractibleAction::ExitBar,
                ),
                ignored: self.ignored.remove(InteractibleAction::Barrel(Drink::Beer)).remove(
                    InteractibleAction::Barrel(Drink::Wine),
                ).remove(InteractibleAction::Barrel(Drink::Whiskey)),
                target: MoveCameraTo(Some(bar_view())),
                ..self
            },
            InteractibleAction::ExitBar => Controls {
                active: self.active.remove(InteractibleAction::ExitBar).insert(
                    InteractibleAction::Bar,
                ),
                ignored: self.ignored.insert(InteractibleAction::Barrel(Drink::Beer)).insert(
                    InteractibleAction::Barrel(Drink::Wine),
                ).insert(InteractibleAction::Barrel(Drink::Whiskey)),
                target: MoveCameraTo(Some(room_view())),
                ..self
            },
            InteractibleAction::Barrel(drink) => Controls {
                hand: DrinkInHand(Some(drink)),
                ..self
            },
            InteractibleAction::Customer(_) => self,
            InteractibleAction::_None => self,
        }
    }
}

/// The controls after the clicks on the first `n` of `things` were dealt
/// with, one after the other. Customers keep their clicks for themselves.
pub open spec fn clicks_applied(things: Seq<InteractibleBundle>, n: int, controls: Controls) -> Controls
    decreases n,
{
    if n <= 0 {
        controls
    } else {
        let before = clicks_applied(things, n - 1, controls);
        if things[n - 1].clicked && !things[n - 1].action.is_customer() {
            before.clicked_on(things[n - 1].action)
        } else {
            before
        }
    }
}

/// Whether the clicks on the first `n` of `things` can be carried out one
/// after the other: each finds the controls, as the clicks before it left
/// them, ready to take it.
pub open spec fn clicks_allowed(things: Seq<InteractibleBundle>, n: int, controls: Controls) -> bool
    decreases n,
{
    if n <= 0 {
        true
    } else {
        &&& clicks_allowed(things, n - 1, controls)
        &&& things[n - 1].clicked && !things[n - 1].action.is_customer() ==> clicks_applied(
            things,
            n - 1,
            controls,
        ).takes(things[n - 1].action)
    }
}

/// Clicks that can be carried out up to some thing can be carried out up to
/// every thing before it.
pub proof fn lemma_clicks_allowed_before(
    things: Seq<InteractibleBundle>,
    n: int,
    m: int,
    controls: Controls,
)
    requires
        clicks_allowed(things, n, controls),
        m <= n,
    ensures
        clicks_allowed(things, m, controls),
    decreases n - m,
{
    if m < n {
        if n > 0 {
            lemma_clicks_allowed_before(things, n - 1, m, controls);
        }
    }
}

/// Where at most the thing `at` among the first `n` carries a click that is
/// dealt with here, and the controls can take that click, the clicks can be
/// carried out. This is what a pass with the pointer leaves behind.
pub proof fn lemma_one_click_allowed(
    things: Seq<InteractibleBundle>,
    n: int,
    controls: Controls,
    at: int,
)
    requires
        n <= things.len(),
        forall|j: int|
            0 <= j < n && j != at ==> !((#[trigger] things[j]).clicked
                && !things[j].action.is_customer()),
        0 <= at < n && things[at].clicked && !things[at].action.is_customer() ==> controls.takes(
            things[at].action,
        ),
    ensures
        clicks_allowed(things, n, controls),
        n <= at || at < 0 ==> clicks_applied(things, n, controls) == controls,
    decreases n,
{
    if n > 0 {
        lemma_one_click_allowed(things, n - 1, controls, at);
    }
}

/// Whichever thing is clicked, the controls stay as they should be.
pub proof fn lemma_click_keeps_wf(controls: Controls, action: InteractibleAction)
    requires
        controls.wf(),
    ensures
        controls.clicked_on(action).wf(),
{
}

/// However many clicks are dealt with, the controls stay as they should be:
/// the bar and the way out of it do not both take clicks afterwards.
pub proof fn lemma_clicks_keep_wf(things: Seq<InteractibleBundle>, n: int, controls: Controls)
    requires
        controls.wf(),
    ensures
        clicks_applied(things, n, controls).wf(),
    decreases n,
{
    if n > 0 {
        lemma_clicks_keep_wf(things, n - 1, controls);
        lemma_click_keeps_wf(clicks_applied(things, n - 1, controls), things[n - 1].action);
    }
}

/// Clicks send the view to one of two points only: after any number of
/// them the target is what it was, the inside of the bar, or the whole room.
pub proof fn lemma_clicks_aim(things: Seq<InteractibleBundle>, n: int, controls: Controls)
    ensures
        ({
            let target = clicks_applied(things, n, controls).target;
            ||| target == controls.target
            ||| target == MoveCameraTo(Some(bar_view()))
            ||| target == MoveCameraTo(Some(room_view()))
        }),
    decreases n,
{
    if n > 0 {
        lemma_clicks_aim(things, n - 1, controls);
    }
}

/// Carries out a click on a thing with the given action. The controls
/// must be ready to take the click: a click reaches only what is active.
pub fn handle_interactible_click(
    action: InteractibleAction,
    move_camera_to: &mut MoveCameraTo,
    active_interactibles: &mut ActionSet,
    ignored_interactibles: &mut ActionSet,
    drink_in_hand: &mut DrinkInHand,
)
    requires
        (Controls {
            active: old(active_interactibles)@,
            ignored: old(ignored_interactibles)@,
            hand: *old(drink_in_hand),
            target: *old(move_camera_to),
        }).takes(action),
    ensures
        (Controls {
            active: final(active_interactibles)@,
            ignored: final(ignored_interactibles)@,
            hand: *final(drink_in_hand),
            target: *final(move_camera_to),
        }) == (Controls {
            active: old(active_interactibles)@,
            ignored: old(ignored_interactibles)@,
            hand: *old(drink_in_hand),
            target: *old(move_camera_to),
        }).clicked_on(action),
{
    match action {
        InteractibleAction::Bar => {
            move_camera_to.0 = Some(Point { x: 0, y: -630_000 });
            active_interactibles.remove(InteractibleAction::Bar);
            ignored_interactibles.remove(InteractibleAction::Barrel(Drink::Beer));
            ignored_interactibles.remove(InteractibleAction::Barrel(Drink::Wine));
            ignored_interactibles.remove(InteractibleAction::Barrel(Drink::Whiskey));
            active_interactibles.insert(InteractibleAction::ExitBar);
        },
        InteractibleAction::ExitBar => {
            move_camera_to.0 = Some(Point { x: 0, y: 0 });
            active_interactibles.remove(InteractibleAction::ExitBar);
            ignored_interactibles.insert(InteractibleAction::Barrel(Drink::Beer));
            ignored_interactibles.insert(InteractibleAction::Barrel(Drink::Wine));
            ignored_interactibles.insert(InteractibleAction::Barrel(Drink::Whiskey));
            active_interactibles.insert(InteractibleAction::Bar);
        },
        InteractibleAction::Barrel(drink) => {
            drink_in_hand.0 = Some(drink);
        },
        InteractibleAction::Customer(_) => {},
        InteractibleAction::_None => {},
    }
}

/// Deals with the clicks of this tick on everything but customers, in the
/// order of the list, and clears each click that it deals with.
pub fn handle_bar_interactible_click(
    things: &mut Vec<InteractibleBundle>,
    move_camera_to: &mut MoveCameraTo,
    active_interactibles: &mut ActionSet,
    ignored_interactibles: &mut ActionSet,
    drink_in_hand: &mut DrinkInHand,
)
    requires
        clicks_allowed(
            old(things)@,
            old(things)@.len() as int,
            Controls {
                active: old(active_interactibles)@,
                ignored: old(ignored_interactibles)@,
                hand: *old(drink_in_hand),
                target: *old(move_camera_to),
            },
        ),
    ensures
        (Controls {
            active: final(active_interactibles)@,
            ignored: final(ignored_interactibles)@,
            hand: *final(drink_in_hand),
            target: *final(move_camera_to),
        }) == clicks_applied(
            old(things)@,
            old(things)@.len() as int,
            Controls {
                active: old(active_interactibles)@,
                ignored: old(ignored_interactibles)@,
                hand: *old(drink_in_hand),
                target: *old(move_camera_to),
            },
        ),
        final(things)@.len() == old(things)@.len(),
        forall|i: int|
            0 <= i < old(things)@.len() ==> #[trigger] final(things)@[i] == (if old(
                things,
            )@[i].action.is_customer() {
                old(things)@[i]
            } else {
                old(things)@[i].unclicked()
            }),
        (Controls {
            active: old(active_interactibles)@,
            ignored: old(ignored_interactibles)@,
            hand: *old(drink_in_hand),
            target: *old(move_camera_to),
        }).wf() ==> (Controls {
            active: final(active_interactibles)@,
            ignored: final(ignored_interactibles)@,
            hand: *final(drink_in_hand),
            target: *final(move_camera_to),
        }).wf(),
{
    let ghost before = things@;
    let ghost start = Controls {
        active: active_interactibles@,
        ignored: ignored_interactibles@,
        hand: *drink_in_hand,
        target: *move_camera_to,
    };
    let mut at: usize = 0;
    while at < things.len()
        invariant
            0 <= at <= things.len(),
            things@.len() == before.len(),
            (Controls {
                active: active_interactibles@,
                ignored: ignored_interactibles@,
                hand: *drink_in_hand,
                target: *move_camera_to,
            }) == clicks_applied(before, at as int, start),
            forall|i: int|
                0 <= i < at ==> #[trigger] things@[i] == (if before[i].action.is_customer() {
                    before[i]
                } else {
                    before[i].unclicked()
                }),
            forall|i: int| at <= i < before.len() ==> things@[i] == before[i],
            clicks_allowed(before, before.len() as int, start),
        decreases things.len() - at,
    {
        proof {
            lemma_clicks_allowed_before(before, before.len() as int, at as int + 1, start);
        }
        let mut thing = things[at];
        match thing.action {
            InteractibleAction::Customer(_) => {},
            _ => {
                if thing.take_click() {
                    handle_interactible_click(
                        thing.action,
                        move_camera_to,
                        active_interactibles,
                        ignored_interactibles,
                        drink_in_hand,
                    );
                }
                things[at] = thing;
            },
        }
        at = at + 1;
    }
    proof {
        if start.wf() {
            lemma_clicks_keep_wf(before, before.len() as int, start);
        }
    }
}

} // verus!
