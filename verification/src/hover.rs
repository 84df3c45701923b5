//! The pass that, once per tick, finds the thing under the pointer, colours
//! everything accordingly and marks what was clicked.

use vstd::prelude::*;
use crate::geometry::{Point, Point3, UNIT};
use crate::interact::{ActionSet, InteractibleAction, InteractionSpriteColors, Rgb};

verus! {

/// A thing on screen that the pointer can meet.
#[derive(Clone, Copy, Debug, PartialEq, Eq, Structural)]
pub struct InteractibleBundle {
    pub action: InteractibleAction,
    /// Where the thing is anchored, and its stacking order.
    pub translation: Point3,
    /// Width of its image as drawn.
    pub width: u32,
    /// Height of its image as drawn.
    pub height: u32,
    pub colors: InteractionSpriteColors,
    /// The colour in which it is drawn now.
    pub color: Rgb,
    /// Set by the pass of the tick in which the thing was clicked.
    pub clicked: bool,
}

impl InteractibleBundle {
    /// Twice the height of the rectangle's centre. A customer is anchored at
    /// the base of the image, everything else at its centre.
    pub open spec fn center_y_doubled(self) -> int {
        if self.action.is_customer() {
            2 * self.translation.y + self.height
        } else {
            2 * self.translation.y as int
        }
    }

    /// Whether the thing's rectangle meets the square of one world unit
    /// around the pointer.
    pub open spec fn spec_is_hit(self, pointer: Point) -> bool {
        &&& 2 * self.translation.x - self.width < 2 * pointer.x + UNIT
        &&& 2 * self.translation.x + self.width > 2 * pointer.x - UNIT
        &&& self.center_y_doubled() - self.height < 2 * pointer.y + UNIT
        &&& self.center_y_doubled() + self.height > 2 * pointer.y - UNIT
    }

    /// The thing in the colour and with the mark that a pass leaves on it.
    pub open spec fn resolved(self, highlighted: bool, pressed: bool) -> InteractibleBundle {
        InteractibleBundle {
            color: if highlighted {
                self.colors.highlight
            } else {
                self.colors.normal
            },
            clicked: highlighted && pressed,
            ..self
        }
    }

    /// A thing in its colour at rest, not clicked.
    pub open spec fn plain(action: InteractibleAction, translation: Point3, width: u32, height: u32)
        -> InteractibleBundle {
        InteractibleBundle {
            action,
            translation,
            width,
            height,
            colors: InteractionSpriteColors::plain(),
            color: InteractionSpriteColors::plain().normal,
            clicked: false,
        }
    }

    /// The thing with its mark cleared.
    pub open spec fn unclicked(self) -> InteractibleBundle {
        InteractibleBundle { clicked: false, ..self }
    }

    /// A thing in its colour at rest, not clicked.
    pub fn new(action: InteractibleAction, translation: Point3, width: u32, height: u32) -> (thing:
        InteractibleBundle)
        ensures
            thing == InteractibleBundle::plain(action, translation, width, height),
    {
        let colors = InteractionSpriteColors::default();
        InteractibleBundle {
            action,
            translation,
            width,
            height,
            colors,
            color: colors.normal,
            clicked: false,
        }
    }

    pub fn is_hit(&self, pointer: Point) -> (hit: bool)
        ensures
            hit == self.spec_is_hit(pointer),
    {
        let x: i64 = 2 * (self.translation.x as i64);
        let width: i64 = self.width as i64;
        let height: i64 = self.height as i64;
        let y: i64 = match self.action {
            InteractibleAction::Customer(_) => 2 * (self.translation.y as i64) + height,
            _ => 2 * (self.translation.y as i64),
        };
        let pointer_x: i64 = 2 * (pointer.x as i64);
        let pointer_y: i64 = 2 * (pointer.y as i64);
        let unit: i64 = UNIT as i64;
        x - width < pointer_x + unit && x + width > pointer_x - unit && y - height < pointer_y
            + unit && y + height > pointer_y - unit
    }

    /// Reads the mark and clears it: a click is handed out once.
    pub fn take_click(&mut self) -> (was_clicked: bool)
        ensures
            was_clicked == old(self).clicked,
            *final(self) == old(self).unclicked(),
    {
        let was_clicked = self.clicked;
        self.clicked = false;
        was_clicked
    }
}

/// Whether thing `i` can be under the pointer at all: it is not ignored and
/// its rectangle meets the pointer.
pub open spec fn is_candidate(
    things: Seq<InteractibleBundle>,
    ignored: Set<InteractibleAction>,
    pointer: Point,
    i: int,
) -> bool {
    &&& 0 <= i < things.len()
    &&& !ignored.contains(things[i].action)
    &&& things[i].spec_is_hit(pointer)
}

/// Whether thing `i` comes before thing `j` where both are under the
/// pointer: the one in front does, and of two at the same stacking order the
/// one that stands first in the list.
pub open spec fn in_front(things: Seq<InteractibleBundle>, i: int, j: int) -> bool {
    things[i].translation.z > things[j].translation.z || (things[i].translation.z
        == things[j].translation.z && i <= j)
}

/// Whether thing `i` is the one under the pointer: a candidate that is in
/// front of every other candidate.
pub open spec fn is_hovered(
    things: Seq<InteractibleBundle>,
    ignored: Set<InteractibleAction>,
    pointer: Point,
    i: int,
) -> bool {
    &&& is_candidate(things, ignored, pointer, i)
    &&& forall|j: int| #[trigger]
        is_candidate(things, ignored, pointer, j) ==> in_front(things, i, j)
}

/// Whether thing `i` is lit up by the pass: the pointer is in the viewport,
/// the thing is the one under it, and its action is active.
pub open spec fn is_highlighted(
    things: Seq<InteractibleBundle>,
    active: Set<InteractibleAction>,
    ignored: Set<InteractibleAction>,
    cursor: Option<Point>,
    i: int,
) -> bool {
    &&& cursor is Some
    &&& is_hovered(things, ignored, cursor->0, i)
    &&& active.contains(things[i].action)
}

/// Finds the thing under the pointer: of the things that are not ignored and
/// whose rectangle meets the pointer, the one in front.
pub fn find_hovered(things: &Vec<InteractibleBundle>, ignored: &ActionSet, pointer: Point) -> (hovered:
    Option<usize>)
    ensures
        hovered is Some ==> is_hovered(things@, ignored@, pointer, hovered->0 as int),
        hovered is None ==> forall|j: int| !is_candidate(things@, ignored@, pointer, j),
{
    let mut best: Option<usize> = None;
    let mut at: usize = 0;
    while at < things.len()
        invariant
            0 <= at <= things.len(),
            best is Some ==> best->0 < at && is_candidate(
                things@,
                ignored@,
                pointer,
                best->0 as int,
            ),
            best is Some ==> forall|j: int|
                0 <= j < at && #[trigger] is_candidate(things@, ignored@, pointer, j) ==> in_front(
                    things@,
                    best->0 as int,
                    j,
                ),
            best is None ==> forall|j: int|
                0 <= j < at ==> !is_candidate(things@, ignored@, pointer, j),
        decreases things.len() - at,
    {
        let thing = &things[at];
        if !ignored.contains(thing.action) && thing.is_hit(pointer) {
            match best {
                None => {
                    best = Some(at);
                },
                Some(front) => {
                    if thing.translation.z > things[front].translation.z {
                        best = Some(at);
                    }
                },
            }
        }
        at = at + 1;
    }
    best
}

/// One pass over the things on screen.
///
/// With the pointer in the viewport, the thing under it is drawn in its
/// highlight colour if its action is active, and marked as clicked if the
/// button was pressed in this tick. Every other thing is drawn in its colour
/// at rest and loses its mark, and so does every thing when the pointer is
/// outside the viewport.
pub fn interactibles_system(
    things: &mut Vec<InteractibleBundle>,
    cursor: Option<Point>,
    just_pressed: bool,
    active: &ActionSet,
    ignored: &ActionSet,
)
    ensures
        final(things)@.len() == old(things)@.len(),
        forall|i: int|
            0 <= i < old(things)@.len() ==> #[trigger] final(things)@[i] == old(
                things,
            )@[i].resolved(
                is_highlighted(old(things)@, active@, ignored@, cursor, i),
                just_pressed,
            ),
{
    let hovered: Option<usize> = match cursor {
        None => None,
        Some(pointer) => find_hovered(things, ignored, pointer),
    };
    let lit: Option<usize> = match hovered {
        None => None,
        Some(front) => {
            if active.contains(things[front].action) {
                Some(front)
            } else {
                None
            }
        },
    };
    proof {
        assert forall|i: int| 0 <= i < things@.len() implies (is_highlighted(
            things@,
            active@,
            ignored@,
            cursor,
            i,
        ) <==> (lit is Some && lit->0 == i)) by {
            if cursor is Some {
                lemma_hovered_unique(things@, ignored@, cursor->0);
                if hovered is Some {
                    assert(is_hovered(things@, ignored@, cursor->0, hovered->0 as int));
                } else {
                    assert(!is_candidate(things@, ignored@, cursor->0, i));
                }
            }
        }
    }
    let ghost before = things@;
    let mut at: usize = 0;
    while at < things.len()
        invariant
            0 <= at <= things.len(),
            things@.len() == before.len(),
            forall|i: int|
                0 <= i < at ==> #[trigger] things@[i] == before[i].resolved(
                    lit is Some && lit->0 == i,
                    just_pressed,
                ),
            forall|i: int| at <= i < before.len() ==> things@[i] == before[i],
        decreases things.len() - at,
    {
        let highlighted = match lit {
            Some(front) => front == at,
            None => false,
        };
        let mut thing = things[at];
        thing.color = if highlighted {
            thing.colors.highlight
        } else {
            thing.colors.normal
        };
        thing.clicked = highlighted && just_pressed;
        things[at] = thing;
        at = at + 1;
    }
}

/// At most one thing is under the pointer.
pub proof fn lemma_hovered_unique(
    things: Seq<InteractibleBundle>,
    ignored: Set<InteractibleAction>,
    pointer: Point,
)
    ensures
        forall|i: int, j: int|
            is_hovered(things, ignored, pointer, i) && is_hovered(things, ignored, pointer, j)
                ==> i == j,
{
    assert forall|i: int, j: int|
        is_hovered(things, ignored, pointer, i) && is_hovered(
            things,
            ignored,
            pointer,
            j,
        ) implies i == j by {
        assert(is_candidate(things, ignored, pointer, i));
        assert(is_candidate(things, ignored, pointer, j));
        assert(in_front(things, i, j));
        assert(in_front(things, j, i));
    }
}

/// Of two things whose rectangles both hold the pointer, the one behind is
/// neither lit up nor clicked by the pass: it is drawn in its colour at rest.
pub proof fn lemma_occlusion(
    things: Seq<InteractibleBundle>,
    active: Set<InteractibleAction>,
    ignored: Set<InteractibleAction>,
    pointer: Point,
    pressed: bool,
    front: int,
    behind: int,
)
    requires
        is_candidate(things, ignored, pointer, front),
        0 <= behind < things.len(),
        things[front].translation.z > things[behind].translation.z,
    ensures
        !is_hovered(things, ignored, pointer, behind),
        !is_highlighted(things, active, ignored, Some(pointer), behind),
        things[behind].resolved(
            is_highlighted(things, active, ignored, Some(pointer), behind),
            pressed,
        ).color == things[behind].colors.normal,
        !things[behind].resolved(
            is_highlighted(things, active, ignored, Some(pointer), behind),
            pressed,
        ).clicked,
{
    if is_hovered(things, ignored, pointer, behind) {
        assert(in_front(things, behind, front));
    }
}

/// A pass marks at most one thing as clicked, and none unless the button was
/// pressed in this tick with the pointer in the viewport.
pub proof fn lemma_one_click_per_pass(
    things: Seq<InteractibleBundle>,
    active: Set<InteractibleAction>,
    ignored: Set<InteractibleAction>,
    cursor: Option<Point>,
    pressed: bool,
    i: int,
    j: int,
)
    requires
        0 <= i < things.len(),
        0 <= j < things.len(),
        things[i].resolved(is_highlighted(things, active, ignored, cursor, i), pressed).clicked,
        things[j].resolved(is_highlighted(things, active, ignored, cursor, j), pressed).clicked,
    ensures
        i == j,
        pressed,
        cursor is Some,
        active.contains(things[i].action),
        !ignored.contains(things[i].action),
{
    lemma_hovered_unique(things, ignored, cursor->0);
}

/// A click is handed out once: after the mark was read, it reads as not
/// clicked until a later pass sets it again.
pub proof fn lemma_click_read_once(thing: InteractibleBundle)
    ensures
        !thing.unclicked().clicked,
        thing.unclicked().unclicked() == thing.unclicked(),
{
}

} // verus!
