//! Hover and click resolution: which callbacks a tick fires, how
//! registrations age once their object is gone, and press-edge detection.
use crate::arena::ObjectHandle;
use crate::geometry::{
    lemma_ray_farther_than_radius_misses, lemma_ray_through_center_hits, passes_farther_than,
    passes_through, within_radius, Ray,
};
use crate::gizmo::{GizmoInteractions, HandlerId};
use crate::overlay::{Registration, RetainedObject};
use vstd::prelude::*;

verus! {

/// An orphaned registration survives this many interaction ticks before it
/// is purged.
pub const REGISTRATION_MAX_AGE: u32 = 1;

/// A callback to run this tick. `Hover` and `Click` run inline without
/// access to shared state; the `System` ones run afterwards, one at a time,
/// with exclusive access to all of it.
#[derive(Clone, Copy, Debug, PartialEq, Eq, Structural)]
pub enum Callback {
    Hover(HandlerId),
    Click(HandlerId),
    HoverSystem(HandlerId),
    ClickSystem(HandlerId),
}

impl Callback {
    pub open spec fn is_exclusive_spec(self) -> bool {
        self is HoverSystem || self is ClickSystem
    }

    /// Whether the callback needs exclusive access to shared state.
    pub fn is_exclusive(&self) -> (r: bool)
        ensures
            r == self.is_exclusive_spec(),
    {
        match self {
            Callback::HoverSystem(_) | Callback::ClickSystem(_) => true,
            _ => false,
        }
    }

    pub fn handler(&self) -> (h: HandlerId)
        ensures
            h == match *self {
                Callback::Hover(h) => h,
                Callback::Click(h) => h,
                Callback::HoverSystem(h) => h,
                Callback::ClickSystem(h) => h,
            },
    {
        match self {
            Callback::Hover(h) => *h,
            Callback::Click(h) => *h,
            Callback::HoverSystem(h) => *h,
            Callback::ClickSystem(h) => *h,
        }
    }
}

/// The callbacks one marker fires: none unless `hit`; then its hover
/// callbacks, and its click callbacks only on a press edge.
pub open spec fn binding_callbacks(b: GizmoInteractions, hit: bool, just_pressed: bool) -> Seq<
    Callback,
> {
    if !hit {
        Seq::empty()
    } else {
        (if b.on_hover is Some {
            seq![Callback::Hover(b.on_hover->Some_0)]
        } else {
            Seq::empty()
        }) + (if just_pressed && b.on_click is Some {
            seq![Callback::Click(b.on_click->Some_0)]
        } else {
            Seq::empty()
        }) + (if b.on_hover_system is Some {
            seq![Callback::HoverSystem(b.on_hover_system->Some_0)]
        } else {
            Seq::empty()
        }) + (if just_pressed && b.on_click_system is Some {
            seq![Callback::ClickSystem(b.on_click_system->Some_0)]
        } else {
            Seq::empty()
        })
    }
}

/// The registration's object is live and the ray passes within its hit
/// radius, the object's scale along x.
pub open spec fn registration_hit(
    reg: Registration,
    objs: Map<ObjectHandle, RetainedObject>,
    ray: Ray,
) -> bool {
    &&& objs.contains_key(reg.owner)
    &&& within_radius(ray, objs[reg.owner].translation, objs[reg.owner].scale.x)
}

/// The callbacks a tick fires, registration by registration.
pub open spec fn fired_callbacks(
    regs: Seq<Registration>,
    objs: Map<ObjectHandle, RetainedObject>,
    ray: Ray,
    just_pressed: bool,
) -> Seq<Callback>
    decreases regs.len(),
{
    if regs.len() == 0 {
        Seq::empty()
    } else {
        fired_callbacks(regs.drop_last(), objs, ray, just_pressed) + binding_callbacks(
            regs.last().bindings,
            registration_hit(regs.last(), objs, ray),
            just_pressed,
        )
    }
}

/// One registration after a tick: reset while its object is live, one tick
/// older once orphaned, and gone when older than `REGISTRATION_MAX_AGE`.
pub open spec fn aged(reg: Registration, objs: Map<ObjectHandle, RetainedObject>) -> Seq<
    Registration,
> {
    if objs.contains_key(reg.owner) {
        seq![Registration { age: 0, ..reg }]
    } else if reg.age < REGISTRATION_MAX_AGE {
        seq![Registration { age: (reg.age + 1) as u32, ..reg }]
    } else {
        Seq::empty()
    }
}

/// The registrations after a tick, in their order.
pub open spec fn aged_registrations(
    regs: Seq<Registration>,
    objs: Map<ObjectHandle, RetainedObject>,
) -> Seq<Registration>
    decreases regs.len(),
{
    if regs.len() == 0 {
        Seq::empty()
    } else {
        aged_registrations(regs.drop_last(), objs) + aged(regs.last(), objs)
    }
}

/// A ray through the center of a live marker always hovers it; a ray that
/// passes farther from the center than the marker's hit radius fires none of
/// its callbacks.
pub proof fn lemma_hover_follows_distance(
    reg: Registration,
    objs: Map<ObjectHandle, RetainedObject>,
    ray: Ray,
    just_pressed: bool,
)
    requires
        objs.contains_key(reg.owner),
    ensures
        passes_through(ray, objs[reg.owner].translation) && reg.bindings.on_hover is Some
            ==> binding_callbacks(
            reg.bindings,
            registration_hit(reg, objs, ray),
            just_pressed,
        ).contains(Callback::Hover(reg.bindings.on_hover->Some_0)),
        passes_farther_than(ray, objs[reg.owner].translation, objs[reg.owner].scale.x)
            ==> binding_callbacks(reg.bindings, registration_hit(reg, objs, ray), just_pressed)
            == Seq::<Callback>::empty(),
{
    let o = objs[reg.owner];
    if passes_through(ray, o.translation) {
        lemma_ray_through_center_hits(ray, o.translation, o.scale.x);
        if reg.bindings.on_hover is Some {
            let cbs = binding_callbacks(reg.bindings, true, just_pressed);
            assert(cbs[0] == Callback::Hover(reg.bindings.on_hover->Some_0));
        }
    }
    if passes_farther_than(ray, o.translation, o.scale.x) {
        lemma_ray_farther_than_radius_misses(ray, o.translation, o.scale.x);
    }
}

/// Whether `cbs` holds a click callback of either kind.
pub open spec fn has_click(cbs: Seq<Callback>) -> bool {
    exists|i: int| 0 <= i < cbs.len() && (cbs[i] is Click || cbs[i] is ClickSystem)
}

/// A marker fires a click callback exactly when it is hit on a press edge
/// and has one.
pub proof fn lemma_click_needs_hit_and_press(b: GizmoInteractions, hit: bool, just_pressed: bool)
    ensures
        has_click(binding_callbacks(b, hit, just_pressed)) <==> (hit && just_pressed && (
        b.on_click is Some || b.on_click_system is Some)),
{
    let cbs = binding_callbacks(b, hit, just_pressed);
    if hit && just_pressed {
        if b.on_click is Some {
            let k: int = if b.on_hover is Some { 1 } else { 0 };
            assert(cbs[k] is Click);
        } else if b.on_click_system is Some {
            assert(cbs[cbs.len() - 1] is ClickSystem);
        } else {
            assert forall|i: int| 0 <= i < cbs.len() implies !(cbs[i] is Click || cbs[i] is ClickSystem) by {
            }
        }
    } else if hit {
        assert forall|i: int| 0 <= i < cbs.len() implies !(cbs[i] is Click || cbs[i] is ClickSystem) by {
        }
    }
}

/// The press edge of each tick, from the button's level on each tick and on
/// the tick before the first.
pub open spec fn press_edges(was_down: bool, levels: Seq<bool>) -> Seq<bool>
    decreases levels.len(),
{
    if levels.len() == 0 {
        Seq::empty()
    } else {
        let before = if levels.len() == 1 {
            was_down
        } else {
            levels[levels.len() - 2]
        };
        press_edges(was_down, levels.drop_last()).push(levels.last() && !before)
    }
}

proof fn lemma_press_edges_len(was_down: bool, levels: Seq<bool>)
    ensures
        press_edges(was_down, levels).len() == levels.len(),
    decreases levels.len(),
{
    if levels.len() > 0 {
        lemma_press_edges_len(was_down, levels.drop_last());
    }
}

proof fn lemma_held_button_edges(levels: Seq<bool>)
    requires
        forall|t: int| 0 <= t < levels.len() ==> levels[t],
    ensures
        press_edges(false, levels).len() == levels.len(),
        forall|t: int| 0 <= t < levels.len() ==> press_edges(false, levels)[t] == (t == 0),
    decreases levels.len(),
{
    lemma_press_edges_len(false, levels);
    if levels.len() > 0 {
        lemma_held_button_edges(levels.drop_last());
        assert forall|t: int| 0 <= t < levels.len() implies press_edges(false, levels)[t] == (t
            == 0) by {
            if t < levels.len() - 1 {
                assert(press_edges(false, levels)[t] == press_edges(false, levels.drop_last())[t]);
            }
        }
    }
}

/// A button pressed after being released and then held down over ticks on
/// which the marker stays hit fires its click callbacks on the first tick
/// only, whatever the number of ticks.
pub proof fn lemma_held_button_clicks_once(b: GizmoInteractions, levels: Seq<bool>)
    requires
        forall|t: int| 0 <= t < levels.len() ==> levels[t],
        b.on_click is Some,
    ensures
        forall|t: int|
            0 <= t < levels.len() ==> (has_click(
                binding_callbacks(b, true, #[trigger] press_edges(false, levels)[t]),
            ) <==> t == 0),
{
    lemma_held_button_edges(levels);
    assert forall|t: int| 0 <= t < levels.len() implies (has_click(
        binding_callbacks(b, true, #[trigger] press_edges(false, levels)[t]),
    ) <==> t == 0) by {
        lemma_click_needs_hit_and_press(b, true, press_edges(false, levels)[t]);
    }
}

/// Turns the primary button's level on each tick into a press edge, so that
/// a held button clicks once per press.
pub struct PointerButton {
    down: bool,
}

impl PointerButton {
    pub closed spec fn is_down(&self) -> bool {
        self.down
    }

    /// A released button.
    pub fn new() -> (b: PointerButton)
        ensures
            !b.is_down(),
    {
        PointerButton { down: false }
    }

    /// Records this tick's level and tells whether the button was pressed on
    /// this tick, after being up on the previous one.
    pub fn update(&mut self, down: bool) -> (just_pressed: bool)
        ensures
            just_pressed == (down && !old(self).is_down()),
            final(self).is_down() == down,
    {
        let just_pressed = down && !self.down;
        self.down = down;
        just_pressed
    }
}

/// Appends the callbacks a marker fires on this tick.
pub fn push_callbacks(
    out: &mut Vec<Callback>,
    b: GizmoInteractions,
    hit: bool,
    just_pressed: bool,
)
    ensures
        final(out)@ == old(out)@ + binding_callbacks(b, hit, just_pressed),
{
    let ghost start = out@;
    if hit {
        if let Some(h) = b.on_hover {
            out.push(Callback::Hover(h));
        }
        if just_pressed {
            if let Some(h) = b.on_click {
                out.push(Callback::Click(h));
            }
        }
        if let Some(h) = b.on_hover_system {
            out.push(Callback::HoverSystem(h));
        }
        if just_pressed {
            if let Some(h) = b.on_click_system {
                out.push(Callback::ClickSystem(h));
            }
        }
    }
    assert(out@ =~= start + binding_callbacks(b, hit, just_pressed));
}

} // verus!
