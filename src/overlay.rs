//! The overlay's retained scene: the per-tick cleanup and spawn phases, and
//! persistent objects that live until removed by handle.
use crate::arena::{lemma_retired_never_live, ObjectArena, ObjectHandle};
use crate::color::Color;
use crate::geometry::{ray_hits, Ray, Rotation, Scale3, Vec3i, FIXED_ONE};
use crate::interactions::{
    aged, aged_registrations, fired_callbacks, push_callbacks, Callback, REGISTRATION_MAX_AGE,
};
use crate::gizmo::{Gizmo, GizmoInteractions, Line, LineView, Shape};
use crate::materials::{resolved, resolved_all, MaterialCache, MaterialId};
use crate::mesh::{build_line_mesh, is_strip_through, LineMesh};
use crate::queue::{line_views, SubmissionQueue};
use vstd::prelude::*;

verus! {

/// What a retained object draws.
#[derive(Debug)]
pub enum Visual {
    Marker(Shape),
    Line(LineMesh),
}

/// The materialized, renderer-visible form of a marker or a line.
#[derive(Debug)]
pub struct RetainedObject {
    pub visual: Visual,
    pub translation: Vec3i,
    pub rotation: Rotation,
    pub scale: Scale3,
    pub material: MaterialId,
    /// Despawned by the next cleanup phase.
    pub ephemeral: bool,
}

/// The interaction bindings of one marker, keyed by its object's handle.
/// `age` counts the ticks since its object was last seen live.
#[derive(Clone, Copy, Debug, PartialEq, Eq, Structural)]
pub struct Registration {
    pub owner: ObjectHandle,
    pub bindings: GizmoInteractions,
    pub age: u32,
}

/// `o` draws marker `g` in a material of `g`'s color.
pub open spec fn shows_marker(o: RetainedObject, g: Gizmo, mats: Seq<Color>, ephemeral: bool) -> bool {
    &&& o.visual is Marker
    &&& o.visual->Marker_0 == g.shape
    &&& o.translation == g.translation
    &&& o.rotation == g.rotation
    &&& o.scale == g.scale
    &&& o.material.0 < mats.len()
    &&& mats[o.material.0 as int] == g.color
    &&& o.ephemeral == ephemeral
}

/// `o` draws line `l` in a material of its color; the mesh holds the points
/// in world space, so the transform is the identity.
pub open spec fn shows_line(o: RetainedObject, l: LineView, mats: Seq<Color>, ephemeral: bool) -> bool {
    &&& o.visual is Line
    &&& is_strip_through(o.visual->Line_0, l.points)
    &&& o.translation == (Vec3i { x: 0, y: 0, z: 0 })
    &&& o.rotation == Rotation::identity_spec()
    &&& o.scale == (Scale3 { x: FIXED_ONE as u32, y: FIXED_ONE as u32, z: FIXED_ONE as u32 })
    &&& o.material.0 < mats.len()
    &&& mats[o.material.0 as int] == l.color
    &&& o.ephemeral == ephemeral
}

/// The registration a marker spawned under `h` adds: one if it has any
/// binding, none otherwise.
pub open spec fn registration_for(g: Gizmo, h: ObjectHandle) -> Seq<Registration> {
    if g.interactions.is_empty() {
        Seq::empty()
    } else {
        seq![Registration { owner: h, bindings: g.interactions, age: 0 }]
    }
}

/// The registrations that markers `gs`, spawned under `hs`, add in order.
pub open spec fn registrations_for(gs: Seq<Gizmo>, hs: Seq<ObjectHandle>) -> Seq<Registration>
    decreases gs.len(),
{
    if gs.len() == 0 {
        Seq::empty()
    } else {
        registrations_for(gs.drop_last(), hs) + registration_for(gs.last(), hs[gs.len() - 1])
    }
}

/// The colors of markers and then of lines, in the order they are spawned.
pub open spec fn spawn_colors(gs: Seq<Gizmo>, ls: Seq<LineView>) -> Seq<Color> {
    Seq::new(gs.len(), |i: int| gs[i].color) + Seq::new(ls.len(), |i: int| ls[i].color)
}

/// `after` holds exactly the persistent objects of `before`, unchanged.
pub open spec fn persistent_part(
    before: Map<ObjectHandle, RetainedObject>,
    after: Map<ObjectHandle, RetainedObject>,
) -> bool {
    &&& forall|h: ObjectHandle| #[trigger]
        after.contains_key(h) <==> (before.contains_key(h) && !before[h].ephemeral)
    &&& forall|h: ObjectHandle| #[trigger] after.contains_key(h) ==> after[h] == before[h]
}

/// A marker that a spawn phase materialized is gone once the next cleanup
/// phase has run, whatever else was submitted meanwhile: spawn makes it
/// ephemeral, and cleanup keeps only persistent objects.
pub proof fn lemma_spawned_marker_gone_after_cleanup(
    before: Map<ObjectHandle, RetainedObject>,
    after: Map<ObjectHandle, RetainedObject>,
    h: ObjectHandle,
    g: Gizmo,
    mats: Seq<Color>,
)
    requires
        before.contains_key(h),
        shows_marker(before[h], g, mats, true),
        persistent_part(before, after),
    ensures
        !after.contains_key(h),
{
}

/// What a spawn phase reports to the host.
pub struct SpawnReport {
    /// The handles of the new objects: one per marker, then one per line.
    pub spawned: Vec<ObjectHandle>,
    /// The materials created, in order of creation.
    pub new_materials: Vec<MaterialId>,
}

proof fn lemma_registrations_for_agree(
    gs: Seq<Gizmo>,
    hs1: Seq<ObjectHandle>,
    hs2: Seq<ObjectHandle>,
)
    requires
        hs1.len() >= gs.len(),
        hs2.len() >= gs.len(),
        forall|i: int| 0 <= i < gs.len() ==> hs1[i] == hs2[i],
    ensures
        registrations_for(gs, hs1) == registrations_for(gs, hs2),
    decreases gs.len(),
{
    if gs.len() > 0 {
        lemma_registrations_for_agree(gs.drop_last(), hs1, hs2);
    }
}

/// The retained scene, its materials and its interaction registrations.
pub struct Overlay {
    materials: MaterialCache,
    objects: ObjectArena<RetainedObject>,
    registrations: Vec<Registration>,
}

impl Overlay {
    /// The live objects by handle.
    pub closed spec fn objects(&self) -> Map<ObjectHandle, RetainedObject> {
        self.objects.live()
    }

    /// The color of each material, indexed by `MaterialId`.
    pub closed spec fn materials(&self) -> Seq<Color> {
        self.materials.materials()
    }

    pub closed spec fn registrations(&self) -> Seq<Registration> {
        self.registrations@
    }

    /// Handles whose object has been despawned; none is ever live again.
    pub closed spec fn is_retired(&self, h: ObjectHandle) -> bool {
        self.objects.is_retired(h)
    }

    pub closed spec fn wf(&self) -> bool {
        &&& self.materials.wf()
        &&& self.objects.wf()
        &&& forall|i: int|
            0 <= i < self.registrations@.len() ==> self.objects.live().contains_key(
                #[trigger] self.registrations@[i].owner,
            ) || self.objects.is_retired(self.registrations@[i].owner)
    }

    pub fn new() -> (o: Overlay)
        ensures
            o.wf(),
            o.objects() == Map::<ObjectHandle, RetainedObject>::empty(),
            o.materials() == Seq::<Color>::empty(),
            o.registrations() == Seq::<Registration>::empty(),
            forall|h: ObjectHandle| !o.is_retired(h),
    {
        Overlay {
            materials: MaterialCache::new(),
            objects: ObjectArena::new(),
            registrations: Vec::new(),
        }
    }

    /// Materials of one color are one material, and a retired handle is
    /// never live.
    pub proof fn lemma_wf_facts(&self)
        requires
            self.wf(),
        ensures
            self.materials().no_duplicates(),
            forall|h: ObjectHandle| self.is_retired(h) ==> !self.objects().contains_key(h),
    {
        assert forall|h: ObjectHandle| self.is_retired(h) implies !self.objects().contains_key(h) by {
            lemma_retired_never_live(&self.objects, h);
        }
    }

    /// A registration whose object is gone has a retired owner, and a
    /// retired handle is never live again in any later state: an orphaned
    /// registration is never active again.
    pub proof fn lemma_orphan_never_reactivates(&self, i: int)
        requires
            self.wf(),
            0 <= i < self.registrations().len(),
            !self.objects().contains_key(self.registrations()[i].owner),
        ensures
            self.is_retired(self.registrations()[i].owner),
    {
        assert(self.registrations@[i].owner == self.registrations()[i].owner);
    }

    /// The object under `h`, unless `h` is stale or unknown.
    pub fn object(&self, h: ObjectHandle) -> (r: Option<&RetainedObject>)
        ensures
            r == if self.objects().contains_key(h) {
                Some(&self.objects()[h])
            } else {
                None::<&RetainedObject>
            },
    {
        self.objects.get(h)
    }

    /// The color of material `id`, if it exists.
    pub fn material_color(&self, id: MaterialId) -> (c: Option<Color>)
        ensures
            c == if id.0 < self.materials().len() {
                Some(self.materials()[id.0 as int])
            } else {
                None::<Color>
            },
    {
        self.materials.color_of(id)
    }

    pub fn material_count(&self) -> (n: usize)
        ensures
            n == self.materials().len(),
    {
        self.materials.len()
    }

    pub fn registration_count(&self) -> (n: usize)
        ensures
            n == self.registrations().len(),
    {
        self.registrations.len()
    }

    /// The `i`-th registration, if there are more than `i`.
    pub fn registration(&self, i: usize) -> (r: Option<Registration>)
        ensures
            r == if i < self.registrations().len() {
                Some(self.registrations()[i as int])
            } else {
                None::<Registration>
            },
    {
        if i < self.registrations.len() {
            Some(self.registrations[i])
        } else {
            None
        }
    }

    fn spawn_marker(&mut self, g: Gizmo, ephemeral: bool) -> (r: (ObjectHandle, MaterialId, bool))
        requires
            old(self).wf(),
        ensures
            final(self).wf(),
            final(self).materials() == resolved(old(self).materials(), g.color),
            r.2 == !old(self).materials().contains(g.color),
            r.2 ==> r.1.0 == old(self).materials().len(),
            r.1.0 < final(self).materials().len(),
            final(self).materials()[r.1.0 as int] == g.color,
            !old(self).objects().contains_key(r.0),
            !old(self).is_retired(r.0),
            final(self).objects() == old(self).objects().insert(r.0, final(self).objects()[r.0]),
            shows_marker(final(self).objects()[r.0], g, final(self).materials(), ephemeral),
            final(self).registrations() == old(self).registrations() + registration_for(g, r.0),
            forall|h: ObjectHandle| #[trigger] final(self).is_retired(h) == old(self).is_retired(h),
    {
        let (material, created) = self.materials.resource_for(g.color);
        let obj = RetainedObject {
            visual: Visual::Marker(g.shape),
            translation: g.translation,
            rotation: g.rotation,
            scale: g.scale,
            material,
            ephemeral,
        };
        let h = self.objects.insert(obj);
        if g.interactions.has_any() {
            self.registrations.push(Registration { owner: h, bindings: g.interactions, age: 0 });
        } else {
            assert(self.registrations@ =~= old(self).registrations@ + registration_for(g, h));
        }
        (h, material, created)
    }

    fn spawn_line(&mut self, line: &Line, ephemeral: bool) -> (r: (ObjectHandle, MaterialId, bool))
        requires
            old(self).wf(),
        ensures
            final(self).wf(),
            final(self).materials() == resolved(old(self).materials(), line@.color),
            r.2 == !old(self).materials().contains(line@.color),
            r.2 ==> r.1.0 == old(self).materials().len(),
            r.1.0 < final(self).materials().len(),
            final(self).materials()[r.1.0 as int] == line@.color,
            !old(self).objects().contains_key(r.0),
            !old(self).is_retired(r.0),
            final(self).objects() == old(self).objects().insert(r.0, final(self).objects()[r.0]),
            shows_line(final(self).objects()[r.0], line@, final(self).materials(), ephemeral),
            final(self).registrations() == old(self).registrations(),
            forall|h: ObjectHandle| #[trigger] final(self).is_retired(h) == old(self).is_retired(h),
    {
        let (material, created) = self.materials.resource_for(line.color);
        let mesh = build_line_mesh(&line.points);
        let obj = RetainedObject {
            visual: Visual::Line(mesh),
            translation: Vec3i::zero(),
            rotation: Rotation::identity(),
            scale: Scale3::splat(FIXED_ONE as u32),
            material,
            ephemeral,
        };
        let h = self.objects.insert(obj);
        (h, material, created)
    }

    /// Spawns `gizmo` as a persistent object: cleanup leaves it, and only
    /// `remove` takes it away. Returns its handle, its material, and whether
    /// that material was created by this call.
    pub fn add_persistent(&mut self, gizmo: Gizmo) -> (r: (ObjectHandle, MaterialId, bool))
        requires
            old(self).wf(),
        ensures
            final(self).wf(),
            final(self).materials() == resolved(old(self).materials(), gizmo.color),
            r.2 == !old(self).materials().contains(gizmo.color),
            r.2 ==> r.1.0 == old(self).materials().len(),
            r.1.0 < final(self).materials().len(),
            final(self).materials()[r.1.0 as int] == gizmo.color,
            !old(self).objects().contains_key(r.0),
            !old(self).is_retired(r.0),
            final(self).objects() == old(self).objects().insert(r.0, final(self).objects()[r.0]),
            shows_marker(final(self).objects()[r.0], gizmo, final(self).materials(), false),
            final(self).registrations() == old(self).registrations() + registration_for(gizmo, r.0),
            forall|h: ObjectHandle| #[trigger] final(self).is_retired(h) == old(self).is_retired(h),
    {
        self.spawn_marker(gizmo, false)
    }

    /// Despawns the object under `h`, persistent or not. A stale or unknown
    /// handle changes nothing and returns `false`.
    pub fn remove(&mut self, h: ObjectHandle) -> (removed: bool)
        requires
            old(self).wf(),
        ensures
            final(self).wf(),
            removed == old(self).objects().contains_key(h),
            final(self).objects() == old(self).objects().remove(h),
            final(self).materials() == old(self).materials(),
            final(self).registrations() == old(self).registrations(),
            forall|g: ObjectHandle| #[trigger]
                final(self).is_retired(g) == (old(self).is_retired(g) || (g == h && removed)),
    {
        let r = self.objects.remove(h);
        r.is_some()
    }

    /// Despawns every ephemeral object and returns their handles; persistent
    /// objects stay as they are.
    pub fn cleanup(&mut self) -> (despawned: Vec<ObjectHandle>)
        requires
            old(self).wf(),
        ensures
            final(self).wf(),
            persistent_part(old(self).objects(), final(self).objects()),
            despawned@.no_duplicates(),
            forall|h: ObjectHandle| #[trigger]
                despawned@.contains(h) <==> (old(self).objects().contains_key(h)
                    && old(self).objects()[h].ephemeral),
            forall|h: ObjectHandle| #[trigger]
                final(self).is_retired(h) == (old(self).is_retired(h) || despawned@.contains(h)),
            final(self).materials() == old(self).materials(),
            final(self).registrations() == old(self).registrations(),
    {
        let ghost o = self.objects();
        let n = self.objects.slot_count();
        proof {
            assert forall|h: ObjectHandle| o.contains_key(h) implies h.index < n by {
                self.objects.lemma_live_below_capacity(h);
            }
        }
        let mut despawned: Vec<ObjectHandle> = Vec::new();
        let mut i: usize = 0;
        while i < n
            invariant
                self.wf(),
                i <= n,
                n == self.objects.capacity(),
                forall|h: ObjectHandle| o.contains_key(h) ==> h.index < n,
                self.materials() == old(self).materials(),
                self.registrations() == old(self).registrations(),
                o == old(self).objects(),
                forall|h: ObjectHandle|
                    h.index >= i ==> (#[trigger] self.objects().contains_key(h) == o.contains_key(h)),
                forall|h: ObjectHandle|
                    h.index < i ==> (#[trigger] self.objects().contains_key(h) <==> (o.contains_key(h)
                        && !o[h].ephemeral)),
                forall|h: ObjectHandle| #[trigger]
                    self.objects().contains_key(h) ==> self.objects()[h] == o[h],
                despawned@.no_duplicates(),
                forall|h: ObjectHandle| #[trigger]
                    despawned@.contains(h) <==> (h.index < i && o.contains_key(h) && o[h].ephemeral),
                forall|h: ObjectHandle| #[trigger]
                    self.is_retired(h) == (old(self).is_retired(h) || despawned@.contains(h)),
            decreases n - i,
        {
            let ghost prev = self.objects();
            let ghost prev_d = despawned@;
            let ghost prev_self = *self;
            let slot = self.objects.handle_at(i);
            if let Some(h) = slot {
                let ephemeral = match self.objects.get(h) {
                    Some(obj) => obj.ephemeral,
                    None => false,
                };
                assert(ephemeral == o[h].ephemeral);
                if ephemeral {
                    self.objects.remove(h);
                    despawned.push(h);
                    proof {
                        assert(!prev_d.contains(h));
                        assert forall|g: ObjectHandle|
                            #[trigger] despawned@.contains(g) <==> (prev_d.contains(g) || g == h) by {
                            if despawned@.contains(g) && g != h {
                                let k = choose|k: int| 0 <= k < despawned@.len() && despawned@[k] == g;
                                assert(prev_d[k] == g);
                            }
                            if g == h {
                                assert(despawned@[despawned@.len() - 1] == g);
                            }
                            if prev_d.contains(g) {
                                let k = choose|k: int| 0 <= k < prev_d.len() && prev_d[k] == g;
                                assert(despawned@[k] == g);
                            }
                        }
                    }
                }
                proof {
                    assert forall|g: ObjectHandle| g.index == i implies
                        (#[trigger] self.objects().contains_key(g) <==> (o.contains_key(g)
                        && !o[g].ephemeral)) && (despawned@.contains(g) <==> (o.contains_key(g)
                        && o[g].ephemeral)) by {
                        if o.contains_key(g) {
                            assert(prev.contains_key(g));
                            assert(g == h);
                        }
                        if prev_d.contains(g) {
                            assert(g.index < i);
                        }
                    }
                }
            } else {
                proof {
                    assert forall|g: ObjectHandle| g.index == i implies !o.contains_key(g)
                        && !#[trigger] self.objects().contains_key(g) by {
                        if o.contains_key(g) {
                            assert(prev.contains_key(g));
                        }
                    }
                }
            }
            proof {
                assert forall|g: ObjectHandle| #[trigger] despawned@.contains(g) <==> (g.index < i + 1
                    && o.contains_key(g) && o[g].ephemeral) by {
                    assert(prev_d.contains(g) <==> (g.index < i && o.contains_key(g)
                        && o[g].ephemeral));
                    if g.index != i {
                        if despawned@.contains(g) != prev_d.contains(g) {
                            assert(despawned@.contains(g) <==> (prev_d.contains(g) || g == slot->Some_0));
                        }
                    } else if slot is None {
                        assert(!prev.contains_key(g));
                        assert(prev.contains_key(g) == o.contains_key(g));
                    } else {
                        assert(self.objects().contains_key(g) <==> (o.contains_key(g)
                            && !o[g].ephemeral));
                    }
                }
                assert forall|g: ObjectHandle| #[trigger]
                    self.is_retired(g) == (old(self).is_retired(g) || despawned@.contains(g)) by {
                    assert(prev_self.is_retired(g) == (old(self).is_retired(g) || prev_d.contains(g)));
                    if despawned@.contains(g) != prev_d.contains(g) {
                        assert(despawned@.contains(g) <==> (prev_d.contains(g) || g == slot->Some_0));
                    }
                }
            }
            i += 1;
        }
        despawned
    }

    /// Drains `queue` and materializes its contents as ephemeral objects:
    /// each marker, then each line, gets a new handle and a material of its
    /// color, created on first use; markers with bindings get registrations.
    #[verifier::rlimit(40)]
    pub fn spawn(&mut self, queue: &mut SubmissionQueue) -> (r: SpawnReport)
        requires
            old(self).wf(),
        ensures
            final(self).wf(),
            final(queue).markers() == Seq::<Gizmo>::empty(),
            final(queue).pending_lines() == Seq::<LineView>::empty(),
            r.spawned@.len() == old(queue).markers().len() + old(queue).pending_lines().len(),
            r.spawned@.no_duplicates(),
            forall|k: int|
                0 <= k < r.spawned@.len() ==> !old(self).objects().contains_key(
                    #[trigger] r.spawned@[k],
                ) && !old(self).is_retired(r.spawned@[k]),
            forall|h: ObjectHandle| #[trigger]
                final(self).objects().contains_key(h) <==> (old(self).objects().contains_key(h)
                    || r.spawned@.contains(h)),
            forall|h: ObjectHandle| #[trigger]
                old(self).objects().contains_key(h) ==> final(self).objects()[h]
                    == old(self).objects()[h],
            forall|k: int|
                0 <= k < old(queue).markers().len() ==> shows_marker(
                    final(self).objects()[#[trigger] r.spawned@[k]],
                    old(queue).markers()[k],
                    final(self).materials(),
                    true,
                ),
            forall|k: int|
                0 <= k < old(queue).pending_lines().len() ==> shows_line(
                    final(self).objects()[r.spawned@[old(queue).markers().len() + k]],
                    #[trigger] old(queue).pending_lines()[k],
                    final(self).materials(),
                    true,
                ),
            final(self).materials() == resolved_all(
                old(self).materials(),
                spawn_colors(old(queue).markers(), old(queue).pending_lines()),
            ),
            r.new_materials@.len() == final(self).materials().len() - old(self).materials().len(),
            forall|k: int|
                0 <= k < r.new_materials@.len() ==> (#[trigger] r.new_materials@[k]).0
                    == old(self).materials().len() + k,
            final(self).registrations() == old(self).registrations() + registrations_for(
                old(queue).markers(),
                r.spawned@,
            ),
            forall|h: ObjectHandle| #[trigger] final(self).is_retired(h) == old(self).is_retired(h),
    {
        let (gizmos, lines) = queue.drain();
        let ghost ms = gizmos@;
        let ghost ls = line_views(lines@);
        let ghost o = self.objects();
        let ghost m0 = self.materials();
        let mut spawned: Vec<ObjectHandle> = Vec::new();
        let mut new_materials: Vec<MaterialId> = Vec::new();
        let mut i: usize = 0;
        proof {
            assert(spawn_colors(ms.subrange(0, 0), Seq::empty()) =~= Seq::<Color>::empty());
            assert(registrations_for(ms.subrange(0, 0), spawned@) =~= Seq::<Registration>::empty());
            assert(self.registrations() =~= old(self).registrations() + Seq::<Registration>::empty());
        }
        while i < gizmos.len()
            invariant
                self.wf(),
                i <= gizmos@.len(),
                gizmos@ == ms,
                o == old(self).objects(),
                m0 == old(self).materials(),
                spawned@.len() == i,
                spawned@.no_duplicates(),
                forall|k: int|
                    0 <= k < i ==> !o.contains_key(#[trigger] spawned@[k]) && !old(self).is_retired(
                        spawned@[k],
                    ),
                forall|h: ObjectHandle| #[trigger]
                    self.objects().contains_key(h) <==> (o.contains_key(h) || spawned@.contains(h)),
                forall|h: ObjectHandle| #[trigger]
                    o.contains_key(h) ==> self.objects()[h] == o[h],
                forall|k: int|
                    0 <= k < i ==> shows_marker(
                        self.objects()[#[trigger] spawned@[k]],
                        ms[k],
                        self.materials(),
                        true,
                    ),
                self.materials() == resolved_all(m0, spawn_colors(ms.subrange(0, i as int), Seq::empty())),
                m0.len() <= self.materials().len(),
                forall|j: int| 0 <= j < m0.len() ==> #[trigger] self.materials()[j] == m0[j],
                new_materials@.len() == self.materials().len() - m0.len(),
                forall|k: int|
                    0 <= k < new_materials@.len() ==> (#[trigger] new_materials@[k]).0 == m0.len() + k,
                self.registrations() == old(self).registrations() + registrations_for(
                    ms.subrange(0, i as int),
                    spawned@,
                ),
                forall|h: ObjectHandle| #[trigger] self.is_retired(h) == old(self).is_retired(h),
            decreases gizmos@.len() - i,
        {
            let g = gizmos[i];
            let ghost prev_objs = self.objects();
            let ghost prev_mats = self.materials();
            let ghost prev_sp = spawned@;
            let ghost prev_regs = self.registrations();
            let (h, mid, created) = self.spawn_marker(g, true);
            if created {
                new_materials.push(mid);
            }
            spawned.push(h);
            proof {
                assert(!prev_sp.contains(h));
                assert forall|x: ObjectHandle| #[trigger]
                    spawned@.contains(x) <==> (prev_sp.contains(x) || x == h) by {
                    if spawned@.contains(x) && x != h {
                        let k = choose|k: int| 0 <= k < spawned@.len() && spawned@[k] == x;
                        assert(prev_sp[k] == x);
                    }
                    if x == h {
                        assert(spawned@[spawned@.len() - 1] == x);
                    }
                    if prev_sp.contains(x) {
                        let k = choose|k: int| 0 <= k < prev_sp.len() && prev_sp[k] == x;
                        assert(spawned@[k] == x);
                    }
                }
                assert forall|j: int| 0 <= j < prev_mats.len() implies #[trigger] self.materials()[j]
                    == prev_mats[j] by {
                }
                assert forall|k: int| 0 <= k < i + 1 implies shows_marker(
                    self.objects()[#[trigger] spawned@[k]],
                    ms[k],
                    self.materials(),
                    true,
                ) by {
                    if k < i {
                        assert(spawned@[k] == prev_sp[k]);
                        assert(prev_objs.contains_key(prev_sp[k]));
                        assert(self.materials()[prev_objs[prev_sp[k]].material.0 as int]
                            == prev_mats[prev_objs[prev_sp[k]].material.0 as int]);
                    }
                }
                let cs1 = spawn_colors(ms.subrange(0, i + 1), Seq::empty());
                assert(cs1.drop_last() =~= spawn_colors(ms.subrange(0, i as int), Seq::empty()));
                assert(cs1.last() == g.color);
                assert(ms.subrange(0, i + 1).drop_last() =~= ms.subrange(0, i as int));
                lemma_registrations_for_agree(ms.subrange(0, i as int), spawned@, prev_sp);
            }
            i += 1;
        }
        let mut j: usize = 0;
        proof {
            assert(ms.subrange(0, ms.len() as int) =~= ms);
            assert(spawn_colors(ms, ls.subrange(0, 0)) =~= spawn_colors(ms, Seq::empty()));
        }
        while j < lines.len()
            invariant
                self.wf(),
                j <= lines@.len(),
                ls == line_views(lines@),
                gizmos@ == ms,
                o == old(self).objects(),
                m0 == old(self).materials(),
                spawned@.len() == ms.len() + j,
                spawned@.no_duplicates(),
                forall|k: int|
                    0 <= k < spawned@.len() ==> !o.contains_key(#[trigger] spawned@[k])
                        && !old(self).is_retired(spawned@[k]),
                forall|h: ObjectHandle| #[trigger]
                    self.objects().contains_key(h) <==> (o.contains_key(h) || spawned@.contains(h)),
                forall|h: ObjectHandle| #[trigger]
                    o.contains_key(h) ==> self.objects()[h] == o[h],
                forall|k: int|
                    0 <= k < ms.len() ==> shows_marker(
                        self.objects()[#[trigger] spawned@[k]],
                        ms[k],
                        self.materials(),
                        true,
                    ),
                forall|k: int|
                    0 <= k < j ==> shows_line(
                        self.objects()[spawned@[ms.len() + k]],
                        #[trigger] ls[k],
                        self.materials(),
                        true,
                    ),
                self.materials() == resolved_all(m0, spawn_colors(ms, ls.subrange(0, j as int))),
                m0.len() <= self.materials().len(),
                forall|x: int| 0 <= x < m0.len() ==> #[trigger] self.materials()[x] == m0[x],
                new_materials@.len() == self.materials().len() - m0.len(),
                forall|k: int|
                    0 <= k < new_materials@.len() ==> (#[trigger] new_materials@[k]).0 == m0.len() + k,
                self.registrations() == old(self).registrations() + registrations_for(ms, spawned@),
                forall|h: ObjectHandle| #[trigger] self.is_retired(h) == old(self).is_retired(h),
            decreases lines@.len() - j,
        {
            let ghost prev_objs = self.objects();
            let ghost prev_mats = self.materials();
            let ghost prev_sp = spawned@;
            let (h, mid, created) = self.spawn_line(&lines[j], true);
            if created {
                new_materials.push(mid);
            }
            spawned.push(h);
            proof {
                assert(!prev_sp.contains(h));
                assert forall|x: ObjectHandle| #[trigger]
                    spawned@.contains(x) <==> (prev_sp.contains(x) || x == h) by {
                    if spawned@.contains(x) && x != h {
                        let k = choose|k: int| 0 <= k < spawned@.len() && spawned@[k] == x;
                        assert(prev_sp[k] == x);
                    }
                    if x == h {
                        assert(spawned@[spawned@.len() - 1] == x);
                    }
                    if prev_sp.contains(x) {
                        let k = choose|k: int| 0 <= k < prev_sp.len() && prev_sp[k] == x;
                        assert(spawned@[k] == x);
                    }
                }
                assert forall|x: int| 0 <= x < prev_mats.len() implies #[trigger] self.materials()[x]
                    == prev_mats[x] by {
                }
                assert forall|k: int| 0 <= k < ms.len() implies shows_marker(
                    self.objects()[#[trigger] spawned@[k]],
                    ms[k],
                    self.materials(),
                    true,
                ) by {
                    assert(spawned@[k] == prev_sp[k]);
                    assert(prev_objs.contains_key(prev_sp[k]));
                    assert(self.materials()[prev_objs[prev_sp[k]].material.0 as int]
                        == prev_mats[prev_objs[prev_sp[k]].material.0 as int]);
                }
                assert forall|k: int| 0 <= k < j + 1 implies shows_line(
                    self.objects()[spawned@[ms.len() + k]],
                    #[trigger] ls[k],
                    self.materials(),
                    true,
                ) by {
                    if k < j {
                        assert(spawned@[ms.len() + k] == prev_sp[ms.len() + k]);
                        assert(prev_objs.contains_key(prev_sp[ms.len() + k]));
                        assert(shows_line(prev_objs[prev_sp[ms.len() + k]], ls[k], prev_mats, true));
                        assert(self.materials()[prev_objs[prev_sp[ms.len() + k]].material.0 as int]
                            == prev_mats[prev_objs[prev_sp[ms.len() + k]].material.0 as int]);
                    } else {
                        assert(spawned@[ms.len() + k] == h);
                        assert(ls[k] == lines@[k]@);
                    }
                }
                let cs1 = spawn_colors(ms, ls.subrange(0, j + 1));
                assert(cs1.drop_last() =~= spawn_colors(ms, ls.subrange(0, j as int)));
                assert(cs1.last() == lines@[j as int]@.color);
                lemma_registrations_for_agree(ms, spawned@, prev_sp);
            }
            j += 1;
        }
        proof {
            assert(ls.subrange(0, ls.len() as int) =~= ls);
        }
        SpawnReport { spawned, new_materials }
    }

    /// The interaction phase. Without a ray (no interaction camera, or the
    /// pointer is outside the viewport) the tick is skipped and nothing
    /// changes. Otherwise returns the callbacks fired, registration by
    /// registration, and ages the registrations.
    pub fn interact(&mut self, ray: Option<Ray>, just_pressed: bool) -> (fired: Vec<Callback>)
        requires
            old(self).wf(),
        ensures
            final(self).wf(),
            final(self).objects() == old(self).objects(),
            final(self).materials() == old(self).materials(),
            forall|h: ObjectHandle| #[trigger] final(self).is_retired(h) == old(self).is_retired(h),
            match ray {
                None => {
                    &&& fired@ == Seq::<Callback>::empty()
                    &&& final(self).registrations() == old(self).registrations()
                },
                Some(ray) => {
                    &&& fired@ == fired_callbacks(
                        old(self).registrations(),
                        old(self).objects(),
                        ray,
                        just_pressed,
                    )
                    &&& final(self).registrations() == aged_registrations(
                        old(self).registrations(),
                        old(self).objects(),
                    )
                },
            },
    {
        let mut fired: Vec<Callback> = Vec::new();
        let ray = match ray {
            Some(r) => r,
            None => {
                return fired;
            },
        };
        let ghost regs = self.registrations@;
        let ghost objs = self.objects();
        let mut kept: Vec<Registration> = Vec::new();
        let mut i: usize = 0;
        while i < self.registrations.len()
            invariant
                self.wf(),
                self.registrations@ == regs,
                self.objects() == objs,
                regs == old(self).registrations(),
                objs == old(self).objects(),
                self.materials() == old(self).materials(),
                forall|h: ObjectHandle| #[trigger] self.is_retired(h) == old(self).is_retired(h),
                i <= regs.len(),
                fired@ == fired_callbacks(regs.subrange(0, i as int), objs, ray, just_pressed),
                kept@ == aged_registrations(regs.subrange(0, i as int), objs),
                forall|k: int|
                    0 <= k < kept@.len() ==> objs.contains_key(#[trigger] kept@[k].owner)
                        || self.is_retired(kept@[k].owner),
            decreases regs.len() - i,
        {
            let reg = self.registrations[i];
            proof {
                assert(regs.subrange(0, i + 1).drop_last() =~= regs.subrange(0, i as int));
                assert(regs.subrange(0, i + 1).last() == reg);
            }
            match self.objects.get(reg.owner) {
                Some(obj) => {
                    let hit = ray_hits(&ray, &obj.translation, obj.scale.x);
                    push_callbacks(&mut fired, reg.bindings, hit, just_pressed);
                    kept.push(Registration { age: 0, ..reg });
                    proof {
                        assert(aged(reg, objs) =~= seq![Registration { age: 0, ..reg }]);
                    }
                },
                None => {
                    let ghost before = fired@;
                    push_callbacks(&mut fired, reg.bindings, false, just_pressed);
                    if reg.age < REGISTRATION_MAX_AGE {
                        kept.push(Registration { age: reg.age + 1, ..reg });
                        proof {
                            assert(aged(reg, objs) =~= seq![Registration { age: (reg.age + 1) as u32, ..reg }]);
                        }
                    } else {
                        proof {
                            assert(aged_registrations(regs.subrange(0, i + 1), objs) =~= kept@);
                        }
                    }
                },
            }
            i += 1;
        }
        proof {
            assert(regs.subrange(0, regs.len() as int) =~= regs);
        }
        self.registrations = kept;
        fired
    }
}

} // verus!
