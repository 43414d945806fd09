//! The world: entities, one container per component type, and the
//! per-tick resources.
use vstd::prelude::*;
use crate::ecs::components::{Camera, Control, Entity, Render, Transform, Velocity};
use crate::ecs::resources::{default_input, patched, DeltaTime, Input, InputPatch};
use crate::ecs::storage::{ComponentStorage, DenseStorage, SparseStorage};

verus! {

/// The mathematical model of a `World`.
pub struct WorldModel {
    pub next_id: usize,
    pub transforms: Map<usize, Transform>,
    pub velocities: Map<usize, Velocity>,
    pub renders: Map<usize, Render>,
    pub cameras: Map<usize, Camera>,
    pub controls: Map<usize, Control>,
    pub input: Input,
    pub delta: u64,
}

impl WorldModel {
    /// Every container holds only entities that the world has created.
    pub open spec fn wf(self) -> bool {
        &&& forall|k: usize| self.transforms.contains_key(k) ==> k < self.next_id
        &&& forall|k: usize| self.velocities.contains_key(k) ==> k < self.next_id
        &&& forall|k: usize| self.renders.contains_key(k) ==> k < self.next_id
        &&& forall|k: usize| self.cameras.contains_key(k) ==> k < self.next_id
        &&& forall|k: usize| self.controls.contains_key(k) ==> k < self.next_id
    }
}

/// No entities, every container empty, default input, no elapsed time.
pub open spec fn empty_world() -> WorldModel {
    WorldModel {
        next_id: 0,
        transforms: Map::empty(),
        velocities: Map::empty(),
        renders: Map::empty(),
        cameras: Map::empty(),
        controls: Map::empty(),
        input: default_input(),
        delta: 0,
    }
}

/// The entities below `n`, in increasing order, whose index lies in `s`.
pub open spec fn joined(n: nat, s: Set<usize>) -> Seq<Entity>
    decreases n,
{
    if n == 0 {
        Seq::empty()
    } else {
        let prev = joined((n - 1) as nat, s);
        if s.contains((n - 1) as usize) {
            prev.push(Entity { id: (n - 1) as usize })
        } else {
            prev
        }
    }
}

/// A joined sequence is strictly increasing and holds exactly the indices
/// below `n` that lie in `s`.
pub proof fn lemma_joined(n: nat, s: Set<usize>)
    requires
        n <= usize::MAX + 1,
    ensures
        forall|i: int, j: int|
            0 <= i < j < joined(n, s).len() ==> joined(n, s)[i].id < joined(n, s)[j].id,
        forall|i: int|
            0 <= i < joined(n, s).len() ==> joined(n, s)[i].id < n && s.contains(
                #[trigger] joined(n, s)[i].id,
            ),
        forall|k: usize|
            k < n && s.contains(k) ==> exists|i: int|
                0 <= i < joined(n, s).len() && #[trigger] joined(n, s)[i].id == k,
    decreases n,
{
    if n > 0 {
        lemma_joined((n - 1) as nat, s);
        let prev = joined((n - 1) as nat, s);
        assert forall|k: usize| k < n && s.contains(k) implies exists|i: int|
            0 <= i < joined(n, s).len() && #[trigger] joined(n, s)[i].id == k by {
            if k == n - 1 {
                assert(joined(n, s)[prev.len() as int].id == k);
            } else {
                let i = choose|i: int| 0 <= i < prev.len() && #[trigger] prev[i].id == k;
                assert(joined(n, s)[i].id == k);
            }
        }
    }
}

/// Entities in `s` below `n` in increasing order.
pub open spec fn entities_in(n: usize, s: Set<usize>) -> Seq<Entity> {
    joined(n as nat, s)
}

/// Owns the entities, one container per component type, the input and the
/// elapsed time of the current tick.
pub struct World {
    pub next_id: usize,
    pub transforms: DenseStorage<Transform>,
    pub velocities: DenseStorage<Velocity>,
    pub renders: DenseStorage<Render>,
    pub cameras: SparseStorage<Camera>,
    pub controls: SparseStorage<Control>,
    pub input: Input,
    pub delta: DeltaTime,
}

impl View for World {
    type V = WorldModel;

    open spec fn view(&self) -> WorldModel {
        WorldModel {
            next_id: self.next_id,
            transforms: self.transforms.contents(),
            velocities: self.velocities.contents(),
            renders: self.renders.contents(),
            cameras: self.cameras.contents(),
            controls: self.controls.contents(),
            input: self.input,
            delta: self.delta.0,
        }
    }
}

/// Collects the components of one entity before it is committed.
pub struct EntityBuilder {
    pub transform: Option<Transform>,
    pub velocity: Option<Velocity>,
    pub render: Option<Render>,
    pub camera: Option<Camera>,
    pub control: Option<Control>,
}

/// `m` with `k` bound to the value in `o`, if there is one.
pub open spec fn insert_opt<T>(m: Map<usize, T>, k: usize, o: Option<T>) -> Map<usize, T> {
    match o {
        Some(v) => m.insert(k, v),
        None => m,
    }
}

impl EntityBuilder {
    pub fn new() -> (b: EntityBuilder)
        ensures
            b.transform is None && b.velocity is None && b.render is None,
            b.camera is None && b.control is None,
    {
        EntityBuilder { transform: None, velocity: None, render: None, camera: None, control: None }
    }

    pub fn with_transform(self, t: Transform) -> (b: EntityBuilder)
        ensures
            b == (EntityBuilder { transform: Some(t), ..self }),
    {
        EntityBuilder { transform: Some(t), ..self }
    }

    pub fn with_velocity(self, v: Velocity) -> (b: EntityBuilder)
        ensures
            b == (EntityBuilder { velocity: Some(v), ..self }),
    {
        EntityBuilder { velocity: Some(v), ..self }
    }

    pub fn with_render(self, r: Render) -> (b: EntityBuilder)
        ensures
            b == (EntityBuilder { render: Some(r), ..self }),
    {
        EntityBuilder { render: Some(r), ..self }
    }

    pub fn with_camera(self, c: Camera) -> (b: EntityBuilder)
        ensures
            b == (EntityBuilder { camera: Some(c), ..self }),
    {
        EntityBuilder { camera: Some(c), ..self }
    }

    pub fn with_control(self, c: Control) -> (b: EntityBuilder)
        ensures
            b == (EntityBuilder { control: Some(c), ..self }),
    {
        EntityBuilder { control: Some(c), ..self }
    }
}

impl World {
    /// A world with no entities, every container empty, default input and
    /// no elapsed time.
    pub fn new() -> (w: World)
        ensures
            w@ == empty_world(),
            w@.wf(),
    {
        World {
            next_id: 0,
            transforms: DenseStorage::empty(),
            velocities: DenseStorage::empty(),
            renders: DenseStorage::empty(),
            cameras: SparseStorage::empty(),
            controls: SparseStorage::empty(),
            input: Input::default(),
            delta: DeltaTime(0),
        }
    }

    /// A fresh entity with no components.
    pub fn create_entity(&mut self) -> (e: Entity)
        requires
            old(self)@.wf(),
            old(self).next_id < usize::MAX,
        ensures
            e.id == old(self).next_id,
            final(self)@ == (WorldModel { next_id: (old(self).next_id + 1) as usize, ..old(self)@ }),
            final(self)@.wf(),
    {
        let e = Entity { id: self.next_id };
        self.next_id = self.next_id + 1;
        e
    }

    /// Commits the builder's components under a fresh entity, in one step.
    pub fn build_entity(&mut self, b: EntityBuilder) -> (e: Entity)
        requires
            old(self)@.wf(),
            old(self).next_id < usize::MAX,
        ensures
            e.id == old(self).next_id,
            final(self)@ == (WorldModel {
                next_id: (old(self).next_id + 1) as usize,
                transforms: insert_opt(old(self)@.transforms, e.id, b.transform),
                velocities: insert_opt(old(self)@.velocities, e.id, b.velocity),
                renders: insert_opt(old(self)@.renders, e.id, b.render),
                cameras: insert_opt(old(self)@.cameras, e.id, b.camera),
                controls: insert_opt(old(self)@.controls, e.id, b.control),
                ..old(self)@
            }),
            final(self)@.wf(),
    {
        let e = self.create_entity();
        if let Some(t) = b.transform {
            self.transforms.insert(e.id, t);
        }
        if let Some(v) = b.velocity {
            self.velocities.insert(e.id, v);
        }
        if let Some(r) = b.render {
            self.renders.insert(e.id, r);
        }
        if let Some(c) = b.camera {
            self.cameras.insert(e.id, c);
        }
        if let Some(c) = b.control {
            self.controls.insert(e.id, c);
        }
        e
    }

    pub fn transform(&self, e: Entity) -> (r: Option<Transform>)
        ensures
            r == (if self@.transforms.contains_key(e.id) { Some(self@.transforms[e.id]) } else { None }),
    {
        self.transforms.get(e.id)
    }

    pub fn velocity(&self, e: Entity) -> (r: Option<Velocity>)
        ensures
            r == (if self@.velocities.contains_key(e.id) { Some(self@.velocities[e.id]) } else { None }),
    {
        self.velocities.get(e.id)
    }

    pub fn render(&self, e: Entity) -> (r: Option<Render>)
        ensures
            r == (if self@.renders.contains_key(e.id) { Some(self@.renders[e.id]) } else { None }),
    {
        self.renders.get(e.id)
    }

    pub fn camera(&self, e: Entity) -> (r: Option<Camera>)
        ensures
            r == (if self@.cameras.contains_key(e.id) { Some(self@.cameras[e.id]) } else { None }),
    {
        self.cameras.get(e.id)
    }

    pub fn control(&self, e: Entity) -> (r: Option<Control>)
        ensures
            r == (if self@.controls.contains_key(e.id) { Some(self@.controls[e.id]) } else { None }),
    {
        self.controls.get(e.id)
    }

    /// Replaces the input fields that `p` sets.
    pub fn set_input(&mut self, p: InputPatch)
        ensures
            final(self)@ == (WorldModel { input: patched(old(self)@.input, p), ..old(self)@ }),
    {
        self.input.apply(p);
    }

    /// Sets the elapsed time of the coming tick.
    pub fn advance(&mut self, delta: u64)
        ensures
            final(self)@ == (WorldModel { delta, ..old(self)@ }),
    {
        self.delta = DeltaTime(delta);
    }
}

/// The entities below `n`, in increasing order, that hold a value in `a`.
pub fn join1<A: Copy, SA: ComponentStorage<A>>(n: usize, a: &SA) -> (r: Vec<Entity>)
    ensures
        r@ == entities_in(n, a.contents().dom()),
{
    let mut r: Vec<Entity> = Vec::new();
    let mut i: usize = 0;
    while i < n
        invariant
            i <= n,
            r@ == joined(i as nat, a.contents().dom()),
        decreases n - i,
    {
        if a.contains(i) {
            r.push(Entity { id: i });
        }
        i = i + 1;
    }
    r
}

/// The entities below `n`, in increasing order, that hold a value both in
/// `a` and in `b`.
pub fn join2<A: Copy, B: Copy, SA: ComponentStorage<A>, SB: ComponentStorage<B>>(
    n: usize,
    a: &SA,
    b: &SB,
) -> (r: Vec<Entity>)
    ensures
        r@ == entities_in(n, a.contents().dom().intersect(b.contents().dom())),
{
    let mut r: Vec<Entity> = Vec::new();
    let mut i: usize = 0;
    let ghost s = a.contents().dom().intersect(b.contents().dom());
    while i < n
        invariant
            i <= n,
            s == a.contents().dom().intersect(b.contents().dom()),
            r@ == joined(i as nat, s),
        decreases n - i,
    {
        if a.contains(i) && b.contains(i) {
            r.push(Entity { id: i });
        }
        i = i + 1;
    }
    r
}

impl World {
    /// The entities holding both a transform and a velocity, in increasing
    /// order of index.
    pub fn join_transform_velocity(&self) -> (r: Vec<Entity>)
        ensures
            r@ == entities_in(self.next_id, self@.transforms.dom().intersect(self@.velocities.dom())),
    {
        join2(self.next_id, &self.transforms, &self.velocities)
    }

    /// The entities holding both a render handle and a transform, in
    /// increasing order of index: what the renderer draws.
    pub fn join_render_transform(&self) -> (r: Vec<Entity>)
        ensures
            r@ == entities_in(self.next_id, self@.renders.dom().intersect(self@.transforms.dom())),
    {
        join2(self.next_id, &self.renders, &self.transforms)
    }
}

} // verus!
