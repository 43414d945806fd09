//! Moves each camera to the position of its focus entity.
use vstd::prelude::*;
use crate::ecs::components::{Camera, Entity, Transform};
use crate::ecs::storage::ComponentStorage;
use crate::ecs::systems::SystemError;
use crate::ecs::world::{entities_in, join1, lemma_joined, World, WorldModel};

verus! {

/// One camera entity `e` follows its focus. A camera without a focus is
/// passed over, or is an error when `strict`.
pub open spec fn follow_one(
    ts: Map<usize, Transform>,
    cams: Map<usize, Camera>,
    e: Entity,
    strict: bool,
) -> Result<Map<usize, Transform>, SystemError> {
    match cams[e.id].focus {
        None => if strict {
            Err(SystemError::MissingFocus { camera: e })
        } else {
            Ok(ts)
        },
        Some(f) => if !ts.contains_key(f.id) {
            Err(SystemError::DanglingFocus { camera: e, focus: f })
        } else if !ts.contains_key(e.id) {
            Err(SystemError::MissingTransform { entity: e })
        } else {
            Ok(ts.insert(e.id, Transform { pos: ts[f.id].pos, ..ts[e.id] }))
        },
    }
}

/// The camera entities of `es` follow their focus one after the other; the
/// first failure ends the run.
pub open spec fn follow_all(
    ts: Map<usize, Transform>,
    cams: Map<usize, Camera>,
    es: Seq<Entity>,
    strict: bool,
) -> Result<Map<usize, Transform>, SystemError>
    decreases es.len(),
{
    if es.len() == 0 {
        Ok(ts)
    } else {
        match follow_all(ts, cams, es.drop_last(), strict) {
            Ok(m) => follow_one(m, cams, es.last(), strict),
            Err(err) => Err(err),
        }
    }
}

/// The world after every camera, in increasing order of entity, has
/// followed its focus.
pub open spec fn follow_world(w: WorldModel, strict: bool) -> Result<WorldModel, SystemError> {
    match follow_all(w.transforms, w.cameras, entities_in(w.next_id, w.cameras.dom()), strict) {
        Ok(m) => Ok(WorldModel { transforms: m, ..w }),
        Err(err) => Err(err),
    }
}

/// A failure on a prefix of `es` is the failure of the whole run.
pub proof fn lemma_follow_err(
    ts: Map<usize, Transform>,
    cams: Map<usize, Camera>,
    es: Seq<Entity>,
    j: int,
    strict: bool,
)
    requires
        0 <= j <= es.len(),
        follow_all(ts, cams, es.take(j), strict) is Err,
    ensures
        follow_all(ts, cams, es, strict) == follow_all(ts, cams, es.take(j), strict),
    decreases es.len(),
{
    if j == es.len() {
        assert(es.take(j) =~= es);
    } else {
        assert(es.drop_last().take(j) =~= es.take(j));
        lemma_follow_err(ts, cams, es.drop_last(), j, strict);
    }
}

/// Following keeps the set of entities that hold a transform.
pub proof fn lemma_follow_dom(
    ts: Map<usize, Transform>,
    cams: Map<usize, Camera>,
    es: Seq<Entity>,
    strict: bool,
)
    ensures
        follow_all(ts, cams, es, strict) is Ok ==> follow_all(ts, cams, es, strict)->Ok_0.dom()
            == ts.dom(),
    decreases es.len(),
{
    if es.len() > 0 {
        lemma_follow_dom(ts, cams, es.drop_last(), strict);
        if let Ok(m) = follow_all(ts, cams, es.drop_last(), strict) {
            if let Ok(m2) = follow_one(m, cams, es.last(), strict) {
                assert(m2.dom() =~= m.dom());
            }
        }
    }
}

/// Every camera of `world` follows its focus, in increasing order of entity.
pub fn follow_focus(world: &mut World, strict: bool) -> (r: Result<(), SystemError>)
    requires
        old(world)@.wf(),
    ensures
        final(world)@ == (WorldModel { transforms: final(world)@.transforms, ..old(world)@ }),
        match r {
            Ok(()) => follow_world(old(world)@, strict) == Ok::<WorldModel, SystemError>(final(world)@),
            Err(err) => follow_world(old(world)@, strict) == Err::<WorldModel, SystemError>(err),
        },
{
    let ents = join1(world.next_id, &world.cameras);
    let ghost w0 = world@;
    let mut j: usize = 0;
    while j < ents.len()
        invariant
            j <= ents.len(),
            w0 == old(world)@,
            ents@ == entities_in(w0.next_id, w0.cameras.dom()),
            world@ == (WorldModel { transforms: world@.transforms, ..w0 }),
            follow_all(w0.transforms, w0.cameras, ents@.take(j as int), strict)
                == Ok::<Map<usize, Transform>, SystemError>(world@.transforms),
        decreases ents.len() - j,
    {
        let e = ents[j];
        assert(ents@.take(j + 1).drop_last() =~= ents@.take(j as int));
        assert(ents@.take(j + 1).last() == e);
        let cam = world.cameras.get(e.id);
        if let Some(cam) = cam {
            if let Some(focus) = cam.focus {
                match world.transforms.get(focus.id) {
                    None => {
                        proof {
                            lemma_follow_err(w0.transforms, w0.cameras, ents@, j + 1, strict);
                        }
                        return Err(SystemError::DanglingFocus { camera: e, focus });
                    },
                    Some(ft) => {
                        match world.transforms.get(e.id) {
                            None => {
                                proof {
                                    lemma_follow_err(w0.transforms, w0.cameras, ents@, j + 1, strict);
                                }
                                return Err(SystemError::MissingTransform { entity: e });
                            },
                            Some(ct) => {
                                world.transforms.insert(e.id, Transform { pos: ft.pos, ..ct });
                            },
                        }
                    },
                }
            } else if strict {
                proof {
                    lemma_follow_err(w0.transforms, w0.cameras, ents@, j + 1, strict);
                }
                return Err(SystemError::MissingFocus { camera: e });
            }
        } else {
            proof {
                lemma_joined(w0.next_id as nat, w0.cameras.dom());
                assert(w0.cameras.dom().contains(ents@[j as int].id));
            }
        }
        j = j + 1;
    }
    assert(ents@.take(j as int) =~= ents@);
    Ok(())
}

pub struct System;

impl System {
    /// Copies each camera's focus position into the camera's own transform.
    /// A camera without a focus is passed over.
    pub fn run(&mut self, world: &mut World) -> (r: Result<(), SystemError>)
        requires
            old(world)@.wf(),
        ensures
            final(world)@ == (WorldModel { transforms: final(world)@.transforms, ..old(world)@ }),
            match r {
                Ok(()) => follow_world(old(world)@, false) == Ok::<WorldModel, SystemError>(final(world)@),
                Err(err) => follow_world(old(world)@, false) == Err::<WorldModel, SystemError>(err),
            },
    {
        follow_focus(world, false)
    }
}

} // verus!
