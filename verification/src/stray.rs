//! The engine: a world of entities, the resource cache, the input latch and
//! the per-tick protocol.
//!
//! The engine is a state machine from window events to actions. The
//! unverified shell drives it: it forwards each event to `handle_event` and
//! performs the returned action; on a tick it calls `render_tick`, executes
//! the returned device operations and draw calls, runs the game-logic
//! systems over the world, and closes the tick with `end_tick`. Rendering
//! before logic presents the entity state produced by the previous tick.

use vstd::prelude::*;
use crate::events::{InputLatch, Key, spec_apply_key, spec_end_tick};
use crate::render_state::{
    DeviceOp, DrawCall, RenderState, RenderObjectV, spec_redraw, spec_sync_cache, spec_sync_ops,
};
use crate::scene::{Drawable, DrawableV, Transform2D, spec_drawable_vertices};
use crate::settings::Settings;

verus! {

/// An entity: an optional drawable and an optional transform. Only entities
/// carrying both take part in rendering.
pub struct Entity {
    pub drawable: Option<Drawable>,
    pub transform: Option<Transform2D>,
}

pub struct EntityV {
    pub drawable: Option<DrawableV>,
    pub transform: Option<Transform2D>,
}

impl View for Entity {
    type V = EntityV;

    open spec fn view(&self) -> EntityV {
        EntityV {
            drawable: match self.drawable {
                Some(d) => Some(d@),
                None => None,
            },
            transform: self.transform,
        }
    }
}

impl EntityV {
    pub open spec fn wf(self) -> bool {
        &&& self.drawable matches Some(d) ==> d.wf()
        &&& self.transform matches Some(t) ==> t.wf()
    }
}

/// The entity collection, in creation order.
pub struct World {
    pub entities: Vec<Entity>,
}

impl View for World {
    type V = Seq<EntityV>;

    open spec fn view(&self) -> Seq<EntityV> {
        self.entities@.map_values(|e: Entity| e@)
    }
}

impl Entity {
    /// Runtime check of the view's `wf`, for callers outside the verified
    /// library.
    pub fn is_wf(&self) -> (r: bool)
        ensures
            r == self@.wf(),
    {
        let drawable_ok = match &self.drawable {
            Some(d) => d.is_wf(),
            None => true,
        };
        let transform_ok = match &self.transform {
            Some(t) => t.is_wf(),
            None => true,
        };
        drawable_ok && transform_ok
    }
}

impl World {
    pub open spec fn wf(self) -> bool {
        forall|i: int| 0 <= i < self@.len() ==> (#[trigger] self@[i]).wf()
    }

    /// Runtime check of `wf`, so the unverified shell can guard a render
    /// tick after arbitrary logic systems mutated the world.
    pub fn is_wf(&self) -> (r: bool)
        ensures
            r == self.wf(),
    {
        let n = self.entities.len();
        let mut i: usize = 0;
        while i < n
            invariant
                i <= n,
                n == self@.len(),
                forall|k: int| 0 <= k < i ==> (#[trigger] self@[k]).wf(),
            decreases n - i,
        {
            proof {
                assert(self@[i as int] == self.entities@[i as int]@);
            }
            if !self.entities[i].is_wf() {
                return false;
            }
            i = i + 1;
        }
        true
    }

    pub fn new() -> (w: World)
        ensures
            w@.len() == 0,
            w.wf(),
    {
        let w = World { entities: Vec::new() };
        proof {
            assert(w@ =~= Seq::<EntityV>::empty());
        }
        w
    }

    pub fn push(&mut self, e: Entity)
        requires
            e@.wf(),
        ensures
            final(self)@ == old(self)@.push(e@),
            old(self).wf() ==> final(self).wf(),
    {
        self.entities.push(e);
        proof {
            assert(final(self)@ =~= old(self)@.push(e@));
        }
    }

    pub fn len(&self) -> (n: usize)
        ensures
            n == self@.len(),
    {
        self.entities.len()
    }
}

/// The events the event loop delivers to the engine.
#[derive(Clone, Copy, Debug, PartialEq, Eq, Structural)]
pub enum StrayEvent {
    CloseRequested,
    Resized(u32, u32),
    KeyboardInput(Key, bool),
    CursorMoved(i64, i64),
    Tick,
}

/// What the shell must do after handing an event to the engine.
#[derive(Clone, Copy, Debug, PartialEq, Eq, Structural)]
pub enum EventAction {
    Exit,
    Reconfigure(u32, u32),
    RunTick,
    Nothing,
}

/// The cache change and device work of syncing one entity: entities without
/// a drawable or a transform request nothing.
pub open spec fn spec_entity_sync(
    cache: Seq<RenderObjectV>,
    e: EntityV,
    w: int,
    h: int,
) -> (Seq<RenderObjectV>, Seq<DeviceOp>) {
    match (e.drawable, e.transform) {
        (Some(d), Some(t)) => (spec_sync_cache(cache, d, t, w, h), spec_sync_ops(cache, d)),
        _ => (cache, Seq::empty()),
    }
}

/// The cache change and device work of a whole sync pass, entity by entity
/// in creation order.
pub open spec fn spec_sync_pass(
    cache: Seq<RenderObjectV>,
    entities: Seq<EntityV>,
    w: int,
    h: int,
) -> (Seq<RenderObjectV>, Seq<DeviceOp>)
    decreases entities.len(),
{
    if entities.len() == 0 {
        (cache, Seq::empty())
    } else {
        let stepped = spec_entity_sync(cache, entities[0], w, h);
        let rest = spec_sync_pass(stepped.0, entities.drop_first(), w, h);
        (rest.0, stepped.1 + rest.1)
    }
}

pub proof fn lemma_sync_pass_push(
    cache: Seq<RenderObjectV>,
    entities: Seq<EntityV>,
    e: EntityV,
    w: int,
    h: int,
)
    ensures
        ({
            let whole = spec_sync_pass(cache, entities.push(e), w, h);
            let prefix = spec_sync_pass(cache, entities, w, h);
            let stepped = spec_entity_sync(prefix.0, e, w, h);
            whole.0 == stepped.0 && whole.1 == prefix.1 + stepped.1
        }),
    decreases entities.len(),
{
    let whole = spec_sync_pass(cache, entities.push(e), w, h);
    let prefix = spec_sync_pass(cache, entities, w, h);
    let stepped = spec_entity_sync(prefix.0, e, w, h);
    if entities.len() == 0 {
        assert(entities.push(e)[0] == e);
        assert(entities.push(e).drop_first() =~= Seq::<EntityV>::empty());
        let stepped0 = spec_entity_sync(cache, e, w, h);
        assert(spec_sync_pass(stepped0.0, Seq::<EntityV>::empty(), w, h)
            == (stepped0.0, Seq::<DeviceOp>::empty()));
        assert(prefix == (cache, Seq::<DeviceOp>::empty()));
        assert(whole.0 == stepped.0);
        assert(whole.1 =~= prefix.1 + stepped.1);
    } else {
        assert(entities.push(e)[0] == entities[0]);
        assert(entities.push(e).drop_first() =~= entities.drop_first().push(e));
        let stepped0 = spec_entity_sync(cache, entities[0], w, h);
        lemma_sync_pass_push(stepped0.0, entities.drop_first(), e, w, h);
        assert(whole.1 =~= prefix.1 + stepped.1);
    }
}

/// A sync pass never evicts a record: an identity present in the cache is
/// still present after the pass.
pub proof fn lemma_sync_pass_monotone(
    cache: Seq<RenderObjectV>,
    entities: Seq<EntityV>,
    w: int,
    h: int,
    id: u32,
)
    requires
        crate::render_state::spec_contains_id(cache, id),
    ensures
        crate::render_state::spec_contains_id(spec_sync_pass(cache, entities, w, h).0, id),
    decreases entities.len(),
{
    if entities.len() > 0 {
        let stepped = spec_entity_sync(cache, entities[0], w, h);
        match (entities[0].drawable, entities[0].transform) {
            (Some(d), Some(t)) => {
                crate::render_state::lemma_sync_cache_identities(cache, d, t, w, h, id);
            },
            _ => {},
        }
        lemma_sync_pass_monotone(stepped.0, entities.drop_first(), w, h, id);
    }
}

/// A sync pass keeps identities unique.
pub proof fn lemma_sync_pass_preserves_unique(
    cache: Seq<RenderObjectV>,
    entities: Seq<EntityV>,
    w: int,
    h: int,
)
    requires
        crate::render_state::spec_unique_ids(cache),
    ensures
        crate::render_state::spec_unique_ids(spec_sync_pass(cache, entities, w, h).0),
    decreases entities.len(),
{
    if entities.len() > 0 {
        let stepped = spec_entity_sync(cache, entities[0], w, h);
        match (entities[0].drawable, entities[0].transform) {
            (Some(d), Some(t)) => {
                crate::render_state::lemma_sync_cache_preserves_unique(cache, d, t, w, h);
            },
            _ => {},
        }
        lemma_sync_pass_preserves_unique(stepped.0, entities.drop_first(), w, h);
    }
}

/// A sync pass over entities that never touch an identity leaves that
/// identity's record untouched.
pub proof fn lemma_sync_pass_other(
    cache: Seq<RenderObjectV>,
    entities: Seq<EntityV>,
    w: int,
    h: int,
    id: u32,
)
    requires
        crate::render_state::spec_unique_ids(cache),
        crate::render_state::spec_contains_id(cache, id),
        forall|j: int| 0 <= j < entities.len()
            ==> ((#[trigger] entities[j]).drawable matches Some(d) ==> d.id() != id),
    ensures
        ({
            let fin = spec_sync_pass(cache, entities, w, h).0;
            &&& crate::render_state::spec_contains_id(fin, id)
            &&& fin[crate::render_state::spec_index_of(fin, id)]
                == cache[crate::render_state::spec_index_of(cache, id)]
        }),
    decreases entities.len(),
{
    if entities.len() > 0 {
        let stepped = spec_entity_sync(cache, entities[0], w, h);
        match (entities[0].drawable, entities[0].transform) {
            (Some(d), Some(t)) => {
                crate::render_state::lemma_sync_cache_preserves_unique(cache, d, t, w, h);
                crate::render_state::lemma_sync_cache_other(cache, d, t, w, h, id);
            },
            _ => {},
        }
        assert(forall|j: int| 0 <= j < entities.drop_first().len()
            ==> ((#[trigger] entities.drop_first()[j]).drawable matches Some(d2)
                ==> d2.id() != id)) by {
            assert(forall|j: int| 0 <= j < entities.drop_first().len()
                ==> entities.drop_first()[j] == (#[trigger] entities[j + 1]));
        }
        lemma_sync_pass_other(stepped.0, entities.drop_first(), w, h, id);
    }
}

/// No stale geometry: after a sync pass, the record of an entity whose
/// identity no later entity reuses holds exactly the vertex data derived
/// from that entity's current drawable and transform.
pub proof fn lemma_sync_pass_no_stale(
    cache: Seq<RenderObjectV>,
    entities: Seq<EntityV>,
    w: int,
    h: int,
    k: int,
)
    requires
        crate::render_state::spec_unique_ids(cache),
        0 <= k < entities.len(),
        entities[k].drawable is Some,
        entities[k].transform is Some,
        forall|j: int| k < j < entities.len()
            ==> ((#[trigger] entities[j]).drawable matches Some(d2)
                ==> d2.id() != entities[k].drawable->Some_0.id()),
    ensures
        ({
            let fin = spec_sync_pass(cache, entities, w, h).0;
            let d = entities[k].drawable->Some_0;
            let t = entities[k].transform->Some_0;
            &&& crate::render_state::spec_contains_id(fin, d.id())
            &&& fin[crate::render_state::spec_index_of(fin, d.id())].vertices
                == spec_drawable_vertices(d, t, w, h)
        }),
    decreases entities.len(),
{
    let stepped = spec_entity_sync(cache, entities[0], w, h);
    if k == 0 {
        let d = entities[0].drawable->Some_0;
        let t = entities[0].transform->Some_0;
        crate::render_state::lemma_sync_record(cache, d, t, w, h);
        crate::render_state::lemma_sync_cache_preserves_unique(cache, d, t, w, h);
        assert(forall|j: int| 0 <= j < entities.drop_first().len()
            ==> ((#[trigger] entities.drop_first()[j]).drawable matches Some(d2)
                ==> d2.id() != d.id())) by {
            assert(forall|j: int| 0 <= j < entities.drop_first().len()
                ==> entities.drop_first()[j] == (#[trigger] entities[j + 1]));
        }
        lemma_sync_pass_other(stepped.0, entities.drop_first(), w, h, d.id());
    } else {
        match (entities[0].drawable, entities[0].transform) {
            (Some(d0), Some(t0)) => {
                crate::render_state::lemma_sync_cache_preserves_unique(cache, d0, t0, w, h);
            },
            _ => {},
        }
        assert(entities.drop_first()[k - 1] == entities[k]);
        assert(forall|j: int| k - 1 < j < entities.drop_first().len()
            ==> ((#[trigger] entities.drop_first()[j]).drawable matches Some(d2)
                ==> d2.id() != entities[k].drawable->Some_0.id())) by {
            assert(forall|j: int| 0 <= j < entities.drop_first().len()
                ==> entities.drop_first()[j] == (#[trigger] entities[j + 1]));
        }
        lemma_sync_pass_no_stale(stepped.0, entities.drop_first(), w, h, k - 1);
    }
}

/// After a sync pass, the cache carries a record for every entity that has
/// both a drawable and a transform.
pub proof fn lemma_sync_pass_covers(
    cache: Seq<RenderObjectV>,
    entities: Seq<EntityV>,
    w: int,
    h: int,
    k: int,
)
    requires
        0 <= k < entities.len(),
        entities[k].drawable is Some,
        entities[k].transform is Some,
    ensures
        crate::render_state::spec_contains_id(
            spec_sync_pass(cache, entities, w, h).0,
            entities[k].drawable->Some_0.id(),
        ),
    decreases entities.len(),
{
    let stepped = spec_entity_sync(cache, entities[0], w, h);
    if k == 0 {
        let d = entities[0].drawable->Some_0;
        let t = entities[0].transform->Some_0;
        crate::render_state::lemma_sync_cache_identities(cache, d, t, w, h, d.id());
        lemma_sync_pass_monotone(stepped.0, entities.drop_first(), w, h, d.id());
    } else {
        assert(entities.drop_first()[k - 1] == entities[k]);
        lemma_sync_pass_covers(stepped.0, entities.drop_first(), w, h, k - 1);
    }
}

/// The engine: the world, the device-resource cache, the input latch, the
/// settings, and the live surface extent.
pub struct Stray {
    pub world: World,
    pub render_state: RenderState,
    pub input: InputLatch,
    pub settings: Settings,
    pub surface_width: u32,
    pub surface_height: u32,
}

impl Stray {
    pub open spec fn wf(self) -> bool {
        &&& self.world.wf()
        &&& self.render_state.wf()
        &&& 1 <= self.surface_width
        &&& 1 <= self.surface_height
    }

    /// Begin assembling an engine.
    pub fn new() -> (b: StrayBuilder)
        ensures
            b.world@.len() == 0,
            b.world.wf(),
            b.settings.width == 600,
            b.settings.height == 600,
    {
        StrayBuilder::new()
    }

    /// Apply a window resize. A resize with either dimension zero is
    /// ignored entirely: no stored dimension changes and the surface must
    /// not be reconfigured, so later sync and present passes still see a
    /// valid extent. Returns whether the shell must reconfigure the surface.
    pub fn resize(&mut self, width: u32, height: u32) -> (reconfigure: bool)
        ensures
            if 1 <= width && 1 <= height {
                &&& reconfigure == true
                &&& *final(self) == (Stray {
                    settings: Settings { width, height, ..old(self).settings },
                    surface_width: width,
                    surface_height: height,
                    ..*old(self)
                })
            } else {
                reconfigure == false && *final(self) == *old(self)
            },
    {
        if width >= 1 && height >= 1 {
            self.surface_width = width;
            self.surface_height = height;
            self.settings.width = width;
            self.settings.height = height;
            true
        } else {
            false
        }
    }

    /// Respond to one window event. Dimension updates and input latching
    /// happen here; a zero-sized resize changes nothing and asks for no
    /// reconfiguration.
    pub fn handle_event(&mut self, e: StrayEvent) -> (a: EventAction)
        ensures
            match e {
                StrayEvent::CloseRequested => a == EventAction::Exit && *final(self) == *old(self),
                StrayEvent::Resized(w, h) => if 1 <= w && 1 <= h {
                    &&& a == EventAction::Reconfigure(w, h)
                    &&& *final(self) == (Stray {
                        settings: Settings { width: w, height: h, ..old(self).settings },
                        surface_width: w,
                        surface_height: h,
                        ..*old(self)
                    })
                } else {
                    a == EventAction::Nothing && *final(self) == *old(self)
                },
                StrayEvent::KeyboardInput(k, pressed) => {
                    &&& a == EventAction::Nothing
                    &&& *final(self) == (Stray {
                        input: spec_apply_key(old(self).input, k, pressed),
                        ..*old(self)
                    })
                },
                StrayEvent::CursorMoved(_, _) => a == EventAction::Nothing
                    && *final(self) == *old(self),
                StrayEvent::Tick => a == EventAction::RunTick && *final(self) == *old(self),
            },
    {
        match e {
            StrayEvent::CloseRequested => EventAction::Exit,
            StrayEvent::Resized(w, h) => {
                if self.resize(w, h) {
                    EventAction::Reconfigure(w, h)
                } else {
                    EventAction::Nothing
                }
            },
            StrayEvent::KeyboardInput(k, pressed) => {
                self.input.apply_key(k, pressed);
                EventAction::Nothing
            },
            StrayEvent::CursorMoved(_, _) => EventAction::Nothing,
            StrayEvent::Tick => EventAction::RunTick,
        }
    }

    /// The render phase of one tick: synchronize every drawable entity's
    /// record with the current surface, then plan the presentation pass.
    /// Returns the device operations of the sync pass and the draw calls of
    /// the presentation pass, in order.
    pub fn render_tick(&mut self) -> (r: (Vec<DeviceOp>, Vec<DrawCall>))
        requires
            old(self).wf(),
        ensures
            final(self).wf(),
            final(self).world == old(self).world,
            final(self).input == old(self).input,
            final(self).settings == old(self).settings,
            final(self).surface_width == old(self).surface_width,
            final(self).surface_height == old(self).surface_height,
            ({
                let pass = spec_sync_pass(
                    old(self).render_state@,
                    old(self).world@,
                    old(self).surface_width as int,
                    old(self).surface_height as int,
                );
                &&& final(self).render_state@ == pass.0
                &&& r.0@ == pass.1
                &&& r.1@ == spec_redraw(final(self).render_state@)
            }),
    {
        let ghost cache0 = self.render_state@;
        let ghost w_g = self.surface_width as int;
        let ghost h_g = self.surface_height as int;
        let mut ops: Vec<DeviceOp> = Vec::new();
        let n = self.world.entities.len();
        proof {
            assert(self.world@.take(0) =~= Seq::<EntityV>::empty());
        }
        let mut i: usize = 0;
        while i < n
            invariant
                i <= n,
                n == self.world@.len(),
                self.world == old(self).world,
                self.input == old(self).input,
                self.settings == old(self).settings,
                self.surface_width == old(self).surface_width,
                self.surface_height == old(self).surface_height,
                w_g == self.surface_width as int,
                h_g == self.surface_height as int,
                cache0 == old(self).render_state@,
                self.wf(),
                self.render_state@ == spec_sync_pass(cache0, self.world@.take(i as int), w_g, h_g).0,
                ops@ == spec_sync_pass(cache0, self.world@.take(i as int), w_g, h_g).1,
            decreases n - i,
        {
            let ghost prefix = self.world@.take(i as int);
            proof {
                assert(self.world@[i as int] == self.world.entities@[i as int]@);
                assert(self.world@[i as int].wf());
            }
            let e = &self.world.entities[i];
            match (&e.drawable, &e.transform) {
                (Some(d), Some(t)) => {
                    let mut new_ops = self.render_state.sync(d, t, self.surface_width, self.surface_height);
                    ops.append(&mut new_ops);
                },
                _ => {},
            }
            proof {
                lemma_sync_pass_push(cache0, prefix, self.world@[i as int], w_g, h_g);
                assert(prefix.push(self.world@[i as int]) =~= self.world@.take(i as int + 1));
                assert(ops@ =~= spec_sync_pass(cache0, self.world@.take(i as int + 1), w_g, h_g).1);
            }
            i = i + 1;
        }
        proof {
            assert(self.world@.take(n as int) =~= self.world@);
        }
        let calls = self.render_state.redraw();
        (ops, calls)
    }

    /// Close a tick after the logic systems have run: the per-tick input
    /// event resets, the latched state persists.
    pub fn end_tick(&mut self)
        ensures
            *final(self) == (Stray { input: spec_end_tick(old(self).input), ..*old(self) }),
    {
        self.input.end_tick();
    }
}

/// Accumulates settings and initial entities; `build` freezes them into a
/// running engine.
pub struct StrayBuilder {
    pub settings: Settings,
    pub world: World,
}

/// A reusable piece of configuration: takes the builder and hands back the
/// builder it extended.
pub trait Plugin {
    fn build(&self, stray: StrayBuilder) -> StrayBuilder;
}

impl StrayBuilder {
    pub fn new() -> (b: StrayBuilder)
        ensures
            b.world@.len() == 0,
            b.world.wf(),
            b.settings.width == 600,
            b.settings.height == 600,
    {
        StrayBuilder { settings: Settings::default(), world: World::new() }
    }

    pub fn with_title(self, title: &'static str) -> (b: StrayBuilder)
        ensures
            b.settings == (Settings { title, ..self.settings }),
            b.world == self.world,
    {
        StrayBuilder { settings: Settings { title, ..self.settings }, world: self.world }
    }

    pub fn with_size(self, width: u32, height: u32) -> (b: StrayBuilder)
        ensures
            b.settings == (Settings { width, height, ..self.settings }),
            b.world == self.world,
    {
        StrayBuilder {
            settings: Settings { width, height, ..self.settings },
            world: self.world,
        }
    }

    /// Spawn an initial entity.
    pub fn push(self, e: Entity) -> (b: StrayBuilder)
        requires
            e@.wf(),
        ensures
            b.settings == self.settings,
            b.world@ == self.world@.push(e@),
            self.world.wf() ==> b.world.wf(),
    {
        let mut world = self.world;
        world.push(e);
        StrayBuilder { settings: self.settings, world }
    }

    /// Extend the configuration with a plugin; what it adds is up to its
    /// implementation.
    pub fn add_plugin<P: Plugin>(self, plugin: P) -> StrayBuilder {
        plugin.build(self)
    }

    /// Freeze the configuration into an engine whose surface starts at the
    /// configured window size.
    pub fn build(self) -> (s: Stray)
        requires
            self.world.wf(),
            1 <= self.settings.width,
            1 <= self.settings.height,
        ensures
            s.wf(),
            s.world == self.world,
            s.settings == self.settings,
            s.surface_width == self.settings.width,
            s.surface_height == self.settings.height,
            s.render_state@.len() == 0,
            s.input == (InputLatch {
                current: crate::events::InputEvent::NONE,
                last: crate::events::LastState::NONE,
            }),
    {
        Stray {
            surface_width: self.settings.width,
            surface_height: self.settings.height,
            world: self.world,
            render_state: RenderState::empty(),
            input: InputLatch::new(),
            settings: self.settings,
        }
    }
}

} // verus!
