//! The retained-mode resource cache: one device-side record per drawable
//! identity, refreshed in place on later ticks.
//!
//! `sync` decides between creating a full record (fresh identity) and
//! rewriting buffer contents (known identity), and reports the device work
//! it requires as a list of `DeviceOp` values for the unverified device
//! shell to execute. A record's pipeline mode never changes after creation.

use vstd::prelude::*;
use crate::scene::{
    Drawable, DrawableV, RawVertex, Transform2D, spec_drawable_vertices, build_drawable_vertices,
};

verus! {

/// How a record is drawn: a plain draw over its vertices, or an indexed
/// draw over its index list.
#[derive(Clone, Copy, Debug, PartialEq, Eq, Structural)]
pub enum RenderMode {
    DRAW,
    DRAW_INDEXED,
}

/// Which of the two fixed pipelines a record binds.
#[derive(Clone, Copy, Debug, PartialEq, Eq, Structural)]
pub enum PipelineKind {
    SHAPE,
    TEXTURE,
}

/// One unit of device work requested by a sync pass, keyed by the drawable
/// identity whose record it concerns.
#[derive(Clone, Copy, Debug, PartialEq, Eq, Structural)]
pub enum DeviceOp {
    CreatePipeline(PipelineKind),
    CreateVertexBuffer(u32),
    CreateIndexBuffer(u32),
    CreateTextureBinding(u32),
    WriteVertexBuffer(u32),
    WriteTextureBinding(u32),
}

/// The device-side counterpart of one drawable.
#[derive(Debug, Clone)]
pub struct RenderObject {
    pub id: u32,
    pub kind: PipelineKind,
    pub mode: RenderMode,
    pub vertices: Vec<RawVertex>,
    pub indices: Vec<u16>,
    pub has_binding: bool,
}

#[verifier::ext_equal]
pub struct RenderObjectV {
    pub id: u32,
    pub kind: PipelineKind,
    pub mode: RenderMode,
    pub vertices: Seq<RawVertex>,
    pub indices: Seq<u16>,
    pub has_binding: bool,
}

impl View for RenderObject {
    type V = RenderObjectV;

    open spec fn view(&self) -> RenderObjectV {
        RenderObjectV {
            id: self.id,
            kind: self.kind,
            mode: self.mode,
            vertices: self.vertices@,
            indices: self.indices@,
            has_binding: self.has_binding,
        }
    }
}

/// One command of the presentation pass, in the order the device must
/// replay them.
#[derive(Clone, Copy, Debug, PartialEq, Eq, Structural)]
pub enum DrawCall {
    SetPipeline(PipelineKind),
    SetBindGroup(u32),
    SetVertexBuffer(u32),
    SetIndexBuffer(u32),
    Draw(u32),
    DrawIndexed(u32),
}

impl RenderObjectV {
    /// Buffer lengths that fit the device's 32-bit draw counts.
    pub open spec fn wf(self) -> bool {
        &&& self.vertices.len() <= 0xFFFF_FFFF
        &&& self.indices.len() <= 0xFFFF_FFFF
    }
}

/// The draw commands that present one record: bind its pipeline (and its
/// texture binding, if it has one) and its vertex buffer, then draw indexed
/// over the full index count, or plain over the full vertex count.
pub open spec fn spec_object_calls(o: RenderObjectV) -> Seq<DrawCall> {
    let bind = if o.has_binding {
        seq![DrawCall::SetPipeline(o.kind), DrawCall::SetBindGroup(o.id)]
    } else {
        seq![DrawCall::SetPipeline(o.kind)]
    };
    let bound = bind.push(DrawCall::SetVertexBuffer(o.id));
    if o.mode is DRAW_INDEXED {
        bound + seq![DrawCall::SetIndexBuffer(o.id), DrawCall::DrawIndexed(o.indices.len() as u32)]
    } else {
        bound.push(DrawCall::Draw(o.vertices.len() as u32))
    }
}

/// The presentation pass over a cache: each record's commands, in creation
/// order.
pub open spec fn spec_redraw(s: Seq<RenderObjectV>) -> Seq<DrawCall>
    decreases s.len(),
{
    if s.len() == 0 {
        Seq::empty()
    } else {
        spec_object_calls(s[0]) + spec_redraw(s.drop_first())
    }
}

pub proof fn lemma_redraw_push(s: Seq<RenderObjectV>, o: RenderObjectV)
    ensures
        spec_redraw(s.push(o)) == spec_redraw(s) + spec_object_calls(o),
    decreases s.len(),
{
    if s.len() == 0 {
        assert(s.push(o)[0] == o);
        assert(s.push(o).drop_first() =~= Seq::<RenderObjectV>::empty());
        assert(spec_redraw(Seq::<RenderObjectV>::empty()) == Seq::<DrawCall>::empty());
        assert(spec_redraw(s.push(o)) == spec_object_calls(o) + Seq::<DrawCall>::empty());
        assert(spec_object_calls(o) + Seq::<DrawCall>::empty()
            =~= Seq::<DrawCall>::empty() + spec_object_calls(o));
    } else {
        assert(s.push(o)[0] == s[0]);
        assert(s.push(o).drop_first() =~= s.drop_first().push(o));
        lemma_redraw_push(s.drop_first(), o);
        assert(spec_redraw(s.push(o))
            == spec_object_calls(s[0]) + (spec_redraw(s.drop_first()) + spec_object_calls(o)));
        assert(spec_object_calls(s[0]) + (spec_redraw(s.drop_first()) + spec_object_calls(o))
            =~= (spec_object_calls(s[0]) + spec_redraw(s.drop_first())) + spec_object_calls(o));
    }
}

/// The pipeline mode chosen for a drawable when its record is created:
/// indexed exactly when it is geometry with a non-empty index list.
pub open spec fn spec_mode(d: DrawableV) -> RenderMode {
    match d {
        DrawableV::Geometry(c) => if c.indices.len() > 0 {
            RenderMode::DRAW_INDEXED
        } else {
            RenderMode::DRAW
        },
        DrawableV::Sprite(_) => RenderMode::DRAW,
    }
}

/// The pipeline a drawable binds: the shape pipeline for geometry, the
/// texture pipeline for sprites.
pub open spec fn spec_kind(d: DrawableV) -> PipelineKind {
    match d {
        DrawableV::Geometry(_) => PipelineKind::SHAPE,
        DrawableV::Sprite(_) => PipelineKind::TEXTURE,
    }
}

/// The index list stored in a fresh record.
pub open spec fn spec_record_indices(d: DrawableV) -> Seq<u16> {
    match d {
        DrawableV::Geometry(c) => c.indices,
        DrawableV::Sprite(_) => Seq::empty(),
    }
}

/// The record built for a fresh identity on the current surface.
pub open spec fn spec_new_object(d: DrawableV, t: Transform2D, w: int, h: int) -> RenderObjectV {
    RenderObjectV {
        id: d.id(),
        kind: spec_kind(d),
        mode: spec_mode(d),
        vertices: spec_drawable_vertices(d, t, w, h),
        indices: spec_record_indices(d),
        has_binding: d is Sprite,
    }
}

/// Whether some record in the cache carries this identity.
pub open spec fn spec_contains_id(s: Seq<RenderObjectV>, id: u32) -> bool {
    exists|i: int| 0 <= i < s.len() && s[i].id == id
}

/// The position of the record carrying this identity.
pub open spec fn spec_index_of(s: Seq<RenderObjectV>, id: u32) -> int {
    choose|i: int| 0 <= i < s.len() && s[i].id == id
}

/// The device work of one sync call: a full build for a fresh identity,
/// buffer rewrites for a known one.
pub open spec fn spec_sync_ops(s: Seq<RenderObjectV>, d: DrawableV) -> Seq<DeviceOp> {
    let id = d.id();
    if spec_contains_id(s, id) {
        if s[spec_index_of(s, id)].has_binding {
            seq![DeviceOp::WriteVertexBuffer(id), DeviceOp::WriteTextureBinding(id)]
        } else {
            seq![DeviceOp::WriteVertexBuffer(id)]
        }
    } else {
        match d {
            DrawableV::Geometry(c) => if c.indices.len() > 0 {
                seq![
                    DeviceOp::CreatePipeline(PipelineKind::SHAPE),
                    DeviceOp::CreateVertexBuffer(id),
                    DeviceOp::CreateIndexBuffer(id),
                ]
            } else {
                seq![
                    DeviceOp::CreatePipeline(PipelineKind::SHAPE),
                    DeviceOp::CreateVertexBuffer(id),
                ]
            },
            DrawableV::Sprite(_) => seq![
                DeviceOp::CreatePipeline(PipelineKind::TEXTURE),
                DeviceOp::CreateVertexBuffer(id),
                DeviceOp::CreateTextureBinding(id),
            ],
        }
    }
}

/// The cache after one sync call: a fresh identity appends its new record;
/// a known identity has its vertex data replaced in place, everything else
/// (pipeline mode in particular) untouched.
pub open spec fn spec_sync_cache(
    s: Seq<RenderObjectV>,
    d: DrawableV,
    t: Transform2D,
    w: int,
    h: int,
) -> Seq<RenderObjectV> {
    let id = d.id();
    if spec_contains_id(s, id) {
        let i = spec_index_of(s, id);
        s.update(i, RenderObjectV { vertices: spec_drawable_vertices(d, t, w, h), ..s[i] })
    } else {
        s.push(spec_new_object(d, t, w, h))
    }
}

/// The resource cache: records in creation order, at most one per identity.
pub struct RenderState {
    objects: Vec<RenderObject>,
}

impl View for RenderState {
    type V = Seq<RenderObjectV>;

    closed spec fn view(&self) -> Seq<RenderObjectV> {
        self.objects@.map_values(|o: RenderObject| o@)
    }
}

impl RenderState {
    /// At most one record per identity, every record within device limits.
    pub open spec fn wf(self) -> bool {
        &&& forall|i: int, j: int| 0 <= i < j < self@.len() ==> (#[trigger] self@[i]).id != (#[trigger] self@[j]).id
        &&& forall|i: int| 0 <= i < self@.len() ==> (#[trigger] self@[i]).wf()
    }

    pub fn empty() -> (s: RenderState)
        ensures
            s@.len() == 0,
            s.wf(),
    {
        let s = RenderState { objects: Vec::new() };
        proof {
            assert(s@.len() == 0);
        }
        s
    }

    pub fn len(&self) -> (n: usize)
        ensures
            n == self@.len(),
    {
        self.objects.len()
    }

    /// Borrow the record at a position, in creation order.
    pub fn get_at(&self, i: usize) -> (r: &RenderObject)
        requires
            i < self@.len(),
        ensures
            r@ == self@[i as int],
    {
        &self.objects[i]
    }

    /// The position of the record with this identity, if any.
    pub fn find(&self, id: u32) -> (r: Option<usize>)
        ensures
            match r {
                Some(i) => i < self@.len() && self@[i as int].id == id,
                None => !spec_contains_id(self@, id),
            },
    {
        let n = self.objects.len();
        let mut i: usize = 0;
        while i < n
            invariant
                i <= n,
                n == self@.len(),
                forall|k: int| 0 <= k < i ==> self@[k].id != id,
            decreases n - i,
        {
            if self.objects[i].id == id {
                return Some(i);
            }
            i = i + 1;
        }
        None
    }

    /// Whether a record with this identity exists.
    pub fn exist(&self, id: u32) -> (r: bool)
        ensures
            r == spec_contains_id(self@, id),
    {
        match self.find(id) {
            Some(_) => true,
            None => false,
        }
    }

    /// Append a record; the identity must be fresh for the cache to keep
    /// its one-record-per-identity invariant.
    pub fn push(&mut self, obj: RenderObject)
        requires
            old(self).wf(),
            !spec_contains_id(old(self)@, obj@.id),
            obj@.wf(),
        ensures
            final(self)@ == old(self)@.push(obj@),
            final(self).wf(),
    {
        self.objects.push(obj);
        proof {
            assert(final(self)@ =~= old(self)@.push(obj@));
        }
    }

    /// Synchronize one drawable's record with its current state, on the
    /// current surface extent. Creates the full record for a fresh identity;
    /// rewrites only the vertex contents for a known one.
    pub fn sync(&mut self, d: &Drawable, t: &Transform2D, w: u32, h: u32) -> (ops: Vec<DeviceOp>)
        requires
            old(self).wf(),
            d@.wf(),
            t.wf(),
            1 <= w,
            1 <= h,
        ensures
            final(self).wf(),
            final(self)@ == spec_sync_cache(old(self)@, d@, *t, w as int, h as int),
            ops@ == spec_sync_ops(old(self)@, d@),
    {
        let id = d.id();
        let verts = build_drawable_vertices(d, t, w, h);
        let mut ops: Vec<DeviceOp> = Vec::new();
        match self.find(id) {
            Some(i) => {
                proof {
                    let j = spec_index_of(self@, id);
                    assert(0 <= j < self@.len() && self@[j].id == id);
                    assert(j == i as int);
                }
                let old_obj = self.objects.remove(i);
                let has_binding = old_obj.has_binding;
                let updated = RenderObject { vertices: verts, ..old_obj };
                self.objects.insert(i, updated);
                ops.push(DeviceOp::WriteVertexBuffer(id));
                if has_binding {
                    ops.push(DeviceOp::WriteTextureBinding(id));
                }
                proof {
                    assert(final(self)@ =~= spec_sync_cache(old(self)@, d@, *t, w as int, h as int));
                    assert(ops@ =~= spec_sync_ops(old(self)@, d@));
                }
            },
            None => {
                let (kind, mode, indices, has_binding) = match d {
                    Drawable::Geometry(c) => {
                        let mode = if c.indices.len() > 0 {
                            RenderMode::DRAW_INDEXED
                        } else {
                            RenderMode::DRAW
                        };
                        let mut idx: Vec<u16> = Vec::new();
                        idx.extend_from_slice(c.indices.as_slice());
                        (PipelineKind::SHAPE, mode, idx, false)
                    },
                    Drawable::Sprite(_) => {
                        (PipelineKind::TEXTURE, RenderMode::DRAW, Vec::new(), true)
                    },
                };
                ops.push(DeviceOp::CreatePipeline(kind));
                ops.push(DeviceOp::CreateVertexBuffer(id));
                match d {
                    Drawable::Geometry(c) => {
                        if c.indices.len() > 0 {
                            ops.push(DeviceOp::CreateIndexBuffer(id));
                        }
                    },
                    Drawable::Sprite(_) => {
                        ops.push(DeviceOp::CreateTextureBinding(id));
                    },
                }
                let obj = RenderObject { id, kind, mode, vertices: verts, indices, has_binding };
                proof {
                    assert(obj@.indices =~= spec_record_indices(d@));
                    assert(obj@ =~= spec_new_object(d@, *t, w as int, h as int));
                }
                self.push(obj);
                proof {
                    assert(final(self)@ =~= spec_sync_cache(old(self)@, d@, *t, w as int, h as int));
                    assert(ops@ =~= spec_sync_ops(old(self)@, d@));
                }
            },
        }
        ops
    }

    /// The draw commands that present the whole cache, record by record in
    /// creation order.
    pub fn redraw(&self) -> (calls: Vec<DrawCall>)
        requires
            self.wf(),
        ensures
            calls@ == spec_redraw(self@),
    {
        let mut calls: Vec<DrawCall> = Vec::new();
        let n = self.objects.len();
        proof {
            assert(n == self@.len());
            assert(self@.take(0) =~= Seq::<RenderObjectV>::empty());
        }
        let mut i: usize = 0;
        while i < n
            invariant
                i <= n,
                n == self@.len(),
                self.wf(),
                calls@ == spec_redraw(self@.take(i as int)),
            decreases n - i,
        {
            let ghost prefix = self@.take(i as int);
            let o = &self.objects[i];
            proof {
                assert(o@ == self@[i as int]);
                assert(self@[i as int].wf());
            }
            calls.push(DrawCall::SetPipeline(o.kind));
            if o.has_binding {
                calls.push(DrawCall::SetBindGroup(o.id));
            }
            calls.push(DrawCall::SetVertexBuffer(o.id));
            match o.mode {
                RenderMode::DRAW_INDEXED => {
                    calls.push(DrawCall::SetIndexBuffer(o.id));
                    calls.push(DrawCall::DrawIndexed(o.indices.len() as u32));
                },
                RenderMode::DRAW => {
                    calls.push(DrawCall::Draw(o.vertices.len() as u32));
                },
            }
            proof {
                lemma_redraw_push(prefix, self@[i as int]);
                assert(prefix.push(self@[i as int]) =~= self@.take(i as int + 1));
                assert(calls@ =~= spec_redraw(prefix) + spec_object_calls(self@[i as int]));
            }
            i = i + 1;
        }
        proof {
            assert(self@.take(n as int) =~= self@);
        }
        calls
    }
}

/// No two records carry the same identity.
pub open spec fn spec_unique_ids(s: Seq<RenderObjectV>) -> bool {
    forall|i: int, j: int| 0 <= i < j < s.len() ==> (#[trigger] s[i]).id != (#[trigger] s[j]).id
}

/// With unique identities, the record found for an identity is the one at
/// any position known to carry it.
pub proof fn lemma_index_of_unique(s: Seq<RenderObjectV>, id: u32, i: int)
    requires
        spec_unique_ids(s),
        0 <= i < s.len(),
        s[i].id == id,
    ensures
        spec_contains_id(s, id),
        spec_index_of(s, id) == i,
{
    assert(spec_contains_id(s, id));
    let j = spec_index_of(s, id);
    assert(0 <= j < s.len() && s[j].id == id);
    if i < j {
        assert(s[i].id != s[j].id);
    }
    if j < i {
        assert(s[j].id != s[i].id);
    }
}

/// Syncing the same drawable twice on one tick, with unchanged transform
/// and surface, leaves the cache exactly as after the first sync: the
/// second pass writes the identical vertex data over itself.
pub proof fn lemma_sync_idempotent(
    cache: Seq<RenderObjectV>,
    d: DrawableV,
    t: Transform2D,
    w: int,
    h: int,
)
    requires
        spec_unique_ids(cache),
    ensures
        spec_sync_cache(spec_sync_cache(cache, d, t, w, h), d, t, w, h)
            == spec_sync_cache(cache, d, t, w, h),
        ({
            let once = spec_sync_cache(cache, d, t, w, h);
            &&& spec_contains_id(once, d.id())
            &&& once[spec_index_of(once, d.id())].vertices == spec_drawable_vertices(d, t, w, h)
        }),
{
    let id = d.id();
    let verts = spec_drawable_vertices(d, t, w, h);
    let once = spec_sync_cache(cache, d, t, w, h);
    if spec_contains_id(cache, id) {
        let i = spec_index_of(cache, id);
        assert(0 <= i < cache.len() && cache[i].id == id);
        let x = RenderObjectV { vertices: verts, ..cache[i] };
        assert(once == cache.update(i, x));
        assert(spec_unique_ids(once));
        assert(once[i].id == id);
        lemma_index_of_unique(once, id, i);
        assert(RenderObjectV { vertices: verts, ..once[i] } == x);
        assert(once.update(i, x) =~= once);
    } else {
        let n = cache.len() as int;
        let fresh = spec_new_object(d, t, w, h);
        assert(once == cache.push(fresh));
        assert(once[n].id == id);
        assert(spec_unique_ids(once)) by {
            assert(forall|k: int| 0 <= k < n ==> (#[trigger] once[k]).id != id);
        }
        lemma_index_of_unique(once, id, n);
        assert(RenderObjectV { vertices: verts, ..once[n] } == fresh);
        assert(once.update(n, fresh) =~= once);
    }
}

/// A sync call keeps identities unique.
pub proof fn lemma_sync_cache_preserves_unique(
    cache: Seq<RenderObjectV>,
    d: DrawableV,
    t: Transform2D,
    w: int,
    h: int,
)
    requires
        spec_unique_ids(cache),
    ensures
        spec_unique_ids(spec_sync_cache(cache, d, t, w, h)),
{
    let s2 = spec_sync_cache(cache, d, t, w, h);
    if spec_contains_id(cache, d.id()) {
        assert(forall|k: int| 0 <= k < cache.len() ==> (#[trigger] s2[k]).id == cache[k].id);
    } else {
        assert(forall|k: int| 0 <= k < cache.len() ==> (#[trigger] s2[k]).id == cache[k].id);
        assert(forall|k: int| 0 <= k < cache.len() ==> (#[trigger] cache[k]).id != d.id());
    }
}

/// After a sync call the synced drawable's record holds exactly the vertex
/// data derived from its current state on the current surface.
pub proof fn lemma_sync_record(
    cache: Seq<RenderObjectV>,
    d: DrawableV,
    t: Transform2D,
    w: int,
    h: int,
)
    requires
        spec_unique_ids(cache),
    ensures
        ({
            let s2 = spec_sync_cache(cache, d, t, w, h);
            &&& spec_contains_id(s2, d.id())
            &&& s2[spec_index_of(s2, d.id())].vertices == spec_drawable_vertices(d, t, w, h)
        }),
{
    let id = d.id();
    let verts = spec_drawable_vertices(d, t, w, h);
    let s2 = spec_sync_cache(cache, d, t, w, h);
    lemma_sync_cache_preserves_unique(cache, d, t, w, h);
    if spec_contains_id(cache, id) {
        let i = spec_index_of(cache, id);
        assert(0 <= i < cache.len() && cache[i].id == id);
        assert(s2[i].id == id && s2[i].vertices == verts);
        lemma_index_of_unique(s2, id, i);
    } else {
        let n = cache.len() as int;
        assert(s2[n].id == id && s2[n].vertices == verts);
        lemma_index_of_unique(s2, id, n);
    }
}

/// A sync call leaves every record with a different identity untouched.
pub proof fn lemma_sync_cache_other(
    cache: Seq<RenderObjectV>,
    d: DrawableV,
    t: Transform2D,
    w: int,
    h: int,
    id: u32,
)
    requires
        spec_unique_ids(cache),
        spec_contains_id(cache, id),
        id != d.id(),
    ensures
        ({
            let s2 = spec_sync_cache(cache, d, t, w, h);
            &&& spec_contains_id(s2, id)
            &&& s2[spec_index_of(s2, id)] == cache[spec_index_of(cache, id)]
        }),
{
    let s2 = spec_sync_cache(cache, d, t, w, h);
    let j = spec_index_of(cache, id);
    assert(0 <= j < cache.len() && cache[j].id == id);
    lemma_sync_cache_preserves_unique(cache, d, t, w, h);
    if spec_contains_id(cache, d.id()) {
        let i = spec_index_of(cache, d.id());
        assert(0 <= i < cache.len() && cache[i].id == d.id());
        assert(i != j);
        assert(s2[j] == cache[j]);
        lemma_index_of_unique(s2, id, j);
    } else {
        assert(s2[j] == cache[j]);
        lemma_index_of_unique(s2, id, j);
    }
}

/// `1` for a pipeline creation, `0` for anything else.
pub open spec fn is_create_pipeline(o: DeviceOp) -> int {
    if o is CreatePipeline {
        1int
    } else {
        0int
    }
}

/// `1` for a vertex-buffer rewrite, `0` for anything else.
pub open spec fn is_vertex_write(o: DeviceOp) -> int {
    if o is WriteVertexBuffer {
        1int
    } else {
        0int
    }
}

/// How many pipeline creations a list of device operations requests.
pub open spec fn spec_pipeline_creations(ops: Seq<DeviceOp>) -> int
    decreases ops.len(),
{
    if ops.len() == 0 {
        0
    } else {
        is_create_pipeline(ops[0]) + spec_pipeline_creations(ops.drop_first())
    }
}

/// How many vertex-buffer rewrites a list of device operations requests.
pub open spec fn spec_vertex_writes(ops: Seq<DeviceOp>) -> int
    decreases ops.len(),
{
    if ops.len() == 0 {
        0
    } else {
        is_vertex_write(ops[0]) + spec_vertex_writes(ops.drop_first())
    }
}

proof fn lemma_counts_small(ops: Seq<DeviceOp>)
    requires
        ops.len() <= 3,
    ensures
        spec_pipeline_creations(ops) == if ops.len() == 0 {
            0int
        } else if ops.len() == 1 {
            is_create_pipeline(ops[0])
        } else if ops.len() == 2 {
            is_create_pipeline(ops[0]) + is_create_pipeline(ops[1])
        } else {
            is_create_pipeline(ops[0]) + is_create_pipeline(ops[1]) + is_create_pipeline(ops[2])
        },
        spec_vertex_writes(ops) == if ops.len() == 0 {
            0int
        } else if ops.len() == 1 {
            is_vertex_write(ops[0])
        } else if ops.len() == 2 {
            is_vertex_write(ops[0]) + is_vertex_write(ops[1])
        } else {
            is_vertex_write(ops[0]) + is_vertex_write(ops[1]) + is_vertex_write(ops[2])
        },
    decreases ops.len(),
{
    if ops.len() > 0 {
        lemma_counts_small(ops.drop_first());
    }
}

/// A fresh identity requests exactly one pipeline creation and no buffer
/// rewrite; a known identity requests no pipeline creation and exactly one
/// vertex-buffer rewrite.
pub proof fn lemma_create_vs_update(cache: Seq<RenderObjectV>, d: DrawableV)
    ensures
        !spec_contains_id(cache, d.id()) ==> spec_pipeline_creations(spec_sync_ops(cache, d)) == 1
            && spec_vertex_writes(spec_sync_ops(cache, d)) == 0,
        spec_contains_id(cache, d.id()) ==> spec_pipeline_creations(spec_sync_ops(cache, d)) == 0
            && spec_vertex_writes(spec_sync_ops(cache, d)) == 1,
{
    lemma_counts_small(spec_sync_ops(cache, d));
}

/// A record is drawn indexed exactly when it was created for geometry with
/// a non-empty index list.
pub proof fn lemma_draw_mode_selection(d: DrawableV, t: Transform2D, w: int, h: int)
    ensures
        spec_new_object(d, t, w, h).mode == RenderMode::DRAW_INDEXED
            <==> (d matches DrawableV::Geometry(c) && c.indices.len() > 0),
{
}

/// A sync call never evicts a record: afterwards the cache carries exactly
/// the identities it carried before, plus the synced drawable's.
pub proof fn lemma_sync_cache_identities(
    cache: Seq<RenderObjectV>,
    d: DrawableV,
    t: Transform2D,
    w: int,
    h: int,
    id: u32,
)
    ensures
        spec_contains_id(spec_sync_cache(cache, d, t, w, h), id)
            <==> (spec_contains_id(cache, id) || id == d.id()),
{
    let s2 = spec_sync_cache(cache, d, t, w, h);
    if spec_contains_id(cache, d.id()) {
        let i = spec_index_of(cache, d.id());
        assert(0 <= i < cache.len() && cache[i].id == d.id());
        assert(forall|k: int| 0 <= k < cache.len() ==> (#[trigger] s2[k]).id == cache[k].id);
        if spec_contains_id(cache, id) {
            let j = choose|j: int| 0 <= j < cache.len() && cache[j].id == id;
            assert(s2[j].id == id);
        }
        if id == d.id() {
            assert(s2[i].id == id);
        }
        if spec_contains_id(s2, id) {
            let j = choose|j: int| 0 <= j < s2.len() && s2[j].id == id;
            assert(cache[j].id == id);
        }
    } else {
        if spec_contains_id(cache, id) {
            let j = choose|j: int| 0 <= j < cache.len() && cache[j].id == id;
            assert(s2[j].id == id);
        }
        if id == d.id() {
            assert(s2[cache.len() as int].id == id);
        }
        if spec_contains_id(s2, id) {
            let j = choose|j: int| 0 <= j < s2.len() && s2[j].id == id;
            if j < cache.len() {
                assert(cache[j].id == id);
            } else {
                assert(id == d.id());
            }
        }
    }
}

/// A sync call never changes an existing record's identity, pipeline kind,
/// pipeline mode, binding, or index list; it can only refresh vertex data
/// or append a new record.
pub proof fn lemma_sync_preserves_records(
    cache: Seq<RenderObjectV>,
    d: DrawableV,
    t: Transform2D,
    w: int,
    h: int,
    j: int,
)
    requires
        0 <= j < cache.len(),
    ensures
        ({
            let s2 = spec_sync_cache(cache, d, t, w, h);
            &&& s2.len() >= cache.len()
            &&& s2[j].id == cache[j].id
            &&& s2[j].kind == cache[j].kind
            &&& s2[j].mode == cache[j].mode
            &&& s2[j].has_binding == cache[j].has_binding
            &&& s2[j].indices == cache[j].indices
        }),
{
}

} // verus!
