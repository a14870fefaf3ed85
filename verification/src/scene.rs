//! Drawables and their conversion to device vertex data.
//!
//! A drawable is either a `Canvas` (a list of geometry vertices with an
//! optional index list) or a `Sprite` (an RGBA image drawn as a quad of six
//! vertices). Conversion to device data normalizes pixel coordinates against
//! half the current surface extent and attaches a Q16.16 model matrix built
//! from the entity's 2D transform.

use vstd::prelude::*;
use crate::fixed::{
    SCALE, spec_cos_deg, spec_sin_deg, spec_fp_mul, spec_normalize, spec_normalize_fp, tdiv,
    cos_fp, sin_fp, fp_mul, fp_trunc, normalize_coord, normalize_fp, lemma_tdiv_bound,
};
use crate::material::{StandardMaterial, StrayColor, spec_srgb_linear, srgb_linear_fp};

verus! {

/// A geometry vertex: pixel coordinates, a depth layer, and a material.
#[derive(Clone, Copy, Debug, PartialEq, Eq, Structural)]
pub struct Vertex {
    pub x: i32,
    pub y: i32,
    pub layer: i32,
    pub material: StandardMaterial,
}

impl Vertex {
    pub open spec fn wf(self) -> bool {
        self.material.wf()
    }

    /// Runtime check of `wf`, for callers outside the verified library.
    pub fn is_wf(&self) -> (r: bool)
        ensures
            r == self.wf(),
    {
        self.material.is_wf()
    }

    pub fn new(x: i32, y: i32, layer: i32) -> (v: Vertex)
        ensures
            v == (Vertex { x, y, layer, material: StandardMaterial { color: StrayColor { r: 0i16, g: 0i16, b: 0i16, a: 0i64 } } }),
            v.wf(),
    {
        Vertex { x, y, layer, material: StandardMaterial::new(StrayColor::default()) }
    }
}

/// A 2D world transform: position in Q16.16 pixels, a rotation in whole
/// degrees, and a Q16.16 scale per axis.
#[derive(Clone, Copy, Debug, PartialEq, Eq, Structural)]
pub struct Transform2D {
    pub x: i64,
    pub y: i64,
    pub rotation: i32,
    pub sx: i64,
    pub sy: i64,
}

impl Transform2D {
    /// Bounds forced by the 64-bit fixed-point evaluation: positions within
    /// 2^31 pixels and scale factors within 256x.
    pub open spec fn wf(self) -> bool {
        &&& -0x8000_0000_0000 <= self.x <= 0x8000_0000_0000
        &&& -0x8000_0000_0000 <= self.y <= 0x8000_0000_0000
        &&& -0x100_0000 <= self.sx <= 0x100_0000
        &&& -0x100_0000 <= self.sy <= 0x100_0000
    }

    /// Runtime check of `wf`, for callers outside the verified library.
    pub fn is_wf(&self) -> (r: bool)
        ensures
            r == self.wf(),
    {
        -0x8000_0000_0000 <= self.x && self.x <= 0x8000_0000_0000
            && -0x8000_0000_0000 <= self.y && self.y <= 0x8000_0000_0000
            && -0x100_0000 <= self.sx && self.sx <= 0x100_0000
            && -0x100_0000 <= self.sy && self.sy <= 0x100_0000
    }

    pub fn new(x: i64, y: i64, rotation: i32, sx: i64, sy: i64) -> (t: Transform2D)
        requires
            -0x8000_0000_0000 <= x <= 0x8000_0000_0000,
            -0x8000_0000_0000 <= y <= 0x8000_0000_0000,
            -0x100_0000 <= sx <= 0x100_0000,
            -0x100_0000 <= sy <= 0x100_0000,
        ensures
            t == (Transform2D { x, y, rotation, sx, sy }),
            t.wf(),
    {
        Transform2D { x, y, rotation, sx, sy }
    }

    /// The identity transform: origin position, no rotation, unit scale.
    pub fn zero() -> (t: Transform2D)
        ensures
            t == (Transform2D { x: 0i64, y: 0i64, rotation: 0i32, sx: SCALE, sy: SCALE }),
            t.wf(),
    {
        Transform2D { x: 0, y: 0, rotation: 0, sx: SCALE, sy: SCALE }
    }
}

/// A 4x4 Q16.16 matrix, column major: `mCR` is column `C`, row `R`.
#[derive(Clone, Copy, Debug, PartialEq, Eq, Structural)]
pub struct Mat4Fp {
    pub m00: i64, pub m01: i64, pub m02: i64, pub m03: i64,
    pub m10: i64, pub m11: i64, pub m12: i64, pub m13: i64,
    pub m20: i64, pub m21: i64, pub m22: i64, pub m23: i64,
    pub m30: i64, pub m31: i64, pub m32: i64, pub m33: i64,
}

/// The model matrix of a transform on a `w` by `h` surface: translation
/// (normalized against half the surface extent) composed with rotation about
/// Z and per-axis scale.
pub open spec fn spec_model_matrix(t: Transform2D, w: int, h: int) -> Mat4Fp {
    let c = spec_cos_deg(t.rotation as int);
    let s = spec_sin_deg(t.rotation as int);
    Mat4Fp {
        m00: spec_fp_mul(c, t.sx as int) as i64,
        m01: spec_fp_mul(s, t.sx as int) as i64,
        m02: 0i64,
        m03: 0i64,
        m10: spec_fp_mul(-s, t.sy as int) as i64,
        m11: spec_fp_mul(c, t.sy as int) as i64,
        m12: 0i64,
        m13: 0i64,
        m20: 0i64,
        m21: 0i64,
        m22: SCALE,
        m23: 0i64,
        m30: spec_normalize_fp(t.x as int, w) as i64,
        m31: spec_normalize_fp(t.y as int, h) as i64,
        m32: 0i64,
        m33: SCALE,
    }
}

pub fn model_matrix(t: &Transform2D, w: u32, h: u32) -> (m: Mat4Fp)
    requires
        t.wf(),
        1 <= w,
        1 <= h,
    ensures
        m == spec_model_matrix(*t, w as int, h as int),
{
    let c = cos_fp(t.rotation);
    let s = sin_fp(t.rotation);
    proof {
        assert(c * t.sx <= 0x4000_0000_0000_0000 && c * t.sx >= -0x4000_0000_0000_0000)
            by (nonlinear_arith)
            requires -0x1_0000 <= c <= 0x1_0000, -0x100_0000 <= t.sx <= 0x100_0000;
        assert(s * t.sx <= 0x4000_0000_0000_0000 && s * t.sx >= -0x4000_0000_0000_0000)
            by (nonlinear_arith)
            requires -0x1_0000 <= s <= 0x1_0000, -0x100_0000 <= t.sx <= 0x100_0000;
        assert((-s) * t.sy <= 0x4000_0000_0000_0000 && (-s) * t.sy >= -0x4000_0000_0000_0000)
            by (nonlinear_arith)
            requires -0x1_0000 <= s <= 0x1_0000, -0x100_0000 <= t.sy <= 0x100_0000;
        assert(c * t.sy <= 0x4000_0000_0000_0000 && c * t.sy >= -0x4000_0000_0000_0000)
            by (nonlinear_arith)
            requires -0x1_0000 <= c <= 0x1_0000, -0x100_0000 <= t.sy <= 0x100_0000;
    }
    Mat4Fp {
        m00: fp_mul(c, t.sx),
        m01: fp_mul(s, t.sx),
        m02: 0,
        m03: 0,
        m10: fp_mul(-s, t.sy),
        m11: fp_mul(c, t.sy),
        m12: 0,
        m13: 0,
        m20: 0,
        m21: 0,
        m22: SCALE,
        m23: 0,
        m30: normalize_fp(t.x, w),
        m31: normalize_fp(t.y, h),
        m32: 0,
        m33: SCALE,
    }
}

/// A device vertex: normalized position, texture coordinates, linear color
/// and the model matrix, all in Q16.16 units.
#[derive(Clone, Copy, Debug, PartialEq, Eq, Structural)]
pub struct RawVertex {
    pub px: i64,
    pub py: i64,
    pub pz: i64,
    pub tx: i64,
    pub ty: i64,
    pub cr: i64,
    pub cg: i64,
    pub cb: i64,
    pub ca: i64,
    pub model: Mat4Fp,
}

/// The device vertex derived from a geometry vertex: position normalized
/// against half the surface extent, color decoded from sRGB to linear.
pub open spec fn spec_raw_vertex(v: Vertex, tx: int, ty: int, w: int, h: int, m: Mat4Fp) -> RawVertex {
    RawVertex {
        px: spec_normalize(v.x as int, w) as i64,
        py: spec_normalize(v.y as int, h) as i64,
        pz: (v.layer as int * SCALE as int) as i64,
        tx: tx as i64,
        ty: ty as i64,
        cr: spec_srgb_linear(v.material.color.r as int) as i64,
        cg: spec_srgb_linear(v.material.color.g as int) as i64,
        cb: spec_srgb_linear(v.material.color.b as int) as i64,
        ca: v.material.color.a,
        model: m,
    }
}

pub fn raw_vertex(v: &Vertex, tx: i64, ty: i64, w: u32, h: u32, m: Mat4Fp) -> (r: RawVertex)
    requires
        v.wf(),
        1 <= w,
        1 <= h,
        0 <= tx <= SCALE,
        0 <= ty <= SCALE,
    ensures
        r == spec_raw_vertex(*v, tx as int, ty as int, w as int, h as int, m),
{
    RawVertex {
        px: normalize_coord(v.x as i64, w),
        py: normalize_coord(v.y as i64, h),
        pz: (v.layer as i64) * SCALE,
        tx,
        ty,
        cr: srgb_linear_fp(v.material.color.r),
        cg: srgb_linear_fp(v.material.color.g),
        cb: srgb_linear_fp(v.material.color.b),
        ca: v.material.color.a,
        model: m,
    }
}

/// Geometry vertices with an optional index list and a shared material.
#[derive(Debug, Clone)]
pub struct Canvas {
    pub id: u32,
    pub vertices: Vec<Vertex>,
    pub indices: Vec<u16>,
    pub material: Option<StandardMaterial>,
}

pub struct CanvasV {
    pub id: u32,
    pub vertices: Seq<Vertex>,
    pub indices: Seq<u16>,
    pub material: Option<StandardMaterial>,
}

impl View for Canvas {
    type V = CanvasV;

    open spec fn view(&self) -> CanvasV {
        CanvasV {
            id: self.id,
            vertices: self.vertices@,
            indices: self.indices@,
            material: self.material,
        }
    }
}

impl CanvasV {
    pub open spec fn wf(self) -> bool {
        &&& forall|i: int| 0 <= i < self.vertices.len() ==> (#[trigger] self.vertices[i]).wf()
        &&& self.material matches Some(m) ==> m.wf()
        &&& self.vertices.len() <= 0xFFFF_FFFF
        &&& self.indices.len() <= 0xFFFF_FFFF
    }
}

impl Canvas {
    /// Runtime check of the view's `wf`, for callers outside the verified
    /// library.
    pub fn is_wf(&self) -> (r: bool)
        ensures
            r == self@.wf(),
    {
        if self.vertices.len() > 0xFFFF_FFFF || self.indices.len() > 0xFFFF_FFFF {
            return false;
        }
        match &self.material {
            Some(m) => {
                if !m.is_wf() {
                    return false;
                }
            },
            None => {},
        }
        let n = self.vertices.len();
        let mut i: usize = 0;
        while i < n
            invariant
                i <= n,
                n == self.vertices@.len(),
                forall|k: int| 0 <= k < i ==> (#[trigger] self.vertices@[k]).wf(),
            decreases n - i,
        {
            if !self.vertices[i].is_wf() {
                return false;
            }
            i = i + 1;
        }
        true
    }

    pub fn init(id: u32) -> (c: Canvas)
        ensures
            c@.id == id,
            c@.vertices.len() == 0,
            c@.indices.len() == 0,
            c@.material is None,
            c@.wf(),
    {
        Canvas { id, vertices: Vec::new(), indices: Vec::new(), material: None }
    }

    pub fn set_vertices(&mut self, vertices: Vec<Vertex>)
        ensures
            final(self)@ == (CanvasV { vertices: vertices@, ..old(self)@ }),
    {
        self.vertices = vertices;
    }

    pub fn set_indices(&mut self, indices: Vec<u16>)
        ensures
            final(self)@ == (CanvasV { indices: indices@, ..old(self)@ }),
    {
        self.indices = indices;
    }

    /// Store the material and restamp every vertex with it.
    pub fn set_material(&mut self, material: StandardMaterial)
        ensures
            final(self)@.id == old(self)@.id,
            final(self)@.indices == old(self)@.indices,
            final(self)@.material == Some(material),
            final(self)@.vertices.len() == old(self)@.vertices.len(),
            forall|i: int| 0 <= i < old(self)@.vertices.len() ==> final(self)@.vertices[i]
                == (Vertex { material, ..old(self)@.vertices[i] }),
    {
        self.material = Some(material);
        let n = self.vertices.len();
        let mut i: usize = 0;
        while i < n
            invariant
                i <= n,
                n == self.vertices@.len(),
                self.id == old(self).id,
                self.indices@ == old(self).indices@,
                self.material == Some(material),
                forall|k: int| 0 <= k < i ==> self.vertices@[k]
                    == (Vertex { material, ..old(self).vertices@[k] }),
                forall|k: int| i <= k < n ==> self.vertices@[k] == old(self).vertices@[k],
            decreases n - i,
        {
            let v = self.vertices[i];
            self.vertices.set(i, Vertex { x: v.x, y: v.y, layer: v.layer, material });
            i = i + 1;
        }
    }
}

/// An RGBA image drawn as a screen-aligned quad.
#[derive(Debug, Clone)]
pub struct Sprite {
    pub id: u32,
    pub rgba: Vec<u8>,
    pub width: u32,
    pub height: u32,
    pub layer: i32,
}

pub struct SpriteV {
    pub id: u32,
    pub rgba: Seq<u8>,
    pub width: u32,
    pub height: u32,
    pub layer: i32,
}

impl View for Sprite {
    type V = SpriteV;

    open spec fn view(&self) -> SpriteV {
        SpriteV {
            id: self.id,
            rgba: self.rgba@,
            width: self.width,
            height: self.height,
            layer: self.layer,
        }
    }
}

impl SpriteV {
    /// The pixel buffer holds four bytes per pixel; dimensions are within
    /// the device's texture extent limit.
    pub open spec fn wf(self) -> bool {
        &&& self.width <= 0xFFFF
        &&& self.height <= 0xFFFF
        &&& self.rgba.len() == 4 * self.width * self.height
    }
}

impl Sprite {
    /// Runtime check of the view's `wf`, for callers outside the verified
    /// library.
    pub fn is_wf(&self) -> (r: bool)
        ensures
            r == self@.wf(),
    {
        if self.width > 0xFFFF || self.height > 0xFFFF {
            return false;
        }
        proof {
            assert(0 <= 4 * (self.width as int) * (self.height as int) <= 0x3_FFF8_0004)
                by (nonlinear_arith)
                requires self.width <= 0xFFFF, self.height <= 0xFFFF;
        }
        self.rgba.len() as u64 == 4 * (self.width as u64) * (self.height as u64)
    }
}

/// What an entity can show on screen: a closed variant of the two drawable
/// kinds.
#[derive(Debug, Clone)]
pub enum Drawable {
    Geometry(Canvas),
    Sprite(Sprite),
}

pub enum DrawableV {
    Geometry(CanvasV),
    Sprite(SpriteV),
}

impl View for Drawable {
    type V = DrawableV;

    open spec fn view(&self) -> DrawableV {
        match self {
            Drawable::Geometry(c) => DrawableV::Geometry(c@),
            Drawable::Sprite(s) => DrawableV::Sprite(s@),
        }
    }
}

impl DrawableV {
    pub open spec fn id(self) -> u32 {
        match self {
            DrawableV::Geometry(c) => c.id,
            DrawableV::Sprite(s) => s.id,
        }
    }

    pub open spec fn wf(self) -> bool {
        match self {
            DrawableV::Geometry(c) => c.wf(),
            DrawableV::Sprite(s) => s.wf(),
        }
    }
}

impl Drawable {
    /// Runtime check of the view's `wf`, for callers outside the verified
    /// library.
    pub fn is_wf(&self) -> (r: bool)
        ensures
            r == self@.wf(),
    {
        match self {
            Drawable::Geometry(c) => c.is_wf(),
            Drawable::Sprite(s) => s.is_wf(),
        }
    }

    /// The stable identity that keys this drawable's device resources.
    pub fn id(&self) -> (r: u32)
        ensures
            r == self@.id(),
    {
        match self {
            Drawable::Geometry(c) => c.id,
            Drawable::Sprite(s) => s.id,
        }
    }
}

/// The default material stamped on sprite quad vertices.
pub open spec fn spec_default_material() -> StandardMaterial {
    StandardMaterial { color: StrayColor { r: 0i16, g: 0i16, b: 0i16, a: 0i64 } }
}

/// Device vertices of a geometry drawable: each vertex normalized on the
/// current surface, all carrying the transform's model matrix.
pub open spec fn spec_geometry_vertices(c: CanvasV, t: Transform2D, w: int, h: int) -> Seq<RawVertex> {
    Seq::new(
        c.vertices.len(),
        |i: int| spec_raw_vertex(c.vertices[i], 0, 0, w, h, spec_model_matrix(t, w, h)),
    )
}

pub fn build_geometry_vertices(c: &Canvas, t: &Transform2D, w: u32, h: u32) -> (r: Vec<RawVertex>)
    requires
        c@.wf(),
        t.wf(),
        1 <= w,
        1 <= h,
    ensures
        r@ == spec_geometry_vertices(c@, *t, w as int, h as int),
{
    let ghost m_spec = spec_model_matrix(*t, w as int, h as int);
    let m = model_matrix(t, w, h);
    let mut r: Vec<RawVertex> = Vec::new();
    let n = c.vertices.len();
    let mut i: usize = 0;
    while i < n
        invariant
            i <= n,
            n == c.vertices@.len(),
            r@.len() == i,
            m == m_spec,
            m_spec == spec_model_matrix(*t, w as int, h as int),
            c@.wf(),
            t.wf(),
            1 <= w,
            1 <= h,
            forall|k: int| 0 <= k < i ==> r@[k]
                == spec_raw_vertex(c.vertices@[k], 0, 0, w as int, h as int, m_spec),
        decreases n - i,
    {
        let rv = raw_vertex(&c.vertices[i], 0, 0, w, h, m);
        r.push(rv);
        i = i + 1;
    }
    proof {
        assert(r@ =~= spec_geometry_vertices(c@, *t, w as int, h as int));
    }
    r
}

/// Half extent of a sprite quad along one axis: the image dimension scaled
/// by the transform, in whole pixels.
pub open spec fn spec_sprite_half_extent(dim: int, s: int) -> int {
    tdiv(spec_fp_mul(dim * (SCALE as int), s), SCALE as int)
}

/// Device vertices of a sprite drawable: two triangles spanning the scaled
/// quad, with texture coordinates over the whole image.
pub open spec fn spec_sprite_vertices(s: SpriteV, t: Transform2D, w: int, h: int) -> Seq<RawVertex> {
    let m = spec_model_matrix(t, w, h);
    let tw = spec_sprite_half_extent(s.width as int, t.sx as int);
    let th = spec_sprite_half_extent(s.height as int, t.sy as int);
    let sc = SCALE as int;
    seq![
        spec_raw_vertex(Vertex { x: (-tw) as i32, y: (-th) as i32, layer: s.layer, material: spec_default_material() }, 0, sc, w, h, m),
        spec_raw_vertex(Vertex { x: tw as i32, y: (-th) as i32, layer: s.layer, material: spec_default_material() }, sc, sc, w, h, m),
        spec_raw_vertex(Vertex { x: (-tw) as i32, y: th as i32, layer: s.layer, material: spec_default_material() }, 0, 0, w, h, m),
        spec_raw_vertex(Vertex { x: (-tw) as i32, y: th as i32, layer: s.layer, material: spec_default_material() }, 0, 0, w, h, m),
        spec_raw_vertex(Vertex { x: tw as i32, y: (-th) as i32, layer: s.layer, material: spec_default_material() }, sc, sc, w, h, m),
        spec_raw_vertex(Vertex { x: tw as i32, y: th as i32, layer: s.layer, material: spec_default_material() }, sc, 0, w, h, m),
    ]
}

fn sprite_half_extent(dim: u32, s: i64) -> (r: i64)
    requires
        dim <= 0xFFFF,
        -0x100_0000 <= s <= 0x100_0000,
    ensures
        r == spec_sprite_half_extent(dim as int, s as int),
        -0x100_0000_0000 <= r <= 0x100_0000_0000,
{
    proof {
        assert((dim * (SCALE as int)) * s <= 0x100_0000_0000 * (SCALE as int)
            && (dim * (SCALE as int)) * s >= -0x100_0000_0000 * (SCALE as int))
            by (nonlinear_arith)
            requires 0 <= dim <= 0xFFFF, -0x100_0000 <= s <= 0x100_0000;
        lemma_tdiv_bound((dim * (SCALE as int)) * s, SCALE as int, 0x100_0000_0000);
    }
    let f = fp_mul((dim as i64) * SCALE, s);
    proof {
        lemma_tdiv_bound(f as int, SCALE as int, 0x100_0000_0000);
        assert(f * (SCALE as int) <= 0x100_0000_0000 * (SCALE as int)
            && f * (SCALE as int) >= -0x100_0000_0000 * (SCALE as int))
            by (nonlinear_arith)
            requires -0x100_0000_0000 <= f <= 0x100_0000_0000;
    }
    fp_trunc(f)
}

pub fn build_sprite_vertices(s: &Sprite, t: &Transform2D, w: u32, h: u32) -> (r: Vec<RawVertex>)
    requires
        s@.wf(),
        t.wf(),
        1 <= w,
        1 <= h,
    ensures
        r@ == spec_sprite_vertices(s@, *t, w as int, h as int),
        r@.len() == 6,
{
    let m = model_matrix(t, w, h);
    let tw = sprite_half_extent(s.width, t.sx);
    let th = sprite_half_extent(s.height, t.sy);
    let v0 = Vertex::new(-tw as i32, -th as i32, s.layer);
    let v1 = Vertex::new(tw as i32, -th as i32, s.layer);
    let v2 = Vertex::new(-tw as i32, th as i32, s.layer);
    let v3 = Vertex::new(tw as i32, th as i32, s.layer);
    let mut r: Vec<RawVertex> = Vec::new();
    r.push(raw_vertex(&v0, 0, SCALE, w, h, m));
    r.push(raw_vertex(&v1, SCALE, SCALE, w, h, m));
    r.push(raw_vertex(&v2, 0, 0, w, h, m));
    r.push(raw_vertex(&v2, 0, 0, w, h, m));
    r.push(raw_vertex(&v1, SCALE, SCALE, w, h, m));
    r.push(raw_vertex(&v3, SCALE, 0, w, h, m));
    proof {
        assert(r@ =~= spec_sprite_vertices(s@, *t, w as int, h as int));
    }
    r
}

/// Device vertices of any drawable on the current surface.
pub open spec fn spec_drawable_vertices(d: DrawableV, t: Transform2D, w: int, h: int) -> Seq<RawVertex> {
    match d {
        DrawableV::Geometry(c) => spec_geometry_vertices(c, t, w, h),
        DrawableV::Sprite(s) => spec_sprite_vertices(s, t, w, h),
    }
}

pub fn build_drawable_vertices(d: &Drawable, t: &Transform2D, w: u32, h: u32) -> (r: Vec<RawVertex>)
    requires
        d@.wf(),
        t.wf(),
        1 <= w,
        1 <= h,
    ensures
        r@ == spec_drawable_vertices(d@, *t, w as int, h as int),
{
    match d {
        Drawable::Geometry(c) => build_geometry_vertices(c, t, w, h),
        Drawable::Sprite(s) => build_sprite_vertices(s, t, w, h),
    }
}

} // verus!
