use stray::material::{StandardMaterial, StrayColor};
use stray::render_state::{DeviceOp, DrawCall, PipelineKind, RenderMode, RenderState};
use stray::scene::{Canvas, Drawable, Sprite, Transform2D, Vertex};

fn square_canvas(id: u32) -> Canvas {
    let mut c = Canvas::init(id);
    c.set_vertices(vec![
        Vertex::new(-500, -500, 0),
        Vertex::new(500, -500, 0),
        Vertex::new(-500, 500, 0),
        Vertex::new(500, 500, 0),
    ]);
    c.set_indices(vec![0, 1, 2, 2, 1, 3]);
    c
}

fn tiny_sprite(id: u32) -> Sprite {
    Sprite { id, rgba: vec![0u8; 16], width: 2, height: 2, layer: 0 }
}

fn creations(ops: &[DeviceOp]) -> usize {
    ops.iter().filter(|o| matches!(o, DeviceOp::CreatePipeline(_))).count()
}

fn vertex_writes(ops: &[DeviceOp]) -> usize {
    ops.iter().filter(|o| matches!(o, DeviceOp::WriteVertexBuffer(_))).count()
}

#[test]
fn fresh_identity_builds_full_record() {
    let mut rs = RenderState::empty();
    let d = Drawable::Geometry(square_canvas(1));
    let t = Transform2D::zero();
    let ops = rs.sync(&d, &t, 600, 600);
    assert_eq!(
        ops,
        vec![
            DeviceOp::CreatePipeline(PipelineKind::SHAPE),
            DeviceOp::CreateVertexBuffer(1),
            DeviceOp::CreateIndexBuffer(1),
        ]
    );
    assert_eq!(rs.len(), 1);
    let o = rs.get_at(0);
    assert_eq!(o.id, 1);
    assert_eq!(o.kind, PipelineKind::SHAPE);
    assert_eq!(o.mode, RenderMode::DRAW_INDEXED);
    assert_eq!(o.vertices.len(), 4);
    assert_eq!(o.indices, vec![0, 1, 2, 2, 1, 3]);
    assert!(!o.has_binding);
}

#[test]
fn known_identity_updates_in_place() {
    let mut rs = RenderState::empty();
    let d = Drawable::Geometry(square_canvas(7));
    let t = Transform2D::zero();
    let first = rs.sync(&d, &t, 600, 600);
    assert_eq!(creations(&first), 1);
    assert_eq!(vertex_writes(&first), 0);
    let second = rs.sync(&d, &t, 600, 600);
    assert_eq!(second, vec![DeviceOp::WriteVertexBuffer(7)]);
    assert_eq!(creations(&second), 0);
    assert_eq!(vertex_writes(&second), 1);
    assert_eq!(rs.len(), 1);
}

#[test]
fn sync_twice_same_tick_is_idempotent() {
    let mut rs = RenderState::empty();
    let d = Drawable::Geometry(square_canvas(3));
    let t = Transform2D::zero();
    rs.sync(&d, &t, 600, 600);
    let after_first = rs.get_at(0).vertices.clone();
    rs.sync(&d, &t, 600, 600);
    let after_second = rs.get_at(0).vertices.clone();
    assert_eq!(after_first, after_second);
    assert_eq!(rs.len(), 1);
}

#[test]
fn geometry_without_indices_draws_plain() {
    let mut rs = RenderState::empty();
    let mut c = Canvas::init(4);
    c.set_vertices(vec![Vertex::new(0, 0, 0), Vertex::new(1, 1, 0), Vertex::new(2, 0, 0)]);
    let d = Drawable::Geometry(c);
    let t = Transform2D::zero();
    let ops = rs.sync(&d, &t, 600, 600);
    assert_eq!(
        ops,
        vec![DeviceOp::CreatePipeline(PipelineKind::SHAPE), DeviceOp::CreateVertexBuffer(4)]
    );
    assert_eq!(rs.get_at(0).mode, RenderMode::DRAW);
}

#[test]
fn geometry_with_indices_draws_indexed() {
    let mut rs = RenderState::empty();
    let d = Drawable::Geometry(square_canvas(5));
    let t = Transform2D::zero();
    rs.sync(&d, &t, 600, 600);
    assert_eq!(rs.get_at(0).mode, RenderMode::DRAW_INDEXED);
}

#[test]
fn sprite_record_binds_texture_pipeline() {
    let mut rs = RenderState::empty();
    let d = Drawable::Sprite(tiny_sprite(9));
    let t = Transform2D::zero();
    let ops = rs.sync(&d, &t, 600, 600);
    assert_eq!(
        ops,
        vec![
            DeviceOp::CreatePipeline(PipelineKind::TEXTURE),
            DeviceOp::CreateVertexBuffer(9),
            DeviceOp::CreateTextureBinding(9),
        ]
    );
    let o = rs.get_at(0);
    assert_eq!(o.kind, PipelineKind::TEXTURE);
    assert_eq!(o.mode, RenderMode::DRAW);
    assert_eq!(o.vertices.len(), 6);
    assert!(o.has_binding);
}

#[test]
fn sprite_update_rewrites_binding_too() {
    let mut rs = RenderState::empty();
    let d = Drawable::Sprite(tiny_sprite(9));
    let t = Transform2D::zero();
    rs.sync(&d, &t, 600, 600);
    let ops = rs.sync(&d, &t, 600, 600);
    assert_eq!(
        ops,
        vec![DeviceOp::WriteVertexBuffer(9), DeviceOp::WriteTextureBinding(9)]
    );
}

#[test]
fn pipeline_mode_never_changes_after_creation() {
    let mut rs = RenderState::empty();
    let d = Drawable::Geometry(square_canvas(2));
    let t = Transform2D::zero();
    rs.sync(&d, &t, 600, 600);
    assert_eq!(rs.get_at(0).mode, RenderMode::DRAW_INDEXED);
    // The drawable loses its index list; the record keeps its mode.
    let mut c2 = square_canvas(2);
    c2.set_indices(vec![]);
    let d2 = Drawable::Geometry(c2);
    rs.sync(&d2, &t, 600, 600);
    assert_eq!(rs.get_at(0).mode, RenderMode::DRAW_INDEXED);
    assert_eq!(rs.len(), 1);
}

#[test]
fn exist_and_find_by_identity() {
    let mut rs = RenderState::empty();
    assert!(!rs.exist(1));
    let d = Drawable::Geometry(square_canvas(1));
    let t = Transform2D::zero();
    rs.sync(&d, &t, 600, 600);
    assert!(rs.exist(1));
    assert!(!rs.exist(2));
    assert_eq!(rs.find(1), Some(0));
    assert_eq!(rs.find(2), None);
}

#[test]
fn redraw_plans_indexed_geometry() {
    let mut rs = RenderState::empty();
    let d = Drawable::Geometry(square_canvas(1));
    let t = Transform2D::zero();
    rs.sync(&d, &t, 600, 600);
    let calls = rs.redraw();
    assert_eq!(
        calls,
        vec![
            DrawCall::SetPipeline(PipelineKind::SHAPE),
            DrawCall::SetVertexBuffer(1),
            DrawCall::SetIndexBuffer(1),
            DrawCall::DrawIndexed(6),
        ]
    );
}

#[test]
fn redraw_plans_sprite_quad() {
    let mut rs = RenderState::empty();
    let d = Drawable::Sprite(tiny_sprite(8));
    let t = Transform2D::zero();
    rs.sync(&d, &t, 600, 600);
    let calls = rs.redraw();
    assert_eq!(
        calls,
        vec![
            DrawCall::SetPipeline(PipelineKind::TEXTURE),
            DrawCall::SetBindGroup(8),
            DrawCall::SetVertexBuffer(8),
            DrawCall::Draw(6),
        ]
    );
}

#[test]
fn redraw_keeps_creation_order() {
    let mut rs = RenderState::empty();
    let t = Transform2D::zero();
    rs.sync(&Drawable::Sprite(tiny_sprite(8)), &t, 600, 600);
    rs.sync(&Drawable::Geometry(square_canvas(1)), &t, 600, 600);
    let calls = rs.redraw();
    assert_eq!(calls[0], DrawCall::SetPipeline(PipelineKind::TEXTURE));
    assert_eq!(calls[4], DrawCall::SetPipeline(PipelineKind::SHAPE));
    assert_eq!(calls.len(), 8);
}

#[test]
fn set_material_restamps_vertices() {
    let mut c = square_canvas(1);
    let m = StandardMaterial::new(StrayColor::new(255, 0, 0, 65536));
    c.set_material(m);
    assert_eq!(c.material, Some(m));
    for v in &c.vertices {
        assert_eq!(v.material, m);
    }
}
