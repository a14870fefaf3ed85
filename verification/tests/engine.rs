use stray::events::{InputEvent, InputLatch, LastState};
use stray::render_state::{DeviceOp, DrawCall, PipelineKind, RenderMode};
use stray::scene::{Canvas, Drawable, Transform2D, Vertex};
use stray::settings::SBackend;
use stray::stray::{Entity, EventAction, Stray, StrayBuilder, StrayEvent};
use stray::SCALE;

const KEY_A: u32 = 65;

fn square_entity() -> Entity {
    let mut c = Canvas::init(1);
    c.set_vertices(vec![
        Vertex::new(-500, -500, 0),
        Vertex::new(500, -500, 0),
        Vertex::new(-500, 500, 0),
        Vertex::new(500, 500, 0),
    ]);
    c.set_indices(vec![0, 1, 2, 2, 1, 3]);
    Entity { drawable: Some(Drawable::Geometry(c)), transform: Some(Transform2D::zero()) }
}

#[test]
fn latch_press_then_release_across_ticks() {
    let mut latch = InputLatch::new();
    assert_eq!(latch.current, InputEvent::NONE);

    // Tick 1: the press arrives.
    latch.apply_key(KEY_A, true);
    assert!(latch.current.is_pressed(KEY_A));
    assert!(latch.last.was_pressed(KEY_A));

    // Tick boundary: the per-tick event resets, the latch persists.
    latch.end_tick();
    assert_eq!(latch.current, InputEvent::NONE);
    assert!(!latch.current.is_pressed(KEY_A));
    assert!(latch.last.was_pressed(KEY_A));

    // Tick 2: the release arrives and replaces both.
    latch.apply_key(KEY_A, false);
    assert!(latch.current.is_released(KEY_A));
    assert!(latch.last.was_released(KEY_A));
    assert!(!latch.last.was_pressed(KEY_A));
}

#[test]
fn latch_queries_are_key_exact() {
    let mut latch = InputLatch::new();
    latch.apply_key(KEY_A, true);
    assert!(!latch.current.is_pressed(66));
    assert!(!latch.current.is_released(KEY_A));
    assert!(!latch.last.was_released(KEY_A));
    assert_eq!(latch.last, LastState::PRESSED(KEY_A));
}

#[test]
fn builder_accumulates_configuration() {
    let b = Stray::new().with_title("demo").with_size(800, 480);
    assert_eq!(b.settings.title, "demo");
    assert_eq!(b.settings.width, 800);
    assert_eq!(b.settings.height, 480);
    let s = b.build();
    assert_eq!(s.surface_width, 800);
    assert_eq!(s.surface_height, 480);
    assert_eq!(s.render_state.len(), 0);
    assert_eq!(s.input.current, InputEvent::NONE);
}

#[test]
fn builder_defaults_match_settings_default() {
    let b = StrayBuilder::new();
    assert_eq!(b.settings.title, "Stray App");
    assert_eq!(b.settings.width, 600);
    assert_eq!(b.settings.height, 600);
    assert!(b.settings.resizable);
    assert!(!b.settings.always_on_top);
    assert_eq!(b.settings.backend, SBackend::ALL);
}

#[test]
fn zero_sized_resize_is_ignored() {
    let mut s = Stray::new().build();
    assert!(!s.resize(0, 100));
    assert!(!s.resize(100, 0));
    assert!(!s.resize(0, 0));
    assert_eq!(s.surface_width, 600);
    assert_eq!(s.surface_height, 600);
    assert_eq!(s.settings.width, 600);

    assert_eq!(s.handle_event(StrayEvent::Resized(0, 50)), EventAction::Nothing);
    assert_eq!(s.surface_width, 600);

    // Sync and present still run against the old, valid extent.
    let mut s2 = Stray::new().push(square_entity()).build();
    assert_eq!(s2.handle_event(StrayEvent::Resized(0, 0)), EventAction::Nothing);
    let (ops, calls) = s2.render_tick();
    assert!(!ops.is_empty());
    assert!(!calls.is_empty());
}

#[test]
fn nonzero_resize_reconfigures() {
    let mut s = Stray::new().build();
    assert_eq!(s.handle_event(StrayEvent::Resized(800, 400)), EventAction::Reconfigure(800, 400));
    assert_eq!(s.surface_width, 800);
    assert_eq!(s.surface_height, 400);
    assert_eq!(s.settings.width, 800);
    assert_eq!(s.settings.height, 400);
}

#[test]
fn keyboard_events_latch_and_tick_resets() {
    let mut s = Stray::new().build();
    assert_eq!(s.handle_event(StrayEvent::KeyboardInput(KEY_A, true)), EventAction::Nothing);
    assert!(s.input.current.is_pressed(KEY_A));
    assert!(s.input.last.was_pressed(KEY_A));
    s.end_tick();
    assert_eq!(s.input.current, InputEvent::NONE);
    assert!(s.input.last.was_pressed(KEY_A));
}

#[test]
fn close_and_cursor_and_tick_actions() {
    let mut s = Stray::new().build();
    assert_eq!(s.handle_event(StrayEvent::CloseRequested), EventAction::Exit);
    assert_eq!(s.handle_event(StrayEvent::CursorMoved(3, 4)), EventAction::Nothing);
    assert_eq!(s.handle_event(StrayEvent::Tick), EventAction::RunTick);
}

#[test]
fn one_tick_scenario_square_on_600_surface() {
    // One entity: a 1000x1000 square of four vertices and six indices,
    // identity transform, 600x600 surface.
    let mut s = Stray::new().push(square_entity()).build();
    assert_eq!(s.handle_event(StrayEvent::Tick), EventAction::RunTick);
    let (ops, calls) = s.render_tick();

    // Exactly one record, created with exactly one pipeline.
    assert_eq!(s.render_state.len(), 1);
    assert_eq!(
        ops.iter().filter(|o| matches!(o, DeviceOp::CreatePipeline(_))).count(),
        1
    );

    let o = s.render_state.get_at(0);
    assert_eq!(o.mode, RenderMode::DRAW_INDEXED);
    assert_eq!(o.kind, PipelineKind::SHAPE);
    assert_eq!(o.vertices.len(), 4);
    assert_eq!(o.indices.len(), 6);

    // Each coordinate is 500 pixels against a half extent of 300 pixels:
    // 5/3 in normalized device space, truncated in Q16.16.
    for v in &o.vertices {
        assert_eq!(v.px.abs(), 109226);
        assert_eq!(v.py.abs(), 109226);
        assert_eq!(v.pz, 0);
        // Identity model matrix.
        assert_eq!(v.model.m00, SCALE);
        assert_eq!(v.model.m11, SCALE);
        assert_eq!(v.model.m01, 0);
        assert_eq!(v.model.m30, 0);
        assert_eq!(v.model.m31, 0);
    }

    assert_eq!(
        calls,
        vec![
            DrawCall::SetPipeline(PipelineKind::SHAPE),
            DrawCall::SetVertexBuffer(1),
            DrawCall::SetIndexBuffer(1),
            DrawCall::DrawIndexed(6),
        ]
    );

    // A second tick only rewrites the buffer contents.
    let (ops2, calls2) = s.render_tick();
    assert_eq!(ops2, vec![DeviceOp::WriteVertexBuffer(1)]);
    assert_eq!(calls2, calls);
    assert_eq!(s.render_state.len(), 1);
}

#[test]
fn entities_without_drawable_request_nothing() {
    let mut s = Stray::new()
        .push(Entity { drawable: None, transform: Some(Transform2D::zero()) })
        .build();
    let (ops, calls) = s.render_tick();
    assert!(ops.is_empty());
    assert!(calls.is_empty());
    assert_eq!(s.render_state.len(), 0);
}

#[test]
fn world_wellformedness_is_checkable_at_runtime() {
    let mut s = Stray::new().push(square_entity()).build();
    assert!(s.world.is_wf());
    // A logic system drives a scale far out of the engine's limits.
    if let Some(t) = &mut s.world.entities[0].transform {
        t.sx = i64::MAX;
    }
    assert!(!s.world.is_wf());
}

#[test]
fn entities_sharing_an_identity_share_one_record() {
    // The second entity with the same identity lands as an update of the
    // first one's record: the cache never holds two records for one id.
    let mut s = Stray::new().push(square_entity()).push(square_entity()).build();
    let (ops, _) = s.render_tick();
    assert_eq!(s.render_state.len(), 1);
    assert_eq!(
        ops.iter().filter(|o| matches!(o, DeviceOp::CreatePipeline(_))).count(),
        1
    );
    assert_eq!(
        ops.iter().filter(|o| matches!(o, DeviceOp::WriteVertexBuffer(_))).count(),
        1
    );
}

#[test]
fn transform_translation_lands_in_model_matrix() {
    // Position (300, -150) in Q16.16 pixels on a 600x600 surface: the
    // translation column holds 2*300/600 = 1.0 and 2*(-150)/600 = -0.5.
    let mut c = Canvas::init(1);
    c.set_vertices(vec![Vertex::new(0, 0, 0)]);
    let t = Transform2D::new(300 * SCALE, -150 * SCALE, 0, SCALE, SCALE);
    let e = Entity { drawable: Some(Drawable::Geometry(c)), transform: Some(t) };
    let mut s = Stray::new().push(e).build();
    s.render_tick();
    let v = s.render_state.get_at(0).vertices[0];
    assert_eq!(v.model.m30, SCALE);
    assert_eq!(v.model.m31, -(SCALE / 2));
}

#[test]
fn rotation_lands_in_model_matrix() {
    let mut c = Canvas::init(1);
    c.set_vertices(vec![Vertex::new(0, 0, 0)]);
    let t = Transform2D::new(0, 0, 90, SCALE, SCALE);
    let e = Entity { drawable: Some(Drawable::Geometry(c)), transform: Some(t) };
    let mut s = Stray::new().push(e).build();
    s.render_tick();
    let v = s.render_state.get_at(0).vertices[0];
    // cos 90 = 0, sin 90 = 1.
    assert_eq!(v.model.m00, 0);
    assert_eq!(v.model.m01, SCALE);
    assert_eq!(v.model.m10, -SCALE);
    assert_eq!(v.model.m11, 0);
}
