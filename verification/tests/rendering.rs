//! Render-state behavior: animation arithmetic, snapshots, blocked-out
//! substitution, the composited open-transition path, and close frames.

use layer_anim::anim::Animation;
use layer_anim::closing::ClosingLayer;
use layer_anim::config::{
    AnimationParams, Animations, BlockOutFrom, Color, Config, Permille, ShadowConfig, ShadowRule,
};
use layer_anim::geometry::{Point, Rect, Size};
use layer_anim::mapped::{MappedLayer, PopupContent};
use layer_anim::render::{
    encompassing_geo, LayerSurfaceRenderElement, RenderTarget, SurfaceElement,
};
use layer_anim::rules::ResolvedLayerRules;
use layer_anim::shaders::{init, set_custom_layer_close_program, ProgramType, RenderContext,
    Shaders};
use layer_anim::surface::{
    Anchor, ExclusiveZone, KeyboardInteractivity, Layer, LayerAttributes, LayerSurface,
};

fn test_config() -> Config {
    Config {
        animations: Animations {
            layer_bar_open: AnimationParams { off: false, duration_ms: 300 },
            layer_bar_close: AnimationParams { off: false, duration_ms: 200 },
            layer_wallpaper_open: AnimationParams { off: false, duration_ms: 500 },
            layer_wallpaper_close: AnimationParams { off: false, duration_ms: 400 },
            layer_launcher_open: AnimationParams { off: false, duration_ms: 150 },
            layer_launcher_close: AnimationParams { off: false, duration_ms: 100 },
        },
        layout_shadow: ShadowConfig {
            on: true,
            softness: 30,
            spread: 5,
            offset: Point { x: 0, y: 5 },
            color: Color { r: 0, g: 0, b: 0, a: 128 },
        },
        layer_rules: Vec::new(),
    }
}

fn no_rules() -> ResolvedLayerRules {
    ResolvedLayerRules {
        opacity: None,
        block_out_from: None,
        geometry_corner_radius: None,
        place_within_backdrop: false,
        baba_is_float: false,
        shadow: ShadowRule { on: None, softness: None, spread: None, offset: None, color: None },
    }
}

fn surface(id: u64) -> LayerSurface {
    LayerSurface {
        id,
        attrs: LayerAttributes {
            namespace: String::from("bar"),
            anchor: Anchor { top: true, bottom: false, left: false, right: false },
            exclusive_zone: ExclusiveZone::Exclusive(40),
            layer: Layer::Top,
            keyboard_interactivity: KeyboardInteractivity::NotInteractive,
            size: Size { w: 640, h: 40 },
        },
    }
}

fn mapped_layer(rules: ResolvedLayerRules) -> MappedLayer {
    MappedLayer::new(surface(1), rules, Size { w: 1920, h: 1080 }, 1000, &test_config())
}

fn element(id: u64, x: i64, y: i64, w: i64, h: i64) -> SurfaceElement {
    SurfaceElement { id, offset: Point { x, y }, size: Size { w, h } }
}

#[test]
fn animation_progress_is_linear_and_clamped() {
    let anim = Animation::new(1000, AnimationParams { off: false, duration_ms: 400 });
    assert_eq!(anim.end_time(), 1400);
    assert_eq!(anim.progress(900), 0);
    assert_eq!(anim.progress(1000), 0);
    assert_eq!(anim.progress(1100), 250);
    assert_eq!(anim.progress(1300), 750);
    assert_eq!(anim.progress(1400), 1000);
    assert_eq!(anim.progress(9999), 1000);
    assert!(!anim.is_done(1399));
    assert!(anim.is_done(1400));
}

#[test]
fn disabled_animation_is_done_immediately() {
    let anim = Animation::new(1000, AnimationParams { off: true, duration_ms: 400 });
    assert!(anim.is_done(1000));
    assert_eq!(anim.progress(1000), 1000);
}

#[test]
fn encompassing_geo_bounds_all_elements() {
    let elements = vec![element(1, -10, 5, 20, 20), element(2, 30, -15, 10, 50)];
    let rect = encompassing_geo(&elements);
    assert_eq!(rect, Rect {
        loc: Point { x: -10, y: -15 },
        size: Size { w: 50, h: 50 },
    });
    assert_eq!(
        encompassing_geo(&Vec::new()),
        Rect { loc: Point { x: 0, y: 0 }, size: Size { w: 0, h: 0 } }
    );
}

#[test]
fn snapshot_capture_and_take() {
    let mut m = mapped_layer(no_rules());
    assert!(m.take_unmap_snapshot().is_none());
    let content = vec![element(1, 0, 0, 640, 40)];
    m.store_unmap_snapshot(&content);
    let snapshot = m.take_unmap_snapshot().expect("snapshot stored");
    assert!(!snapshot.is_empty());
    assert_eq!(snapshot.size, Size { w: 640, h: 40 });
    assert_eq!(snapshot.contents.len(), 1);
    assert!(m.take_unmap_snapshot().is_none());
}

#[test]
fn blocked_out_target_draws_placeholder() {
    let mut rules = no_rules();
    rules.block_out_from = Some(BlockOutFrom::Screencast);
    rules.opacity = Some(800);
    let mut m = mapped_layer(rules);
    m.update_render_elements(Size { w: 640, h: 40 });

    let content = vec![element(1, 0, 0, 640, 40)];
    let mut out: Vec<LayerSurfaceRenderElement> = Vec::new();
    m.render_normal(&content, Point { x: 5, y: 9 }, RenderTarget::Screencast, 0, &mut out);
    assert_eq!(out.len(), 1);
    match &out[0] {
        LayerSurfaceRenderElement::SolidColor(e) => {
            assert_eq!(e.size, Size { w: 640, h: 40 });
            assert_eq!(e.color, Color { r: 0, g: 0, b: 0, a: 255 });
            assert_eq!(e.alpha, 800 as Permille);
        },
        other => panic!("expected the placeholder, got {:?}", other),
    }

    // The plain output target still sees the real content.
    let mut out: Vec<LayerSurfaceRenderElement> = Vec::new();
    m.render_normal(&content, Point { x: 5, y: 9 }, RenderTarget::Output, 0, &mut out);
    match &out[0] {
        LayerSurfaceRenderElement::Wayland(e) => {
            assert_eq!(e.loc, Point { x: 5, y: 9 });
            assert_eq!(e.alpha, 800 as Permille);
        },
        other => panic!("expected live content, got {:?}", other),
    }
}

#[test]
fn shadow_is_appended_when_enabled() {
    let mut rules = no_rules();
    rules.shadow = ShadowRule { on: Some(true), softness: None, spread: None, offset: None,
        color: None };
    let mut m = mapped_layer(rules);
    m.update_render_elements(Size { w: 640, h: 40 });
    let content = vec![element(1, 0, 0, 640, 40)];
    let mut out: Vec<LayerSurfaceRenderElement> = Vec::new();
    m.render_normal(&content, Point { x: 0, y: 0 }, RenderTarget::Output, 0, &mut out);
    assert_eq!(out.len(), 2);
    assert!(matches!(out[0], LayerSurfaceRenderElement::Wayland(_)));
    assert!(matches!(out[1], LayerSurfaceRenderElement::Shadow(_)));
}

#[test]
fn open_animation_renders_composited_element() {
    let mut m = mapped_layer(no_rules());
    m.start_open_animation(
        1000,
        AnimationParams { off: false, duration_ms: 300 },
        ProgramType::LayerBarOpen,
    );
    let content = vec![element(1, 0, 0, 640, 40)];
    let mut out: Vec<LayerSurfaceRenderElement> = Vec::new();
    m.render_normal(&content, Point { x: 0, y: 0 }, RenderTarget::Output, 1150, &mut out);
    assert_eq!(out.len(), 1);
    match &out[0] {
        LayerSurfaceRenderElement::Opening(e) => {
            assert_eq!(e.size, Size { w: 640, h: 40 });
            assert_eq!(e.progress, 500);
            assert_eq!(e.program, ProgramType::LayerBarOpen);
        },
        other => panic!("expected the composited element, got {:?}", other),
    }
    assert!(m.offscreen_data().is_some());

    // Empty content falls back to a direct render and clears the
    // offscreen bookkeeping.
    let mut out: Vec<LayerSurfaceRenderElement> = Vec::new();
    m.render_normal(&Vec::new(), Point { x: 0, y: 0 }, RenderTarget::Output, 1150, &mut out);
    assert!(out.is_empty());
    assert!(m.offscreen_data().is_none());
}

#[test]
fn advance_clears_finished_open_animation() {
    let mut m = mapped_layer(no_rules());
    m.start_open_animation(
        1000,
        AnimationParams { off: false, duration_ms: 300 },
        ProgramType::LayerBarOpen,
    );
    m.advance_animations(1200);
    assert!(m.open_animation.is_some());
    m.advance_animations(1300);
    assert!(m.open_animation.is_none());
    assert!(!m.are_animations_ongoing(1300));
}

#[test]
fn bob_offset_sweeps_a_triangle_wave() {
    let mut rules = no_rules();
    rules.baba_is_float = true;
    let m = mapped_layer(rules);
    // Amplitude is a sixtieth of the 1080-pixel view height: 18.
    assert_eq!(m.bob_offset(0), Point { x: 0, y: 0 });
    assert_eq!(m.bob_offset(500), Point { x: 0, y: 9 });
    assert_eq!(m.bob_offset(1000), Point { x: 0, y: 18 });
    assert_eq!(m.bob_offset(1500), Point { x: 0, y: 9 });
    assert_eq!(m.bob_offset(2000), Point { x: 0, y: 0 });
    assert!(m.are_animations_ongoing(0));

    let still = mapped_layer(no_rules());
    assert_eq!(still.bob_offset(500), Point { x: 0, y: 0 });
}

#[test]
fn recompute_rules_reports_changes() {
    let mut m = mapped_layer(no_rules());
    assert!(!m.recompute_layer_rules(&Vec::new(), false));
    let rules = vec![layer_anim::config::LayerRule {
        matches: Vec::new(),
        excludes: Vec::new(),
        opacity: Some(500),
        block_out_from: None,
        geometry_corner_radius: None,
        place_within_backdrop: false,
        baba_is_float: false,
        shadow: ShadowRule { on: None, softness: None, spread: None, offset: None, color: None },
    }];
    assert!(m.recompute_layer_rules(&rules, false));
    assert_eq!(m.rules.opacity, Some(500));
    assert!(!m.recompute_layer_rules(&rules, false));
}

#[test]
fn place_within_backdrop_needs_background_and_dont_care() {
    let mut rules = no_rules();
    rules.place_within_backdrop = true;
    let mut m = mapped_layer(rules);
    // Top layer with an exclusive zone: not a backdrop surface.
    assert!(!m.place_within_backdrop());
    m.surface.attrs.layer = Layer::Background;
    m.surface.attrs.exclusive_zone = ExclusiveZone::DontCare;
    assert!(m.place_within_backdrop());
}

#[test]
fn popups_are_hidden_from_blocked_targets() {
    let mut rules = no_rules();
    rules.block_out_from = Some(BlockOutFrom::ScreenCapture);
    let m = mapped_layer(rules);
    let popups = vec![PopupContent {
        location: Point { x: 100, y: 50 },
        geometry_loc: Point { x: 10, y: 5 },
        content: vec![element(9, 0, 0, 200, 100)],
    }];

    let mut out: Vec<LayerSurfaceRenderElement> = Vec::new();
    m.render_popups(&popups, Point { x: 1, y: 2 }, RenderTarget::ScreenCapture, 0, &mut out);
    assert!(out.is_empty());

    let mut out: Vec<LayerSurfaceRenderElement> = Vec::new();
    m.render_popups(&popups, Point { x: 1, y: 2 }, RenderTarget::Output, 0, &mut out);
    assert_eq!(out.len(), 1);
    match &out[0] {
        LayerSurfaceRenderElement::Wayland(e) => {
            // Parent location plus the popup's net offset.
            assert_eq!(e.loc, Point { x: 91, y: 47 });
        },
        other => panic!("expected popup content, got {:?}", other),
    }
}

#[test]
fn closing_layer_uses_close_program_or_alpha_fade() {
    let mut ctx = RenderContext::new();
    assert!(init(&mut ctx));

    let mut m = mapped_layer(no_rules());
    m.store_unmap_snapshot(&vec![element(1, 0, 0, 640, 40)]);
    let snapshot = m.take_unmap_snapshot().unwrap();
    let anim = Animation::new(1000, AnimationParams { off: false, duration_ms: 200 });
    let closing = ClosingLayer::new(
        snapshot,
        Size { w: 640, h: 40 },
        Point { x: 0, y: 0 },
        anim,
        ProgramType::LayerBarClose,
    );

    // No close program compiled: the frame falls back to an alpha fade.
    let mut out: Vec<LayerSurfaceRenderElement> = Vec::new();
    closing.render(Shaders::get(&ctx), RenderTarget::Output, 1100, &mut out);
    match &out[0] {
        LayerSurfaceRenderElement::Closing(e) => {
            assert!(e.program.is_none());
            assert_eq!(e.progress, 500);
            assert_eq!(e.alpha, 500);
            assert!(!e.blocked_out);
        },
        other => panic!("expected a closing frame, got {:?}", other),
    }

    // With a generic layer-close override compiled, the frame uses it.
    set_custom_layer_close_program(&mut ctx, Some("dissolve"));
    let mut out: Vec<LayerSurfaceRenderElement> = Vec::new();
    closing.render(Shaders::get(&ctx), RenderTarget::Output, 1200, &mut out);
    match &out[0] {
        LayerSurfaceRenderElement::Closing(e) => {
            assert!(e.program.is_some());
            assert!(closing.is_done(1200));
        },
        other => panic!("expected a closing frame, got {:?}", other),
    }
}

#[test]
fn shadows_are_off_for_layers_unless_a_rule_enables_them() {
    // The configured layout default is on, but layer surfaces keep their
    // shadow off until a rule re-enables it.
    let m = mapped_layer(no_rules());
    assert!(!m.shadow.config.on);

    let mut with_shadow = no_rules();
    with_shadow.shadow.on = Some(true);
    with_shadow.shadow.softness = Some(60);
    let m = mapped_layer(with_shadow);
    assert!(m.shadow.config.on);
    assert_eq!(m.shadow.config.softness, 60);
    // Fields the rule leaves alone keep the configured defaults.
    assert_eq!(m.shadow.config.spread, 5);
}

#[test]
fn reset_drops_transition_and_offscreen_state() {
    let mut m = mapped_layer(no_rules());
    m.start_open_animation(
        1000,
        AnimationParams { off: false, duration_ms: 300 },
        ProgramType::LayerBarOpen,
    );
    let content = vec![element(1, 0, 0, 640, 40)];
    let mut out: Vec<LayerSurfaceRenderElement> = Vec::new();
    m.render_normal(&content, Point { x: 0, y: 0 }, RenderTarget::Output, 1100, &mut out);
    assert!(m.offscreen_data().is_some());

    m.reset_open_animation_state();
    assert!(m.open_animation.is_none());
    assert!(m.offscreen_data().is_none());

    m.update_sizes(Size { w: 1280, h: 720 }, 2000);
    assert_eq!(m.view_size, Size { w: 1280, h: 720 });
    assert_eq!(m.scale_permille, 2000);
}
