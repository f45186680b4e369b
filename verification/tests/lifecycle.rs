//! Lifecycle coordinator behavior: classification, mapping, unmapping,
//! fast remaps, destruction, and the invariants across them.

use layer_anim::config::{
    AnimationParams, Animations, Color, Config, LayerRule, RuleMatch, ShadowConfig, ShadowRule,
};
use layer_anim::geometry::{Point, Rect, Size};
use layer_anim::render::SurfaceElement;
use layer_anim::shaders::ProgramType;
use layer_anim::shell::{
    resolve_layer_animation_kind, Action, CommitEvent, DestroyedLayerInfo, LayerAnimationKind,
    NewSurfaceAction, State,
};
use layer_anim::surface::{Anchor, ExclusiveZone, KeyboardInteractivity, Layer, LayerAttributes};

fn test_config() -> Config {
    Config {
        animations: Animations {
            layer_bar_open: AnimationParams { off: false, duration_ms: 300 },
            layer_bar_close: AnimationParams { off: false, duration_ms: 200 },
            layer_wallpaper_open: AnimationParams { off: false, duration_ms: 500 },
            layer_wallpaper_close: AnimationParams { off: false, duration_ms: 400 },
            layer_launcher_open: AnimationParams { off: false, duration_ms: 150 },
            layer_launcher_close: AnimationParams { off: false, duration_ms: 100 },
        },
        layout_shadow: ShadowConfig {
            on: true,
            softness: 30,
            spread: 5,
            offset: Point { x: 0, y: 5 },
            color: Color { r: 0, g: 0, b: 0, a: 128 },
        },
        layer_rules: Vec::new(),
    }
}

fn anchor(top: bool, bottom: bool, left: bool, right: bool) -> Anchor {
    Anchor { top, bottom, left, right }
}

fn attrs(a: Anchor, zone: ExclusiveZone) -> LayerAttributes {
    LayerAttributes {
        namespace: String::from("panel"),
        anchor: a,
        exclusive_zone: zone,
        layer: Layer::Top,
        keyboard_interactivity: KeyboardInteractivity::NotInteractive,
        size: Size { w: 800, h: 40 },
    }
}

fn element(id: u64, w: i64, h: i64) -> SurfaceElement {
    SurfaceElement { id, offset: Point { x: 0, y: 0 }, size: Size { w, h } }
}

fn commit_event(surface: u64, attrs: LayerAttributes, has_content: bool) -> CommitEvent {
    CommitEvent {
        surface,
        is_root: true,
        output: Some(7),
        attrs,
        has_content,
        content: if has_content { vec![element(1, 800, 40)] } else { Vec::new() },
        geometry: Some(Rect {
            loc: Point { x: 0, y: 0 },
            size: Size { w: 800, h: 40 },
        }),
        initial_configure_sent: true,
        view_size: Size { w: 1920, h: 1080 },
        scale_permille: 1000,
    }
}

#[test]
fn classification_bar_regardless_of_anchor() {
    let a = attrs(anchor(true, false, false, false), ExclusiveZone::Exclusive(30));
    assert_eq!(resolve_layer_animation_kind(&a), LayerAnimationKind::Bar);
    let b = attrs(anchor(true, true, true, true), ExclusiveZone::Exclusive(30));
    assert_eq!(resolve_layer_animation_kind(&b), LayerAnimationKind::Bar);
}

#[test]
fn classification_wallpaper_all_edges_dont_care() {
    let a = attrs(anchor(true, true, true, true), ExclusiveZone::DontCare);
    assert_eq!(resolve_layer_animation_kind(&a), LayerAnimationKind::Wallpaper);
}

#[test]
fn classification_launcher_otherwise() {
    let a = attrs(anchor(true, false, true, false), ExclusiveZone::DontCare);
    assert_eq!(resolve_layer_animation_kind(&a), LayerAnimationKind::Launcher);
    let b = attrs(anchor(false, false, false, false), ExclusiveZone::Neutral);
    assert_eq!(resolve_layer_animation_kind(&b), LayerAnimationKind::Launcher);
}

#[test]
fn new_surface_without_output_is_rejected() {
    let mut state = State::new(test_config(), false);
    let action = state.new_layer_surface(1, None, None);
    assert_eq!(action, NewSurfaceAction::CloseSurface);
    assert!(state.unmapped_layer_surfaces.is_empty());
}

#[test]
fn new_surface_prefers_requested_output() {
    let mut state = State::new(test_config(), false);
    let action = state.new_layer_surface(1, Some(3), Some(9));
    assert_eq!(action, NewSurfaceAction::MapOnOutput(3));
    let action = state.new_layer_surface(2, None, Some(9));
    assert_eq!(action, NewSurfaceAction::MapOnOutput(9));
    assert_eq!(state.unmapped_layer_surfaces, vec![1, 2]);
}

#[test]
fn surface_is_in_exactly_one_collection() {
    let mut state = State::new(test_config(), false);
    state.new_layer_surface(1, Some(7), None);
    assert!(state.unmapped_layer_surfaces.contains(&1));
    assert!(state.mapped_layer_surfaces.is_empty());

    let a = attrs(anchor(true, false, false, false), ExclusiveZone::Exclusive(30));
    let outcome = state.layer_shell_handle_commit(&commit_event(1, a.clone(), true), 1000);
    assert!(outcome.handled);
    assert!(!state.unmapped_layer_surfaces.contains(&1));
    assert_eq!(state.mapped_layer_surfaces.len(), 1);
    assert_eq!(state.mapped_layer_surfaces[0].surface.id, 1);

    state.layer_shell_handle_commit(&commit_event(1, a, false), 2000);
    assert!(state.unmapped_layer_surfaces.contains(&1));
    assert!(state.mapped_layer_surfaces.is_empty());
}

#[test]
fn wallpaper_open_close_scenario() {
    let config = test_config();
    let mut state = State::new(config, false);
    state.new_layer_surface(5, Some(7), None);

    let a = attrs(anchor(true, true, true, true), ExclusiveZone::DontCare);
    let outcome = state.layer_shell_handle_commit(&commit_event(5, a.clone(), true), 1000);
    assert!(outcome.handled);
    assert_eq!(
        outcome.actions,
        vec![Action::Arrange(7), Action::OutputResized(7)]
    );

    let mapped = &state.mapped_layer_surfaces[0];
    let open = mapped.open_animation.as_ref().expect("open animation must run");
    assert_eq!(open.program, ProgramType::LayerWallpaperOpen);
    assert_eq!(open.anim.start_ms, 1000);
    assert_eq!(open.anim.duration_ms, 500);
    assert!(mapped.unmap_snapshot.is_some());

    let outcome = state.layer_shell_handle_commit(&commit_event(5, a, false), 1200);
    assert!(outcome.handled);
    assert!(state.mapped_layer_surfaces.is_empty());
    assert_eq!(state.closing_layers.len(), 1);
    let closing = &state.closing_layers[0];
    assert_eq!(closing.surface, 5);
    assert_eq!(closing.output, 7);
    assert_eq!(closing.animation.program, ProgramType::LayerWallpaperClose);
    assert_eq!(closing.animation.anim.start_ms, 1200);
    assert_eq!(closing.animation.anim.duration_ms, 400);
    assert!(!closing.animation.snapshot.is_empty());
}

#[test]
fn close_entry_never_holds_empty_snapshot() {
    let mut state = State::new(test_config(), false);
    state.new_layer_surface(1, Some(7), None);

    // First commit carries no drawable content at all, so the snapshot
    // captured at map time is empty in both variants.
    let a = attrs(anchor(true, false, false, false), ExclusiveZone::DontCare);
    let mut ev = commit_event(1, a.clone(), true);
    ev.content = Vec::new();
    state.layer_shell_handle_commit(&ev, 1000);
    assert_eq!(state.mapped_layer_surfaces.len(), 1);

    // The null commit then finds only an empty snapshot: no close entry.
    let mut ev = commit_event(1, a, false);
    ev.content = Vec::new();
    state.layer_shell_handle_commit(&ev, 1500);
    assert!(state.mapped_layer_surfaces.is_empty());
    assert!(state.closing_layers.is_empty());
}

#[test]
fn remap_before_close_discards_stale_entry() {
    let mut state = State::new(test_config(), false);
    state.new_layer_surface(1, Some(7), None);

    let a = attrs(anchor(true, false, false, false), ExclusiveZone::DontCare);
    state.layer_shell_handle_commit(&commit_event(1, a.clone(), true), 1000);
    state.layer_shell_handle_commit(&commit_event(1, a.clone(), false), 1050);
    assert_eq!(state.closing_layers.len(), 1);

    // Remap while the close transition is still running: the stale close
    // entry goes away and exactly one open transition runs.
    state.layer_shell_handle_commit(&commit_event(1, a, true), 1100);
    assert!(state.closing_layers.is_empty());
    assert_eq!(state.mapped_layer_surfaces.len(), 1);
    let mapped = &state.mapped_layer_surfaces[0];
    assert!(mapped.open_animation.is_some());
    assert!(mapped.are_animations_ongoing(1100));
}

#[test]
fn open_animation_starts_only_once() {
    let config = test_config();
    let mut state = State::new(config.clone(), false);
    state.new_layer_surface(1, Some(7), None);
    let a = attrs(anchor(true, false, false, false), ExclusiveZone::DontCare);
    state.layer_shell_handle_commit(&commit_event(1, a, true), 1000);

    let mapped = &mut state.mapped_layer_surfaces[0];
    let before = mapped.open_animation;
    // A second start, later and with different timing, changes nothing.
    mapped.start_open_animation(
        1400,
        AnimationParams { off: false, duration_ms: 9999 },
        ProgramType::LayerBarOpen,
    );
    assert_eq!(mapped.open_animation, before);
    // The launcher open transition runs 150 ms from the first start.
    assert!(mapped.are_animations_ongoing(1100));
    assert!(!mapped.are_animations_ongoing(1150));
}

#[test]
fn on_demand_surface_takes_focus_on_first_map() {
    let mut state = State::new(test_config(), false);
    state.new_layer_surface(1, Some(7), None);
    let mut a = attrs(anchor(true, false, false, false), ExclusiveZone::DontCare);
    a.keyboard_interactivity = KeyboardInteractivity::OnDemand;
    state.layer_shell_handle_commit(&commit_event(1, a, true), 1000);
    assert_eq!(state.layer_shell_on_demand_focus, Some(1));
}

#[test]
fn unmapped_commit_sends_initial_configure_once() {
    let mut state = State::new(test_config(), false);
    state.new_layer_surface(1, Some(7), None);
    let a = attrs(anchor(true, false, false, false), ExclusiveZone::DontCare);

    let mut ev = commit_event(1, a.clone(), false);
    ev.initial_configure_sent = false;
    let outcome = state.layer_shell_handle_commit(&ev, 100);
    assert_eq!(
        outcome.actions,
        vec![
            Action::Arrange(7),
            Action::SendScaleTransform(1),
            Action::SendConfigure(1),
            Action::OutputResized(7),
        ]
    );

    let mut ev = commit_event(1, a, false);
    ev.initial_configure_sent = true;
    let outcome = state.layer_shell_handle_commit(&ev, 200);
    assert_eq!(
        outcome.actions,
        vec![Action::Arrange(7), Action::OutputResized(7)]
    );
}

#[test]
fn subsurface_commit_only_queues_redraw() {
    let mut state = State::new(test_config(), false);
    let a = attrs(anchor(true, false, false, false), ExclusiveZone::DontCare);
    let mut ev = commit_event(1, a, true);
    ev.is_root = false;
    let outcome = state.layer_shell_handle_commit(&ev, 100);
    assert!(outcome.handled);
    assert_eq!(outcome.actions, vec![Action::QueueRedraw(7)]);
}

#[test]
fn commit_outside_any_output_is_not_handled() {
    let mut state = State::new(test_config(), false);
    let a = attrs(anchor(true, false, false, false), ExclusiveZone::DontCare);
    let mut ev = commit_event(1, a, true);
    ev.output = None;
    let outcome = state.layer_shell_handle_commit(&ev, 100);
    assert!(!outcome.handled);
    assert!(outcome.actions.is_empty());
}

#[test]
fn destroyed_mapped_surface_starts_close_animation() {
    let mut state = State::new(test_config(), false);
    state.new_layer_surface(1, Some(7), None);
    let a = attrs(anchor(true, false, false, false), ExclusiveZone::Exclusive(30));
    state.layer_shell_handle_commit(&commit_event(1, a.clone(), true), 1000);

    let info = DestroyedLayerInfo {
        output: 7,
        attrs: a,
        geometry: Some(Rect {
            loc: Point { x: 0, y: 0 },
            size: Size { w: 800, h: 40 },
        }),
        content: Vec::new(),
    };
    let actions = state.layer_destroyed(1, Some(&info), 2000);
    assert_eq!(actions, vec![Action::UnmapLayer(1), Action::OutputResized(7)]);
    assert!(state.mapped_layer_surfaces.is_empty());
    assert!(!state.unmapped_layer_surfaces.contains(&1));
    assert_eq!(state.closing_layers.len(), 1);
    assert_eq!(state.closing_layers[0].animation.program, ProgramType::LayerBarClose);
}

#[test]
fn destroyed_unknown_surface_does_nothing() {
    let mut state = State::new(test_config(), false);
    state.new_layer_surface(1, Some(7), None);
    let actions = state.layer_destroyed(1, None, 2000);
    assert!(actions.is_empty());
    assert!(!state.unmapped_layer_surfaces.contains(&1));
    assert!(state.closing_layers.is_empty());
}

#[test]
fn finished_close_entries_are_removed() {
    let mut state = State::new(test_config(), false);
    state.new_layer_surface(1, Some(7), None);
    let a = attrs(anchor(true, false, false, false), ExclusiveZone::DontCare);
    state.layer_shell_handle_commit(&commit_event(1, a.clone(), true), 1000);
    state.layer_shell_handle_commit(&commit_event(1, a, false), 1100);
    assert_eq!(state.closing_layers.len(), 1);

    // Launcher close runs 100 ms: still on at 1150, gone after 1200.
    state.remove_finished_closing_layers(1150);
    assert_eq!(state.closing_layers.len(), 1);
    state.remove_finished_closing_layers(1200);
    assert!(state.closing_layers.is_empty());
}

#[test]
fn rules_resolve_by_namespace_match() {
    let mut config = test_config();
    config.layer_rules = vec![LayerRule {
        matches: vec![RuleMatch { namespace: Some(String::from("panel")), at_startup: None }],
        excludes: Vec::new(),
        opacity: Some(900),
        block_out_from: None,
        geometry_corner_radius: None,
        place_within_backdrop: false,
        baba_is_float: false,
        shadow: ShadowRule { on: Some(true), softness: None, spread: None, offset: None, color: None },
    }];
    let mut state = State::new(config, false);
    state.new_layer_surface(1, Some(7), None);
    let a = attrs(anchor(true, false, false, false), ExclusiveZone::DontCare);
    state.layer_shell_handle_commit(&commit_event(1, a, true), 1000);
    let mapped = &state.mapped_layer_surfaces[0];
    assert_eq!(mapped.rules.opacity, Some(900));
    assert_eq!(mapped.rules.shadow.on, Some(true));
    // The rule re-enables the shadow that layer surfaces have off by default.
    assert!(mapped.shadow.config.on);
}
