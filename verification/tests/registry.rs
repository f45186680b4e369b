//! Shader program registry behavior: one-time initialization, the
//! resolution fallback chain, safe replacement of custom overrides, and
//! the color-filter cache protocol.

use layer_anim::shaders::{
    init, set_color_filter_programs, set_custom_layer_bar_open_program,
    set_custom_layer_open_program, set_custom_resize_program, ProgramType, RenderContext, Shaders,
};

fn ready_context() -> RenderContext {
    let mut ctx = RenderContext::new();
    assert!(init(&mut ctx));
    ctx
}

#[test]
fn init_runs_exactly_once() {
    let mut ctx = RenderContext::new();
    assert!(Shaders::try_get(&ctx).is_none());
    assert!(init(&mut ctx));
    assert!(Shaders::try_get(&ctx).is_some());
    let live_after_first = ctx.store.live_count();
    // The second initialization is refused and compiles nothing.
    assert!(!init(&mut ctx));
    assert_eq!(ctx.store.live_count(), live_after_first);
}

#[test]
fn builtins_are_compiled_and_resolvable() {
    let ctx = ready_context();
    let shaders = Shaders::get(&ctx);
    assert!(shaders.program(ProgramType::Border).is_some());
    assert!(shaders.program(ProgramType::Shadow).is_some());
    // The window-resize purpose falls back to its built-in.
    assert!(shaders.program(ProgramType::WindowResize).is_some());
}

#[test]
fn layer_purposes_have_no_builtin() {
    let ctx = ready_context();
    let shaders = Shaders::get(&ctx);
    // No bar-specific and no generic layer-open override is compiled, and
    // the registry has no built-in for this purpose: resolution gives none.
    assert!(shaders.program(ProgramType::LayerBarOpen).is_none());
    assert!(shaders.program(ProgramType::LayerOpen).is_none());
    assert!(shaders.program(ProgramType::LayerWallpaperClose).is_none());
}

#[test]
fn fallback_prefers_specific_over_generic() {
    let mut ctx = ready_context();
    set_custom_layer_open_program(&mut ctx, Some("generic open effect"));
    let generic = Shaders::get(&ctx).custom_layer_open.unwrap();
    // Without a bar-specific override, the bar purpose falls back to the
    // generic layer-open override.
    assert_eq!(Shaders::get(&ctx).program(ProgramType::LayerBarOpen), Some(generic));

    set_custom_layer_bar_open_program(&mut ctx, Some("bar open effect"));
    let specific = Shaders::get(&ctx).custom_layer_bar_open.unwrap();
    assert_ne!(specific, generic);
    assert_eq!(Shaders::get(&ctx).program(ProgramType::LayerBarOpen), Some(specific));
    // The wallpaper purpose still sees only the generic override.
    assert_eq!(Shaders::get(&ctx).program(ProgramType::LayerWallpaperOpen), Some(generic));
}

#[test]
fn replacing_custom_program_destroys_exactly_the_previous_one() {
    let mut ctx = ready_context();
    set_custom_layer_open_program(&mut ctx, Some("first effect"));
    let first = Shaders::get(&ctx).custom_layer_open.unwrap();
    let destroyed_before = ctx.store.destroyed_count();

    set_custom_layer_open_program(&mut ctx, Some("second effect"));
    let second = Shaders::get(&ctx).custom_layer_open.unwrap();
    assert_ne!(first, second);
    // Exactly one object was destroyed: the superseded program.
    assert_eq!(ctx.store.destroyed_count(), destroyed_before + 1);
    assert!(!ctx.store.is_live(first));
    assert!(ctx.store.is_live(second));

    // Clearing the slot destroys the installed program too.
    set_custom_layer_open_program(&mut ctx, None);
    assert_eq!(ctx.store.destroyed_count(), destroyed_before + 2);
    assert!(!ctx.store.is_live(second));
    assert!(Shaders::get(&ctx).custom_layer_open.is_none());
}

#[test]
fn clearing_an_empty_slot_destroys_nothing() {
    let mut ctx = ready_context();
    let destroyed_before = ctx.store.destroyed_count();
    set_custom_resize_program(&mut ctx, None);
    assert_eq!(ctx.store.destroyed_count(), destroyed_before);
    // The built-in resize program still serves the purpose.
    assert!(Shaders::get(&ctx).program(ProgramType::WindowResize).is_some());
}

#[test]
fn color_filter_cache_keeps_unchanged_sources() {
    let mut ctx = ready_context();
    let a = String::from("a");
    let b = String::from("b");
    let c = String::from("c");

    set_color_filter_programs(&mut ctx, &vec![a.clone(), b.clone()]);
    let program_a = Shaders::get(&ctx).color_filter_program(&a).unwrap();
    let program_b = Shaders::get(&ctx).color_filter_program(&b).unwrap();
    assert_ne!(program_a, program_b);

    set_color_filter_programs(&mut ctx, &vec![b.clone(), c.clone()]);
    // "b" was not recompiled: same compiled-object identity.
    assert_eq!(Shaders::get(&ctx).color_filter_program(&b), Some(program_b));
    // "a" was evicted and its program destroyed; "c" is fresh.
    assert!(Shaders::get(&ctx).color_filter_program(&a).is_none());
    assert!(!ctx.store.is_live(program_a));
    let program_c = Shaders::get(&ctx).color_filter_program(&c).unwrap();
    assert!(ctx.store.is_live(program_c));
    assert_ne!(program_c, program_b);
}

#[test]
fn color_filter_cache_deduplicates_and_empties() {
    let mut ctx = ready_context();
    let a = String::from("a");
    set_color_filter_programs(&mut ctx, &vec![a.clone(), a.clone()]);
    let program_a = Shaders::get(&ctx).color_filter_program(&a).unwrap();
    assert_eq!(Shaders::get(&ctx).color_filter.len(), 1);

    set_color_filter_programs(&mut ctx, &Vec::new());
    assert!(Shaders::get(&ctx).color_filter_program(&a).is_none());
    assert!(!ctx.store.is_live(program_a));
    assert!(Shaders::get(&ctx).color_filter.is_empty());
}

#[test]
fn replace_returns_the_superseded_handle() {
    let mut ctx = ready_context();
    set_custom_layer_open_program(&mut ctx, Some("effect"));
    let installed = Shaders::get(&ctx).custom_layer_open.unwrap();
    let prev = ctx.shaders.replace_custom_layer_open_program(None);
    assert_eq!(prev, Some(installed));
    assert!(ctx.shaders.custom_layer_open.is_none());
    // The swap itself destroys nothing; the caller owns the handle.
    assert!(ctx.store.is_live(installed));
    ctx.store.destroy(installed);
}
