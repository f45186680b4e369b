//! The surface lifecycle coordinator: it owns the sets of not-yet-mapped,
//! mapped and closing surfaces, reacts to protocol lifecycle and commit
//! events, and decides which render state to create, update or tear down.
//!
//! The protocol layer, the per-output stacking map and the renderer are
//! external collaborators: each event arrives with the plain values they
//! report, and each handler returns the actions they must perform.

use vstd::prelude::*;

use crate::anim::Animation;
use crate::closing::{ClosingLayer, ClosingLayerState};
use crate::config::{AnimationParams, Config};
use crate::geometry::{Point, Rect, Size};
use crate::mapped::{MappedLayer, OpenAnimation};
use crate::render::{size_ok, RenderTarget, SurfaceElement};
use crate::rules::{spec_compute_rules, ResolvedLayerRules};
use crate::shaders::ProgramType;
use crate::surface::{ExclusiveZone, LayerAttributes, LayerSurface, OutputId, SurfaceId};
use crate::MonotonicMillis;

verus! {

/// The transition kind of a layer surface, which selects timing and shader
/// purpose for its open and close transitions.
#[derive(Clone, Copy, Debug, PartialEq, Eq, Structural)]
pub enum LayerAnimationKind {
    /// The surface reserves space on the output, like a panel.
    Bar,
    /// The surface covers the whole output and reserves nothing.
    Wallpaper,
    /// Everything else.
    Launcher,
}

/// The kind a surface classifies as: a reserved exclusive zone makes a
/// bar whatever the anchors say; anchoring to all four edges without one
/// makes a wallpaper; everything else is a launcher.
pub open spec fn spec_resolve_layer_animation_kind(attrs: LayerAttributes) -> LayerAnimationKind {
    if attrs.exclusive_zone is Exclusive {
        LayerAnimationKind::Bar
    } else if attrs.anchor.spec_has_all_edges() {
        LayerAnimationKind::Wallpaper
    } else {
        LayerAnimationKind::Launcher
    }
}

/// Classifies a surface for transition timing and shader purpose. The
/// classification is a pure function of the surface's protocol state and
/// is recomputed on every open and every close.
pub fn resolve_layer_animation_kind(attrs: &LayerAttributes) -> (r: LayerAnimationKind)
    ensures
        r == spec_resolve_layer_animation_kind(*attrs),
{
    let has_exclusive_zone = matches!(attrs.exclusive_zone, ExclusiveZone::Exclusive(_));
    if has_exclusive_zone {
        LayerAnimationKind::Bar
    } else if attrs.anchor.has_all_edges() {
        LayerAnimationKind::Wallpaper
    } else {
        LayerAnimationKind::Launcher
    }
}

/// The open-transition timing and shader purpose of a kind.
pub open spec fn spec_open_transition(config: Config, kind: LayerAnimationKind) -> (
    AnimationParams,
    ProgramType,
) {
    match kind {
        LayerAnimationKind::Bar => (config.animations.layer_bar_open, ProgramType::LayerBarOpen),
        LayerAnimationKind::Wallpaper => (
            config.animations.layer_wallpaper_open,
            ProgramType::LayerWallpaperOpen,
        ),
        LayerAnimationKind::Launcher => (
            config.animations.layer_launcher_open,
            ProgramType::LayerLauncherOpen,
        ),
    }
}

/// The close-transition timing and shader purpose of a kind.
pub open spec fn spec_close_transition(config: Config, kind: LayerAnimationKind) -> (
    AnimationParams,
    ProgramType,
) {
    match kind {
        LayerAnimationKind::Bar => (config.animations.layer_bar_close, ProgramType::LayerBarClose),
        LayerAnimationKind::Wallpaper => (
            config.animations.layer_wallpaper_close,
            ProgramType::LayerWallpaperClose,
        ),
        LayerAnimationKind::Launcher => (
            config.animations.layer_launcher_close,
            ProgramType::LayerLauncherClose,
        ),
    }
}

fn open_transition(config: &Config, kind: LayerAnimationKind) -> (r: (AnimationParams,
    ProgramType))
    ensures
        r == spec_open_transition(*config, kind),
{
    match kind {
        LayerAnimationKind::Bar => (config.animations.layer_bar_open, ProgramType::LayerBarOpen),
        LayerAnimationKind::Wallpaper => (
            config.animations.layer_wallpaper_open,
            ProgramType::LayerWallpaperOpen,
        ),
        LayerAnimationKind::Launcher => (
            config.animations.layer_launcher_open,
            ProgramType::LayerLauncherOpen,
        ),
    }
}

fn close_transition(config: &Config, kind: LayerAnimationKind) -> (r: (AnimationParams,
    ProgramType))
    ensures
        r == spec_close_transition(*config, kind),
{
    match kind {
        LayerAnimationKind::Bar => (config.animations.layer_bar_close, ProgramType::LayerBarClose),
        LayerAnimationKind::Wallpaper => (
            config.animations.layer_wallpaper_close,
            ProgramType::LayerWallpaperClose,
        ),
        LayerAnimationKind::Launcher => (
            config.animations.layer_launcher_close,
            ProgramType::LayerLauncherClose,
        ),
    }
}

/// What a lifecycle handler asks its collaborators to do, in order.
#[derive(Clone, Copy, Debug, PartialEq, Eq, Structural)]
pub enum Action {
    /// Schedule a redraw of the output.
    QueueRedraw(OutputId),
    /// Recompute the output's layer stack and exclusive-zone geometry.
    Arrange(OutputId),
    /// Send the surface the output's scale and transform.
    SendScaleTransform(SurfaceId),
    /// Send the surface a configure event.
    SendConfigure(SurfaceId),
    /// Remove the surface from the output's layer stack.
    UnmapLayer(SurfaceId),
    /// Re-run output layout, which also queues a redraw.
    OutputResized(OutputId),
}

/// The answer to a surface-creation event.
#[derive(Clone, Copy, Debug, PartialEq, Eq, Structural)]
pub enum NewSurfaceAction {
    /// No output could be resolved: reject the surface by closing it.
    CloseSurface,
    /// Track the surface and insert it into this output's layer stack.
    MapOnOutput(OutputId),
}

/// One content-commit event, with everything the protocol layer, the
/// stacking map and the scene graph report about it.
#[derive(Debug)]
pub struct CommitEvent {
    /// The root surface the commit belongs to.
    pub surface: SurfaceId,
    /// Whether the commit arrived on the root surface itself; a commit on
    /// a sub-element only asks for a redraw.
    pub is_root: bool,
    /// The output whose layer stack holds the root surface, if any.
    pub output: Option<OutputId>,
    /// The surface's protocol state at commit time.
    pub attrs: LayerAttributes,
    /// Whether the surface has content after this commit.
    pub has_content: bool,
    /// The live content, for refreshing the unmap snapshot.
    pub content: Vec<SurfaceElement>,
    /// The surface's geometry in its output's stack, if arranged.
    pub geometry: Option<Rect>,
    /// Whether an initial configure was already sent to the surface.
    pub initial_configure_sent: bool,
    /// The view size of the output.
    pub view_size: Size,
    /// The scale of the output, in thousandths.
    pub scale_permille: u32,
}

impl CommitEvent {
    /// Sizes and coordinates within machine range.
    pub open spec fn wf(&self) -> bool {
        &&& size_ok(self.view_size)
        &&& forall|i: int| 0 <= i < self.content@.len() ==> (#[trigger] self.content@[i]).wf()
    }
}

/// What a commit handler decided: whether the commit belonged to a layer
/// surface at all, and the actions the collaborators must perform, in
/// order.
#[derive(Debug)]
pub struct CommitOutcome {
    pub handled: bool,
    pub actions: Vec<Action>,
}

/// The position of the entry for `id`, where one exists.
pub open spec fn spec_mapped_index(v: Seq<MappedLayer>, id: SurfaceId) -> int {
    choose|i: int| 0 <= i < v.len() && (#[trigger] v[i]).surface.id == id
}

/// The position of the first identity equal to `id`.
fn unmapped_index(v: &Vec<SurfaceId>, id: SurfaceId) -> (r: Option<usize>)
    ensures
        r is None ==> !v@.contains(id),
        r matches Some(k) ==> k < v@.len() && v@[k as int] == id,
{
    let mut i: usize = 0;
    while i < v.len()
        invariant
            0 <= i <= v@.len(),
            forall|j: int| 0 <= j < i ==> v@[j] != id,
        decreases v.len() - i,
    {
        if v[i] == id {
            return Some(i);
        }
        i += 1;
    }
    proof {
        if v@.contains(id) {
            let k = choose|k: int| 0 <= k < v@.len() && v@[k] == id;
            assert(false);
        }
    }
    None
}

/// The position of the render state of `id`, if it is mapped.
fn mapped_index(v: &Vec<MappedLayer>, id: SurfaceId) -> (r: Option<usize>)
    ensures
        r is None ==> !(exists|i: int|
            0 <= i < v@.len() && (#[trigger] v@[i]).surface.id == id),
        r matches Some(k) ==> k < v@.len() && v@[k as int].surface.id == id,
{
    let mut i: usize = 0;
    while i < v.len()
        invariant
            0 <= i <= v@.len(),
            forall|j: int| 0 <= j < i ==> (#[trigger] v@[j]).surface.id != id,
        decreases v.len() - i,
    {
        if v[i].surface.id == id {
            return Some(i);
        }
        i += 1;
    }
    None
}

/// The position of the pending close entry of `id`, if one exists.
fn closing_index(v: &Vec<ClosingLayerState>, id: SurfaceId) -> (r: Option<usize>)
    ensures
        r is None ==> !(exists|i: int| 0 <= i < v@.len() && (#[trigger] v@[i]).surface == id),
        r matches Some(k) ==> k < v@.len() && v@[k as int].surface == id,
{
    let mut i: usize = 0;
    while i < v.len()
        invariant
            0 <= i <= v@.len(),
            forall|j: int| 0 <= j < i ==> (#[trigger] v@[j]).surface != id,
        decreases v.len() - i,
    {
        if v[i].surface == id {
            return Some(i);
        }
        i += 1;
    }
    None
}

/// The surface lifecycle coordinator.
#[derive(Debug)]
pub struct State {
    /// Configuration currently in force.
    pub config: Config,
    /// Whether the compositor is still starting up, for rule matching.
    pub is_at_startup: bool,
    /// Surfaces that exist but have not completed an initial commit.
    pub unmapped_layer_surfaces: Vec<SurfaceId>,
    /// Render state per mapped surface; at most one entry per identity.
    pub mapped_layer_surfaces: Vec<MappedLayer>,
    /// Closing surfaces still being animated out.
    pub closing_layers: Vec<ClosingLayerState>,
    /// The surface that most recently asked for on-demand focus.
    pub layer_shell_on_demand_focus: Option<SurfaceId>,
}

impl State {
    /// Whether `id` is tracked as unmapped.
    pub open spec fn spec_unmapped_contains(&self, id: SurfaceId) -> bool {
        self.unmapped_layer_surfaces@.contains(id)
    }

    /// Whether `id` has mapped render state.
    pub open spec fn spec_mapped_contains(&self, id: SurfaceId) -> bool {
        exists|i: int|
            0 <= i < self.mapped_layer_surfaces@.len()
                && (#[trigger] self.mapped_layer_surfaces@[i]).surface.id == id
    }

    /// Whether a close transition for `id` is pending.
    pub open spec fn spec_closing_contains(&self, id: SurfaceId) -> bool {
        exists|i: int|
            0 <= i < self.closing_layers@.len() && (#[trigger] self.closing_layers@[i]).surface
                == id
    }

    /// Whether the protocol object behind `id` is alive as this coordinator
    /// sees it: it is tracked as unmapped or mapped.
    pub open spec fn spec_alive(&self, id: SurfaceId) -> bool {
        self.spec_unmapped_contains(id) || self.spec_mapped_contains(id)
    }

    /// The standing invariant: each tracked identity appears at most once
    /// per collection, never as both unmapped and mapped, a surface being
    /// animated closed is not mapped, every closing entry holds a
    /// non-trivial snapshot, and every component is well-formed.
    pub open spec fn wf(&self) -> bool {
        &&& forall|i: int, j: int|
            0 <= i < j < self.unmapped_layer_surfaces@.len()
                ==> self.unmapped_layer_surfaces@[i] != self.unmapped_layer_surfaces@[j]
        &&& forall|i: int, j: int|
            0 <= i < j < self.mapped_layer_surfaces@.len() ==> (
            #[trigger] self.mapped_layer_surfaces@[i]).surface.id != (
            #[trigger] self.mapped_layer_surfaces@[j]).surface.id
        &&& forall|i: int|
            0 <= i < self.mapped_layer_surfaces@.len() ==> !self.spec_unmapped_contains(
                (#[trigger] self.mapped_layer_surfaces@[i]).surface.id,
            )
        &&& forall|i: int|
            0 <= i < self.mapped_layer_surfaces@.len() ==> (
            #[trigger] self.mapped_layer_surfaces@[i]).wf()
        &&& forall|i: int|
            0 <= i < self.closing_layers@.len() ==> (#[trigger] self.closing_layers@[i]).wf()
        &&& forall|i: int, j: int|
            0 <= i < j < self.closing_layers@.len() ==> (
            #[trigger] self.closing_layers@[i]).surface != (
            #[trigger] self.closing_layers@[j]).surface
        &&& forall|i: int|
            0 <= i < self.closing_layers@.len() ==> !self.spec_mapped_contains(
                (#[trigger] self.closing_layers@[i]).surface,
            )
    }

    /// A coordinator with no surfaces.
    pub fn new(config: Config, is_at_startup: bool) -> (r: State)
        ensures
            r.wf(),
            r.config == config,
            r.is_at_startup == is_at_startup,
            r.unmapped_layer_surfaces@.len() == 0,
            r.mapped_layer_surfaces@.len() == 0,
            r.closing_layers@.len() == 0,
            r.layer_shell_on_demand_focus is None,
    {
        State {
            config,
            is_at_startup,
            unmapped_layer_surfaces: Vec::new(),
            mapped_layer_surfaces: Vec::new(),
            closing_layers: Vec::new(),
            layer_shell_on_demand_focus: None,
        }
    }

    /// Registers a brand-new surface. The explicitly requested output wins;
    /// otherwise the active output is used; with neither, the surface is
    /// rejected outright and no state is created.
    pub fn new_layer_surface(
        &mut self,
        surface: SurfaceId,
        wl_output: Option<OutputId>,
        active_output: Option<OutputId>,
    ) -> (r: NewSurfaceAction)
        requires
            old(self).wf(),
            !old(self).spec_alive(surface),
        ensures
            final(self).wf(),
            wl_output is None && active_output is None ==> r == NewSurfaceAction::CloseSurface
                && *final(self) == *old(self),
            (wl_output is Some || active_output is Some) ==> {
                &&& r == NewSurfaceAction::MapOnOutput(
                    if wl_output is Some {
                        wl_output->0
                    } else {
                        active_output->0
                    },
                )
                &&& final(self).unmapped_layer_surfaces@ == old(self).unmapped_layer_surfaces@.push(surface)
                &&& final(self).mapped_layer_surfaces@ == old(self).mapped_layer_surfaces@
                &&& final(self).closing_layers@ == old(self).closing_layers@
                &&& final(self).layer_shell_on_demand_focus == old(self).layer_shell_on_demand_focus
                &&& final(self).config == old(self).config
            },
    {
        let output = match wl_output {
            Some(o) => Some(o),
            None => active_output,
        };
        let output = match output {
            Some(o) => o,
            None => {
                return NewSurfaceAction::CloseSurface;
            },
        };
        self.unmapped_layer_surfaces.push(surface);
        proof {
            let v = self.unmapped_layer_surfaces@;
            assert forall|i: int, j: int| 0 <= i < j < v.len() implies v[i] != v[j] by {
                if j == v.len() - 1 {
                    assert(old(self).spec_unmapped_contains(v[i]) || v[i] != surface) by {
                        assert(old(self).unmapped_layer_surfaces@[i] == v[i]);
                    }
                }
            }
            assert forall|i: int|
                0 <= i < self.mapped_layer_surfaces@.len() implies !self.spec_unmapped_contains(
                (#[trigger] self.mapped_layer_surfaces@[i]).surface.id,
            ) by {
                let mid = self.mapped_layer_surfaces@[i].surface.id;
                if self.spec_unmapped_contains(mid) {
                    let k = choose|k: int| 0 <= k < v.len() && v[k] == mid;
                    if k < v.len() - 1 {
                        assert(old(self).spec_unmapped_contains(mid));
                    } else {
                        assert(old(self).spec_mapped_contains(mid));
                    }
                }
            }
        }
        NewSurfaceAction::MapOnOutput(output)
    }

    /// Whether the snapshot that a close of `m` would use is trivial: the
    /// stored one if present, else a fresh capture of `content`.
    pub open spec fn spec_close_snapshot_empty(m: MappedLayer, content: Seq<SurfaceElement>)
        -> bool {
        if m.unmap_snapshot is Some {
            m.unmap_snapshot->0.spec_is_empty()
        } else {
            m.spec_render_inner(content, Point { x: 0, y: 0 }, RenderTarget::Output).len() == 0
                && m.spec_render_inner(
                content,
                Point { x: 0, y: 0 },
                RenderTarget::Screencast,
            ).len() == 0
        }
    }

    /// Starts the close transition for a surface whose render state was
    /// just removed: classifies the surface, prefers its cached snapshot
    /// over a fresh capture of `content`, and appends a closing entry —
    /// unless the snapshot is trivial, in which case the surface simply
    /// disappears with no transition and the closing collection is left
    /// alone.
    pub fn start_close_animation_for_layer(
        &mut self,
        output: OutputId,
        geo: Rect,
        mapped: MappedLayer,
        content: &Vec<SurfaceElement>,
        now: MonotonicMillis,
    )
        requires
            old(self).wf(),
            mapped.wf(),
            !old(self).spec_closing_contains(mapped.surface.id),
            !old(self).spec_mapped_contains(mapped.surface.id),
            forall|i: int| 0 <= i < content@.len() ==> (#[trigger] content@[i]).wf(),
        ensures
            final(self).wf(),
            final(self).unmapped_layer_surfaces@ == old(self).unmapped_layer_surfaces@,
            final(self).mapped_layer_surfaces@ == old(self).mapped_layer_surfaces@,
            final(self).layer_shell_on_demand_focus == old(self).layer_shell_on_demand_focus,
            final(self).config == old(self).config,
            final(self).is_at_startup == old(self).is_at_startup,
            Self::spec_close_snapshot_empty(mapped, content@) ==> final(self).closing_layers@
                == old(self).closing_layers@,
            !Self::spec_close_snapshot_empty(mapped, content@) ==> {
                &&& final(self).closing_layers@.len() == old(self).closing_layers@.len() + 1
                &&& forall|i: int|
                    0 <= i < old(self).closing_layers@.len() ==> final(self).closing_layers@[i]
                        == old(self).closing_layers@[i]
                &&& {
                    let e = final(self).closing_layers@.last();
                    let kind = spec_resolve_layer_animation_kind(mapped.surface.attrs);
                    let close = spec_close_transition(old(self).config, kind);
                    &&& e.output == output
                    &&& e.surface == mapped.surface.id
                    &&& e.layer == mapped.surface.attrs.layer
                    &&& e.for_backdrop == mapped.spec_place_within_backdrop()
                    &&& e.animation.anim == Animation::spec_new(now, close.0)
                    &&& e.animation.program == close.1
                    &&& e.animation.size == geo.size
                    &&& e.animation.location == geo.loc
                    &&& !e.animation.snapshot.spec_is_empty()
                    &&& (mapped.unmap_snapshot is Some ==> e.animation.snapshot.contents@
                        == mapped.unmap_snapshot->0.contents@
                        && e.animation.snapshot.blocked_out_contents@
                        == mapped.unmap_snapshot->0.blocked_out_contents@)
                    &&& (mapped.unmap_snapshot is None ==> e.animation.snapshot.contents@
                        == mapped.spec_render_inner(
                        content@,
                        Point { x: 0, y: 0 },
                        RenderTarget::Output,
                    ) && e.animation.snapshot.blocked_out_contents@ == mapped.spec_render_inner(
                        content@,
                        Point { x: 0, y: 0 },
                        RenderTarget::Screencast,
                    ))
                }
            },
    {
        let mut mapped = mapped;
        let kind = resolve_layer_animation_kind(&mapped.surface.attrs);
        let (anim_params, program) = close_transition(&self.config, kind);

        let snapshot = match mapped.take_unmap_snapshot() {
            Some(s) => s,
            None => {
                // No cached snapshot: force an immediate capture.
                mapped.store_unmap_snapshot(content);
                match mapped.take_unmap_snapshot() {
                    Some(s) => s,
                    None => {
                        proof {
                            assert(false);
                        }
                        return ;
                    },
                }
            },
        };

        if snapshot.is_empty() {
            // A trivial snapshot never starts a transition: the surface
            // disappears without one.
            return ;
        }

        let anim = Animation::new(now, anim_params);
        let animation = ClosingLayer::new(snapshot, geo.size, geo.loc, anim, program);
        let surface = mapped.surface.id;
        let layer = mapped.surface.attrs.layer;
        let for_backdrop = mapped.place_within_backdrop();
        self.closing_layers.push(
            ClosingLayerState { output, surface, layer, for_backdrop, animation },
        );
        proof {
            let v = self.closing_layers@;
            assert forall|i: int, j: int|
                0 <= i < j < v.len() implies (#[trigger] v[i]).surface != (
                #[trigger] v[j]).surface by {
                if j == v.len() - 1 {
                    assert(old(self).closing_layers@[i] == v[i]);
                    assert(old(self).spec_closing_contains(v[i].surface) || v[i].surface
                        != surface);
                }
            }
            assert forall|i: int|
                0 <= i < v.len() implies !self.spec_mapped_contains(
                (#[trigger] v[i]).surface,
            ) by {
                if i < v.len() - 1 {
                    assert(old(self).closing_layers@[i] == v[i]);
                    assert(!old(self).spec_mapped_contains(v[i].surface));
                }
            }
        }
    }
    /// Removes the pending close entry of `id`, if one exists. Everything
    /// else is untouched.
    fn remove_closing_entry(&mut self, id: SurfaceId)
        requires
            old(self).wf(),
        ensures
            final(self).wf(),
            !final(self).spec_closing_contains(id),
            forall|s: SurfaceId|
                s != id ==> final(self).spec_closing_contains(s) == old(self).spec_closing_contains(s),
            !old(self).spec_closing_contains(id) ==> final(self).closing_layers@ == old(self).closing_layers@,
            final(self).unmapped_layer_surfaces@ == old(self).unmapped_layer_surfaces@,
            final(self).mapped_layer_surfaces@ == old(self).mapped_layer_surfaces@,
            final(self).layer_shell_on_demand_focus == old(self).layer_shell_on_demand_focus,
            final(self).config == old(self).config,
            final(self).is_at_startup == old(self).is_at_startup,
    {
        match closing_index(&self.closing_layers, id) {
            Some(k) => {
                let ghost pre = self.closing_layers@;
                self.closing_layers.remove(k);
                proof {
                    pre.remove_ensures(k as int);
                    let v = self.closing_layers@;
                    assert forall|i: int|
                        0 <= i < v.len() implies exists|j: int|
                        0 <= j < pre.len() && pre[j] == #[trigger] v[i] by {
                        if i < k as int {
                            assert(pre[i] == v[i]);
                        } else {
                            assert(pre[i + 1] == v[i]);
                        }
                    }
                    assert forall|s: SurfaceId|
                        s != id implies self.spec_closing_contains(s) == old(self).spec_closing_contains(s) by {
                        if old(self).spec_closing_contains(s) {
                            let j = choose|j: int|
                                0 <= j < pre.len() && (#[trigger] pre[j]).surface == s;
                            if j < k as int {
                                assert(v[j].surface == s);
                            } else {
                                assert(j != k);
                                assert(v[j - 1].surface == s);
                            }
                        }
                        if self.spec_closing_contains(s) {
                            let j = choose|j: int|
                                0 <= j < v.len() && (#[trigger] v[j]).surface == s;
                            if j < k as int {
                                assert(pre[j].surface == s);
                            } else {
                                assert(pre[j + 1].surface == s);
                            }
                        }
                    }
                    assert(!self.spec_closing_contains(id)) by {
                        if self.spec_closing_contains(id) {
                            let j = choose|j: int|
                                0 <= j < v.len() && (#[trigger] v[j]).surface == id;
                            if j < k as int {
                                assert(pre[j].surface == id && pre[k as int].surface == id);
                            } else {
                                assert(pre[j + 1].surface == id && pre[k as int].surface == id);
                            }
                        }
                    }
                    assert forall|a: int, b: int|
                        0 <= a < b < v.len() implies (#[trigger] v[a]).surface != (
                        #[trigger] v[b]).surface by {
                        let a_orig = if a < k as int {
                            a
                        } else {
                            a + 1
                        };
                        let b_orig = if b < k as int {
                            b
                        } else {
                            b + 1
                        };
                        assert(pre[a_orig] == v[a] && pre[b_orig] == v[b]);
                    }
                }
            },
            None => {},
        }
    }

    /// Forgets that `id` is tracked as unmapped, if it is. Everything else
    /// is untouched.
    fn remove_unmapped_entry(&mut self, id: SurfaceId)
        requires
            old(self).wf(),
        ensures
            final(self).wf(),
            !final(self).spec_unmapped_contains(id),
            forall|s: SurfaceId|
                s != id ==> (#[trigger] final(self).unmapped_layer_surfaces@.contains(s)) == old(self).unmapped_layer_surfaces@.contains(s),
            !old(self).spec_unmapped_contains(id) ==> final(self).unmapped_layer_surfaces@ == old(self).unmapped_layer_surfaces@,
            final(self).mapped_layer_surfaces@ == old(self).mapped_layer_surfaces@,
            final(self).closing_layers@ == old(self).closing_layers@,
            final(self).layer_shell_on_demand_focus == old(self).layer_shell_on_demand_focus,
            final(self).config == old(self).config,
            final(self).is_at_startup == old(self).is_at_startup,
    {
        match unmapped_index(&self.unmapped_layer_surfaces, id) {
            Some(k) => {
                let ghost pre = self.unmapped_layer_surfaces@;
                self.unmapped_layer_surfaces.remove(k);
                proof {
                    pre.remove_ensures(k as int);
                    let v = self.unmapped_layer_surfaces@;
                    assert forall|a: int, b: int| 0 <= a < b < v.len() implies v[a] != v[b] by {
                        let a_orig = if a < k as int {
                            a
                        } else {
                            a + 1
                        };
                        let b_orig = if b < k as int {
                            b
                        } else {
                            b + 1
                        };
                        assert(pre[a_orig] == v[a] && pre[b_orig] == v[b]);
                    }
                    assert forall|s: SurfaceId|
                        s != id implies (#[trigger] self.unmapped_layer_surfaces@.contains(s))
                        == old(self).unmapped_layer_surfaces@.contains(s) by {
                        if old(self).unmapped_layer_surfaces@.contains(s) {
                            let j = choose|j: int| 0 <= j < pre.len() && pre[j] == s;
                            if j < k as int {
                                assert(v[j] == s);
                            } else {
                                assert(j != k);
                                assert(v[j - 1] == s);
                            }
                        }
                        if self.unmapped_layer_surfaces@.contains(s) {
                            let j = choose|j: int| 0 <= j < v.len() && v[j] == s;
                            if j < k as int {
                                assert(pre[j] == s);
                            } else {
                                assert(pre[j + 1] == s);
                            }
                        }
                    }
                    assert(!self.spec_unmapped_contains(id)) by {
                        if self.spec_unmapped_contains(id) {
                            let j = choose|j: int| 0 <= j < v.len() && v[j] == id;
                            if j < k as int {
                                assert(pre[j] == id && pre[k as int] == id);
                            } else {
                                assert(pre[j + 1] == id && pre[k as int] == id);
                            }
                        }
                    }
                    assert forall|i: int|
                        0 <= i < self.mapped_layer_surfaces@.len()
                            implies !self.spec_unmapped_contains(
                        (#[trigger] self.mapped_layer_surfaces@[i]).surface.id,
                    ) by {
                        let sid = self.mapped_layer_surfaces@[i].surface.id;
                        assert(!old(self).spec_unmapped_contains(sid));
                        if self.spec_unmapped_contains(sid) {
                            let j = choose|j: int| 0 <= j < v.len() && v[j] == sid;
                            if j < k as int {
                                assert(pre[j] == sid);
                            } else {
                                assert(pre[j + 1] == sid);
                            }
                        }
                    }
                }
            },
            None => {},
        }
    }

    /// Takes the render state of `id` out of the mapped collection.
    /// Everything else is untouched.
    fn remove_mapped_entry(&mut self, id: SurfaceId) -> (m: MappedLayer)
        requires
            old(self).wf(),
            old(self).spec_mapped_contains(id),
        ensures
            final(self).wf(),
            m == old(self).mapped_layer_surfaces@[spec_mapped_index(
                old(self).mapped_layer_surfaces@,
                id,
            )],
            m.surface.id == id,
            m.wf(),
            final(self).mapped_layer_surfaces@ == old(self).mapped_layer_surfaces@.remove(
                spec_mapped_index(old(self).mapped_layer_surfaces@, id),
            ),
            !final(self).spec_mapped_contains(id),
            forall|s: SurfaceId|
                s != id ==> final(self).spec_mapped_contains(s) == old(self).spec_mapped_contains(s),
            !old(self).spec_unmapped_contains(id),
            !old(self).spec_closing_contains(id),
            final(self).unmapped_layer_surfaces@ == old(self).unmapped_layer_surfaces@,
            final(self).closing_layers@ == old(self).closing_layers@,
            final(self).layer_shell_on_demand_focus == old(self).layer_shell_on_demand_focus,
            final(self).config == old(self).config,
            final(self).is_at_startup == old(self).is_at_startup,
    {
        let k = match mapped_index(&self.mapped_layer_surfaces, id) {
            Some(k) => k,
            None => 0,
        };
        let ghost pre = self.mapped_layer_surfaces@;
        proof {
            assert(0 <= k < pre.len() && pre[k as int].surface.id == id);
            assert(spec_mapped_index(pre, id) == k as int) by {
                let j = spec_mapped_index(pre, id);
                assert(0 <= j < pre.len() && pre[j].surface.id == id);
                assert(j == k as int);
            }
            assert(!old(self).spec_unmapped_contains(id));
            assert(!old(self).spec_closing_contains(id)) by {
                if old(self).spec_closing_contains(id) {
                    let j = choose|j: int|
                        0 <= j < old(self).closing_layers@.len() && (#[trigger] old(self).closing_layers@[j]).surface == id;
                    assert(!old(self).spec_mapped_contains(id));
                }
            }
        }
        let m = self.mapped_layer_surfaces.remove(k);
        proof {
            pre.remove_ensures(k as int);
            let v = self.mapped_layer_surfaces@;
            assert forall|s: SurfaceId|
                s != id implies self.spec_mapped_contains(s) == old(self).spec_mapped_contains(s) by {
                if old(self).spec_mapped_contains(s) {
                    let j = choose|j: int|
                        0 <= j < pre.len() && (#[trigger] pre[j]).surface.id == s;
                    assert(j != k);
                    if j < k as int {
                        assert(v[j].surface.id == s);
                    } else {
                        assert(v[j - 1].surface.id == s);
                    }
                }
                if self.spec_mapped_contains(s) {
                    let j = choose|j: int| 0 <= j < v.len() && (#[trigger] v[j]).surface.id == s;
                    if j < k as int {
                        assert(pre[j].surface.id == s);
                    } else {
                        assert(pre[j + 1].surface.id == s);
                    }
                }
            }
            assert(!self.spec_mapped_contains(id)) by {
                if self.spec_mapped_contains(id) {
                    let j = choose|j: int| 0 <= j < v.len() && (#[trigger] v[j]).surface.id == id;
                    if j < k as int {
                        assert(pre[j].surface.id == id && pre[k as int].surface.id == id);
                    } else {
                        assert(pre[j + 1].surface.id == id && pre[k as int].surface.id == id);
                    }
                }
            }
            assert forall|a: int, b: int|
                0 <= a < b < v.len() implies (#[trigger] v[a]).surface.id != (
                #[trigger] v[b]).surface.id by {
                let a_orig = if a < k as int {
                    a
                } else {
                    a + 1
                };
                let b_orig = if b < k as int {
                    b
                } else {
                    b + 1
                };
                assert(pre[a_orig] == v[a] && pre[b_orig] == v[b]);
            }
            assert forall|i: int|
                0 <= i < v.len() implies !self.spec_unmapped_contains(
                (#[trigger] v[i]).surface.id,
            ) by {
                let i_orig = if i < k as int {
                    i
                } else {
                    i + 1
                };
                assert(pre[i_orig] == v[i]);
            }
        }
        m
    }

    /// Adds a render state whose identity is tracked nowhere else.
    fn push_mapped_entry(&mut self, m: MappedLayer)
        requires
            old(self).wf(),
            m.wf(),
            !old(self).spec_mapped_contains(m.surface.id),
            !old(self).spec_unmapped_contains(m.surface.id),
            !old(self).spec_closing_contains(m.surface.id),
        ensures
            final(self).wf(),
            final(self).mapped_layer_surfaces@ == old(self).mapped_layer_surfaces@.push(m),
            final(self).spec_mapped_contains(m.surface.id),
            forall|s: SurfaceId|
                s != m.surface.id ==> final(self).spec_mapped_contains(s) == old(self).spec_mapped_contains(s),
            final(self).unmapped_layer_surfaces@ == old(self).unmapped_layer_surfaces@,
            final(self).closing_layers@ == old(self).closing_layers@,
            final(self).layer_shell_on_demand_focus == old(self).layer_shell_on_demand_focus,
            final(self).config == old(self).config,
            final(self).is_at_startup == old(self).is_at_startup,
    {
        let ghost id = m.surface.id;
        self.mapped_layer_surfaces.push(m);
        proof {
            let v = self.mapped_layer_surfaces@;
            assert forall|a: int, b: int|
                0 <= a < b < v.len() implies (#[trigger] v[a]).surface.id != (
                #[trigger] v[b]).surface.id by {
                if b == v.len() - 1 {
                    assert(old(self).mapped_layer_surfaces@[a] == v[a]);
                    assert(old(self).spec_mapped_contains(v[a].surface.id) || v[a].surface.id
                        != id);
                }
            }
            assert forall|s: SurfaceId|
                s != id implies self.spec_mapped_contains(s) == old(self).spec_mapped_contains(s) by {
                if old(self).spec_mapped_contains(s) {
                    let j = choose|j: int|
                        0 <= j < old(self).mapped_layer_surfaces@.len() && (#[trigger] old(self).mapped_layer_surfaces@[j]).surface.id == s;
                    assert(v[j].surface.id == s);
                }
                if self.spec_mapped_contains(s) {
                    let j = choose|j: int| 0 <= j < v.len() && (#[trigger] v[j]).surface.id == s;
                    assert(j < v.len() - 1);
                    assert(old(self).mapped_layer_surfaces@[j].surface.id == s);
                }
            }
            assert(self.spec_mapped_contains(id)) by {
                assert(v[v.len() - 1].surface.id == id);
            }
            assert forall|i: int|
                0 <= i < v.len() implies !self.spec_unmapped_contains(
                (#[trigger] v[i]).surface.id,
            ) by {
                if i < v.len() - 1 {
                    assert(old(self).mapped_layer_surfaces@[i] == v[i]);
                }
            }
            assert forall|i: int|
                0 <= i < self.closing_layers@.len() implies !self.spec_mapped_contains(
                (#[trigger] self.closing_layers@[i]).surface,
            ) by {
                assert(self.closing_layers@[i].surface != id);
                assert(!old(self).spec_mapped_contains(self.closing_layers@[i].surface));
            }
        }
    }

    /// Tracks an identity as unmapped again.
    fn add_unmapped_entry(&mut self, id: SurfaceId)
        requires
            old(self).wf(),
            !old(self).spec_unmapped_contains(id),
            !old(self).spec_mapped_contains(id),
        ensures
            final(self).wf(),
            final(self).unmapped_layer_surfaces@ == old(self).unmapped_layer_surfaces@.push(id),
            final(self).spec_unmapped_contains(id),
            forall|s: SurfaceId|
                s != id ==> final(self).spec_unmapped_contains(s) == old(self).spec_unmapped_contains(s),
            final(self).mapped_layer_surfaces@ == old(self).mapped_layer_surfaces@,
            final(self).closing_layers@ == old(self).closing_layers@,
            final(self).layer_shell_on_demand_focus == old(self).layer_shell_on_demand_focus,
            final(self).config == old(self).config,
            final(self).is_at_startup == old(self).is_at_startup,
    {
        self.unmapped_layer_surfaces.push(id);
        proof {
            let v = self.unmapped_layer_surfaces@;
            assert forall|a: int, b: int| 0 <= a < b < v.len() implies v[a] != v[b] by {
                if b == v.len() - 1 {
                    assert(old(self).unmapped_layer_surfaces@[a] == v[a]);
                    assert(old(self).spec_unmapped_contains(v[a]) || v[a] != id);
                }
            }
            assert forall|s: SurfaceId|
                s != id implies self.spec_unmapped_contains(s) == old(self).spec_unmapped_contains(s) by {
                if old(self).spec_unmapped_contains(s) {
                    let j = choose|j: int|
                        0 <= j < old(self).unmapped_layer_surfaces@.len() && old(self).unmapped_layer_surfaces@[j] == s;
                    assert(v[j] == s);
                }
                if self.spec_unmapped_contains(s) {
                    let j = choose|j: int| 0 <= j < v.len() && v[j] == s;
                    assert(j < v.len() - 1);
                    assert(old(self).unmapped_layer_surfaces@[j] == s);
                }
            }
            assert(v[v.len() - 1] == id);
            assert forall|i: int|
                0 <= i < self.mapped_layer_surfaces@.len() implies !self.spec_unmapped_contains(
                (#[trigger] self.mapped_layer_surfaces@[i]).surface.id,
            ) by {
                let sid = self.mapped_layer_surfaces@[i].surface.id;
                assert(sid != id);
                if self.spec_unmapped_contains(sid) {
                    let j = choose|j: int| 0 <= j < v.len() && v[j] == sid;
                    assert(j < v.len() - 1);
                    assert(old(self).spec_unmapped_contains(sid));
                }
            }
        }
    }

    /// Handles a content commit. The layer stack is re-arranged before any
    /// configure is sent, so a size the client just committed is
    /// respected; a first real commit maps the surface and starts its open
    /// transition once; a live commit refreshes the stored snapshot; a
    /// null commit unmaps the surface and starts its close transition from
    /// the freshest snapshot.
    #[verifier::rlimit(100)]
    #[verifier::spinoff_prover]
    pub fn layer_shell_handle_commit(&mut self, ev: &CommitEvent, now: MonotonicMillis) -> (r:
        CommitOutcome)
        requires
            old(self).wf(),
            ev.wf(),
        ensures
            final(self).wf(),
            final(self).config == old(self).config,
            final(self).is_at_startup == old(self).is_at_startup,
            r.handled == (ev.output is Some),
            // a commit outside any layer stack is not ours
            ev.output is None ==> *final(self) == *old(self) && r.actions@.len() == 0,
            // a sub-element commit only asks for a redraw
            ev.output is Some && !ev.is_root ==> *final(self) == *old(self) && r.actions@
                == seq![Action::QueueRedraw(ev.output->0)],
            // arranging always precedes any configure, and re-layout is last
            ev.output is Some && ev.is_root ==> {
                let out = ev.output->0;
                let id = ev.surface;
                &&& (ev.has_content || old(self).spec_mapped_contains(id)
                    || ev.initial_configure_sent) ==> r.actions@ == seq![
                    Action::Arrange(out),
                    Action::OutputResized(out),
                ]
                &&& (!ev.has_content && !old(self).spec_mapped_contains(id)
                    && !ev.initial_configure_sent) ==> r.actions@ == seq![
                    Action::Arrange(out),
                    Action::SendScaleTransform(id),
                    Action::SendConfigure(id),
                    Action::OutputResized(out),
                ]
            },
            // a commit with content maps the surface: afterwards it is
            // mapped, not unmapped, and no stale close entry survives
            ev.output is Some && ev.is_root && ev.has_content ==> final(self).spec_mapped_contains(
                ev.surface,
            ),
            ev.output is Some && ev.is_root && ev.has_content ==> !final(self).spec_unmapped_contains(ev.surface),
            ev.output is Some && ev.is_root && ev.has_content ==> !final(self).spec_closing_contains(ev.surface),
            ev.output is Some && ev.is_root && ev.has_content ==> forall|s: SurfaceId|
                s != ev.surface ==> final(self).spec_closing_contains(s) == old(self).spec_closing_contains(s),
            ev.output is Some && ev.is_root && ev.has_content ==> forall|s: SurfaceId|
                s != ev.surface ==> final(self).spec_mapped_contains(s) == old(self).spec_mapped_contains(s),
            ev.output is Some && ev.is_root && ev.has_content ==> forall|s: SurfaceId|
                s != ev.surface ==> final(self).spec_unmapped_contains(s) == old(self).spec_unmapped_contains(s),
            // becoming mapped: render state is created, classified, its
            // open transition started at once, and a fresh snapshot stored
            ev.output is Some && ev.is_root && ev.has_content && !old(self).spec_mapped_contains(
                ev.surface,
            ) ==> {
                let id = ev.surface;
                let rules = spec_compute_rules(
                    old(self).config.layer_rules@,
                    ev.attrs,
                    old(self).is_at_startup,
                );
                let kind = spec_resolve_layer_animation_kind(ev.attrs);
                let open = spec_open_transition(old(self).config, kind);
                let e = final(self).mapped_layer_surfaces@.last();
                &&& final(self).mapped_layer_surfaces@.len() == old(self).mapped_layer_surfaces@.len() + 1
                &&& forall|k: int|
                    0 <= k < old(self).mapped_layer_surfaces@.len() ==> final(self).mapped_layer_surfaces@[k] == old(self).mapped_layer_surfaces@[k]
                &&& e.surface == (LayerSurface { id, attrs: ev.attrs })
                &&& e.rules == rules
                &&& e.open_animation == Some(
                    OpenAnimation { anim: Animation::spec_new(now, open.0), program: open.1 },
                )
                &&& e.view_size == ev.view_size
                &&& e.scale_permille == ev.scale_permille
                &&& e.unmap_snapshot matches Some(snap) && snap.contents@ == e.spec_render_inner(
                    ev.content@,
                    Point { x: 0, y: 0 },
                    RenderTarget::Output,
                ) && snap.blocked_out_contents@ == e.spec_render_inner(
                    ev.content@,
                    Point { x: 0, y: 0 },
                    RenderTarget::Screencast,
                ) && snap.size == ev.attrs.size
                &&& (ev.attrs.keyboard_interactivity is OnDemand ==> final(self).layer_shell_on_demand_focus == Some(id))
                &&& (!(ev.attrs.keyboard_interactivity is OnDemand) ==> final(self).layer_shell_on_demand_focus == old(self).layer_shell_on_demand_focus)
            },
            // already mapped: the entry's protocol state and snapshot are
            // refreshed, nothing else about it changes
            ev.output is Some && ev.is_root && ev.has_content && old(self).spec_mapped_contains(
                ev.surface,
            ) ==> {
                let id = ev.surface;
                let i = spec_mapped_index(old(self).mapped_layer_surfaces@, id);
                let m0 = old(self).mapped_layer_surfaces@[i];
                let e = final(self).mapped_layer_surfaces@.last();
                &&& final(self).mapped_layer_surfaces@ == old(self).mapped_layer_surfaces@.remove(i).push(e)
                &&& e.surface == (LayerSurface { id, attrs: ev.attrs })
                &&& e.rules == m0.rules
                &&& e.open_animation == m0.open_animation
                &&& e.view_size == m0.view_size
                &&& e.scale_permille == m0.scale_permille
                &&& e.unmap_snapshot matches Some(snap) && snap.contents@ == e.spec_render_inner(
                    ev.content@,
                    Point { x: 0, y: 0 },
                    RenderTarget::Output,
                ) && snap.size == ev.attrs.size
                &&& final(self).unmapped_layer_surfaces@ == old(self).unmapped_layer_surfaces@
                &&& final(self).layer_shell_on_demand_focus == old(self).layer_shell_on_demand_focus
            },
            // becoming unmapped: the render state is removed, the surface
            // must do a fresh initial commit, and a close transition
            // starts when a non-trivial snapshot and a geometry exist
            ev.output is Some && ev.is_root && !ev.has_content && old(self).spec_mapped_contains(
                ev.surface,
            ) ==> {
                let out = ev.output->0;
                let id = ev.surface;
                let i = spec_mapped_index(old(self).mapped_layer_surfaces@, id);
                let m = MappedLayer {
                    surface: LayerSurface { id, attrs: ev.attrs },
                    ..old(self).mapped_layer_surfaces@[i]
                };
                &&& final(self).mapped_layer_surfaces@ == old(self).mapped_layer_surfaces@.remove(
                    i,
                )
                &&& final(self).unmapped_layer_surfaces@ == old(self).unmapped_layer_surfaces@.push(id)
                &&& (ev.geometry is None || Self::spec_close_snapshot_empty(m, ev.content@))
                    ==> final(self).closing_layers@ == old(self).closing_layers@
                &&& (ev.geometry is Some && !Self::spec_close_snapshot_empty(m, ev.content@))
                    ==> {
                    let g = ev.geometry->0;
                    let e = final(self).closing_layers@.last();
                    let kind = spec_resolve_layer_animation_kind(ev.attrs);
                    let close = spec_close_transition(old(self).config, kind);
                    &&& final(self).closing_layers@.len() == old(self).closing_layers@.len() + 1
                    &&& forall|k: int|
                        0 <= k < old(self).closing_layers@.len() ==> final(self).closing_layers@[k] == old(self).closing_layers@[k]
                    &&& e.surface == id
                    &&& e.output == out
                    &&& e.layer == ev.attrs.layer
                    &&& e.animation.anim == Animation::spec_new(now, close.0)
                    &&& e.animation.program == close.1
                    &&& e.animation.size == g.size
                    &&& e.animation.location == g.loc
                    &&& !e.animation.snapshot.spec_is_empty()
                }
            },
            // an unmapped surface staying unmapped changes no state
            ev.output is Some && ev.is_root && !ev.has_content && !old(self).spec_mapped_contains(
                ev.surface,
            ) ==> *final(self) == *old(self),
    {
        let out = match ev.output {
            Some(o) => o,
            None => {
                return CommitOutcome { handled: false, actions: Vec::new() };
            },
        };
        if !ev.is_root {
            let mut actions: Vec<Action> = Vec::new();
            actions.push(Action::QueueRedraw(out));
            proof {
                assert(actions@ =~= seq![Action::QueueRedraw(out)]);
            }
            return CommitOutcome { handled: true, actions };
        }

        let id = ev.surface;
        let mut actions: Vec<Action> = Vec::new();
        // Arrange before any configure, so a size the client committed is
        // respected.
        actions.push(Action::Arrange(out));

        if ev.has_content {
            let was_mapped = mapped_index(&self.mapped_layer_surfaces, id).is_some();

            // A fast remap supersedes the surface's own pending close
            // transition.
            self.remove_closing_entry(id);

            if !was_mapped {
                // Map edge: create render state, resolve rules, classify,
                // and start the open transition once.
                self.remove_unmapped_entry(id);
                let rules = ResolvedLayerRules::compute(
                    &self.config.layer_rules,
                    &ev.attrs,
                    self.is_at_startup,
                );
                let kind = resolve_layer_animation_kind(&ev.attrs);
                let (params, program) = open_transition(&self.config, kind);
                let surface = LayerSurface { id, attrs: ev.attrs.duplicate() };
                let mut mapped = MappedLayer::new(
                    surface,
                    rules,
                    ev.view_size,
                    ev.scale_permille,
                    &self.config,
                );
                // The open transition starts immediately on map.
                mapped.start_open_animation(now, params, program);
                // Keep a fresh snapshot from the very first commit, so a
                // later unmap always has contents to animate.
                mapped.store_unmap_snapshot(&ev.content);
                self.push_mapped_entry(mapped);

                // On-demand surfaces take focus the first time they map.
                if matches!(
                    ev.attrs.keyboard_interactivity,
                    crate::surface::KeyboardInteractivity::OnDemand
                ) {
                    self.layer_shell_on_demand_focus = Some(id);
                }
            } else {
                // Refresh the protocol state and the snapshot, so a later
                // unmap always has fresh contents even if its commit
                // carries none.
                let mut m = self.remove_mapped_entry(id);
                m.surface = LayerSurface { id, attrs: ev.attrs.duplicate() };
                m.store_unmap_snapshot(&ev.content);
                self.push_mapped_entry(m);
            }
            proof {
                assert forall|s: SurfaceId|
                    s != id implies self.spec_unmapped_contains(s) == old(self).spec_unmapped_contains(s) by {
                    assert(self.unmapped_layer_surfaces@.contains(s) == old(self).unmapped_layer_surfaces@.contains(s));
                }
                let v = self.mapped_layer_surfaces@;
                let pre = old(self).mapped_layer_surfaces@;
                assert forall|s: SurfaceId|
                    s != id implies self.spec_mapped_contains(s) == old(self).spec_mapped_contains(s) by {
                    if !was_mapped {
                        assert(v == pre.push(v.last()));
                        if old(self).spec_mapped_contains(s) {
                            let j = choose|j: int|
                                0 <= j < pre.len() && (#[trigger] pre[j]).surface.id == s;
                            assert(v[j].surface.id == s);
                        }
                        if self.spec_mapped_contains(s) {
                            let j = choose|j: int|
                                0 <= j < v.len() && (#[trigger] v[j]).surface.id == s;
                            assert(j < v.len() - 1);
                            assert(pre[j].surface.id == s);
                        }
                    } else {
                        let i = spec_mapped_index(pre, id);
                        assert(0 <= i < pre.len() && pre[i].surface.id == id);
                        assert(v == pre.remove(i).push(v.last()));
                        pre.remove_ensures(i);
                        let w = pre.remove(i);
                        if old(self).spec_mapped_contains(s) {
                            let j = choose|j: int|
                                0 <= j < pre.len() && (#[trigger] pre[j]).surface.id == s;
                            assert(j != i);
                            if j < i {
                                assert(w[j].surface.id == s);
                                assert(v[j].surface.id == s);
                            } else {
                                assert(w[j - 1].surface.id == s);
                                assert(v[j - 1].surface.id == s);
                            }
                        }
                        if self.spec_mapped_contains(s) {
                            let j = choose|j: int|
                                0 <= j < v.len() && (#[trigger] v[j]).surface.id == s;
                            assert(j < v.len() - 1);
                            assert(w[j] == v[j]);
                            if j < i {
                                assert(pre[j].surface.id == s);
                            } else {
                                assert(pre[j + 1].surface.id == s);
                            }
                        }
                    }
                }
            }
        } else {
            // The surface is unmapped by this commit.
            let was_mapped = mapped_index(&self.mapped_layer_surfaces, id).is_some();
            if was_mapped {
                let mut m = self.remove_mapped_entry(id);
                // Close decisions read the protocol state of this very
                // commit.
                m.surface = LayerSurface { id, attrs: ev.attrs.duplicate() };
                match ev.geometry {
                    Some(g) => {
                        self.start_close_animation_for_layer(out, g, m, &ev.content, now);
                    },
                    None => {},
                }
                // The surface must perform a fresh initial commit if it
                // maps again.
                self.add_unmapped_entry(id);
            } else {
                // Still unmapped: send the initial configure once.
                if !ev.initial_configure_sent {
                    actions.push(Action::SendScaleTransform(id));
                    actions.push(Action::SendConfigure(id));
                }
            }
        }

        actions.push(Action::OutputResized(out));
        proof {
            if ev.has_content || old(self).spec_mapped_contains(ev.surface)
                || ev.initial_configure_sent {
                assert(actions@ =~= seq![Action::Arrange(out), Action::OutputResized(out)]);
            } else {
                assert(actions@ =~= seq![
                    Action::Arrange(out),
                    Action::SendScaleTransform(id),
                    Action::SendConfigure(id),
                    Action::OutputResized(out),
                ]);
            }
        }
        CommitOutcome { handled: true, actions }
    }

    /// Handles the destruction of the protocol object behind `surface`,
    /// independent of content commits: the surface stops being tracked,
    /// and if it was mapped somewhere, a close transition starts exactly
    /// as on unmap before the surface leaves its output's stack.
    pub fn layer_destroyed(
        &mut self,
        surface: SurfaceId,
        found: Option<&DestroyedLayerInfo>,
        now: MonotonicMillis,
    ) -> (actions: Vec<Action>)
        requires
            old(self).wf(),
            found matches Some(info) ==> forall|i: int|
                0 <= i < info.content@.len() ==> (#[trigger] info.content@[i]).wf(),
        ensures
            final(self).wf(),
            final(self).config == old(self).config,
            final(self).is_at_startup == old(self).is_at_startup,
            final(self).layer_shell_on_demand_focus == old(self).layer_shell_on_demand_focus,
            !final(self).spec_unmapped_contains(surface),
            forall|s: SurfaceId|
                s != surface ==> final(self).spec_unmapped_contains(s) == old(self).spec_unmapped_contains(s),
            found is None ==> actions@.len() == 0 && final(self).mapped_layer_surfaces@ == old(self).mapped_layer_surfaces@ && final(self).closing_layers@ == old(self).closing_layers@,
            found matches Some(info) ==> actions@ == seq![
                Action::UnmapLayer(surface),
                Action::OutputResized(info.output),
            ],
            found is Some ==> !final(self).spec_mapped_contains(surface),
            forall|s: SurfaceId|
                s != surface ==> final(self).spec_mapped_contains(s) == old(self).spec_mapped_contains(s),
            found is Some && old(self).spec_mapped_contains(surface) ==> {
                let info = *found->0;
                let i = spec_mapped_index(old(self).mapped_layer_surfaces@, surface);
                let m = MappedLayer {
                    surface: LayerSurface { id: surface, attrs: info.attrs },
                    ..old(self).mapped_layer_surfaces@[i]
                };
                &&& final(self).mapped_layer_surfaces@ == old(self).mapped_layer_surfaces@.remove(
                    i,
                )
                &&& (info.geometry is None || Self::spec_close_snapshot_empty(m, info.content@))
                    ==> final(self).closing_layers@ == old(self).closing_layers@
                &&& (info.geometry is Some && !Self::spec_close_snapshot_empty(m, info.content@))
                    ==> {
                    let g = info.geometry->0;
                    let e = final(self).closing_layers@.last();
                    let kind = spec_resolve_layer_animation_kind(info.attrs);
                    let close = spec_close_transition(old(self).config, kind);
                    &&& final(self).closing_layers@.len() == old(self).closing_layers@.len() + 1
                    &&& forall|k: int|
                        0 <= k < old(self).closing_layers@.len() ==> final(self).closing_layers@[k] == old(self).closing_layers@[k]
                    &&& e.surface == surface
                    &&& e.output == info.output
                    &&& e.layer == info.attrs.layer
                    &&& e.animation.anim == Animation::spec_new(now, close.0)
                    &&& e.animation.program == close.1
                    &&& e.animation.size == g.size
                    &&& e.animation.location == g.loc
                    &&& !e.animation.snapshot.spec_is_empty()
                }
            },
            !(found is Some && old(self).spec_mapped_contains(surface)) ==> final(self).mapped_layer_surfaces@ == old(self).mapped_layer_surfaces@ && final(self).closing_layers@ == old(self).closing_layers@,
    {
        self.remove_unmapped_entry(surface);
        let info = match found {
            Some(info) => info,
            None => {
                proof {
                    let v = self.mapped_layer_surfaces@;
                    let pre = old(self).mapped_layer_surfaces@;
                    assert forall|s: SurfaceId|
                        s != surface implies self.spec_mapped_contains(s) == old(self).spec_mapped_contains(s) by {
                        if old(self).spec_mapped_contains(s) {
                            let j = choose|j: int|
                                0 <= j < pre.len() && (#[trigger] pre[j]).surface.id == s;
                            assert(v[j].surface.id == s);
                        }
                        if self.spec_mapped_contains(s) {
                            let j = choose|j: int|
                                0 <= j < v.len() && (#[trigger] v[j]).surface.id == s;
                            assert(pre[j].surface.id == s);
                        }
                    }
                }
                return Vec::new();
            },
        };

        let was_mapped = mapped_index(&self.mapped_layer_surfaces, surface).is_some();
        if was_mapped {
            let mut m = self.remove_mapped_entry(surface);
            // Close decisions read the protocol state the object died with.
            m.surface = LayerSurface { id: surface, attrs: info.attrs.duplicate() };
            match info.geometry {
                Some(g) => {
                    self.start_close_animation_for_layer(info.output, g, m, &info.content, now);
                },
                None => {},
            }
        }

        let mut actions: Vec<Action> = Vec::new();
        actions.push(Action::UnmapLayer(surface));
        actions.push(Action::OutputResized(info.output));
        proof {
            assert(actions@ =~= seq![
                Action::UnmapLayer(surface),
                Action::OutputResized(info.output),
            ]);
            let v = self.mapped_layer_surfaces@;
            let pre = old(self).mapped_layer_surfaces@;
            if was_mapped {
                let i = spec_mapped_index(pre, surface);
                assert(0 <= i < pre.len() && pre[i].surface.id == surface);
                assert(v == pre.remove(i));
                pre.remove_ensures(i);
                assert forall|s: SurfaceId|
                    s != surface implies self.spec_mapped_contains(s) == old(self).spec_mapped_contains(s) by {
                    if old(self).spec_mapped_contains(s) {
                        let j = choose|j: int|
                            0 <= j < pre.len() && (#[trigger] pre[j]).surface.id == s;
                        assert(j != i);
                        if j < i {
                            assert(v[j].surface.id == s);
                        } else {
                            assert(v[j - 1].surface.id == s);
                        }
                    }
                    if self.spec_mapped_contains(s) {
                        let j = choose|j: int|
                            0 <= j < v.len() && (#[trigger] v[j]).surface.id == s;
                        if j < i {
                            assert(pre[j].surface.id == s);
                        } else {
                            assert(pre[j + 1].surface.id == s);
                        }
                    }
                }
                assert(!self.spec_mapped_contains(surface)) by {
                    if self.spec_mapped_contains(surface) {
                        let j = choose|j: int|
                            0 <= j < v.len() && (#[trigger] v[j]).surface.id == surface;
                        if j < i {
                            assert(pre[j].surface.id == surface && pre[i].surface.id == surface);
                        } else {
                            assert(pre[j + 1].surface.id == surface && pre[i].surface.id
                                == surface);
                        }
                    }
                }
            } else {
                assert(v == pre);
                assert forall|s: SurfaceId|
                    s != surface implies self.spec_mapped_contains(s) == old(self).spec_mapped_contains(s) by {
                    if old(self).spec_mapped_contains(s) {
                        let j = choose|j: int|
                            0 <= j < pre.len() && (#[trigger] pre[j]).surface.id == s;
                        assert(v[j].surface.id == s);
                    }
                    if self.spec_mapped_contains(s) {
                        let j = choose|j: int|
                            0 <= j < v.len() && (#[trigger] v[j]).surface.id == s;
                        assert(pre[j].surface.id == s);
                    }
                }
                assert(!self.spec_mapped_contains(surface)) by {
                    if self.spec_mapped_contains(surface) {
                        let j = choose|j: int|
                            0 <= j < v.len() && (#[trigger] v[j]).surface.id == surface;
                        assert(pre[j].surface.id == surface);
                    }
                }
            }
        }
        actions
    }

    /// Drops every closing entry whose transition has finished at `now`;
    /// nothing of it is rendered any more.
    pub fn remove_finished_closing_layers(&mut self, now: MonotonicMillis)
        requires
            old(self).wf(),
        ensures
            final(self).wf(),
            final(self).config == old(self).config,
            final(self).is_at_startup == old(self).is_at_startup,
            final(self).unmapped_layer_surfaces@ == old(self).unmapped_layer_surfaces@,
            final(self).mapped_layer_surfaces@ == old(self).mapped_layer_surfaces@,
            final(self).layer_shell_on_demand_focus == old(self).layer_shell_on_demand_focus,
            // exactly the unfinished entries remain
            forall|k: int|
                0 <= k < final(self).closing_layers@.len() ==> !(
                #[trigger] final(self).closing_layers@[k]).animation.anim.spec_is_done(now),
            forall|j: int|
                0 <= j < old(self).closing_layers@.len() && !(
                #[trigger] old(self).closing_layers@[j]).animation.anim.spec_is_done(now)
                    ==> final(self).closing_layers@.contains(old(self).closing_layers@[j]),
            forall|k: int|
                0 <= k < final(self).closing_layers@.len() ==> old(self).closing_layers@.contains(
                    #[trigger] final(self).closing_layers@[k],
                ),
    {
        let mut i: usize = 0;
        while i < self.closing_layers.len()
            invariant
                old(self).wf(),
                0 <= i <= self.closing_layers@.len(),
                self.config == old(self).config,
                self.is_at_startup == old(self).is_at_startup,
                self.unmapped_layer_surfaces@ == old(self).unmapped_layer_surfaces@,
                self.mapped_layer_surfaces@ == old(self).mapped_layer_surfaces@,
                self.layer_shell_on_demand_focus == old(self).layer_shell_on_demand_focus,
                forall|k: int|
                    0 <= k < i ==> !(
                    #[trigger] self.closing_layers@[k]).animation.anim.spec_is_done(now),
                forall|k: int|
                    0 <= k < self.closing_layers@.len() ==> old(self).closing_layers@.contains(
                        #[trigger] self.closing_layers@[k],
                    ),
                forall|j: int|
                    0 <= j < old(self).closing_layers@.len() && !(
                    #[trigger] old(self).closing_layers@[j]).animation.anim.spec_is_done(now)
                        ==> self.closing_layers@.contains(old(self).closing_layers@[j]),
                forall|k: int, l: int|
                    0 <= k < l < self.closing_layers@.len() ==> (
                    #[trigger] self.closing_layers@[k]).surface != (
                    #[trigger] self.closing_layers@[l]).surface,
                forall|k: int|
                    0 <= k < self.closing_layers@.len() ==> (
                    #[trigger] self.closing_layers@[k]).wf(),
                forall|k: int|
                    0 <= k < self.closing_layers@.len() ==> !self.spec_mapped_contains(
                        (#[trigger] self.closing_layers@[k]).surface,
                    ),
            decreases self.closing_layers.len() - i,
        {
            let done = self.closing_layers[i].animation.is_done(now);
            if done {
                let ghost pre = self.closing_layers@;
                self.closing_layers.remove(i);
                proof {
                    pre.remove_ensures(i as int);
                    let v = self.closing_layers@;
                    assert forall|k: int|
                        0 <= k < v.len() implies old(self).closing_layers@.contains(
                        #[trigger] v[k],
                    ) by {
                        if k < i as int {
                            assert(pre[k] == v[k]);
                        } else {
                            assert(pre[k + 1] == v[k]);
                        }
                    }
                    assert forall|j: int|
                        0 <= j < old(self).closing_layers@.len() && !(
                        #[trigger] old(self).closing_layers@[j]).animation.anim.spec_is_done(now)
                            implies v.contains(old(self).closing_layers@[j]) by {
                        let e = old(self).closing_layers@[j];
                        assert(pre.contains(e));
                        let a = choose|a: int| 0 <= a < pre.len() && pre[a] == e;
                        assert(a != i);
                        if a < i as int {
                            assert(v[a] == e);
                        } else {
                            assert(v[a - 1] == e);
                        }
                    }
                    assert forall|k: int, l: int|
                        0 <= k < l < v.len() implies (#[trigger] v[k]).surface != (
                        #[trigger] v[l]).surface by {
                        let k_orig = if k < i as int {
                            k
                        } else {
                            k + 1
                        };
                        let l_orig = if l < i as int {
                            l
                        } else {
                            l + 1
                        };
                        assert(pre[k_orig] == v[k] && pre[l_orig] == v[l]);
                    }
                    assert forall|k: int|
                        0 <= k < v.len() implies (#[trigger] v[k]).wf()
                        && !self.spec_mapped_contains(v[k].surface) by {
                        let k_orig = if k < i as int {
                            k
                        } else {
                            k + 1
                        };
                        assert(pre[k_orig] == v[k]);
                    }
                }
            } else {
                i += 1;
            }
        }
    }
}

/// What the collaborators report when a protocol object is destroyed while
/// its surface still sits in an output's layer stack.
#[derive(Debug)]
pub struct DestroyedLayerInfo {
    /// The output whose stack held the surface.
    pub output: OutputId,
    /// The surface's last protocol state.
    pub attrs: LayerAttributes,
    /// The surface's geometry in the stack, if it was arranged.
    pub geometry: Option<Rect>,
    /// Whatever content can still be captured, for the close snapshot.
    pub content: Vec<SurfaceElement>,
}

/// Every tracked surface is in exactly one of the unmapped set and the
/// mapped collection: while the protocol object is alive it is in one of
/// them, and the two never share an identity.
pub proof fn lemma_surface_in_exactly_one(s: &State, id: SurfaceId)
    requires
        s.wf(),
        s.spec_alive(id),
    ensures
        s.spec_unmapped_contains(id) != s.spec_mapped_contains(id),
{
    if s.spec_unmapped_contains(id) && s.spec_mapped_contains(id) {
        let j = choose|j: int|
            0 <= j < s.mapped_layer_surfaces@.len() && (
            #[trigger] s.mapped_layer_surfaces@[j]).surface.id == id;
        assert(!s.spec_unmapped_contains(id));
    }
}

/// A mapped surface never has a pending close transition: an open and a
/// close animation never run simultaneously for the same identity.
pub proof fn lemma_no_simultaneous_open_and_close(s: &State, id: SurfaceId)
    requires
        s.wf(),
        s.spec_mapped_contains(id),
    ensures
        !s.spec_closing_contains(id),
{
    if s.spec_closing_contains(id) {
        let j = choose|j: int|
            0 <= j < s.closing_layers@.len() && (#[trigger] s.closing_layers@[j]).surface == id;
        assert(!s.spec_mapped_contains(s.closing_layers@[j].surface));
    }
}

/// Starting the open transition is idempotent: asking to start again,
/// with any timing and program, leaves the state of the first start
/// untouched, so only the one transition runs.
pub proof fn lemma_start_open_animation_idempotent(
    m: MappedLayer,
    now1: MonotonicMillis,
    params1: AnimationParams,
    program1: ProgramType,
    now2: MonotonicMillis,
    params2: AnimationParams,
    program2: ProgramType,
)
    ensures
        MappedLayer::spec_start_open_animation(
            MappedLayer::spec_start_open_animation(m, now1, params1, program1),
            now2,
            params2,
            program2,
        ) == MappedLayer::spec_start_open_animation(m, now1, params1, program1),
{
}


} // verus!
