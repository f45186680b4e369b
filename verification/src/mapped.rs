//! Render state for one mapped layer surface: resolved style rules, the
//! blocked-out placeholder, the open-transition animation, per-frame
//! offscreen bookkeeping, and the content snapshot kept fresh for a later
//! unmap.

use vstd::prelude::*;

use crate::anim::Animation;
use crate::config::{AnimationParams, BlockOutFrom, Color, Config, CornerRadius, LayerRule,
    Permille, ShadowConfig};
use crate::geometry::{Point, Size};
use crate::render::{point_ok, size_ok, spec_encompassing_geo, LayerSurfaceRenderElement,
    OpeningElement, ShadowElement, SolidColorElement, SurfaceElement, RenderTarget,
    WaylandElement, encompassing_geo};
use crate::rules::{spec_compute_rules, ResolvedLayerRules};
use crate::shaders::ProgramType;
use crate::surface::LayerSurface;
use crate::MonotonicMillis;

verus! {

/// Buffer drawn in place of the surface when its content must be hidden.
#[derive(Clone, Copy, Debug, PartialEq, Eq, Structural)]
pub struct SolidColorBuffer {
    pub size: Size,
    pub color: Color,
}

impl SolidColorBuffer {
    pub fn new(size: Size, color: Color) -> (r: SolidColorBuffer)
        ensures
            r == (SolidColorBuffer { size, color }),
    {
        SolidColorBuffer { size, color }
    }

    pub fn resize(&mut self, size: Size)
        ensures
            *final(self) == (SolidColorBuffer { size, color: old(self).color }),
    {
        self.size = size;
    }
}

/// The drop shadow of one surface. Its settings are derived from the layout
/// defaults and the surface's rules; its geometry follows the surface.
#[derive(Clone, Copy, Debug, PartialEq, Eq, Structural)]
pub struct Shadow {
    pub config: ShadowConfig,
    pub size: Size,
    pub corner_radius: CornerRadius,
}

impl Shadow {
    pub fn new(config: ShadowConfig) -> (r: Shadow)
        ensures
            r.config == config,
            r.size == (Size { w: 0, h: 0 }),
    {
        Shadow {
            config,
            size: Size { w: 0, h: 0 },
            corner_radius: CornerRadius::zero(),
        }
    }

    pub fn update_config(&mut self, config: ShadowConfig)
        ensures
            *final(self) == (Shadow {
                config,
                size: old(self).size,
                corner_radius: old(self).corner_radius,
            }),
    {
        self.config = config;
    }

    pub fn update_render_elements(&mut self, size: Size, corner_radius: CornerRadius)
        ensures
            *final(self) == (Shadow { config: old(self).config, size, corner_radius }),
    {
        self.size = size;
        self.corner_radius = corner_radius;
    }

    /// The elements this shadow draws at `location`: one element when it is
    /// enabled, none otherwise.
    pub open spec fn spec_render(&self, location: Point) -> Seq<LayerSurfaceRenderElement> {
        if self.config.on {
            seq![
                LayerSurfaceRenderElement::Shadow(
                    ShadowElement { loc: location, size: self.size, color: self.config.color },
                ),
            ]
        } else {
            Seq::empty()
        }
    }

    /// Appends the shadow's elements at `location` to `out`.
    pub fn render(&self, location: Point, out: &mut Vec<LayerSurfaceRenderElement>)
        ensures
            final(out)@ == old(out)@ + self.spec_render(location),
    {
        if self.config.on {
            out.push(
                LayerSurfaceRenderElement::Shadow(
                    ShadowElement { loc: location, size: self.size, color: self.config.color },
                ),
            );
            proof {
                assert(final(out)@ =~= old(out)@ + self.spec_render(location));
            }
        } else {
            proof {
                assert(final(out)@ =~= old(out)@ + self.spec_render(location));
            }
        }
    }
}

/// Bookkeeping of the offscreen buffer used while an open transition is
/// composited, merged frame over frame.
#[derive(Debug)]
pub struct OffscreenData {
    /// Identity of the offscreen buffer of the current frame.
    pub id: u64,
    /// Identities of element states parked in the offscreen pass.
    pub states: Vec<u64>,
}

/// The open transition of a mapped surface: its progress animation and the
/// purpose whose program composites it.
#[derive(Clone, Copy, Debug, PartialEq, Eq, Structural)]
pub struct OpenAnimation {
    pub anim: Animation,
    pub program: ProgramType,
}

impl OpenAnimation {
    pub open spec fn wf(&self) -> bool {
        self.anim.wf()
    }

    pub open spec fn spec_is_done(&self, now: MonotonicMillis) -> bool {
        self.anim.spec_is_done(now)
    }

    pub fn is_done(&self, now: MonotonicMillis) -> (r: bool)
        requires
            self.wf(),
        ensures
            r == self.spec_is_done(now),
    {
        self.anim.is_done(now)
    }
}

/// A captured record of a surface's draw elements in both variants, kept
/// for rendering after the live content is gone.
#[derive(Debug)]
pub struct LayerSurfaceRenderSnapshot {
    /// Elements of the normal variant.
    pub contents: Vec<LayerSurfaceRenderElement>,
    /// Elements of the blocked-out variant, for restricted capture targets.
    pub blocked_out_contents: Vec<LayerSurfaceRenderElement>,
    /// Which capture targets must use the blocked-out variant.
    pub block_out_from: Option<BlockOutFrom>,
    /// Logical size of the surface at capture time.
    pub size: Size,
}

impl LayerSurfaceRenderSnapshot {
    /// Whether the snapshot is trivial: no element in either variant. Such
    /// a snapshot must never start a close transition.
    pub open spec fn spec_is_empty(&self) -> bool {
        self.contents@.len() == 0 && self.blocked_out_contents@.len() == 0
    }

    /// Whether the snapshot is trivial: no element in either variant.
    pub fn is_empty(&self) -> (r: bool)
        ensures
            r == self.spec_is_empty(),
    {
        self.contents.len() == 0 && self.blocked_out_contents.len() == 0
    }
}

/// Render state of one mapped layer surface.
#[derive(Debug)]
pub struct MappedLayer {
    /// The surface itself, with its latest protocol state.
    pub surface: LayerSurface,
    /// Up-to-date resolved rules.
    pub rules: ResolvedLayerRules,
    /// Buffer drawn instead of the surface when it is blocked out.
    pub block_out_buffer: SolidColorBuffer,
    /// The shadow around the surface.
    pub shadow: Shadow,
    /// The view size of the surface's output.
    pub view_size: Size,
    /// Scale of the surface's output, in thousandths.
    pub scale_permille: u32,
    /// The open transition, present only while it runs.
    pub open_animation: Option<OpenAnimation>,
    /// Offscreen bookkeeping of the current frame's open-transition render.
    pub offscreen_data: Option<OffscreenData>,
    /// The snapshot a close transition would use, refreshed on every live
    /// commit.
    pub unmap_snapshot: Option<LayerSurfaceRenderSnapshot>,
}

/// The content of one popup of a layer surface, as the protocol layer
/// reports it: placement data plus its live elements.
#[derive(Debug)]
pub struct PopupContent {
    /// Position of the popup relative to its parent surface.
    pub location: Point,
    /// Origin of the popup's own geometry within its surface tree.
    pub geometry_loc: Point,
    /// Live content of the popup's surface tree.
    pub content: Vec<SurfaceElement>,
}

impl PopupContent {
    /// Coordinates within machine range.
    pub open spec fn wf(&self) -> bool {
        &&& point_ok(self.location)
        &&& point_ok(self.geometry_loc)
        &&& forall|i: int| 0 <= i < self.content@.len() ==> (#[trigger] self.content@[i]).wf()
    }
}

/// The elements one popup produces: its content placed at the parent
/// location plus the popup's net offset.
pub open spec fn spec_popup_elements(p: PopupContent, base: Point, alpha: Permille) -> Seq<
    LayerSurfaceRenderElement,
> {
    let popup_base = base.spec_add(p.location.spec_sub(p.geometry_loc));
    Seq::new(
        p.content@.len(),
        |i: int|
            LayerSurfaceRenderElement::Wayland(
                WaylandElement {
                    id: p.content@[i].id,
                    loc: popup_base.spec_add(p.content@[i].offset),
                    size: p.content@[i].size,
                    alpha,
                },
            ),
    )
}

/// The elements a sequence of popups produces, in order.
pub open spec fn spec_popups_elements(
    popups: Seq<PopupContent>,
    base: Point,
    alpha: Permille,
) -> Seq<LayerSurfaceRenderElement>
    decreases popups.len(),
{
    if popups.len() == 0 {
        Seq::empty()
    } else {
        spec_popups_elements(popups.drop_last(), base, alpha) + spec_popup_elements(
            popups.last(),
            base,
            alpha,
        )
    }
}

/// The shadow settings a layer surface derives from the configuration:
/// shadows are off for layer surfaces unless a rule enables them.
pub open spec fn spec_layer_shadow_config(config: Config, rules: ResolvedLayerRules)
    -> ShadowConfig {
    rules.shadow.spec_merged_onto(ShadowConfig { on: false, ..config.layout_shadow })
}

impl MappedLayer {
    /// Animations well-formed and the view size within machine range.
    pub open spec fn wf(&self) -> bool {
        &&& self.open_animation matches Some(oa) ==> oa.wf()
        &&& size_ok(self.view_size)
    }

    /// The parts of the state that rendering and animation calls never
    /// change: surface, rules, placeholder, shadow and output metrics.
    pub open spec fn spec_core_eq(a: MappedLayer, b: MappedLayer) -> bool {
        &&& a.surface == b.surface
        &&& a.rules == b.rules
        &&& a.block_out_buffer == b.block_out_buffer
        &&& a.shadow == b.shadow
        &&& a.view_size == b.view_size
        &&& a.scale_permille == b.scale_permille
    }

    /// A freshly mapped surface: no transition yet, no snapshot, shadow
    /// derived from the configuration with the layer-surface default of
    /// "off".
    pub fn new(
        surface: LayerSurface,
        rules: ResolvedLayerRules,
        view_size: Size,
        scale_permille: u32,
        config: &Config,
    ) -> (r: MappedLayer)
        requires
            size_ok(view_size),
        ensures
            r.wf(),
            r.surface == surface,
            r.rules == rules,
            r.block_out_buffer == (SolidColorBuffer {
                size: Size { w: 0, h: 0 },
                color: Color { r: 0, g: 0, b: 0, a: 255 },
            }),
            r.shadow.config == spec_layer_shadow_config(*config, rules),
            r.view_size == view_size,
            r.scale_permille == scale_permille,
            r.open_animation is None,
            r.offscreen_data is None,
            r.unmap_snapshot is None,
    {
        let mut shadow_config = config.layout_shadow;
        shadow_config.on = false;
        let shadow_config = rules.shadow.merged_onto(shadow_config);
        MappedLayer {
            surface,
            rules,
            block_out_buffer: SolidColorBuffer::new(Size::zero(), Color::black()),
            shadow: Shadow::new(shadow_config),
            view_size,
            scale_permille,
            open_animation: None,
            offscreen_data: None,
            unmap_snapshot: None,
        }
    }

    /// Re-derives the shadow settings from a new configuration, keeping the
    /// layer-surface default of "off" unless the rules enable the shadow.
    pub fn update_config(&mut self, config: &Config)
        ensures
            final(self).shadow.config == spec_layer_shadow_config(*config, old(self).rules),
            final(self).shadow.size == old(self).shadow.size,
            final(self).shadow.corner_radius == old(self).shadow.corner_radius,
            final(self).surface == old(self).surface,
            final(self).rules == old(self).rules,
            final(self).block_out_buffer == old(self).block_out_buffer,
            final(self).view_size == old(self).view_size,
            final(self).scale_permille == old(self).scale_permille,
            final(self).open_animation == old(self).open_animation,
            final(self).unmap_snapshot == old(self).unmap_snapshot,
    {
        let mut shadow_config = config.layout_shadow;
        shadow_config.on = false;
        let shadow_config = self.rules.shadow.merged_onto(shadow_config);
        self.shadow.update_config(shadow_config);
    }

    /// Re-resolves program handles used by sub-elements. Programs are
    /// resolved from the registry at render time here, so the state does
    /// not change.
    pub fn update_shaders(&mut self)
        ensures
            *final(self) == *old(self),
    {
    }

    /// Records the output's view size and scale, which geometry is rounded
    /// against.
    pub fn update_sizes(&mut self, view_size: Size, scale_permille: u32)
        requires
            size_ok(view_size),
        ensures
            final(self).view_size == view_size,
            final(self).scale_permille == scale_permille,
            final(self).surface == old(self).surface,
            final(self).rules == old(self).rules,
            final(self).block_out_buffer == old(self).block_out_buffer,
            final(self).shadow == old(self).shadow,
            final(self).open_animation == old(self).open_animation,
            final(self).unmap_snapshot == old(self).unmap_snapshot,
            old(self).wf() ==> final(self).wf(),
    {
        self.view_size = view_size;
        self.scale_permille = scale_permille;
    }

    /// Resizes the blocked-out placeholder to the surface size and lays the
    /// shadow out around it, with the corner radius the rules give.
    pub fn update_render_elements(&mut self, size: Size)
        ensures
            final(self).block_out_buffer == (SolidColorBuffer {
                size,
                color: old(self).block_out_buffer.color,
            }),
            final(self).shadow == (Shadow {
                config: old(self).shadow.config,
                size,
                corner_radius: if old(self).rules.geometry_corner_radius is Some {
                    old(self).rules.geometry_corner_radius->0
                } else {
                    CornerRadius {
                        top_left: 0,
                        top_right: 0,
                        bottom_right: 0,
                        bottom_left: 0,
                    }
                },
            }),
            final(self).surface == old(self).surface,
            final(self).rules == old(self).rules,
            final(self).view_size == old(self).view_size,
            final(self).scale_permille == old(self).scale_permille,
            final(self).open_animation == old(self).open_animation,
            final(self).unmap_snapshot == old(self).unmap_snapshot,
    {
        self.block_out_buffer.resize(size);
        let radius = match self.rules.geometry_corner_radius {
            Some(r) => r,
            None => CornerRadius::zero(),
        };
        self.shadow.update_render_elements(size, radius);
    }

    /// The surface's opacity in thousandths, clamped to fully opaque.
    pub open spec fn spec_alpha(&self) -> Permille {
        match self.rules.opacity {
            Some(o) => if o > 1000 {
                1000
            } else {
                o
            },
            None => 1000,
        }
    }

    /// The surface's opacity in thousandths, clamped to fully opaque.
    pub fn alpha(&self) -> (r: Permille)
        ensures
            r == self.spec_alpha(),
    {
        match self.rules.opacity {
            Some(o) => if o > 1000 {
                1000
            } else {
                o
            },
            None => 1000,
        }
    }

    /// The elements of a direct (non-composited) render at `location`: the
    /// blocked-out placeholder or the live content, with the shadow
    /// appended either way.
    pub open spec fn spec_render_inner(
        &self,
        content: Seq<SurfaceElement>,
        location: Point,
        target: RenderTarget,
    ) -> Seq<LayerSurfaceRenderElement> {
        let alpha = self.spec_alpha();
        let base = if target.spec_should_block_out(self.rules.block_out_from) {
            seq![
                LayerSurfaceRenderElement::SolidColor(
                    SolidColorElement {
                        loc: location,
                        size: self.block_out_buffer.size,
                        color: self.block_out_buffer.color,
                        alpha,
                    },
                ),
            ]
        } else {
            Seq::new(
                content.len(),
                |i: int|
                    LayerSurfaceRenderElement::Wayland(
                        WaylandElement {
                            id: content[i].id,
                            loc: location.spec_add(content[i].offset),
                            size: content[i].size,
                            alpha,
                        },
                    ),
            )
        };
        base + self.shadow.spec_render(location)
    }

    /// Appends a direct render of the surface at `location` to `out`: the
    /// placeholder when the target is blocked out, else the live content,
    /// with the shadow appended after the content either way.
    fn render_inner(
        &self,
        content: &Vec<SurfaceElement>,
        location: Point,
        target: RenderTarget,
        out: &mut Vec<LayerSurfaceRenderElement>,
    )
        requires
            -2 * crate::render::COORD_LIMIT <= location.x <= 2 * crate::render::COORD_LIMIT,
            -2 * crate::render::COORD_LIMIT <= location.y <= 2 * crate::render::COORD_LIMIT,
            forall|i: int| 0 <= i < content@.len() ==> (#[trigger] content@[i]).wf(),
        ensures
            final(out)@ == old(out)@ + self.spec_render_inner(content@, location, target),
    {
        let alpha = self.alpha();
        let ghost mid = out@;
        if target.should_block_out(self.rules.block_out_from) {
            out.push(
                LayerSurfaceRenderElement::SolidColor(
                    SolidColorElement {
                        loc: location,
                        size: self.block_out_buffer.size,
                        color: self.block_out_buffer.color,
                        alpha,
                    },
                ),
            );
        } else {
            let mut i: usize = 0;
            while i < content.len()
                invariant
                    0 <= i <= content@.len(),
                    alpha == self.spec_alpha(),
                    -2 * crate::render::COORD_LIMIT <= location.x <= 2 * crate::render::COORD_LIMIT,
                    -2 * crate::render::COORD_LIMIT <= location.y <= 2 * crate::render::COORD_LIMIT,
                    forall|k: int| 0 <= k < content@.len() ==> (#[trigger] content@[k]).wf(),
                    out@.len() == mid.len() + i,
                    forall|k: int| 0 <= k < mid.len() ==> out@[k] == mid[k],
                    forall|k: int|
                        0 <= k < i ==> out@[mid.len() + k] == LayerSurfaceRenderElement::Wayland(
                            WaylandElement {
                                id: content@[k].id,
                                loc: location.spec_add(content@[k].offset),
                                size: content@[k].size,
                                alpha: self.spec_alpha(),
                            },
                        ),
                decreases content.len() - i,
            {
                let e = &content[i];
                out.push(
                    LayerSurfaceRenderElement::Wayland(
                        WaylandElement {
                            id: e.id,
                            loc: location.add(e.offset),
                            size: e.size,
                            alpha,
                        },
                    ),
                );
                i += 1;
            }
        }
        self.shadow.render(location, out);
        proof {
            assert(final(out)@ =~= old(out)@ + self.spec_render_inner(content@, location, target));
        }
    }

    /// Captures both variants of the surface's current content, replacing
    /// the stored snapshot, so that a later unmap can still draw it.
    pub fn store_unmap_snapshot(&mut self, content: &Vec<SurfaceElement>)
        requires
            forall|i: int| 0 <= i < content@.len() ==> (#[trigger] content@[i]).wf(),
        ensures
            final(self).unmap_snapshot matches Some(s) && {
                &&& s.contents@ == old(self).spec_render_inner(
                    content@,
                    Point { x: 0, y: 0 },
                    RenderTarget::Output,
                )
                &&& s.blocked_out_contents@ == old(self).spec_render_inner(
                    content@,
                    Point { x: 0, y: 0 },
                    RenderTarget::Screencast,
                )
                &&& s.block_out_from == old(self).rules.block_out_from
                &&& s.size == old(self).surface.attrs.size
            },
            Self::spec_core_eq(*final(self), *old(self)),
            final(self).open_animation == old(self).open_animation,
            old(self).wf() ==> final(self).wf(),
    {
        let mut contents: Vec<LayerSurfaceRenderElement> = Vec::new();
        self.render_inner(content, Point::zero(), RenderTarget::Output, &mut contents);

        // The blocked-out variant is captured as for a screencast; every
        // restricted target then has a usable variant.
        let mut blocked_out_contents: Vec<LayerSurfaceRenderElement> = Vec::new();
        self.render_inner(content, Point::zero(), RenderTarget::Screencast,
            &mut blocked_out_contents);

        let size = self.surface.attrs.size;
        self.unmap_snapshot = Some(
            LayerSurfaceRenderSnapshot {
                contents,
                blocked_out_contents,
                block_out_from: self.rules.block_out_from,
                size,
            },
        );
    }

    /// Hands out the stored snapshot, leaving none behind.
    pub fn take_unmap_snapshot(&mut self) -> (r: Option<LayerSurfaceRenderSnapshot>)
        ensures
            r == old(self).unmap_snapshot,
            final(self).unmap_snapshot is None,
            Self::spec_core_eq(*final(self), *old(self)),
            final(self).open_animation == old(self).open_animation,
            old(self).wf() ==> final(self).wf(),
    {
        self.unmap_snapshot.take()
    }

    /// The offscreen bookkeeping of the current frame, if an open
    /// transition was composited.
    pub fn offscreen_data(&self) -> (r: &Option<OffscreenData>)
        ensures
            r == &self.offscreen_data,
    {
        &self.offscreen_data
    }

    /// Clears the open transition once its animation reports done.
    pub fn advance_animations(&mut self, now: MonotonicMillis)
        requires
            old(self).wf(),
        ensures
            final(self).open_animation == if old(self).open_animation matches Some(oa)
                && oa.spec_is_done(now) {
                None::<OpenAnimation>
            } else {
                old(self).open_animation
            },
            Self::spec_core_eq(*final(self), *old(self)),
            final(self).unmap_snapshot == old(self).unmap_snapshot,
            final(self).wf(),
    {
        let done = match &self.open_animation {
            Some(oa) => oa.is_done(now),
            None => false,
        };
        if done {
            self.open_animation = None;
        }
    }

    /// The state after asking to start the open transition at `now`: a new
    /// transition only if none is present, so a second start changes
    /// nothing.
    pub open spec fn spec_start_open_animation(
        m: MappedLayer,
        now: MonotonicMillis,
        params: AnimationParams,
        program: ProgramType,
    ) -> MappedLayer {
        if m.open_animation is Some {
            m
        } else {
            MappedLayer {
                open_animation: Some(
                    OpenAnimation { anim: Animation::spec_new(now, params), program },
                ),
                ..m
            }
        }
    }

    /// Starts the open transition at `now` with the given timing and
    /// program purpose. Starting is idempotent: while a transition is
    /// present the call has no effect.
    pub fn start_open_animation(
        &mut self,
        now: MonotonicMillis,
        params: AnimationParams,
        program: ProgramType,
    )
        requires
            old(self).wf(),
        ensures
            *final(self) == Self::spec_start_open_animation(*old(self), now, params, program),
            final(self).wf(),
    {
        if self.open_animation.is_some() {
            return ;
        }
        self.open_animation = Some(OpenAnimation { anim: Animation::new(now, params), program });
    }

    /// Drops the open transition and its offscreen bookkeeping.
    pub fn reset_open_animation_state(&mut self)
        ensures
            final(self).open_animation is None,
            final(self).offscreen_data is None,
            Self::spec_core_eq(*final(self), *old(self)),
            final(self).unmap_snapshot == old(self).unmap_snapshot,
            old(self).wf() ==> final(self).wf(),
    {
        self.open_animation = None;
        self.offscreen_data = None;
    }

    /// Whether anything animates right now: a floating-bob rule, or an open
    /// transition that has not finished.
    pub open spec fn spec_are_animations_ongoing(&self, now: MonotonicMillis) -> bool {
        self.rules.baba_is_float || (self.open_animation matches Some(oa) && !oa.spec_is_done(now))
    }

    /// Whether anything animates right now.
    pub fn are_animations_ongoing(&self, now: MonotonicMillis) -> (r: bool)
        requires
            self.wf(),
        ensures
            r == self.spec_are_animations_ongoing(now),
    {
        if self.rules.baba_is_float {
            return true;
        }
        match &self.open_animation {
            Some(oa) => !oa.is_done(now),
            None => false,
        }
    }

    /// The surface itself.
    pub fn surface(&self) -> (r: &LayerSurface)
        ensures
            r == &self.surface,
    {
        &self.surface
    }

    /// The up-to-date resolved rules.
    pub fn rules(&self) -> (r: &ResolvedLayerRules)
        ensures
            r == &self.rules,
    {
        &self.rules
    }

    /// Recomputes the resolved rules against the configuration and reports
    /// whether they changed; the stored rules are the recomputed ones
    /// afterwards either way.
    pub fn recompute_layer_rules(&mut self, rules: &Vec<LayerRule>, is_at_startup: bool) -> (
        changed: bool)
        ensures
            final(self).rules == spec_compute_rules(
                rules@,
                old(self).surface.attrs,
                is_at_startup,
            ),
            changed == (final(self).rules != old(self).rules),
            final(self).surface == old(self).surface,
            final(self).block_out_buffer == old(self).block_out_buffer,
            final(self).shadow == old(self).shadow,
            final(self).view_size == old(self).view_size,
            final(self).scale_permille == old(self).scale_permille,
            final(self).open_animation == old(self).open_animation,
            final(self).unmap_snapshot == old(self).unmap_snapshot,
            old(self).wf() ==> final(self).wf(),
    {
        let new_rules = ResolvedLayerRules::compute(rules, &self.surface.attrs, is_at_startup);
        if new_rules == self.rules {
            return false;
        }
        self.rules = new_rules;
        true
    }

    /// Whether the surface belongs inside the backdrop: its rules place it
    /// there, it sits on the background layer, and it leaves exclusive
    /// zones alone.
    pub open spec fn spec_place_within_backdrop(&self) -> bool {
        &&& self.rules.place_within_backdrop
        &&& self.surface.attrs.layer == crate::surface::Layer::Background
        &&& self.surface.attrs.exclusive_zone == crate::surface::ExclusiveZone::DontCare
    }

    /// Whether the surface belongs inside the backdrop.
    pub fn place_within_backdrop(&self) -> (r: bool)
        ensures
            r == self.spec_place_within_backdrop(),
    {
        if !self.rules.place_within_backdrop {
            return false;
        }
        if !matches!(self.surface.attrs.layer, crate::surface::Layer::Background) {
            return false;
        }
        if !matches!(self.surface.attrs.exclusive_zone, crate::surface::ExclusiveZone::DontCare) {
            return false;
        }
        true
    }

    /// The geometry an open transition composites into: the committed
    /// surface size when positive, else the bounding box of the live
    /// content.
    pub open spec fn spec_open_geo_size(&self, content: Seq<SurfaceElement>) -> Size {
        let s = self.surface.attrs.size;
        if s.spec_is_positive() {
            s
        } else {
            spec_encompassing_geo(content).size
        }
    }

    /// Whether a normal render goes through the composited open-transition
    /// path: a transition is present, and the content is non-degenerate.
    pub open spec fn spec_renders_composited(&self, content: Seq<SurfaceElement>) -> bool {
        &&& self.open_animation is Some
        &&& content.len() > 0
        &&& self.spec_open_geo_size(content).spec_is_positive()
    }

    /// The elements a normal render at `location` produces: one composited
    /// open-transition element while the transition runs and the content
    /// is usable, else a direct render; the floating-bob offset applies
    /// either way.
    pub open spec fn spec_render_normal(
        &self,
        content: Seq<SurfaceElement>,
        location: Point,
        target: RenderTarget,
        now: MonotonicMillis,
    ) -> Seq<LayerSurfaceRenderElement> {
        let loc = location.spec_add(self.spec_bob_offset(now));
        if self.spec_renders_composited(content) {
            seq![
                LayerSurfaceRenderElement::Opening(
                    OpeningElement {
                        loc,
                        size: self.spec_open_geo_size(content),
                        progress: self.open_animation->0.anim.spec_progress(now),
                        program: self.open_animation->0.program,
                        alpha: self.spec_alpha(),
                    },
                ),
            ]
        } else {
            self.spec_render_inner(content, loc, target)
        }
    }

    /// Appends the elements of a normal render of the surface at `location`
    /// to `out`, and records the offscreen bookkeeping of a composited
    /// open-transition render, clearing any previous frame's.
    pub fn render_normal(
        &mut self,
        content: &Vec<SurfaceElement>,
        location: Point,
        target: RenderTarget,
        now: MonotonicMillis,
        out: &mut Vec<LayerSurfaceRenderElement>,
    )
        requires
            old(self).wf(),
            point_ok(location),
            forall|i: int| 0 <= i < content@.len() ==> (#[trigger] content@[i]).wf(),
        ensures
            final(out)@ == old(out)@ + old(self).spec_render_normal(
                content@,
                location,
                target,
                now,
            ),
            Self::spec_core_eq(*final(self), *old(self)),
            final(self).open_animation == old(self).open_animation,
            final(self).unmap_snapshot == old(self).unmap_snapshot,
            (final(self).offscreen_data is Some) == old(self).spec_renders_composited(content@),
            final(self).offscreen_data matches Some(d) ==> d.id == 0 && d.states@.len() == 0,
            final(self).wf(),
    {
        let loc = location.add(self.bob_offset(now));
        self.set_offscreen_data(None);

        let mut composited = false;
        if self.open_animation.is_some() && content.len() > 0 {
            let s = self.surface.attrs.size;
            let geo_size = if s.is_positive() {
                s
            } else {
                encompassing_geo(content).size
            };
            if geo_size.is_positive() {
                let (progress, program) = match &self.open_animation {
                    Some(oa) => (oa.anim.progress(now), oa.program),
                    None => (0u16, ProgramType::LayerOpen),
                };
                out.push(
                    LayerSurfaceRenderElement::Opening(
                        OpeningElement {
                            loc,
                            size: geo_size,
                            progress,
                            program,
                            alpha: self.alpha(),
                        },
                    ),
                );
                self.set_offscreen_data(Some(OffscreenData { id: 0, states: Vec::new() }));
                composited = true;
                proof {
                    assert(out@ =~= old(out)@ + old(self).spec_render_normal(
                        content@,
                        location,
                        target,
                        now,
                    ));
                }
            }
        }
        if !composited {
            self.render_inner(content, loc, target, out);
            proof {
                assert(self.spec_render_inner(content@, loc, target) =~= old(self).spec_render_inner(content@, loc, target));
                assert(out@ =~= old(out)@ + old(self).spec_render_normal(
                    content@,
                    location,
                    target,
                    now,
                ));
            }
        }
    }

    /// The elements the popups of this surface produce at `location`:
    /// nothing when the target is blocked out, else every popup's content
    /// placed at its offset.
    pub open spec fn spec_render_popups(
        &self,
        popups: Seq<PopupContent>,
        location: Point,
        target: RenderTarget,
        now: MonotonicMillis,
    ) -> Seq<LayerSurfaceRenderElement> {
        if target.spec_should_block_out(self.rules.block_out_from) {
            Seq::empty()
        } else {
            spec_popups_elements(
                popups,
                location.spec_add(self.spec_bob_offset(now)),
                self.spec_alpha(),
            )
        }
    }

    /// Appends the elements of this surface's popups at `location` to
    /// `out`. A blocked-out target shows no popups at all.
    pub fn render_popups(
        &self,
        popups: &Vec<PopupContent>,
        location: Point,
        target: RenderTarget,
        now: MonotonicMillis,
        out: &mut Vec<LayerSurfaceRenderElement>,
    )
        requires
            self.wf(),
            point_ok(location),
            forall|i: int| 0 <= i < popups@.len() ==> (#[trigger] popups@[i]).wf(),
        ensures
            final(out)@ == old(out)@ + self.spec_render_popups(popups@, location, target, now),
    {
        if target.should_block_out(self.rules.block_out_from) {
            proof {
                assert(out@ =~= old(out)@ + self.spec_render_popups(
                    popups@,
                    location,
                    target,
                    now,
                ));
            }
            return ;
        }
        let alpha = self.alpha();
        let loc = location.add(self.bob_offset(now));
        let ghost base = out@;
        let mut i: usize = 0;
        while i < popups.len()
            invariant
                0 <= i <= popups@.len(),
                alpha == self.spec_alpha(),
                -2 * crate::render::COORD_LIMIT <= loc.x <= 2 * crate::render::COORD_LIMIT,
                -2 * crate::render::COORD_LIMIT <= loc.y <= 2 * crate::render::COORD_LIMIT,
                forall|k: int| 0 <= k < popups@.len() ==> (#[trigger] popups@[k]).wf(),
                out@ == base + spec_popups_elements(popups@.take(i as int), loc, alpha),
            decreases popups.len() - i,
        {
            let ghost prefix = popups@.take(i as int);
            let ghost out_before = out@;
            let p = &popups[i];
            let offset = p.location.sub(p.geometry_loc);
            let popup_base = loc.add(offset);
            let ghost popup_elems = spec_popup_elements(popups@[i as int], loc, alpha);
            let mut j: usize = 0;
            while j < p.content.len()
                invariant
                    0 <= j <= p.content@.len(),
                    alpha == self.spec_alpha(),
                    p == popups@[i as int],
                    0 <= i < popups@.len(),
                    forall|k: int| 0 <= k < popups@.len() ==> (#[trigger] popups@[k]).wf(),
                    popup_base == loc.spec_add(p.location.spec_sub(p.geometry_loc)),
                    -4 * crate::render::COORD_LIMIT <= popup_base.x <= 4
                        * crate::render::COORD_LIMIT,
                    -4 * crate::render::COORD_LIMIT <= popup_base.y <= 4
                        * crate::render::COORD_LIMIT,
                    popup_elems == spec_popup_elements(popups@[i as int], loc, alpha),
                    out@.len() == out_before.len() + j,
                    forall|k: int| 0 <= k < out_before.len() ==> out@[k] == out_before[k],
                    forall|k: int| 0 <= k < j ==> out@[out_before.len() + k] == popup_elems[k],
                decreases p.content.len() - j,
            {
                let e = &p.content[j];
                out.push(
                    LayerSurfaceRenderElement::Wayland(
                        WaylandElement {
                            id: e.id,
                            loc: popup_base.add(e.offset),
                            size: e.size,
                            alpha,
                        },
                    ),
                );
                j += 1;
            }
            proof {
                assert(out@ =~= out_before + popup_elems);
                let next = popups@.take(i + 1);
                assert(next.drop_last() =~= prefix);
                assert(next.last() == popups@[i as int]);
                assert(spec_popups_elements(next, loc, alpha) == spec_popups_elements(
                    prefix,
                    loc,
                    alpha,
                ) + popup_elems);
                assert(out@ =~= base + spec_popups_elements(next, loc, alpha));
            }
            i += 1;
        }
        proof {
            assert(popups@.take(popups@.len() as int) =~= popups@);
            assert(out@ =~= old(out)@ + self.spec_render_popups(popups@, location, target, now));
        }
    }

    /// Replaces the offscreen bookkeeping: clearing clears, and new data
    /// merges into whatever the frame accumulated so far.
    fn set_offscreen_data(&mut self, data: Option<OffscreenData>)
        ensures
            data is None ==> final(self).offscreen_data is None,
            data matches Some(d) ==> final(self).offscreen_data matches Some(e) && {
                &&& e.id == d.id
                &&& e.states@ == if old(self).offscreen_data is Some {
                    old(self).offscreen_data->0.states@ + d.states@
                } else {
                    d.states@
                }
            },
            Self::spec_core_eq(*final(self), *old(self)),
            final(self).open_animation == old(self).open_animation,
            final(self).unmap_snapshot == old(self).unmap_snapshot,
            old(self).wf() ==> final(self).wf(),
    {
        let data = match data {
            Some(d) => d,
            None => {
                self.offscreen_data = None;
                return ;
            },
        };
        let existing = self.offscreen_data.take();
        match existing {
            None => {
                self.offscreen_data = Some(data);
            },
            Some(mut existing) => {
                existing.id = data.id;
                let mut incoming = data.states;
                existing.states.append(&mut incoming);
                self.offscreen_data = Some(existing);
            },
        }
    }

    /// The vertical floating-bob offset at `now`: zero without the rule,
    /// else a triangle wave sweeping a sixtieth of the view height every
    /// two seconds.
    pub open spec fn spec_bob_offset(&self, now: MonotonicMillis) -> Point {
        if !self.rules.baba_is_float {
            Point { x: 0, y: 0 }
        } else {
            let amp = self.view_size.h / 60;
            let phase = now as int % 2000;
            let y = if phase < 1000 {
                amp * phase / 1000
            } else {
                amp * (2000 - phase) / 1000
            };
            Point { x: 0, y: y as i64 }
        }
    }

    /// The vertical floating-bob offset at `now`.
    pub fn bob_offset(&self, now: MonotonicMillis) -> (r: Point)
        requires
            self.wf(),
        ensures
            r == self.spec_bob_offset(now),
            0 <= r.y <= self.view_size.h / 60,
    {
        if !self.rules.baba_is_float {
            return Point { x: 0, y: 0 };
        }
        let amp: i64 = self.view_size.h / 60;
        let phase: i64 = (now % 2000) as i64;
        proof {
            assert(0 <= amp && amp <= 0x2000_0000_0000) by (nonlinear_arith)
                requires
                    0 <= self.view_size.h <= 0x2000_0000_0000,
                    amp == self.view_size.h / 60,
            ;
            assert(0 <= amp * phase && amp * phase <= 0x2000_0000_0000 * 2000)
                by (nonlinear_arith)
                requires
                    0 <= amp <= 0x2000_0000_0000,
                    0 <= phase < 2000,
            ;
            assert(0 <= amp * (2000 - phase) && amp * (2000 - phase) <= 0x2000_0000_0000 * 2000)
                by (nonlinear_arith)
                requires
                    0 <= amp <= 0x2000_0000_0000,
                    0 <= phase < 2000,
            ;
        }
        let y: i64 = if phase < 1000 {
            amp * phase / 1000
        } else {
            amp * (2000 - phase) / 1000
        };
        proof {
            assert(0 <= y <= amp) by (nonlinear_arith)
                requires
                    0 <= amp,
                    0 <= phase < 2000,
                    y == if phase < 1000 {
                        amp * phase / 1000
                    } else {
                        amp * (2000 - phase) / 1000
                    },
            ;
        }
        Point { x: 0, y }
    }
}

} // verus!
