//! The ephemeral animator of a closing layer surface: a snapshot and
//! geometry frozen at unmap time plus a running close transition, rendered
//! every frame until the transition reports done.

use vstd::prelude::*;

use crate::anim::Animation;
use crate::config::Permille;
use crate::geometry::{Point, Size};
use crate::mapped::LayerSurfaceRenderSnapshot;
use crate::programs::ProgramId;
use crate::render::{ClosingElement, LayerSurfaceRenderElement, RenderTarget};
use crate::shaders::{ProgramType, Shaders};
use crate::surface::{Layer, OutputId, SurfaceId};
use crate::MonotonicMillis;

verus! {

/// A closing surface being animated out: the captured snapshot, the
/// geometry frozen at unmap time, and the transition that drives it.
#[derive(Debug)]
pub struct ClosingLayer {
    /// The snapshot captured before the content disappeared; never trivial.
    pub snapshot: LayerSurfaceRenderSnapshot,
    /// Size of the surface at unmap time.
    pub size: Size,
    /// Position of the surface at unmap time.
    pub location: Point,
    /// The close transition, running 0 to 1.
    pub anim: Animation,
    /// The purpose whose program draws the transition.
    pub program: ProgramType,
}

impl ClosingLayer {
    /// The transition is well-formed and the snapshot has something to
    /// draw.
    pub open spec fn wf(&self) -> bool {
        &&& self.anim.wf()
        &&& !self.snapshot.spec_is_empty()
    }

    /// Packages a non-trivial snapshot with the frozen geometry and a
    /// running transition. An empty snapshot never reaches this
    /// constructor: the caller drops the surface without a transition
    /// instead.
    pub fn new(
        snapshot: LayerSurfaceRenderSnapshot,
        size: Size,
        location: Point,
        anim: Animation,
        program: ProgramType,
    ) -> (r: ClosingLayer)
        requires
            !snapshot.spec_is_empty(),
            anim.wf(),
        ensures
            r == (ClosingLayer { snapshot, size, location, anim, program }),
            r.wf(),
    {
        ClosingLayer { snapshot, size, location, anim, program }
    }

    /// Whether the transition has finished at `now`; the caller then
    /// removes this entry and nothing is rendered any more.
    pub fn is_done(&self, now: MonotonicMillis) -> (r: bool)
        requires
            self.wf(),
        ensures
            r == self.anim.spec_is_done(now),
    {
        self.anim.is_done(now)
    }

    /// Whether a frame for `target` draws the blocked-out snapshot
    /// variant.
    pub open spec fn spec_blocked_out(&self, target: RenderTarget) -> bool {
        target.spec_should_block_out(self.snapshot.block_out_from)
    }

    /// The one element a frame at `now` for `target` draws: the chosen
    /// snapshot variant at the frozen geometry, modulated by the
    /// transition's progress, through the close program when one is
    /// compiled and as a plain alpha fade otherwise.
    pub open spec fn spec_render(
        &self,
        shaders: Shaders,
        target: RenderTarget,
        now: MonotonicMillis,
    ) -> ClosingElement {
        let progress = self.anim.spec_progress(now);
        ClosingElement {
            loc: self.location,
            size: self.size,
            blocked_out: self.spec_blocked_out(target),
            progress,
            program: shaders.spec_program(self.program),
            alpha: (1000 - progress) as Permille,
        }
    }

    /// Appends the frame of this closing surface at `now` to `out`.
    pub fn render(
        &self,
        shaders: &Shaders,
        target: RenderTarget,
        now: MonotonicMillis,
        out: &mut Vec<LayerSurfaceRenderElement>,
    )
        requires
            self.wf(),
        ensures
            final(out)@ == old(out)@.push(
                LayerSurfaceRenderElement::Closing(self.spec_render(*shaders, target, now)),
            ),
    {
        let progress = self.anim.progress(now);
        let program = shaders.program(self.program);
        out.push(
            LayerSurfaceRenderElement::Closing(
                ClosingElement {
                    loc: self.location,
                    size: self.size,
                    blocked_out: target.should_block_out(self.snapshot.block_out_from),
                    progress,
                    program,
                    alpha: 1000 - progress,
                },
            ),
        );
    }
}

/// A closing surface as the renderer tracks it: where it is drawn, which
/// stacking layer it belonged to, and its animator.
#[derive(Debug)]
pub struct ClosingLayerState {
    /// The output the surface was on.
    pub output: OutputId,
    /// Identity of the originating surface, used to cancel this entry when
    /// the same surface remaps before the transition ends.
    pub surface: SurfaceId,
    /// The stacking layer the surface occupied.
    pub layer: Layer,
    /// Whether the surface was placed inside the backdrop.
    pub for_backdrop: bool,
    /// The animator itself.
    pub animation: ClosingLayer,
}

impl ClosingLayerState {
    pub open spec fn wf(&self) -> bool {
        self.animation.wf()
    }
}

} // verus!
