//! Plain-value model of draw elements and render targets.
//!
//! The scene-graph collaborator turns live surface trees into draw elements;
//! this crate only decides which elements are produced, with what geometry,
//! opacity and program. An element here records those decisions.

use vstd::prelude::*;

use crate::config::{BlockOutFrom, Color, Permille};
use crate::geometry::{Point, Rect, Size};
use crate::programs::ProgramId;
use crate::shaders::ProgramType;

verus! {

/// Largest magnitude allowed for a coordinate handed into this crate, so
/// that sums of two coordinates never overflow `i64`.
pub const COORD_LIMIT: i64 = 0x2000_0000_0000;

/// Whether a coordinate is within the accepted range.
pub open spec fn coord_ok(v: i64) -> bool {
    -COORD_LIMIT <= v <= COORD_LIMIT
}

/// Whether a point is within the accepted range.
pub open spec fn point_ok(p: Point) -> bool {
    coord_ok(p.x) && coord_ok(p.y)
}

/// Whether a size is nonnegative and within the accepted range.
pub open spec fn size_ok(s: Size) -> bool {
    0 <= s.w <= COORD_LIMIT && 0 <= s.h <= COORD_LIMIT
}

/// What a frame is being rendered for.
#[derive(Clone, Copy, Debug, PartialEq, Eq, Structural)]
pub enum RenderTarget {
    /// The monitor itself.
    Output,
    /// A screencast stream.
    Screencast,
    /// Any other screen-capture mechanism.
    ScreenCapture,
}

impl RenderTarget {
    /// Whether content with the given block-out policy must be hidden from
    /// this target.
    pub open spec fn spec_should_block_out(&self, block_out_from: Option<BlockOutFrom>) -> bool {
        match *self {
            RenderTarget::Output => false,
            RenderTarget::Screencast => block_out_from is Some,
            RenderTarget::ScreenCapture => block_out_from == Some(BlockOutFrom::ScreenCapture),
        }
    }

    /// Whether content with the given block-out policy must be hidden from
    /// this target.
    pub fn should_block_out(&self, block_out_from: Option<BlockOutFrom>) -> (r: bool)
        ensures
            r == self.spec_should_block_out(block_out_from),
    {
        match *self {
            RenderTarget::Output => false,
            RenderTarget::Screencast => block_out_from.is_some(),
            RenderTarget::ScreenCapture => matches!(
                block_out_from,
                Some(BlockOutFrom::ScreenCapture)
            ),
        }
    }
}

/// One element of a surface's live content, as the scene-graph collaborator
/// reports it: an opaque identity plus placement relative to the surface.
#[derive(Clone, Copy, Debug, PartialEq, Eq, Structural)]
pub struct SurfaceElement {
    /// Identity of the underlying buffer element.
    pub id: u64,
    /// Placement relative to the surface origin.
    pub offset: Point,
    /// Size of the element.
    pub size: Size,
}

impl SurfaceElement {
    /// Coordinates within range.
    pub open spec fn wf(&self) -> bool {
        point_ok(self.offset) && size_ok(self.size)
    }
}

/// A live-content element placed on the output.
#[derive(Clone, Copy, Debug, PartialEq, Eq, Structural)]
pub struct WaylandElement {
    /// Identity of the underlying buffer element.
    pub id: u64,
    /// Final position on the output.
    pub loc: Point,
    /// Size of the element.
    pub size: Size,
    /// Opacity in thousandths.
    pub alpha: Permille,
}

/// A solid-color rectangle, used as the blocked-out placeholder.
#[derive(Clone, Copy, Debug, PartialEq, Eq, Structural)]
pub struct SolidColorElement {
    pub loc: Point,
    pub size: Size,
    pub color: Color,
    pub alpha: Permille,
}

/// The drop shadow behind a surface.
#[derive(Clone, Copy, Debug, PartialEq, Eq, Structural)]
pub struct ShadowElement {
    pub loc: Point,
    pub size: Size,
    pub color: Color,
}

/// The composited result of an open transition for one frame.
#[derive(Clone, Copy, Debug, PartialEq, Eq, Structural)]
pub struct OpeningElement {
    pub loc: Point,
    pub size: Size,
    /// Transition progress in thousandths.
    pub progress: Permille,
    /// Purpose whose program drives the transition.
    pub program: ProgramType,
    pub alpha: Permille,
}

/// One frame of a close transition, drawn from a snapshot.
#[derive(Clone, Copy, Debug, PartialEq, Eq, Structural)]
pub struct ClosingElement {
    pub loc: Point,
    pub size: Size,
    /// Whether the blocked-out snapshot variant is shown.
    pub blocked_out: bool,
    /// Transition progress in thousandths.
    pub progress: Permille,
    /// The close program, or `None` for the plain alpha-fade fallback.
    pub program: Option<ProgramId>,
    pub alpha: Permille,
}

/// Any draw element a layer surface can produce.
#[derive(Clone, Copy, Debug, PartialEq, Eq, Structural)]
pub enum LayerSurfaceRenderElement {
    Wayland(WaylandElement),
    SolidColor(SolidColorElement),
    Shadow(ShadowElement),
    Opening(OpeningElement),
    Closing(ClosingElement),
}

/// The bounding box of the elements: the smallest rectangle enclosing all
/// of them, or a zero rectangle when there are none.
pub open spec fn spec_encompassing_geo(elements: Seq<SurfaceElement>) -> Rect
    decreases elements.len(),
{
    if elements.len() == 0 {
        Rect { loc: Point { x: 0, y: 0 }, size: Size { w: 0, h: 0 } }
    } else if elements.len() == 1 {
        Rect { loc: elements[0].offset, size: elements[0].size }
    } else {
        let rest = spec_encompassing_geo(elements.drop_last());
        let e = elements.last();
        let x0 = if rest.loc.x <= e.offset.x {
            rest.loc.x
        } else {
            e.offset.x
        };
        let y0 = if rest.loc.y <= e.offset.y {
            rest.loc.y
        } else {
            e.offset.y
        };
        let rx1 = rest.loc.x + rest.size.w;
        let ex1 = e.offset.x + e.size.w;
        let x1 = if rx1 >= ex1 {
            rx1
        } else {
            ex1
        };
        let ry1 = rest.loc.y + rest.size.h;
        let ey1 = e.offset.y + e.size.h;
        let y1 = if ry1 >= ey1 {
            ry1
        } else {
            ey1
        };
        Rect {
            loc: Point { x: x0, y: y0 },
            size: Size { w: (x1 - x0) as i64, h: (y1 - y0) as i64 },
        }
    }
}

/// The bounding box of the elements.
pub fn encompassing_geo(elements: &Vec<SurfaceElement>) -> (r: Rect)
    requires
        forall|i: int| 0 <= i < elements@.len() ==> (#[trigger] elements@[i]).wf(),
    ensures
        r == spec_encompassing_geo(elements@),
{
    if elements.len() == 0 {
        return Rect { loc: Point { x: 0, y: 0 }, size: Size { w: 0, h: 0 } };
    }
    let mut x0: i64 = elements[0].offset.x;
    let mut y0: i64 = elements[0].offset.y;
    let mut x1: i64 = elements[0].offset.x + elements[0].size.w;
    let mut y1: i64 = elements[0].offset.y + elements[0].size.h;
    let mut i: usize = 1;
    while i < elements.len()
        invariant
            1 <= i <= elements@.len(),
            forall|k: int| 0 <= k < elements@.len() ==> (#[trigger] elements@[k]).wf(),
            spec_encompassing_geo(elements@.take(i as int)) == (Rect {
                loc: Point { x: x0, y: y0 },
                size: Size { w: (x1 - x0) as i64, h: (y1 - y0) as i64 },
            }),
            x0 <= x1,
            y0 <= y1,
            -COORD_LIMIT <= x0 <= COORD_LIMIT,
            -COORD_LIMIT <= y0 <= COORD_LIMIT,
            -2 * COORD_LIMIT <= x1 <= 2 * COORD_LIMIT,
            -2 * COORD_LIMIT <= y1 <= 2 * COORD_LIMIT,
        decreases elements.len() - i,
    {
        let ghost prefix = elements@.take(i as int);
        let e = &elements[i];
        let ex1 = e.offset.x + e.size.w;
        let ey1 = e.offset.y + e.size.h;
        if e.offset.x < x0 {
            x0 = e.offset.x;
        }
        if e.offset.y < y0 {
            y0 = e.offset.y;
        }
        if ex1 > x1 {
            x1 = ex1;
        }
        if ey1 > y1 {
            y1 = ey1;
        }
        proof {
            let next = elements@.take(i + 1);
            assert(next.drop_last() =~= prefix);
            assert(next.last() == elements@[i as int]);
            if i == 1 {
                assert(prefix.len() == 1);
            }
        }
        i += 1;
    }
    proof {
        assert(elements@.take(elements@.len() as int) =~= elements@);
    }
    Rect { loc: Point { x: x0, y: y0 }, size: Size { w: x1 - x0, h: y1 - y0 } }
}

} // verus!
