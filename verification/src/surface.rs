//! Plain-value model of the protocol-facing state of a layer surface.
//!
//! The layer-shell protocol layer owns the real surface objects; each event
//! handed to this crate carries the fields below as read-only data.

use vstd::prelude::*;

verus! {

/// Identity of a logical layer surface, stable across map/unmap cycles.
pub type SurfaceId = u64;

/// Identity of an output (a monitor).
pub type OutputId = u64;

/// Which of the four output edges a surface is pinned to.
#[derive(Clone, Copy, Debug, PartialEq, Eq, Structural)]
pub struct Anchor {
    pub top: bool,
    pub bottom: bool,
    pub left: bool,
    pub right: bool,
}

impl Anchor {
    /// Whether the surface is anchored to all four edges at once.
    pub open spec fn spec_has_all_edges(&self) -> bool {
        self.top && self.bottom && self.left && self.right
    }

    /// Whether the surface is anchored to all four edges at once.
    pub fn has_all_edges(&self) -> (r: bool)
        ensures
            r == self.spec_has_all_edges(),
    {
        self.top && self.bottom && self.left && self.right
    }
}

/// The exclusive-zone request of a surface: a strip of output space it
/// reserves, no reservation, or indifference to other surfaces' zones.
#[derive(Clone, Copy, Debug, PartialEq, Eq, Structural)]
pub enum ExclusiveZone {
    /// The surface reserves the given width of pixels from the output.
    Exclusive(u32),
    /// The surface reserves nothing but respects other surfaces' zones.
    Neutral,
    /// The surface reserves nothing and ignores other surfaces' zones.
    DontCare,
}

impl ExclusiveZone {
    /// Whether the surface reserves space on the output.
    pub open spec fn spec_is_exclusive(&self) -> bool {
        self is Exclusive
    }
}

/// The stacking layer a surface was created on.
#[derive(Clone, Copy, Debug, PartialEq, Eq, Structural)]
pub enum Layer {
    Background,
    Bottom,
    Top,
    Overlay,
}

/// The keyboard-interactivity mode requested by a surface.
#[derive(Clone, Copy, Debug, PartialEq, Eq, Structural)]
pub enum KeyboardInteractivity {
    /// The surface never takes keyboard focus.
    NotInteractive,
    /// The surface may be given focus when mapped or clicked.
    OnDemand,
    /// The surface demands focus whenever it is visible.
    Exclusive,
}

/// A layer surface as this crate sees it: its identity plus a copy of its
/// protocol-visible state, refreshed with each event that carries it.
#[derive(Clone, Debug)]
pub struct LayerSurface {
    pub id: SurfaceId,
    pub attrs: LayerAttributes,
}

/// The protocol-visible state of a layer surface at the time of one event:
/// the fields the double-buffered protocol state holds for it.
#[derive(Clone, Debug)]
pub struct LayerAttributes {
    /// Namespace string supplied at creation, used for rule matching.
    pub namespace: String,
    /// Edges the surface is pinned to.
    pub anchor: Anchor,
    /// The exclusive-zone request.
    pub exclusive_zone: ExclusiveZone,
    /// The stacking layer.
    pub layer: Layer,
    /// The keyboard-interactivity mode.
    pub keyboard_interactivity: KeyboardInteractivity,
    /// The size most recently committed by the client.
    pub size: crate::geometry::Size,
}

impl LayerAttributes {
    /// A copy of this protocol state.
    pub fn duplicate(&self) -> (r: LayerAttributes)
        ensures
            r == *self,
    {
        LayerAttributes {
            namespace: self.namespace.clone(),
            anchor: self.anchor,
            exclusive_zone: self.exclusive_zone,
            layer: self.layer,
            keyboard_interactivity: self.keyboard_interactivity,
            size: self.size,
        }
    }
}

} // verus!
