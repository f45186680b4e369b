//! Configuration values consumed by this crate: per-kind transition timing,
//! shadow defaults, and the layer-rule set that styles individual surfaces.
//!
//! Fractional quantities (opacity, animation progress) are carried in
//! thousandths so that all bookkeeping stays in integers.

use vstd::prelude::*;

use crate::geometry::Point;

verus! {

/// An opacity or progress value in thousandths: 0 is fully transparent or
/// not started, 1000 is fully opaque or finished.
pub type Permille = u16;

/// An RGBA color with 8-bit channels.
#[derive(Clone, Copy, Debug, PartialEq, Eq, Structural)]
pub struct Color {
    pub r: u8,
    pub g: u8,
    pub b: u8,
    pub a: u8,
}

impl Color {
    /// Opaque black, the placeholder drawn for blocked-out content.
    pub fn black() -> (r: Color)
        ensures
            r == (Color { r: 0, g: 0, b: 0, a: 255 }),
    {
        Color { r: 0, g: 0, b: 0, a: 255 }
    }
}

/// Per-corner radii of a surface's rounded geometry, in logical pixels.
#[derive(Clone, Copy, Debug, PartialEq, Eq, Structural)]
pub struct CornerRadius {
    pub top_left: u32,
    pub top_right: u32,
    pub bottom_right: u32,
    pub bottom_left: u32,
}

impl CornerRadius {
    /// All-zero radii: square corners.
    pub fn zero() -> (r: CornerRadius)
        ensures
            r == (CornerRadius { top_left: 0, top_right: 0, bottom_right: 0, bottom_left: 0 }),
    {
        CornerRadius { top_left: 0, top_right: 0, bottom_right: 0, bottom_left: 0 }
    }
}

/// Which capture targets must see a placeholder instead of real content.
#[derive(Clone, Copy, Debug, PartialEq, Eq, Structural)]
pub enum BlockOutFrom {
    /// Block out only from screencast streams.
    Screencast,
    /// Block out from every kind of screen capture, screencasts included.
    ScreenCapture,
}

/// Timing of one open or close transition.
#[derive(Clone, Copy, Debug, PartialEq, Eq, Structural)]
pub struct AnimationParams {
    /// When set, the transition is disabled and completes immediately.
    pub off: bool,
    /// Length of the transition in milliseconds.
    pub duration_ms: u64,
}

/// The per-kind open/close timing configuration for layer surfaces.
#[derive(Clone, Copy, Debug, PartialEq, Eq, Structural)]
pub struct Animations {
    pub layer_bar_open: AnimationParams,
    pub layer_bar_close: AnimationParams,
    pub layer_wallpaper_open: AnimationParams,
    pub layer_wallpaper_close: AnimationParams,
    pub layer_launcher_open: AnimationParams,
    pub layer_launcher_close: AnimationParams,
}

/// Full shadow settings for one surface.
#[derive(Clone, Copy, Debug, PartialEq, Eq, Structural)]
pub struct ShadowConfig {
    /// Whether a shadow is drawn at all.
    pub on: bool,
    /// Blur softness in logical pixels.
    pub softness: u32,
    /// Growth of the shadow beyond the surface bounds, in logical pixels.
    pub spread: u32,
    /// Offset of the shadow from the surface.
    pub offset: Point,
    /// Shadow color.
    pub color: Color,
}

/// Partial shadow settings from a layer rule; `Some` fields override the
/// defaults they are merged onto.
#[derive(Clone, Copy, Debug, PartialEq, Eq, Structural)]
pub struct ShadowRule {
    pub on: Option<bool>,
    pub softness: Option<u32>,
    pub spread: Option<u32>,
    pub offset: Option<Point>,
    pub color: Option<Color>,
}

impl ShadowRule {
    /// A rule that overrides nothing.
    pub fn empty() -> (r: ShadowRule)
        ensures
            r == (ShadowRule {
                on: None,
                softness: None,
                spread: None,
                offset: None,
                color: None,
            }),
    {
        ShadowRule { on: None, softness: None, spread: None, offset: None, color: None }
    }

    /// The config that results from laying this rule over `base`.
    pub open spec fn spec_merged_onto(&self, base: ShadowConfig) -> ShadowConfig {
        ShadowConfig {
            on: if self.on is Some { self.on->0 } else { base.on },
            softness: if self.softness is Some { self.softness->0 } else { base.softness },
            spread: if self.spread is Some { self.spread->0 } else { base.spread },
            offset: if self.offset is Some { self.offset->0 } else { base.offset },
            color: if self.color is Some { self.color->0 } else { base.color },
        }
    }

    /// Lays this rule over `base`: fields the rule sets win, the rest keep
    /// their configured defaults.
    pub fn merged_onto(&self, base: ShadowConfig) -> (r: ShadowConfig)
        ensures
            r == self.spec_merged_onto(base),
    {
        ShadowConfig {
            on: match self.on {
                Some(v) => v,
                None => base.on,
            },
            softness: match self.softness {
                Some(v) => v,
                None => base.softness,
            },
            spread: match self.spread {
                Some(v) => v,
                None => base.spread,
            },
            offset: match self.offset {
                Some(v) => v,
                None => base.offset,
            },
            color: match self.color {
                Some(v) => v,
                None => base.color,
            },
        }
    }

    /// The rule that results from laying `over` on top of this rule.
    pub open spec fn spec_overridden_by(&self, over: ShadowRule) -> ShadowRule {
        ShadowRule {
            on: if over.on is Some { over.on } else { self.on },
            softness: if over.softness is Some { over.softness } else { self.softness },
            spread: if over.spread is Some { over.spread } else { self.spread },
            offset: if over.offset is Some { over.offset } else { self.offset },
            color: if over.color is Some { over.color } else { self.color },
        }
    }

    /// Lays `over` on top of this rule, field by field.
    pub fn overridden_by(&self, over: &ShadowRule) -> (r: ShadowRule)
        ensures
            r == self.spec_overridden_by(*over),
    {
        ShadowRule {
            on: if over.on.is_some() { over.on } else { self.on },
            softness: if over.softness.is_some() { over.softness } else { self.softness },
            spread: if over.spread.is_some() { over.spread } else { self.spread },
            offset: if over.offset.is_some() { over.offset } else { self.offset },
            color: if over.color.is_some() { over.color } else { self.color },
        }
    }
}

/// One match clause of a layer rule. A clause with no fields set matches
/// every surface.
#[derive(Clone, Debug)]
pub struct RuleMatch {
    /// When set, the surface's namespace must equal this string.
    pub namespace: Option<String>,
    /// When set, whether the surface appeared during compositor startup must
    /// equal this flag.
    pub at_startup: Option<bool>,
}

/// One styling rule for layer surfaces.
#[derive(Clone, Debug)]
pub struct LayerRule {
    /// The rule applies if any clause here matches, or if the list is empty.
    pub matches: Vec<RuleMatch>,
    /// The rule never applies if any clause here matches.
    pub excludes: Vec<RuleMatch>,
    /// Override of the surface's opacity, in thousandths.
    pub opacity: Option<Permille>,
    /// Override of the capture targets the surface is blocked out from.
    pub block_out_from: Option<BlockOutFrom>,
    /// Override of the corner radii of the surface geometry.
    pub geometry_corner_radius: Option<CornerRadius>,
    /// When set, the surface is placed inside the backdrop.
    pub place_within_backdrop: bool,
    /// When set, the surface bobs up and down while mapped.
    pub baba_is_float: bool,
    /// Shadow overrides.
    pub shadow: ShadowRule,
}

/// Everything this crate reads from the configuration.
#[derive(Clone, Debug)]
pub struct Config {
    /// Transition timing per surface kind.
    pub animations: Animations,
    /// Default shadow settings for the whole layout.
    pub layout_shadow: ShadowConfig,
    /// Styling rules applied to layer surfaces in order.
    pub layer_rules: Vec<LayerRule>,
}

} // verus!
