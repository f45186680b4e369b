//! The shader program registry.
//!
//! One registry exists per rendering context. It is initialized exactly once
//! (compiling the built-in programs), resolves a requested purpose to a
//! concrete program through a fallback chain, and supports safe runtime
//! replacement of user-supplied override programs: the new source is
//! compiled first and, only on success, swapped in while the superseded
//! program object is destroyed exactly once. An open-ended cache of user
//! color-filter programs keyed by source string is maintained by a
//! diff/compile/commit protocol that never recompiles an unchanged source.

use vstd::prelude::*;

use crate::programs::{ProgramId, ProgramStore};

verus! {

/// The purpose a shader program serves; what the renderer asks for.
#[derive(Clone, Copy, Debug, PartialEq, Eq, Structural)]
pub enum ProgramType {
    Border,
    Shadow,
    WindowResize,
    WindowClose,
    WindowOpen,
    LayerClose,
    LayerOpen,
    LayerBarClose,
    LayerBarOpen,
    LayerWallpaperClose,
    LayerWallpaperOpen,
    LayerLauncherClose,
    LayerLauncherOpen,
}

/// One entry of the color-filter cache: a user-supplied source string and
/// the program compiled from it.
#[derive(Debug)]
pub struct ColorFilterEntry {
    pub source: String,
    pub program: ProgramId,
}

/// The compiled programs of one rendering context: built-ins compiled at
/// initialization, optional user overrides per purpose, and the keyed
/// color-filter cache.
#[derive(Debug)]
pub struct Shaders {
    pub border: Option<ProgramId>,
    pub shadow: Option<ProgramId>,
    pub clipped_surface: Option<ProgramId>,
    pub resize: Option<ProgramId>,
    pub gradient_fade: Option<ProgramId>,
    pub custom_window_resize: Option<ProgramId>,
    pub custom_window_close: Option<ProgramId>,
    pub custom_window_open: Option<ProgramId>,
    pub custom_layer_close: Option<ProgramId>,
    pub custom_layer_open: Option<ProgramId>,
    pub custom_layer_bar_close: Option<ProgramId>,
    pub custom_layer_bar_open: Option<ProgramId>,
    pub custom_layer_wallpaper_close: Option<ProgramId>,
    pub custom_layer_wallpaper_open: Option<ProgramId>,
    pub custom_layer_launcher_close: Option<ProgramId>,
    pub custom_layer_launcher_open: Option<ProgramId>,
    pub color_filter: Vec<ColorFilterEntry>,
}

impl Shaders {
    /// The fixed program slots, indexed so that well-formedness can be
    /// stated uniformly. Indices 0 to 4 are the built-ins, 5 to 15 the
    /// custom override slots.
    pub open spec fn spec_slot(&self, i: int) -> Option<ProgramId> {
        if i == 0 {
            self.border
        } else if i == 1 {
            self.shadow
        } else if i == 2 {
            self.clipped_surface
        } else if i == 3 {
            self.resize
        } else if i == 4 {
            self.gradient_fade
        } else if i == 5 {
            self.custom_window_resize
        } else if i == 6 {
            self.custom_window_close
        } else if i == 7 {
            self.custom_window_open
        } else if i == 8 {
            self.custom_layer_close
        } else if i == 9 {
            self.custom_layer_open
        } else if i == 10 {
            self.custom_layer_bar_close
        } else if i == 11 {
            self.custom_layer_bar_open
        } else if i == 12 {
            self.custom_layer_wallpaper_close
        } else if i == 13 {
            self.custom_layer_wallpaper_open
        } else if i == 14 {
            self.custom_layer_launcher_close
        } else {
            self.custom_layer_launcher_open
        }
    }

    /// Every program the registry holds is alive in the store, and no two
    /// registry positions hold the same program object; cache keys are
    /// distinct as well.
    pub open spec fn wf_in(&self, store: ProgramStore) -> bool {
        &&& forall|i: int|
            0 <= i < 16 && (#[trigger] self.spec_slot(i)) is Some ==> store.spec_is_live(
                self.spec_slot(i)->0,
            )
        &&& forall|i: int, j: int|
            0 <= i < j < 16 && (#[trigger] self.spec_slot(i)) is Some && (#[trigger] self.spec_slot(
                j,
            )) is Some ==> self.spec_slot(i)->0 != self.spec_slot(j)->0
        &&& forall|k: int|
            0 <= k < self.color_filter@.len() ==> store.spec_is_live(
                (#[trigger] self.color_filter@[k]).program,
            )
        &&& forall|k: int, l: int|
            0 <= k < l < self.color_filter@.len() ==> (#[trigger] self.color_filter@[k]).program
                != (#[trigger] self.color_filter@[l]).program
        &&& forall|k: int, l: int|
            0 <= k < l < self.color_filter@.len() ==> (#[trigger] self.color_filter@[k]).source@
                != (#[trigger] self.color_filter@[l]).source@
        &&& forall|i: int, k: int|
            0 <= i < 16 && 0 <= k < self.color_filter@.len() && (#[trigger] self.spec_slot(
                i,
            )) is Some ==> self.spec_slot(i)->0 != (#[trigger] self.color_filter@[k]).program
    }

    /// Both registries hold the same programs everywhere except fixed slot
    /// `c`; the cache is untouched.
    pub open spec fn spec_same_except(&self, other: Shaders, c: int) -> bool {
        &&& forall|i: int| 0 <= i < 16 && i != c ==> self.spec_slot(i) == other.spec_slot(i)
        &&& self.color_filter@ == other.color_filter@
    }

    /// The program that purpose `pt` resolves to: the purpose-and-kind
    /// custom override first, then the more generic custom override, then
    /// the built-in, then none.
    pub open spec fn spec_program(&self, pt: ProgramType) -> Option<ProgramId> {
        match pt {
            ProgramType::Border => self.border,
            ProgramType::Shadow => self.shadow,
            ProgramType::WindowResize => if self.custom_window_resize is Some {
                self.custom_window_resize
            } else {
                self.resize
            },
            ProgramType::WindowClose => self.custom_window_close,
            ProgramType::WindowOpen => self.custom_window_open,
            ProgramType::LayerClose => self.custom_layer_close,
            ProgramType::LayerOpen => self.custom_layer_open,
            ProgramType::LayerBarClose => if self.custom_layer_bar_close is Some {
                self.custom_layer_bar_close
            } else {
                self.custom_layer_close
            },
            ProgramType::LayerBarOpen => if self.custom_layer_bar_open is Some {
                self.custom_layer_bar_open
            } else {
                self.custom_layer_open
            },
            ProgramType::LayerWallpaperClose => if self.custom_layer_wallpaper_close is Some {
                self.custom_layer_wallpaper_close
            } else {
                self.custom_layer_close
            },
            ProgramType::LayerWallpaperOpen => if self.custom_layer_wallpaper_open is Some {
                self.custom_layer_wallpaper_open
            } else {
                self.custom_layer_open
            },
            ProgramType::LayerLauncherClose => if self.custom_layer_launcher_close is Some {
                self.custom_layer_launcher_close
            } else {
                self.custom_layer_close
            },
            ProgramType::LayerLauncherOpen => if self.custom_layer_launcher_open is Some {
                self.custom_layer_launcher_open
            } else {
                self.custom_layer_open
            },
        }
    }

    /// Resolves purpose `program` to a concrete program handle through the
    /// fallback chain, or `None` when neither an override nor a built-in
    /// serves it.
    pub fn program(&self, program: ProgramType) -> (r: Option<ProgramId>)
        ensures
            r == self.spec_program(program),
    {
        match program {
            ProgramType::Border => self.border,
            ProgramType::Shadow => self.shadow,
            ProgramType::WindowResize => match self.custom_window_resize {
                Some(p) => Some(p),
                None => self.resize,
            },
            ProgramType::WindowClose => self.custom_window_close,
            ProgramType::WindowOpen => self.custom_window_open,
            ProgramType::LayerClose => self.custom_layer_close,
            ProgramType::LayerOpen => self.custom_layer_open,
            ProgramType::LayerBarClose => match self.custom_layer_bar_close {
                Some(p) => Some(p),
                None => self.custom_layer_close,
            },
            ProgramType::LayerBarOpen => match self.custom_layer_bar_open {
                Some(p) => Some(p),
                None => self.custom_layer_open,
            },
            ProgramType::LayerWallpaperClose => match self.custom_layer_wallpaper_close {
                Some(p) => Some(p),
                None => self.custom_layer_close,
            },
            ProgramType::LayerWallpaperOpen => match self.custom_layer_wallpaper_open {
                Some(p) => Some(p),
                None => self.custom_layer_open,
            },
            ProgramType::LayerLauncherClose => match self.custom_layer_launcher_close {
                Some(p) => Some(p),
                None => self.custom_layer_close,
            },
            ProgramType::LayerLauncherOpen => match self.custom_layer_launcher_open {
                Some(p) => Some(p),
                None => self.custom_layer_open,
            },
        }
    }

    /// Swaps the custom window-resize override, returning the superseded
    /// program. The caller owns the superseded object.
    pub fn replace_custom_window_resize_program(&mut self, program: Option<ProgramId>) -> (prev:
        Option<ProgramId>)
        ensures
            prev == old(self).custom_window_resize,
            final(self).custom_window_resize == program,
            final(self).spec_same_except(*old(self), 5),
    {
        let prev = self.custom_window_resize;
        self.custom_window_resize = program;
        prev
    }

    /// Swaps the custom window-close override, returning the superseded
    /// program.
    pub fn replace_custom_window_close_program(&mut self, program: Option<ProgramId>) -> (prev:
        Option<ProgramId>)
        ensures
            prev == old(self).custom_window_close,
            final(self).custom_window_close == program,
            final(self).spec_same_except(*old(self), 6),
    {
        let prev = self.custom_window_close;
        self.custom_window_close = program;
        prev
    }

    /// Swaps the custom window-open override, returning the superseded
    /// program.
    pub fn replace_custom_window_open_program(&mut self, program: Option<ProgramId>) -> (prev:
        Option<ProgramId>)
        ensures
            prev == old(self).custom_window_open,
            final(self).custom_window_open == program,
            final(self).spec_same_except(*old(self), 7),
    {
        let prev = self.custom_window_open;
        self.custom_window_open = program;
        prev
    }

    /// Swaps the custom generic layer-close override, returning the
    /// superseded program.
    pub fn replace_custom_layer_close_program(&mut self, program: Option<ProgramId>) -> (prev:
        Option<ProgramId>)
        ensures
            prev == old(self).custom_layer_close,
            final(self).custom_layer_close == program,
            final(self).spec_same_except(*old(self), 8),
    {
        let prev = self.custom_layer_close;
        self.custom_layer_close = program;
        prev
    }

    /// Swaps the custom generic layer-open override, returning the
    /// superseded program.
    pub fn replace_custom_layer_open_program(&mut self, program: Option<ProgramId>) -> (prev:
        Option<ProgramId>)
        ensures
            prev == old(self).custom_layer_open,
            final(self).custom_layer_open == program,
            final(self).spec_same_except(*old(self), 9),
    {
        let prev = self.custom_layer_open;
        self.custom_layer_open = program;
        prev
    }

    /// Swaps the custom bar-close override, returning the superseded
    /// program.
    pub fn replace_custom_layer_bar_close_program(&mut self, program: Option<ProgramId>) -> (prev:
        Option<ProgramId>)
        ensures
            prev == old(self).custom_layer_bar_close,
            final(self).custom_layer_bar_close == program,
            final(self).spec_same_except(*old(self), 10),
    {
        let prev = self.custom_layer_bar_close;
        self.custom_layer_bar_close = program;
        prev
    }

    /// Swaps the custom bar-open override, returning the superseded program.
    pub fn replace_custom_layer_bar_open_program(&mut self, program: Option<ProgramId>) -> (prev:
        Option<ProgramId>)
        ensures
            prev == old(self).custom_layer_bar_open,
            final(self).custom_layer_bar_open == program,
            final(self).spec_same_except(*old(self), 11),
    {
        let prev = self.custom_layer_bar_open;
        self.custom_layer_bar_open = program;
        prev
    }

    /// Swaps the custom wallpaper-close override, returning the superseded
    /// program.
    pub fn replace_custom_layer_wallpaper_close_program(
        &mut self,
        program: Option<ProgramId>,
    ) -> (prev: Option<ProgramId>)
        ensures
            prev == old(self).custom_layer_wallpaper_close,
            final(self).custom_layer_wallpaper_close == program,
            final(self).spec_same_except(*old(self), 12),
    {
        let prev = self.custom_layer_wallpaper_close;
        self.custom_layer_wallpaper_close = program;
        prev
    }

    /// Swaps the custom wallpaper-open override, returning the superseded
    /// program.
    pub fn replace_custom_layer_wallpaper_open_program(
        &mut self,
        program: Option<ProgramId>,
    ) -> (prev: Option<ProgramId>)
        ensures
            prev == old(self).custom_layer_wallpaper_open,
            final(self).custom_layer_wallpaper_open == program,
            final(self).spec_same_except(*old(self), 13),
    {
        let prev = self.custom_layer_wallpaper_open;
        self.custom_layer_wallpaper_open = program;
        prev
    }

    /// Swaps the custom launcher-close override, returning the superseded
    /// program.
    pub fn replace_custom_layer_launcher_close_program(
        &mut self,
        program: Option<ProgramId>,
    ) -> (prev: Option<ProgramId>)
        ensures
            prev == old(self).custom_layer_launcher_close,
            final(self).custom_layer_launcher_close == program,
            final(self).spec_same_except(*old(self), 14),
    {
        let prev = self.custom_layer_launcher_close;
        self.custom_layer_launcher_close = program;
        prev
    }

    /// Swaps the custom launcher-open override, returning the superseded
    /// program.
    pub fn replace_custom_layer_launcher_open_program(
        &mut self,
        program: Option<ProgramId>,
    ) -> (prev: Option<ProgramId>)
        ensures
            prev == old(self).custom_layer_launcher_open,
            final(self).custom_layer_launcher_open == program,
            final(self).spec_same_except(*old(self), 15),
    {
        let prev = self.custom_layer_launcher_open;
        self.custom_layer_launcher_open = program;
        prev
    }

    /// Compiles the built-in programs into a fresh registry: every built-in
    /// slot filled, every custom slot empty, the cache empty.
    fn compile(store: &mut ProgramStore) -> (r: Shaders)
        requires
            old(store).wf(),
            old(store).spec_next_id() + 5 <= u64::MAX,
        ensures
            final(store).wf(),
            r.wf_in(*final(store)),
            r.border is Some,
            r.shadow is Some,
            r.clipped_surface is Some,
            r.resize is Some,
            r.gradient_fade is Some,
            forall|i: int| 5 <= i < 16 ==> r.spec_slot(i) is None,
            r.color_filter@.len() == 0,
            final(store).spec_destroyed_count() == old(store).spec_destroyed_count(),
            final(store).spec_next_id() == old(store).spec_next_id() + 5,
            forall|p: ProgramId|
                old(store).spec_is_live(p) ==> final(store).spec_is_live(p),
    {
        let border = store.compile("builtin border fragment");
        let shadow = store.compile("builtin shadow fragment");
        let clipped_surface = store.compile("builtin clipped-surface fragment");
        let resize = store.compile("builtin resize fragment");
        let gradient_fade = store.compile("builtin gradient-fade fragment");
        Shaders {
            border: Some(border),
            shadow: Some(shadow),
            clipped_surface: Some(clipped_surface),
            resize: Some(resize),
            gradient_fade: Some(gradient_fade),
            custom_window_resize: None,
            custom_window_close: None,
            custom_window_open: None,
            custom_layer_close: None,
            custom_layer_open: None,
            custom_layer_bar_close: None,
            custom_layer_bar_open: None,
            custom_layer_wallpaper_close: None,
            custom_layer_wallpaper_open: None,
            custom_layer_launcher_close: None,
            custom_layer_launcher_open: None,
            color_filter: Vec::new(),
        }
    }

    /// The registry of the context; initialization must have happened.
    pub fn get(ctx: &RenderContext) -> (r: &Shaders)
        requires
            ctx.shaders_initialized,
        ensures
            *r == ctx.shaders,
    {
        &ctx.shaders
    }

    /// The registry as seen from within a frame render; the same context
    /// serves rendering and frame composition here.
    pub fn get_from_frame(ctx: &RenderContext) -> (r: &Shaders)
        requires
            ctx.shaders_initialized,
        ensures
            *r == ctx.shaders,
    {
        &ctx.shaders
    }

    /// The registry of the context, or `None` before initialization: the
    /// recoverable form of [`Shaders::get`].
    pub fn try_get(ctx: &RenderContext) -> (r: Option<&Shaders>)
        ensures
            ctx.shaders_initialized ==> (r matches Some(s) && *s == ctx.shaders),
            !ctx.shaders_initialized ==> r is None,
    {
        if ctx.shaders_initialized {
            Some(&ctx.shaders)
        } else {
            None
        }
    }
}

/// One rendering context: the driver-side program store and the registry
/// slot that [`init`] fills exactly once.
#[derive(Debug)]
pub struct RenderContext {
    /// Lifetimes of the driver's program objects.
    pub store: ProgramStore,
    /// The registry; meaningful only once `shaders_initialized` is set.
    pub shaders: Shaders,
    /// Whether [`init`] has run on this context.
    pub shaders_initialized: bool,
}

impl RenderContext {
    /// The store is consistent and, once initialized, the registry holds
    /// only live, pairwise-distinct programs.
    pub open spec fn wf(&self) -> bool {
        &&& self.store.wf()
        &&& self.shaders_initialized ==> self.shaders.wf_in(self.store)
    }

    /// A fresh context: no programs, registry not yet initialized.
    pub fn new() -> (r: RenderContext)
        ensures
            r.wf(),
            !r.shaders_initialized,
            r.store.spec_destroyed_count() == 0,
            r.store.spec_live_count() == 0,
            r.store.spec_next_id() == 0,
    {
        RenderContext {
            store: ProgramStore::new(),
            shaders: Shaders {
                border: None,
                shadow: None,
                clipped_surface: None,
                resize: None,
                gradient_fade: None,
                custom_window_resize: None,
                custom_window_close: None,
                custom_window_open: None,
                custom_layer_close: None,
                custom_layer_open: None,
                custom_layer_bar_close: None,
                custom_layer_bar_open: None,
                custom_layer_wallpaper_close: None,
                custom_layer_wallpaper_open: None,
                custom_layer_launcher_close: None,
                custom_layer_launcher_open: None,
                color_filter: Vec::new(),
            },
            shaders_initialized: false,
        }
    }
}

/// Initializes the registry of the context, compiling all built-in
/// programs. Initialization happens exactly once: a second call changes
/// nothing and returns `false`, which callers report as a fault.
pub fn init(ctx: &mut RenderContext) -> (fresh: bool)
    requires
        old(ctx).wf(),
        old(ctx).store.spec_next_id() + 5 <= u64::MAX,
    ensures
        final(ctx).wf(),
        final(ctx).shaders_initialized,
        old(ctx).shaders_initialized ==> *final(ctx) == *old(ctx) && fresh == false,
        !old(ctx).shaders_initialized ==> {
            &&& fresh == true
            &&& final(ctx).shaders.border is Some
            &&& final(ctx).shaders.shadow is Some
            &&& final(ctx).shaders.clipped_surface is Some
            &&& final(ctx).shaders.resize is Some
            &&& final(ctx).shaders.gradient_fade is Some
            &&& forall|i: int| 5 <= i < 16 ==> final(ctx).shaders.spec_slot(i) is None
            &&& final(ctx).shaders.color_filter@.len() == 0
            &&& final(ctx).store.spec_destroyed_count() == old(ctx).store.spec_destroyed_count()
            &&& forall|p: ProgramId|
                old(ctx).store.spec_is_live(p) ==> final(ctx).store.spec_is_live(p)
        },
{
    if ctx.shaders_initialized {
        return false;
    }
    ctx.shaders = Shaders::compile(&mut ctx.store);
    ctx.shaders_initialized = true;
    true
}

/// The program cached for `source`, searching the entries in order.
pub open spec fn spec_cache_lookup(entries: Seq<ColorFilterEntry>, source: Seq<char>) -> Option<
    ProgramId,
>
    decreases entries.len(),
{
    if entries.len() == 0 {
        None
    } else if entries[0].source@ == source {
        Some(entries[0].program)
    } else {
        spec_cache_lookup(entries.drop_first(), source)
    }
}

/// Whether some string of `sources` reads `s`.
pub open spec fn spec_contains_source(sources: Seq<String>, s: Seq<char>) -> bool {
    exists|i: int| 0 <= i < sources.len() && sources[i]@ == s
}

/// A cache lookup succeeds exactly when some entry holds the source, and
/// then returns the program of such an entry.
proof fn lemma_cache_lookup_exists(entries: Seq<ColorFilterEntry>, s: Seq<char>)
    ensures
        (spec_cache_lookup(entries, s) is Some) <==> (exists|k: int|
            0 <= k < entries.len() && entries[k].source@ == s),
        spec_cache_lookup(entries, s) matches Some(p) ==> exists|k: int|
            0 <= k < entries.len() && entries[k].source@ == s && entries[k].program == p,
    decreases entries.len(),
{
    if entries.len() == 0 {
    } else if entries[0].source@ == s {
    } else {
        lemma_cache_lookup_exists(entries.drop_first(), s);
        let rest = entries.drop_first();
        if spec_cache_lookup(entries, s) is Some {
            let k = choose|k: int| 0 <= k < rest.len() && rest[k].source@ == s;
            assert(entries[k + 1].source@ == s);
            let p = spec_cache_lookup(entries, s)->0;
            let k2 = choose|k2: int|
                0 <= k2 < rest.len() && rest[k2].source@ == s && rest[k2].program == p;
            assert(entries[k2 + 1].source@ == s && entries[k2 + 1].program == p);
        }
        if exists|k: int| 0 <= k < entries.len() && entries[k].source@ == s {
            let k = choose|k: int| 0 <= k < entries.len() && entries[k].source@ == s;
            assert(k != 0);
            assert(rest[k - 1].source@ == s);
        }
    }
}

/// With pairwise-distinct sources, the entry holding `s` determines the
/// lookup result.
proof fn lemma_cache_lookup_at(entries: Seq<ColorFilterEntry>, s: Seq<char>, k: int)
    requires
        0 <= k < entries.len(),
        entries[k].source@ == s,
        forall|a: int, b: int|
            0 <= a < b < entries.len() ==> (#[trigger] entries[a]).source@ != (
            #[trigger] entries[b]).source@,
    ensures
        spec_cache_lookup(entries, s) == Some(entries[k].program),
    decreases entries.len(),
{
    if k == 0 {
    } else {
        assert(entries[0].source@ != s);
        let rest = entries.drop_first();
        assert(rest[k - 1] == entries[k]);
        lemma_cache_lookup_at(rest, s, k - 1);
    }
}

/// Whether some string of `sources` reads like `s`.
fn contains_source(sources: &Vec<String>, s: &String) -> (r: bool)
    ensures
        r == spec_contains_source(sources@, s@),
{
    let mut i: usize = 0;
    while i < sources.len()
        invariant
            0 <= i <= sources.len(),
            forall|j: int| 0 <= j < i ==> (#[trigger] sources@[j])@ != s@,
        decreases sources.len() - i,
    {
        if sources[i] == *s {
            return true;
        }
        i += 1;
    }
    false
}

/// The position of the first entry holding `source`, which is the entry a
/// cache lookup answers from.
fn lookup_entry(entries: &Vec<ColorFilterEntry>, source: &String) -> (r: Option<usize>)
    ensures
        r is None ==> spec_cache_lookup(entries@, source@) is None,
        r matches Some(k) ==> k < entries@.len() && entries@[k as int].source@ == source@
            && spec_cache_lookup(entries@, source@) == Some(entries@[k as int].program),
{
    let mut i: usize = 0;
    proof {
        assert(entries@.skip(0) =~= entries@);
    }
    while i < entries.len()
        invariant
            0 <= i <= entries.len(),
            spec_cache_lookup(entries@, source@) == spec_cache_lookup(
                entries@.skip(i as int),
                source@,
            ),
            forall|j: int| 0 <= j < i ==> (#[trigger] entries@[j]).source@ != source@,
        decreases entries.len() - i,
    {
        proof {
            assert(entries@.skip(i as int)[0] == entries@[i as int]);
        }
        if entries[i].source == *source {
            return Some(i);
        }
        proof {
            assert(entries@.skip(i as int).drop_first() =~= entries@.skip(i + 1));
        }
        i += 1;
    }
    None
}

impl ColorFilterEntry {
    /// A copy of the entry; the program handle refers to the same object.
    fn duplicate(&self) -> (r: ColorFilterEntry)
        ensures
            r == *self,
    {
        ColorFilterEntry { source: self.source.clone(), program: self.program }
    }
}

impl Shaders {
    /// The color-filter program cached for `source`, if any.
    pub fn color_filter_program(&self, source: &String) -> (r: Option<ProgramId>)
        ensures
            r == spec_cache_lookup(self.color_filter@, source@),
    {
        match lookup_entry(&self.color_filter, source) {
            Some(k) => Some(self.color_filter[k].program),
            None => None,
        }
    }
}

/// The custom override slots, named for the shared install path.
#[derive(Clone, Copy, Debug, PartialEq, Eq, Structural)]
enum CustomSlot {
    WindowResize,
    WindowClose,
    WindowOpen,
    LayerClose,
    LayerOpen,
    LayerBarClose,
    LayerBarOpen,
    LayerWallpaperClose,
    LayerWallpaperOpen,
    LayerLauncherClose,
    LayerLauncherOpen,
}

/// The fixed-slot index of a custom override slot.
spec fn custom_slot_index(slot: CustomSlot) -> int {
    match slot {
        CustomSlot::WindowResize => 5,
        CustomSlot::WindowClose => 6,
        CustomSlot::WindowOpen => 7,
        CustomSlot::LayerClose => 8,
        CustomSlot::LayerOpen => 9,
        CustomSlot::LayerBarClose => 10,
        CustomSlot::LayerBarOpen => 11,
        CustomSlot::LayerWallpaperClose => 12,
        CustomSlot::LayerWallpaperOpen => 13,
        CustomSlot::LayerLauncherClose => 14,
        CustomSlot::LayerLauncherOpen => 15,
    }
}

/// Swaps the named custom slot, returning the superseded program.
fn replace_custom_slot(shaders: &mut Shaders, slot: CustomSlot, program: Option<ProgramId>) -> (
    prev: Option<ProgramId>)
    ensures
        prev == old(shaders).spec_slot(custom_slot_index(slot)),
        final(shaders).spec_slot(custom_slot_index(slot)) == program,
        final(shaders).spec_same_except(*old(shaders), custom_slot_index(slot)),
{
    match slot {
        CustomSlot::WindowResize => shaders.replace_custom_window_resize_program(program),
        CustomSlot::WindowClose => shaders.replace_custom_window_close_program(program),
        CustomSlot::WindowOpen => shaders.replace_custom_window_open_program(program),
        CustomSlot::LayerClose => shaders.replace_custom_layer_close_program(program),
        CustomSlot::LayerOpen => shaders.replace_custom_layer_open_program(program),
        CustomSlot::LayerBarClose => shaders.replace_custom_layer_bar_close_program(program),
        CustomSlot::LayerBarOpen => shaders.replace_custom_layer_bar_open_program(program),
        CustomSlot::LayerWallpaperClose => shaders.replace_custom_layer_wallpaper_close_program(
            program,
        ),
        CustomSlot::LayerWallpaperOpen => shaders.replace_custom_layer_wallpaper_open_program(
            program,
        ),
        CustomSlot::LayerLauncherClose => shaders.replace_custom_layer_launcher_close_program(
            program,
        ),
        CustomSlot::LayerLauncherOpen => shaders.replace_custom_layer_launcher_open_program(
            program,
        ),
    }
}

/// How a user-supplied source is wrapped before compilation.
#[derive(Clone, Copy, Debug, PartialEq, Eq, Structural)]
enum WrapKind {
    Resize,
    Close,
    Open,
}

/// Compiles a user source wrapped with the fixed boilerplate of its kind,
/// which supplies the transition inputs the source may reference.
fn compile_wrapped_program(store: &mut ProgramStore, kind: WrapKind, src: &str) -> (r: ProgramId)
    requires
        old(store).wf(),
        old(store).spec_next_id() < u64::MAX,
    ensures
        final(store).wf(),
        r.0 == old(store).spec_next_id(),
        !old(store).spec_is_live(r),
        final(store).spec_is_live(r),
        final(store).spec_next_id() == old(store).spec_next_id() + 1,
        final(store).spec_destroyed_count() == old(store).spec_destroyed_count(),
        forall|other: ProgramId|
            other != r ==> final(store).spec_is_live(other) == old(store).spec_is_live(other),
{
    let mut full = match kind {
        WrapKind::Resize => String::from_str("// resize transition prelude\n"),
        WrapKind::Close => String::from_str("// close transition prelude\n"),
        WrapKind::Open => String::from_str("// open transition prelude\n"),
    };
    full.append(src);
    match kind {
        WrapKind::Resize => full.append("\n// resize transition epilogue\n"),
        WrapKind::Close => full.append("\n// close transition epilogue\n"),
        WrapKind::Open => full.append("\n// open transition epilogue\n"),
    }
    store.compile(full.as_str())
}

/// Compiles `src` wrapped as `kind` when present, and installs the outcome
/// in `slot`: the superseded program, and nothing else, is destroyed.
fn set_custom_program(ctx: &mut RenderContext, slot: CustomSlot, kind: WrapKind, src: Option<&str>)
    requires
        old(ctx).wf(),
        old(ctx).shaders_initialized,
        old(ctx).store.spec_next_id() < u64::MAX,
    ensures
        final(ctx).wf(),
        final(ctx).shaders_initialized,
        src is Some ==> (final(ctx).shaders.spec_slot(custom_slot_index(slot)) matches Some(p)
            && final(ctx).store.spec_is_live(p) && !old(ctx).store.spec_is_live(p)),
        src is None ==> final(ctx).shaders.spec_slot(custom_slot_index(slot)) is None,
        final(ctx).shaders.spec_same_except(old(ctx).shaders, custom_slot_index(slot)),
        old(ctx).shaders.spec_slot(custom_slot_index(slot)) matches Some(prev)
            ==> !final(ctx).store.spec_is_live(prev)
                && final(ctx).store.spec_destroyed_count()
                    == old(ctx).store.spec_destroyed_count() + 1,
        old(ctx).shaders.spec_slot(custom_slot_index(slot)) is None
            ==> final(ctx).store.spec_destroyed_count() == old(ctx).store.spec_destroyed_count(),
        forall|p: ProgramId|
            old(ctx).store.spec_is_live(p) && old(ctx).shaders.spec_slot(custom_slot_index(slot))
                != Some(p) ==> final(ctx).store.spec_is_live(p),
{
    let ghost c = custom_slot_index(slot);
    let program = match src {
        Some(s) => {
            let id = compile_wrapped_program(&mut ctx.store, kind, s);
            proof {
                assert forall|i: int| 0 <= i < 16 && old(ctx).shaders.spec_slot(i) is Some
                    implies old(ctx).shaders.spec_slot(i)->0 != id by {
                    old(ctx).store.lemma_live_bound(old(ctx).shaders.spec_slot(i)->0);
                }
                assert forall|k: int| 0 <= k < old(ctx).shaders.color_filter@.len()
                    implies old(ctx).shaders.color_filter@[k].program != id by {
                    old(ctx).store.lemma_live_bound(old(ctx).shaders.color_filter@[k].program);
                }
            }
            Some(id)
        },
        None => None,
    };
    let prev = replace_custom_slot(&mut ctx.shaders, slot, program);
    match prev {
        Some(p) => {
            proof {
                assert(old(ctx).shaders.spec_slot(c) == Some(p));
                assert(ctx.store.spec_is_live(p));
            }
            ctx.store.destroy(p);
        },
        None => {},
    }
    proof {
        assert forall|i: int|
            0 <= i < 16 && ctx.shaders.spec_slot(i) is Some implies ctx.store.spec_is_live(
            ctx.shaders.spec_slot(i)->0,
        ) by {
            if i != c {
                assert(ctx.shaders.spec_slot(i) == old(ctx).shaders.spec_slot(i));
            }
        }
        assert forall|k: int|
            0 <= k < ctx.shaders.color_filter@.len() implies ctx.store.spec_is_live(
            ctx.shaders.color_filter@[k].program,
        ) by {
            assert(ctx.shaders.color_filter@[k] == old(ctx).shaders.color_filter@[k]);
        }
    }
}

/// Brings the color-filter cache in line with `sources`: sources already
/// cached keep their compiled program untouched, sources not yet cached are
/// compiled, and cached entries whose source is no longer requested are
/// evicted with their program destroyed. The work is split into a read-only
/// diff, compilation of only the missing sources, and a commit, so that no
/// redundant compilation happens and no compilation runs during the commit.
pub fn set_color_filter_programs(ctx: &mut RenderContext, sources: &Vec<String>)
    requires
        old(ctx).wf(),
        old(ctx).shaders_initialized,
        old(ctx).store.spec_next_id() + sources@.len() <= u64::MAX,
    ensures
        final(ctx).wf(),
        final(ctx).shaders_initialized,
        forall|i: int|
            0 <= i < 16 ==> final(ctx).shaders.spec_slot(i) == old(ctx).shaders.spec_slot(i),
        // the cache answers exactly the requested sources
        forall|s: Seq<char>|
            #![trigger spec_cache_lookup(final(ctx).shaders.color_filter@, s)]
            (spec_cache_lookup(final(ctx).shaders.color_filter@, s) is Some) == spec_contains_source(
                sources@,
                s,
            ),
        // a source that was already cached keeps its compiled object
        forall|s: Seq<char>|
            #![trigger spec_cache_lookup(old(ctx).shaders.color_filter@, s)]
            spec_contains_source(sources@, s) && spec_cache_lookup(
                old(ctx).shaders.color_filter@,
                s,
            ) is Some ==> spec_cache_lookup(final(ctx).shaders.color_filter@, s)
                == spec_cache_lookup(old(ctx).shaders.color_filter@, s),
        // a source not yet cached gets a freshly compiled program
        forall|s: Seq<char>|
            #![trigger spec_cache_lookup(final(ctx).shaders.color_filter@, s)]
            spec_contains_source(sources@, s) && spec_cache_lookup(
                old(ctx).shaders.color_filter@,
                s,
            ) is None ==> !old(ctx).store.spec_is_live(
                spec_cache_lookup(final(ctx).shaders.color_filter@, s)->0,
            ),
        // evicted entries are destroyed ...
        forall|k: int|
            0 <= k < old(ctx).shaders.color_filter@.len() && !spec_contains_source(
                sources@,
                (#[trigger] old(ctx).shaders.color_filter@[k]).source@,
            ) ==> !final(ctx).store.spec_is_live(old(ctx).shaders.color_filter@[k].program),
        // ... and no other live program object is touched
        forall|p: ProgramId|
            old(ctx).store.spec_is_live(p) && !(exists|k: int|
                0 <= k < old(ctx).shaders.color_filter@.len() && (#[trigger] old(ctx).shaders.color_filter@[k]).program == p && !spec_contains_source(
                    sources@,
                    old(ctx).shaders.color_filter@[k].source@,
                )) ==> final(ctx).store.spec_is_live(p),
{
    let ghost orig = old(ctx).shaders.color_filter@;
    let ghost store0 = old(ctx).store;

    // Read-only diff: collect the requested sources that are not cached,
    // each once.
    let mut missing: Vec<String> = Vec::new();
    let mut i: usize = 0;
    while i < sources.len()
        invariant
            *ctx == *old(ctx),
            orig == old(ctx).shaders.color_filter@,
            store0 == old(ctx).store,
            old(ctx).shaders_initialized,
            0 <= i <= sources.len(),
            missing@.len() <= i,
            forall|k: int|
                0 <= k < missing@.len() ==> spec_cache_lookup(
                    orig,
                    (#[trigger] missing@[k])@,
                ) is None,
            forall|k: int|
                0 <= k < missing@.len() ==> spec_contains_source(
                    sources@,
                    (#[trigger] missing@[k])@,
                ),
            forall|k: int, l: int|
                0 <= k < l < missing@.len() ==> missing@[k]@ != missing@[l]@,
            forall|j: int|
                0 <= j < i ==> spec_cache_lookup(orig, (#[trigger] sources@[j])@) is Some
                    || spec_contains_source(missing@, sources@[j]@),
        decreases sources.len() - i,
    {
        let ghost missing_before = missing@;
        let cached = lookup_entry(&ctx.shaders.color_filter, &sources[i]);
        if cached.is_none() && !contains_source(&missing, &sources[i]) {
            missing.push(sources[i].clone());
        }
        proof {
            assert forall|j: int|
                0 <= j < i + 1 implies spec_cache_lookup(orig, (#[trigger] sources@[j])@) is Some
                || spec_contains_source(missing@, sources@[j]@) by {
                if j < i {
                    if spec_contains_source(missing_before, sources@[j]@) {
                        let k = choose|k: int|
                            0 <= k < missing_before.len() && missing_before[k]@ == sources@[j]@;
                        assert(missing@[k]@ == sources@[j]@);
                    }
                } else {
                    if spec_cache_lookup(orig, sources@[j]@) is None {
                        assert(spec_contains_source(missing@, sources@[j]@)) by {
                            if spec_contains_source(missing_before, sources@[j]@) {
                                let k = choose|k: int|
                                    0 <= k < missing_before.len() && missing_before[k]@
                                        == sources@[j]@;
                                assert(missing@[k]@ == sources@[j]@);
                            } else {
                                assert(missing@.last()@ == sources@[j]@);
                            }
                        }
                    }
                }
            }
        }
        i += 1;
    }

    // Compile only the missing sources.
    let mut compiled: Vec<ColorFilterEntry> = Vec::new();
    let mut t: usize = 0;
    while t < missing.len()
        invariant
            0 <= t <= missing.len(),
            orig == old(ctx).shaders.color_filter@,
            store0 == old(ctx).store,
            old(ctx).shaders_initialized,
            missing@.len() <= sources@.len(),
            compiled@.len() == t,
            ctx.shaders == old(ctx).shaders,
            ctx.shaders_initialized,
            old(ctx).wf(),
            ctx.store.wf(),
            ctx.store.spec_next_id() == store0.spec_next_id() + t,
            ctx.store.spec_destroyed_count() == store0.spec_destroyed_count(),
            store0.spec_next_id() + sources@.len() <= u64::MAX,
            forall|p: ProgramId| store0.spec_is_live(p) ==> ctx.store.spec_is_live(p),
            forall|k: int|
                0 <= k < t ==> (#[trigger] compiled@[k]).source@ == missing@[k]@,
            forall|k: int| 0 <= k < t ==> ctx.store.spec_is_live((#[trigger] compiled@[k]).program),
            forall|k: int| 0 <= k < t ==> !store0.spec_is_live((#[trigger] compiled@[k]).program),
            forall|k: int, l: int|
                0 <= k < l < t ==> (#[trigger] compiled@[k]).program != (
                #[trigger] compiled@[l]).program,
        decreases missing.len() - t,
    {
        let ghost pre = ctx.store;
        let id = ctx.store.compile(missing[t].as_str());
        proof {
            assert forall|k: int| 0 <= k < t implies (#[trigger] compiled@[k]).program != id by {
                pre.lemma_live_bound(compiled@[k].program);
            }
        }
        compiled.push(ColorFilterEntry { source: missing[t].clone(), program: id });
        t += 1;
    }
    let ghost store2 = ctx.store;

    // Commit, first half: assemble the new cache, taking cached entries as
    // they are and missing ones from the freshly compiled batch.
    let mut new_cache: Vec<ColorFilterEntry> = Vec::new();
    let mut i2: usize = 0;
    while i2 < sources.len()
        invariant
            0 <= i2 <= sources.len(),
            orig == old(ctx).shaders.color_filter@,
            store0 == old(ctx).store,
            old(ctx).shaders_initialized,
            ctx.shaders == old(ctx).shaders,
            ctx.shaders_initialized,
            old(ctx).wf(),
            ctx.store == store2,
            ctx.store.wf(),
            compiled@.len() == missing@.len(),
            forall|p: ProgramId| store0.spec_is_live(p) ==> ctx.store.spec_is_live(p),
            forall|k: int|
                0 <= k < compiled@.len() ==> (#[trigger] compiled@[k]).source@ == missing@[k]@,
            forall|k: int|
                0 <= k < compiled@.len() ==> ctx.store.spec_is_live(
                    (#[trigger] compiled@[k]).program,
                ),
            forall|k: int|
                0 <= k < compiled@.len() ==> !store0.spec_is_live((#[trigger] compiled@[k]).program),
            forall|k: int, l: int|
                0 <= k < l < compiled@.len() ==> (#[trigger] compiled@[k]).program != (
                #[trigger] compiled@[l]).program,
            forall|k: int|
                0 <= k < missing@.len() ==> spec_cache_lookup(
                    orig,
                    (#[trigger] missing@[k])@,
                ) is None,
            forall|k: int, l: int|
                0 <= k < l < missing@.len() ==> missing@[k]@ != missing@[l]@,
            forall|j: int|
                0 <= j < sources@.len() ==> spec_cache_lookup(
                    orig,
                    (#[trigger] sources@[j])@,
                ) is Some || spec_contains_source(missing@, sources@[j]@),
            // what the new cache holds so far
            forall|k: int|
                0 <= k < new_cache@.len() ==> spec_contains_source(
                    sources@,
                    (#[trigger] new_cache@[k]).source@,
                ),
            forall|k: int, l: int|
                0 <= k < l < new_cache@.len() ==> (#[trigger] new_cache@[k]).source@ != (
                #[trigger] new_cache@[l]).source@,
            forall|k: int, l: int|
                0 <= k < l < new_cache@.len() ==> (#[trigger] new_cache@[k]).program != (
                #[trigger] new_cache@[l]).program,
            forall|k: int|
                0 <= k < new_cache@.len() ==> ctx.store.spec_is_live(
                    (#[trigger] new_cache@[k]).program,
                ),
            forall|j: int|
                0 <= j < i2 ==> spec_contains_source(new_cache@.map_values(|e: ColorFilterEntry| e.source), (#[trigger] sources@[j])@),
            forall|k: int|
                0 <= k < new_cache@.len() ==> (spec_cache_lookup(
                    orig,
                    (#[trigger] new_cache@[k]).source@,
                ) matches Some(p) ==> new_cache@[k].program == p),
            forall|k: int|
                0 <= k < new_cache@.len() ==> (spec_cache_lookup(
                    orig,
                    (#[trigger] new_cache@[k]).source@,
                ) is None ==> exists|m: int|
                    0 <= m < compiled@.len() && (#[trigger] compiled@[m]).source@
                        == new_cache@[k].source@ && compiled@[m].program == new_cache@[k].program),
        decreases sources.len() - i2,
    {
        let ghost cache_before = new_cache@;
        let already = lookup_entry(&new_cache, &sources[i2]);
        if already.is_none() {
            proof {
                assert(old(ctx).shaders.wf_in(store0));
                lemma_cache_lookup_exists(cache_before, sources@[i2 as int]@);
            }
            match lookup_entry(&ctx.shaders.color_filter, &sources[i2]) {
                Some(j) => {
                    new_cache.push(ctx.shaders.color_filter[j].duplicate());
                    proof {
                        let e_new = new_cache@.last();
                        assert(e_new == orig[j as int]);
                        assert(spec_cache_lookup(orig, e_new.source@) == Some(
                            orig[j as int].program,
                        ));
                        assert forall|k: int|
                            0 <= k < cache_before.len() implies (
                            #[trigger] cache_before[k]).program != e_new.program by {
                            let s_k = cache_before[k].source@;
                            assert(s_k != e_new.source@);
                            if spec_cache_lookup(orig, s_k) is Some {
                                lemma_cache_lookup_exists(orig, s_k);
                                let a = choose|a: int|
                                    0 <= a < orig.len() && orig[a].source@ == s_k && orig[a].program
                                        == spec_cache_lookup(orig, s_k)->0;
                                assert(cache_before[k].program == orig[a].program);
                                assert(a != j);
                                assert(orig[a].program != orig[j as int].program);
                            } else {
                                let mk = choose|mk: int|
                                    0 <= mk < compiled@.len() && compiled@[mk].source@ == s_k
                                        && compiled@[mk].program == cache_before[k].program;
                                assert(!store0.spec_is_live(cache_before[k].program));
                                assert(store0.spec_is_live(orig[j as int].program));
                            }
                        }
                    }
                },
                None => {
                    let found = lookup_entry(&compiled, &sources[i2]);
                    proof {
                        assert(spec_contains_source(missing@, sources@[i2 as int]@));
                        let m = choose|m: int|
                            0 <= m < missing@.len() && missing@[m]@ == sources@[i2 as int]@;
                        assert(compiled@[m].source@ == sources@[i2 as int]@);
                        lemma_cache_lookup_exists(compiled@, sources@[i2 as int]@);
                        assert(found is Some);
                    }
                    let m = match found {
                        Some(m) => m,
                        None => 0,
                    };
                    proof {
                        assert(found == Some(m));
                    }
                    new_cache.push(compiled[m].duplicate());
                    proof {
                        let e_new = new_cache@.last();
                        assert(e_new == compiled@[m as int]);
                        assert(spec_cache_lookup(orig, e_new.source@) is None);
                        assert(!store0.spec_is_live(e_new.program));
                        assert forall|k: int|
                            0 <= k < cache_before.len() implies (
                            #[trigger] cache_before[k]).program != e_new.program by {
                            let s_k = cache_before[k].source@;
                            assert(s_k != e_new.source@);
                            if spec_cache_lookup(orig, s_k) is Some {
                                lemma_cache_lookup_exists(orig, s_k);
                                let a = choose|a: int|
                                    0 <= a < orig.len() && orig[a].source@ == s_k && orig[a].program
                                        == spec_cache_lookup(orig, s_k)->0;
                                assert(cache_before[k].program == orig[a].program);
                                assert(store0.spec_is_live(orig[a].program));
                            } else {
                                let mk = choose|mk: int|
                                    0 <= mk < compiled@.len() && compiled@[mk].source@ == s_k
                                        && compiled@[mk].program == cache_before[k].program;
                                assert(mk != m);
                                assert(compiled@[mk].program != compiled@[m as int].program);
                            }
                        }
                    }
                },
            }
        }
        proof {
            assert forall|j: int|
                0 <= j < i2 + 1 implies spec_contains_source(
                new_cache@.map_values(|e: ColorFilterEntry| e.source),
                (#[trigger] sources@[j])@,
            ) by {
                let mapped_before = cache_before.map_values(|e: ColorFilterEntry| e.source);
                let mapped = new_cache@.map_values(|e: ColorFilterEntry| e.source);
                if j < i2 {
                    let k = choose|k: int|
                        0 <= k < mapped_before.len() && mapped_before[k]@ == sources@[j]@;
                    assert(mapped[k]@ == sources@[j]@);
                } else {
                    if spec_cache_lookup(cache_before, sources@[j]@) is Some {
                        lemma_cache_lookup_exists(cache_before, sources@[j]@);
                        let k = choose|k: int|
                            0 <= k < cache_before.len() && cache_before[k].source@ == sources@[j]@;
                        assert(mapped[k]@ == sources@[j]@);
                    } else {
                        assert(mapped[mapped.len() - 1]@ == sources@[j]@);
                    }
                }
            }
        }
        i2 += 1;
    }

    proof {
        assert forall|k: int|
            0 <= k < new_cache@.len() && spec_cache_lookup(
                orig,
                (#[trigger] new_cache@[k]).source@,
            ) is None implies !store0.spec_is_live(new_cache@[k].program) by {
            let m = choose|m: int|
                0 <= m < compiled@.len() && compiled@[m].source@ == new_cache@[k].source@
                    && compiled@[m].program == new_cache@[k].program;
        }
    }

    // Commit, second half: destroy the programs of entries whose source is
    // no longer requested.
    let mut q: usize = 0;
    let ghost cache_len = ctx.shaders.color_filter@.len();
    while q < ctx.shaders.color_filter.len()
        invariant
            0 <= q <= cache_len,
            orig == old(ctx).shaders.color_filter@,
            store0 == old(ctx).store,
            old(ctx).shaders_initialized,
            ctx.shaders == old(ctx).shaders,
            ctx.shaders_initialized,
            old(ctx).wf(),
            ctx.shaders.color_filter@ == orig,
            cache_len == orig.len(),
            ctx.store.wf(),
            ctx.store.spec_next_id() == store2.spec_next_id(),
            // entries not yet reached, and kept ones, are still live
            forall|k: int|
                q <= k < orig.len() ==> ctx.store.spec_is_live((#[trigger] orig[k]).program),
            forall|k: int|
                0 <= k < orig.len() && spec_contains_source(
                    sources@,
                    (#[trigger] orig[k]).source@,
                ) ==> ctx.store.spec_is_live(orig[k].program),
            // processed evicted entries are destroyed
            forall|k: int|
                0 <= k < q && !spec_contains_source(sources@, (#[trigger] orig[k]).source@)
                    ==> !ctx.store.spec_is_live(orig[k].program),
            // nothing else was touched
            forall|p: ProgramId|
                store2.spec_is_live(p) && !(exists|k: int|
                    0 <= k < q && (#[trigger] orig[k]).program == p && !spec_contains_source(
                        sources@,
                        orig[k].source@,
                    )) ==> ctx.store.spec_is_live(p),
            // the assembled cache and the fixed slots survive
            forall|k: int|
                0 <= k < new_cache@.len() ==> ctx.store.spec_is_live(
                    (#[trigger] new_cache@[k]).program,
                ),
            forall|i: int|
                0 <= i < 16 && (#[trigger] ctx.shaders.spec_slot(i)) is Some
                    ==> ctx.store.spec_is_live(ctx.shaders.spec_slot(i)->0),
            // where each assembled entry comes from
            forall|k: int|
                0 <= k < new_cache@.len() ==> spec_contains_source(
                    sources@,
                    (#[trigger] new_cache@[k]).source@,
                ),
            forall|k: int, l: int|
                0 <= k < l < new_cache@.len() ==> (#[trigger] new_cache@[k]).source@ != (
                #[trigger] new_cache@[l]).source@,
            forall|k: int, l: int|
                0 <= k < l < new_cache@.len() ==> (#[trigger] new_cache@[k]).program != (
                #[trigger] new_cache@[l]).program,
            forall|j: int|
                0 <= j < sources@.len() ==> spec_contains_source(
                    new_cache@.map_values(|e: ColorFilterEntry| e.source),
                    (#[trigger] sources@[j])@,
                ),
            forall|k: int|
                0 <= k < new_cache@.len() ==> (spec_cache_lookup(
                    orig,
                    (#[trigger] new_cache@[k]).source@,
                ) matches Some(p) ==> new_cache@[k].program == p),
            forall|k: int|
                0 <= k < new_cache@.len() ==> (spec_cache_lookup(
                    orig,
                    (#[trigger] new_cache@[k]).source@,
                ) is None ==> !store0.spec_is_live(new_cache@[k].program)),
        decreases cache_len - q,
    {
        let evict = !contains_source(sources, &ctx.shaders.color_filter[q].source);
        if evict {
            let target = ctx.shaders.color_filter[q].program;
            proof {
                assert(old(ctx).shaders.wf_in(store0));
                assert(target == orig[q as int].program);
                assert(store0.spec_is_live(target));
                // the evicted program is none of the ones that must survive
                assert forall|k: int|
                    0 <= k < new_cache@.len() implies (#[trigger] new_cache@[k]).program
                    != target by {
                    if spec_cache_lookup(orig, new_cache@[k].source@) is Some {
                        lemma_cache_lookup_exists(orig, new_cache@[k].source@);
                        let a = choose|a: int|
                            0 <= a < orig.len() && orig[a].source@ == new_cache@[k].source@
                                && orig[a].program == spec_cache_lookup(
                                orig,
                                new_cache@[k].source@,
                            )->0;
                        assert(new_cache@[k].program == orig[a].program);
                        assert(spec_contains_source(sources@, orig[a].source@));
                        assert(a != q);
                        assert(orig[a].program != orig[q as int].program);
                    } else {
                        assert(!store0.spec_is_live(new_cache@[k].program));
                    }
                }
            }
            ctx.store.destroy(target);
        }
        q += 1;
    }

    // Commit, last step: install the assembled cache.
    ctx.shaders.color_filter = new_cache;
    proof {
        assert(old(ctx).shaders.wf_in(store0));
        let fc = ctx.shaders.color_filter@;
        assert forall|s: Seq<char>|
            (spec_cache_lookup(fc, s) is Some) == spec_contains_source(sources@, s) by {
            lemma_cache_lookup_exists(fc, s);
            if spec_cache_lookup(fc, s) is Some {
                let k = choose|k: int| 0 <= k < fc.len() && fc[k].source@ == s;
                assert(spec_contains_source(sources@, fc[k].source@));
            }
            if spec_contains_source(sources@, s) {
                let j = choose|j: int| 0 <= j < sources@.len() && sources@[j]@ == s;
                let mapped = fc.map_values(|e: ColorFilterEntry| e.source);
                assert(spec_contains_source(mapped, s));
                let k = choose|k: int| 0 <= k < mapped.len() && mapped[k]@ == s;
                assert(fc[k].source@ == s);
            }
        }
        assert forall|s: Seq<char>|
            spec_contains_source(sources@, s) && spec_cache_lookup(orig, s) is Some implies
            spec_cache_lookup(fc, s) == spec_cache_lookup(orig, s) by {
            let mapped = fc.map_values(|e: ColorFilterEntry| e.source);
            let j = choose|j: int| 0 <= j < sources@.len() && sources@[j]@ == s;
            assert(spec_contains_source(mapped, s));
            let k = choose|k: int| 0 <= k < mapped.len() && mapped[k]@ == s;
            assert(fc[k].source@ == s);
            lemma_cache_lookup_at(fc, s, k);
        }
        assert forall|s: Seq<char>|
            spec_contains_source(sources@, s) && spec_cache_lookup(orig, s) is None implies
            !store0.spec_is_live(spec_cache_lookup(fc, s)->0) by {
            let mapped = fc.map_values(|e: ColorFilterEntry| e.source);
            let j = choose|j: int| 0 <= j < sources@.len() && sources@[j]@ == s;
            assert(spec_contains_source(mapped, s));
            let k = choose|k: int| 0 <= k < mapped.len() && mapped[k]@ == s;
            assert(fc[k].source@ == s);
            lemma_cache_lookup_at(fc, s, k);
            let m = choose|m: int|
                0 <= m < compiled@.len() && compiled@[m].source@ == fc[k].source@
                    && compiled@[m].program == fc[k].program;
        }
        assert(ctx.wf()) by {
            assert forall|i: int|
                0 <= i < 16 && (#[trigger] ctx.shaders.spec_slot(i)) is Some
                    implies ctx.store.spec_is_live(ctx.shaders.spec_slot(i)->0) by {
                assert(ctx.shaders.spec_slot(i) == old(ctx).shaders.spec_slot(i));
            }
            assert forall|i: int, j: int|
                0 <= i < j < 16 && (#[trigger] ctx.shaders.spec_slot(i)) is Some && (
                #[trigger] ctx.shaders.spec_slot(j)) is Some
                    implies ctx.shaders.spec_slot(i)->0 != ctx.shaders.spec_slot(j)->0 by {
                assert(ctx.shaders.spec_slot(i) == old(ctx).shaders.spec_slot(i));
                assert(ctx.shaders.spec_slot(j) == old(ctx).shaders.spec_slot(j));
            }
            assert forall|i: int, k: int|
                0 <= i < 16 && 0 <= k < fc.len() && (#[trigger] ctx.shaders.spec_slot(i)) is Some
                    implies ctx.shaders.spec_slot(i)->0 != (#[trigger] fc[k]).program by {
                assert(ctx.shaders.spec_slot(i) == old(ctx).shaders.spec_slot(i));
                let sp = ctx.shaders.spec_slot(i)->0;
                assert(store0.spec_is_live(sp));
                if spec_cache_lookup(orig, fc[k].source@) is Some {
                    lemma_cache_lookup_exists(orig, fc[k].source@);
                    let a = choose|a: int|
                        0 <= a < orig.len() && orig[a].source@ == fc[k].source@ && orig[a].program
                            == spec_cache_lookup(orig, fc[k].source@)->0;
                    assert(fc[k].program == orig[a].program);
                    assert(old(ctx).shaders.spec_slot(i)->0 != orig[a].program);
                } else {
                    assert(!store0.spec_is_live(fc[k].program));
                }
            }
        }
    }
}

/// Replaces the custom window-resize override with a program compiled from `src`
/// (wrapped with the resize-kind boilerplate), or clears it for `None`.
/// The superseded program object, and nothing else, is destroyed.
pub fn set_custom_resize_program(ctx: &mut RenderContext, src: Option<&str>)
    requires
        old(ctx).wf(),
        old(ctx).shaders_initialized,
        old(ctx).store.spec_next_id() < u64::MAX,
    ensures
        final(ctx).wf(),
        final(ctx).shaders_initialized,
        src is Some ==> (final(ctx).shaders.custom_window_resize matches Some(p)
            && final(ctx).store.spec_is_live(p) && !old(ctx).store.spec_is_live(p)),
        src is None ==> final(ctx).shaders.custom_window_resize is None,
        final(ctx).shaders.spec_same_except(old(ctx).shaders, 5),
        old(ctx).shaders.custom_window_resize matches Some(prev)
            ==> !final(ctx).store.spec_is_live(prev)
                && final(ctx).store.spec_destroyed_count()
                    == old(ctx).store.spec_destroyed_count() + 1,
        old(ctx).shaders.custom_window_resize is None
            ==> final(ctx).store.spec_destroyed_count() == old(ctx).store.spec_destroyed_count(),
        forall|p: ProgramId|
            old(ctx).store.spec_is_live(p) && old(ctx).shaders.custom_window_resize != Some(p)
                ==> final(ctx).store.spec_is_live(p),
{
    set_custom_program(ctx, CustomSlot::WindowResize, WrapKind::Resize, src);
}

/// Replaces the custom window-close override with a program compiled from `src`
/// (wrapped with the close-kind boilerplate), or clears it for `None`.
/// The superseded program object, and nothing else, is destroyed.
pub fn set_custom_window_close_program(ctx: &mut RenderContext, src: Option<&str>)
    requires
        old(ctx).wf(),
        old(ctx).shaders_initialized,
        old(ctx).store.spec_next_id() < u64::MAX,
    ensures
        final(ctx).wf(),
        final(ctx).shaders_initialized,
        src is Some ==> (final(ctx).shaders.custom_window_close matches Some(p)
            && final(ctx).store.spec_is_live(p) && !old(ctx).store.spec_is_live(p)),
        src is None ==> final(ctx).shaders.custom_window_close is None,
        final(ctx).shaders.spec_same_except(old(ctx).shaders, 6),
        old(ctx).shaders.custom_window_close matches Some(prev)
            ==> !final(ctx).store.spec_is_live(prev)
                && final(ctx).store.spec_destroyed_count()
                    == old(ctx).store.spec_destroyed_count() + 1,
        old(ctx).shaders.custom_window_close is None
            ==> final(ctx).store.spec_destroyed_count() == old(ctx).store.spec_destroyed_count(),
        forall|p: ProgramId|
            old(ctx).store.spec_is_live(p) && old(ctx).shaders.custom_window_close != Some(p)
                ==> final(ctx).store.spec_is_live(p),
{
    set_custom_program(ctx, CustomSlot::WindowClose, WrapKind::Close, src);
}

/// Replaces the custom window-open override with a program compiled from `src`
/// (wrapped with the open-kind boilerplate), or clears it for `None`.
/// The superseded program object, and nothing else, is destroyed.
pub fn set_custom_window_open_program(ctx: &mut RenderContext, src: Option<&str>)
    requires
        old(ctx).wf(),
        old(ctx).shaders_initialized,
        old(ctx).store.spec_next_id() < u64::MAX,
    ensures
        final(ctx).wf(),
        final(ctx).shaders_initialized,
        src is Some ==> (final(ctx).shaders.custom_window_open matches Some(p)
            && final(ctx).store.spec_is_live(p) && !old(ctx).store.spec_is_live(p)),
        src is None ==> final(ctx).shaders.custom_window_open is None,
        final(ctx).shaders.spec_same_except(old(ctx).shaders, 7),
        old(ctx).shaders.custom_window_open matches Some(prev)
            ==> !final(ctx).store.spec_is_live(prev)
                && final(ctx).store.spec_destroyed_count()
                    == old(ctx).store.spec_destroyed_count() + 1,
        old(ctx).shaders.custom_window_open is None
            ==> final(ctx).store.spec_destroyed_count() == old(ctx).store.spec_destroyed_count(),
        forall|p: ProgramId|
            old(ctx).store.spec_is_live(p) && old(ctx).shaders.custom_window_open != Some(p)
                ==> final(ctx).store.spec_is_live(p),
{
    set_custom_program(ctx, CustomSlot::WindowOpen, WrapKind::Open, src);
}

/// Replaces the custom generic layer-open override with a program compiled from `src`
/// (wrapped with the open-kind boilerplate), or clears it for `None`.
/// The superseded program object, and nothing else, is destroyed.
pub fn set_custom_layer_open_program(ctx: &mut RenderContext, src: Option<&str>)
    requires
        old(ctx).wf(),
        old(ctx).shaders_initialized,
        old(ctx).store.spec_next_id() < u64::MAX,
    ensures
        final(ctx).wf(),
        final(ctx).shaders_initialized,
        src is Some ==> (final(ctx).shaders.custom_layer_open matches Some(p)
            && final(ctx).store.spec_is_live(p) && !old(ctx).store.spec_is_live(p)),
        src is None ==> final(ctx).shaders.custom_layer_open is None,
        final(ctx).shaders.spec_same_except(old(ctx).shaders, 9),
        old(ctx).shaders.custom_layer_open matches Some(prev)
            ==> !final(ctx).store.spec_is_live(prev)
                && final(ctx).store.spec_destroyed_count()
                    == old(ctx).store.spec_destroyed_count() + 1,
        old(ctx).shaders.custom_layer_open is None
            ==> final(ctx).store.spec_destroyed_count() == old(ctx).store.spec_destroyed_count(),
        forall|p: ProgramId|
            old(ctx).store.spec_is_live(p) && old(ctx).shaders.custom_layer_open != Some(p)
                ==> final(ctx).store.spec_is_live(p),
{
    set_custom_program(ctx, CustomSlot::LayerOpen, WrapKind::Open, src);
}

/// Replaces the custom generic layer-close override with a program compiled from `src`
/// (wrapped with the close-kind boilerplate), or clears it for `None`.
/// The superseded program object, and nothing else, is destroyed.
pub fn set_custom_layer_close_program(ctx: &mut RenderContext, src: Option<&str>)
    requires
        old(ctx).wf(),
        old(ctx).shaders_initialized,
        old(ctx).store.spec_next_id() < u64::MAX,
    ensures
        final(ctx).wf(),
        final(ctx).shaders_initialized,
        src is Some ==> (final(ctx).shaders.custom_layer_close matches Some(p)
            && final(ctx).store.spec_is_live(p) && !old(ctx).store.spec_is_live(p)),
        src is None ==> final(ctx).shaders.custom_layer_close is None,
        final(ctx).shaders.spec_same_except(old(ctx).shaders, 8),
        old(ctx).shaders.custom_layer_close matches Some(prev)
            ==> !final(ctx).store.spec_is_live(prev)
                && final(ctx).store.spec_destroyed_count()
                    == old(ctx).store.spec_destroyed_count() + 1,
        old(ctx).shaders.custom_layer_close is None
            ==> final(ctx).store.spec_destroyed_count() == old(ctx).store.spec_destroyed_count(),
        forall|p: ProgramId|
            old(ctx).store.spec_is_live(p) && old(ctx).shaders.custom_layer_close != Some(p)
                ==> final(ctx).store.spec_is_live(p),
{
    set_custom_program(ctx, CustomSlot::LayerClose, WrapKind::Close, src);
}

/// Replaces the custom bar-open override with a program compiled from `src`
/// (wrapped with the open-kind boilerplate), or clears it for `None`.
/// The superseded program object, and nothing else, is destroyed.
pub fn set_custom_layer_bar_open_program(ctx: &mut RenderContext, src: Option<&str>)
    requires
        old(ctx).wf(),
        old(ctx).shaders_initialized,
        old(ctx).store.spec_next_id() < u64::MAX,
    ensures
        final(ctx).wf(),
        final(ctx).shaders_initialized,
        src is Some ==> (final(ctx).shaders.custom_layer_bar_open matches Some(p)
            && final(ctx).store.spec_is_live(p) && !old(ctx).store.spec_is_live(p)),
        src is None ==> final(ctx).shaders.custom_layer_bar_open is None,
        final(ctx).shaders.spec_same_except(old(ctx).shaders, 11),
        old(ctx).shaders.custom_layer_bar_open matches Some(prev)
            ==> !final(ctx).store.spec_is_live(prev)
                && final(ctx).store.spec_destroyed_count()
                    == old(ctx).store.spec_destroyed_count() + 1,
        old(ctx).shaders.custom_layer_bar_open is None
            ==> final(ctx).store.spec_destroyed_count() == old(ctx).store.spec_destroyed_count(),
        forall|p: ProgramId|
            old(ctx).store.spec_is_live(p) && old(ctx).shaders.custom_layer_bar_open != Some(p)
                ==> final(ctx).store.spec_is_live(p),
{
    set_custom_program(ctx, CustomSlot::LayerBarOpen, WrapKind::Open, src);
}

/// Replaces the custom bar-close override with a program compiled from `src`
/// (wrapped with the close-kind boilerplate), or clears it for `None`.
/// The superseded program object, and nothing else, is destroyed.
pub fn set_custom_layer_bar_close_program(ctx: &mut RenderContext, src: Option<&str>)
    requires
        old(ctx).wf(),
        old(ctx).shaders_initialized,
        old(ctx).store.spec_next_id() < u64::MAX,
    ensures
        final(ctx).wf(),
        final(ctx).shaders_initialized,
        src is Some ==> (final(ctx).shaders.custom_layer_bar_close matches Some(p)
            && final(ctx).store.spec_is_live(p) && !old(ctx).store.spec_is_live(p)),
        src is None ==> final(ctx).shaders.custom_layer_bar_close is None,
        final(ctx).shaders.spec_same_except(old(ctx).shaders, 10),
        old(ctx).shaders.custom_layer_bar_close matches Some(prev)
            ==> !final(ctx).store.spec_is_live(prev)
                && final(ctx).store.spec_destroyed_count()
                    == old(ctx).store.spec_destroyed_count() + 1,
        old(ctx).shaders.custom_layer_bar_close is None
            ==> final(ctx).store.spec_destroyed_count() == old(ctx).store.spec_destroyed_count(),
        forall|p: ProgramId|
            old(ctx).store.spec_is_live(p) && old(ctx).shaders.custom_layer_bar_close != Some(p)
                ==> final(ctx).store.spec_is_live(p),
{
    set_custom_program(ctx, CustomSlot::LayerBarClose, WrapKind::Close, src);
}

/// Replaces the custom wallpaper-open override with a program compiled from `src`
/// (wrapped with the open-kind boilerplate), or clears it for `None`.
/// The superseded program object, and nothing else, is destroyed.
pub fn set_custom_layer_wallpaper_open_program(ctx: &mut RenderContext, src: Option<&str>)
    requires
        old(ctx).wf(),
        old(ctx).shaders_initialized,
        old(ctx).store.spec_next_id() < u64::MAX,
    ensures
        final(ctx).wf(),
        final(ctx).shaders_initialized,
        src is Some ==> (final(ctx).shaders.custom_layer_wallpaper_open matches Some(p)
            && final(ctx).store.spec_is_live(p) && !old(ctx).store.spec_is_live(p)),
        src is None ==> final(ctx).shaders.custom_layer_wallpaper_open is None,
        final(ctx).shaders.spec_same_except(old(ctx).shaders, 13),
        old(ctx).shaders.custom_layer_wallpaper_open matches Some(prev)
            ==> !final(ctx).store.spec_is_live(prev)
                && final(ctx).store.spec_destroyed_count()
                    == old(ctx).store.spec_destroyed_count() + 1,
        old(ctx).shaders.custom_layer_wallpaper_open is None
            ==> final(ctx).store.spec_destroyed_count() == old(ctx).store.spec_destroyed_count(),
        forall|p: ProgramId|
            old(ctx).store.spec_is_live(p) && old(ctx).shaders.custom_layer_wallpaper_open != Some(p)
                ==> final(ctx).store.spec_is_live(p),
{
    set_custom_program(ctx, CustomSlot::LayerWallpaperOpen, WrapKind::Open, src);
}

/// Replaces the custom wallpaper-close override with a program compiled from `src`
/// (wrapped with the close-kind boilerplate), or clears it for `None`.
/// The superseded program object, and nothing else, is destroyed.
pub fn set_custom_layer_wallpaper_close_program(ctx: &mut RenderContext, src: Option<&str>)
    requires
        old(ctx).wf(),
        old(ctx).shaders_initialized,
        old(ctx).store.spec_next_id() < u64::MAX,
    ensures
        final(ctx).wf(),
        final(ctx).shaders_initialized,
        src is Some ==> (final(ctx).shaders.custom_layer_wallpaper_close matches Some(p)
            && final(ctx).store.spec_is_live(p) && !old(ctx).store.spec_is_live(p)),
        src is None ==> final(ctx).shaders.custom_layer_wallpaper_close is None,
        final(ctx).shaders.spec_same_except(old(ctx).shaders, 12),
        old(ctx).shaders.custom_layer_wallpaper_close matches Some(prev)
            ==> !final(ctx).store.spec_is_live(prev)
                && final(ctx).store.spec_destroyed_count()
                    == old(ctx).store.spec_destroyed_count() + 1,
        old(ctx).shaders.custom_layer_wallpaper_close is None
            ==> final(ctx).store.spec_destroyed_count() == old(ctx).store.spec_destroyed_count(),
        forall|p: ProgramId|
            old(ctx).store.spec_is_live(p) && old(ctx).shaders.custom_layer_wallpaper_close != Some(p)
                ==> final(ctx).store.spec_is_live(p),
{
    set_custom_program(ctx, CustomSlot::LayerWallpaperClose, WrapKind::Close, src);
}

/// Replaces the custom launcher-open override with a program compiled from `src`
/// (wrapped with the open-kind boilerplate), or clears it for `None`.
/// The superseded program object, and nothing else, is destroyed.
pub fn set_custom_layer_launcher_open_program(ctx: &mut RenderContext, src: Option<&str>)
    requires
        old(ctx).wf(),
        old(ctx).shaders_initialized,
        old(ctx).store.spec_next_id() < u64::MAX,
    ensures
        final(ctx).wf(),
        final(ctx).shaders_initialized,
        src is Some ==> (final(ctx).shaders.custom_layer_launcher_open matches Some(p)
            && final(ctx).store.spec_is_live(p) && !old(ctx).store.spec_is_live(p)),
        src is None ==> final(ctx).shaders.custom_layer_launcher_open is None,
        final(ctx).shaders.spec_same_except(old(ctx).shaders, 15),
        old(ctx).shaders.custom_layer_launcher_open matches Some(prev)
            ==> !final(ctx).store.spec_is_live(prev)
                && final(ctx).store.spec_destroyed_count()
                    == old(ctx).store.spec_destroyed_count() + 1,
        old(ctx).shaders.custom_layer_launcher_open is None
            ==> final(ctx).store.spec_destroyed_count() == old(ctx).store.spec_destroyed_count(),
        forall|p: ProgramId|
            old(ctx).store.spec_is_live(p) && old(ctx).shaders.custom_layer_launcher_open != Some(p)
                ==> final(ctx).store.spec_is_live(p),
{
    set_custom_program(ctx, CustomSlot::LayerLauncherOpen, WrapKind::Open, src);
}

/// Replaces the custom launcher-close override with a program compiled from `src`
/// (wrapped with the close-kind boilerplate), or clears it for `None`.
/// The superseded program object, and nothing else, is destroyed.
pub fn set_custom_layer_launcher_close_program(ctx: &mut RenderContext, src: Option<&str>)
    requires
        old(ctx).wf(),
        old(ctx).shaders_initialized,
        old(ctx).store.spec_next_id() < u64::MAX,
    ensures
        final(ctx).wf(),
        final(ctx).shaders_initialized,
        src is Some ==> (final(ctx).shaders.custom_layer_launcher_close matches Some(p)
            && final(ctx).store.spec_is_live(p) && !old(ctx).store.spec_is_live(p)),
        src is None ==> final(ctx).shaders.custom_layer_launcher_close is None,
        final(ctx).shaders.spec_same_except(old(ctx).shaders, 14),
        old(ctx).shaders.custom_layer_launcher_close matches Some(prev)
            ==> !final(ctx).store.spec_is_live(prev)
                && final(ctx).store.spec_destroyed_count()
                    == old(ctx).store.spec_destroyed_count() + 1,
        old(ctx).shaders.custom_layer_launcher_close is None
            ==> final(ctx).store.spec_destroyed_count() == old(ctx).store.spec_destroyed_count(),
        forall|p: ProgramId|
            old(ctx).store.spec_is_live(p) && old(ctx).shaders.custom_layer_launcher_close != Some(p)
                ==> final(ctx).store.spec_is_live(p),
{
    set_custom_program(ctx, CustomSlot::LayerLauncherClose, WrapKind::Close, src);
}

} // verus!
